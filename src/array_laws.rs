//! Laws of the dynamic array, stated over the models that the contracts of
//! `ZenVec::push`, `ZenVec::pop`, `ZenVec::insert` and `ZenVec::remove` use.

use crate::zen_vec::popped;
use vstd::prelude::*;

verus! {

/// One call in a run of pushes and pops.
pub enum StackOp<T> {
    Push(T),
    Pop,
}

/// The elements after applying `ops` to `s` in order, every push succeeding.
pub open spec fn replay<T>(s: Seq<T>, ops: Seq<StackOp<T>>) -> Seq<T>
    decreases ops.len(),
{
    if ops.len() == 0 {
        s
    } else {
        match ops[0] {
            StackOp::Push(x) => replay(s.push(x), ops.drop_first()),
            StackOp::Pop => replay(popped(s).0, ops.drop_first()),
        }
    }
}

/// The values that the pops of `ops` return, in order (a pop on an empty
/// array returns nothing).
pub open spec fn replay_popped<T>(s: Seq<T>, ops: Seq<StackOp<T>>) -> Seq<T>
    decreases ops.len(),
{
    if ops.len() == 0 {
        Seq::empty()
    } else {
        match ops[0] {
            StackOp::Push(x) => replay_popped(s.push(x), ops.drop_first()),
            StackOp::Pop => if s.len() == 0 {
                replay_popped(s, ops.drop_first())
            } else {
                seq![s.last()] + replay_popped(s.drop_last(), ops.drop_first())
            },
        }
    }
}

/// No pop of `ops` meets an empty array.
pub open spec fn pops_covered<T>(s: Seq<T>, ops: Seq<StackOp<T>>) -> bool
    decreases ops.len(),
{
    if ops.len() == 0 {
        true
    } else {
        match ops[0] {
            StackOp::Push(x) => pops_covered(s.push(x), ops.drop_first()),
            StackOp::Pop => s.len() > 0 && pops_covered(s.drop_last(), ops.drop_first()),
        }
    }
}

pub open spec fn count_pushes<T>(ops: Seq<StackOp<T>>) -> nat
    decreases ops.len(),
{
    if ops.len() == 0 {
        0
    } else {
        (if ops[0] is Push {
            1nat
        } else {
            0nat
        }) + count_pushes(ops.drop_first())
    }
}

pub open spec fn count_pops<T>(ops: Seq<StackOp<T>>) -> nat
    decreases ops.len(),
{
    if ops.len() == 0 {
        0
    } else {
        (if ops[0] is Pop {
            1nat
        } else {
            0nat
        }) + count_pops(ops.drop_first())
    }
}

/// A push of each of `xs`, in order.
pub open spec fn pushes<T>(xs: Seq<T>) -> Seq<StackOp<T>> {
    xs.map_values(|x: T| StackOp::Push(x))
}

/// `n` pops.
pub open spec fn pops<T>(n: nat) -> Seq<StackOp<T>> {
    Seq::new(n, |i: int| StackOp::Pop)
}

pub open spec fn reversed<T>(xs: Seq<T>) -> Seq<T> {
    Seq::new(xs.len(), |i: int| xs[xs.len() - 1 - i])
}

/// After a run of pushes and pops in which no pop finds the array empty, the
/// length is the starting length plus the pushes minus the pops.
pub proof fn lemma_replay_len<T>(s: Seq<T>, ops: Seq<StackOp<T>>)
    requires
        pops_covered(s, ops),
    ensures
        replay(s, ops).len() == s.len() + count_pushes(ops) - count_pops(ops),
    decreases ops.len(),
{
    if ops.len() > 0 {
        match ops[0] {
            StackOp::Push(x) => lemma_replay_len(s.push(x), ops.drop_first()),
            StackOp::Pop => lemma_replay_len(s.drop_last(), ops.drop_first()),
        }
    }
}

/// Running `a` then `b` is running `a + b`.
pub proof fn lemma_replay_concat<T>(s: Seq<T>, a: Seq<StackOp<T>>, b: Seq<StackOp<T>>)
    ensures
        replay(s, a + b) == replay(replay(s, a), b),
        replay_popped(s, a + b) == replay_popped(s, a) + replay_popped(replay(s, a), b),
    decreases a.len(),
{
    if a.len() == 0 {
        assert(a + b =~= b);
        assert(replay_popped(s, a) + replay_popped(s, b) =~= replay_popped(s, b));
    } else {
        assert((a + b).drop_first() =~= a.drop_first() + b);
        assert((a + b)[0] == a[0]);
        match a[0] {
            StackOp::Push(x) => {
                lemma_replay_concat(s.push(x), a.drop_first(), b);
            },
            StackOp::Pop => {
                lemma_replay_concat(popped(s).0, a.drop_first(), b);
                if s.len() > 0 {
                    let rest = replay_popped(s.drop_last(), a.drop_first());
                    let tail = replay_popped(replay(s, a), b);
                    assert(seq![s.last()] + (rest + tail) =~= (seq![s.last()] + rest) + tail);
                }
            },
        }
    }
}

/// Pushing each of `xs` appends them, whatever the capacity: the elements
/// already there stay, in order.
pub proof fn lemma_push_each<T>(s: Seq<T>, xs: Seq<T>)
    ensures
        replay(s, pushes(xs)) == s + xs,
        replay_popped(s, pushes(xs)) == Seq::<T>::empty(),
    decreases xs.len(),
{
    if xs.len() == 0 {
        assert(s + xs =~= s);
    } else {
        assert(pushes(xs).drop_first() =~= pushes(xs.drop_first()));
        lemma_push_each(s.push(xs[0]), xs.drop_first());
        assert(s.push(xs[0]) + xs.drop_first() =~= s + xs);
    }
}

/// Popping `xs.len()` times after `xs` was pushed onto `s` returns `xs` last
/// first and leaves `s`.
pub proof fn lemma_pop_each<T>(s: Seq<T>, xs: Seq<T>)
    ensures
        replay(s + xs, pops(xs.len())) == s,
        replay_popped(s + xs, pops(xs.len())) == reversed(xs),
    decreases xs.len(),
{
    if xs.len() == 0 {
        assert(s + xs =~= s);
        assert(reversed(xs) =~= Seq::<T>::empty());
    } else {
        let ys = xs.drop_last();
        assert(pops::<T>(xs.len()).drop_first() =~= pops::<T>(ys.len()));
        assert((s + xs).drop_last() =~= s + ys);
        assert((s + xs).last() == xs.last());
        lemma_pop_each(s, ys);
        assert(seq![xs.last()] + reversed(ys) =~= reversed(xs));
    }
}

/// Pops return values last in, first out: pushing `xs` and then popping as
/// many times gives `xs` back in reverse order and restores the array.
pub proof fn lemma_lifo<T>(s: Seq<T>, xs: Seq<T>)
    ensures
        replay(s, pushes(xs) + pops(xs.len())) == s,
        replay_popped(s, pushes(xs) + pops(xs.len())) == reversed(xs),
{
    lemma_replay_concat(s, pushes(xs), pops(xs.len()));
    lemma_push_each(s, xs);
    lemma_pop_each(s, xs);
    assert(Seq::<T>::empty() + reversed(xs) =~= reversed(xs));
}

/// Inserting `x` at any `i` in `0..=s.len()` and removing at `i` straight
/// after gives `x` back and restores `s`.
pub proof fn lemma_insert_remove<T>(s: Seq<T>, i: int, x: T)
    requires
        0 <= i <= s.len(),
    ensures
        s.insert(i, x)[i] == x,
        s.insert(i, x).remove(i) == s,
{
    assert(s.insert(i, x).remove(i) =~= s);
}

} // verus!
