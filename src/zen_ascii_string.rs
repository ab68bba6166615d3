//! An ASCII string: a dynamic array of ASCII characters.

use crate::alloc_trait::AllocError;
use crate::raw_vec::array_fits;
use crate::zen_ascii_char::ZenAsciiChar;
use crate::zen_vec::ZenVec;
use vstd::prelude::*;
use vstd::string::is_ascii_spec_bytes;
use vstd::utf8::is_ascii_chars;

verus! {

#[derive(Clone, Copy, Debug, PartialEq, Eq, Structural)]
pub enum ZenAsciiStringError {
    InvalidStr,
    AllocationError(AllocError),
}

pub struct ZenAsciiString {
    vec: ZenVec<ZenAsciiChar>,
}

/// The codes of a sequence of ASCII characters.
pub open spec fn codes(s: Seq<ZenAsciiChar>) -> Seq<u8> {
    s.map_values(|a: ZenAsciiChar| a.code())
}

impl View for ZenAsciiString {
    type V = Seq<u8>;

    /// The ASCII codes, in order.
    closed spec fn view(&self) -> Seq<u8> {
        codes(self.vec@)
    }
}

impl ZenAsciiString {
    pub closed spec fn wf(&self) -> bool {
        self.vec.wf()
    }

    pub closed spec fn spec_capacity(&self) -> nat {
        self.vec.spec_capacity()
    }

    pub fn new() -> (r: Self)
        ensures
            r.wf(),
            r@ == Seq::<u8>::empty(),
            r.spec_capacity() == 0,
    {
        let r = ZenAsciiString { vec: ZenVec::new() };
        assert(r@ =~= Seq::<u8>::empty());
        r
    }

    /// An empty string with room for `capacity` characters.
    pub fn with_capacity(capacity: usize) -> (r: Result<Self, ZenAsciiStringError>)
        ensures
            r matches Ok(t) ==> t.wf() && t@ == Seq::<u8>::empty() && t.spec_capacity()
                == capacity,
            r is Err ==> r == Err::<Self, ZenAsciiStringError>(
                ZenAsciiStringError::AllocationError(AllocError),
            ),
            capacity == 0 ==> r is Ok,
            !array_fits::<ZenAsciiChar>(capacity as nat) ==> r is Err,
    {
        match ZenVec::with_capacity(capacity) {
            Ok(vec) => {
                let r = ZenAsciiString { vec };
                assert(r@ =~= Seq::<u8>::empty());
                Ok(r)
            },
            Err(e) => Err(ZenAsciiStringError::AllocationError(e)),
        }
    }

    /// The string holding the characters of `s`, which must all be ASCII.
    pub fn from_str(s: &str) -> (r: Result<Self, ZenAsciiStringError>)
        ensures
            (r == Err::<Self, ZenAsciiStringError>(ZenAsciiStringError::InvalidStr)) <==> !is_ascii_chars(s@),
            r matches Ok(t) ==> t.wf() && t@ == s@.map_values(|c: char| c as u8)
                && t.spec_capacity() == s@.len(),
            r is Err && is_ascii_chars(s@) ==> r == Err::<Self, ZenAsciiStringError>(
                ZenAsciiStringError::AllocationError(AllocError),
            ),
    {
        if !s.is_ascii() {
            return Err(ZenAsciiStringError::InvalidStr);
        }
        proof {
            is_ascii_spec_bytes(s);
        }
        let bytes = s.as_bytes();
        let mut obj = match Self::with_capacity(bytes.len()) {
            Ok(o) => o,
            Err(e) => {
                return Err(e);
            },
        };
        let ghost target = s@.map_values(|c: char| c as u8);
        assert(bytes@ =~= target);
        let mut i: usize = 0;
        while i < bytes.len()
            invariant
                i <= bytes@.len(),
                bytes@ == target,
                obj.wf(),
                obj.spec_capacity() == bytes@.len(),
                obj.vec@.len() == i,
                obj@ == target.take(i as int),
            decreases bytes@.len() - i,
        {
            let a = ZenAsciiChar::from_code(bytes[i]);
            match obj.vec.push(a) {
                Ok(()) => {},
                Err(_) => {},
            }
            i = i + 1;
            assert(obj@ =~= target.take(i as int));
        }
        assert(target.take(i as int) =~= target);
        Ok(obj)
    }

    pub fn capacity(&self) -> (r: usize)
        requires
            self.wf(),
        ensures
            r == self.spec_capacity(),
    {
        self.vec.capacity()
    }

    /// Removes and returns the last character, or `None` when empty.
    pub fn pop(&mut self) -> (r: Option<ZenAsciiChar>)
        requires
            old(self).wf(),
        ensures
            final(self).wf(),
            old(self)@.len() == 0 ==> r is None && final(self)@ == old(self)@,
            old(self)@.len() > 0 ==> (r matches Some(a) && a.code() == old(self)@.last())
                && final(self)@ == old(self)@.drop_last(),
    {
        let r = self.vec.pop();
        proof {
            if old(self).vec@.len() > 0 {
                assert(codes(old(self).vec@.drop_last()) =~= old(self)@.drop_last());
            }
        }
        r
    }

    /// Appends `c`. Where the buffer is full and cannot grow, the string is
    /// left as it was.
    pub fn push(&mut self, c: ZenAsciiChar)
        requires
            old(self).wf(),
        ensures
            final(self).wf(),
            final(self)@ == old(self)@.push(c.code()) || (final(self)@ == old(self)@
                && old(self)@.len() == old(self).spec_capacity()),
            old(self)@.len() < old(self).spec_capacity() ==> final(self)@ == old(self)@.push(
                c.code(),
            ),
    {
        match self.vec.push(c) {
            Ok(()) => {
                assert(codes(old(self).vec@.push(c)) =~= old(self)@.push(c.code()));
            },
            Err(_) => {},
        }
    }

    pub fn len(&self) -> (r: usize)
        requires
            self.wf(),
        ensures
            r == self@.len(),
    {
        self.vec.len()
    }

    pub fn is_empty(&self) -> (r: bool)
        requires
            self.wf(),
        ensures
            r == (self@.len() == 0),
    {
        self.vec.is_empty()
    }
}

} // verus!
