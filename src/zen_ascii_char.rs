//! A character known to be ASCII, stored as its code.

use vstd::prelude::*;

verus! {

/// `c` is one of the 128 ASCII characters.
pub open spec fn is_ascii_char(c: char) -> bool {
    '\0' <= c <= '\u{7f}'
}

#[derive(Clone, Copy, Debug, PartialEq, Eq, Structural)]
pub struct ZenAsciiChar(u8);

impl ZenAsciiChar {
    /// The ASCII code.
    pub closed spec fn code(self) -> u8 {
        self.0
    }

    /// Wraps an ASCII code; used where the code is already known to be one.
    pub(crate) fn from_code(b: u8) -> (r: Self)
        ensures
            r.code() == b,
    {
        ZenAsciiChar(b)
    }

    /// `c` as an ASCII character, or `None` when it is not one.
    pub fn new(c: char) -> (r: Option<Self>)
        ensures
            r is Some <==> is_ascii_char(c),
            r matches Some(a) ==> a.code() == c as u8,
    {
        if (c as u32) < 128 {
            Some(ZenAsciiChar(c as u8))
        } else {
            None
        }
    }

    pub fn as_char(self) -> (r: char)
        ensures
            r == self.code() as char,
    {
        self.0 as char
    }

    pub fn as_u8(self) -> (r: u8)
        ensures
            r == self.code(),
    {
        self.0
    }
}

} // verus!
