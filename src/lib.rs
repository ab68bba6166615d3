//! Memory-ownership primitives with machine-checked contracts: layouts, a byte
//! allocator, a growable raw buffer, a dynamic array and a family of owning
//! pointers.

pub mod alloc_trait;
pub mod array_laws;
pub mod layout;
pub mod raw_vec;
pub mod system;
pub mod zen_arc;
pub mod zen_ascii_char;
pub mod zen_ascii_string;
pub mod zen_box;
pub mod zen_cow;
pub mod zen_rc;
pub mod zen_vec;

pub use alloc_trait::{AllocError, Allocator, Block};
pub use layout::{Layout, LayoutError};
pub use raw_vec::{RawVec, RawVecIter};
pub use system::System;
pub use zen_arc::ZenArc;
pub use zen_ascii_char::ZenAsciiChar;
pub use zen_ascii_string::{ZenAsciiString, ZenAsciiStringError};
pub use zen_box::{Box, ZenBox};
pub use zen_cow::ZenCow;
pub use zen_rc::ZenRc;
pub use zen_vec::{VecError, ZenVec, ZenVecIter, ZenVecIterMut};
