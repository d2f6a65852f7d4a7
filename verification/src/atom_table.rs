use vstd::prelude::*;
use crate::byte_string::ByteString;
use crate::handle_table::{GenericHandle, GenericHandleTable};

verus! {

/// The number of a registered class name.
#[derive(Debug, Clone, Copy, Eq, Hash, PartialEq, Structural)]
pub struct Atom(pub u16);

/// Class names by atom.
pub type AtomTable<'a> = GenericHandleTable<Atom, ByteString<'a>>;

impl GenericHandle for Atom {
    open spec fn id(self) -> u16 {
        self.0
    }

    fn as_u16(self) -> (r: u16) {
        self.0
    }

    fn from_u16(value: u16) -> (r: Self) {
        Self(value)
    }
}

} // verus!
