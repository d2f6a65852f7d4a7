use vstd::prelude::*;

verus! {

/// An owned, boxed byte string.
#[derive(Debug)]
pub struct HeapByteString(Box<[u8]>);

impl View for HeapByteString {
    type V = Seq<u8>;

    closed spec fn view(&self) -> Seq<u8> {
        self.0@
    }
}

impl HeapByteString {
    pub fn from(b: Box<[u8]>) -> (r: Self)
        ensures
            r@ == b@,
    {
        Self(b)
    }
}

} // verus!
