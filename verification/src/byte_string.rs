use vstd::prelude::*;

verus! {

/// `b` with an ASCII upper-case letter turned into lower case.
pub open spec fn ascii_lower(b: u8) -> u8 {
    if 65 <= b <= 90 {
        (b + 32) as u8
    } else {
        b
    }
}

/// Every byte of `s` passed through `ascii_lower`.
pub open spec fn lowercased(s: Seq<u8>) -> Seq<u8> {
    Seq::new(s.len(), |i: int| ascii_lower(s[i]))
}

/// An owned byte string.
#[derive(Debug, Clone)]
pub struct HeapByteString {
    data: Vec<u8>,
}

/// A borrowed byte string.
#[derive(Debug, Clone)]
pub struct StaticByteString<'a> {
    data: &'a [u8],
}

/// A byte string that is either owned or borrowed.
#[derive(Debug, Clone)]
pub enum ByteString<'a> {
    Heaped(HeapByteString),
    Static(StaticByteString<'a>),
}

impl View for HeapByteString {
    type V = Seq<u8>;

    closed spec fn view(&self) -> Seq<u8> {
        self.data@
    }
}

impl<'a> View for StaticByteString<'a> {
    type V = Seq<u8>;

    closed spec fn view(&self) -> Seq<u8> {
        self.data@
    }
}

impl<'a> View for ByteString<'a> {
    type V = Seq<u8>;

    open spec fn view(&self) -> Seq<u8> {
        match self {
            ByteString::Heaped(h) => h@,
            ByteString::Static(s) => s@,
        }
    }
}

/// Whether two byte sequences are equal.
pub fn bytes_equal(a: &[u8], b: &[u8]) -> (r: bool)
    ensures
        r == (a@ == b@),
{
    if a.len() != b.len() {
        return false;
    }
    let mut i: usize = 0;
    while i < a.len()
        invariant
            a@.len() == b@.len(),
            0 <= i <= a@.len(),
            forall|j: int| 0 <= j < i ==> a@[j] == b@[j],
        decreases a@.len() - i,
    {
        if a[i] != b[i] {
            return false;
        }
        i = i + 1;
    }
    assert(a@ =~= b@);
    true
}

impl HeapByteString {
    pub fn from(data: Vec<u8>) -> (r: Self)
        ensures
            r@ == data@,
    {
        Self { data }
    }

    /// A copy of `data` with ASCII upper-case letters turned into lower case.
    pub fn from_to_lowercase(data: &[u8]) -> (r: Self)
        ensures
            r@ == lowercased(data@),
    {
        let mut out: Vec<u8> = Vec::new();
        let mut i: usize = 0;
        while i < data.len()
            invariant
                0 <= i <= data@.len(),
                out@ == lowercased(data@.subrange(0, i as int)),
            decreases data@.len() - i,
        {
            let entry = data[i];
            let converted = if entry >= 65 && entry <= 90 {
                assert(65 <= entry <= 90 ==> entry | 32 == entry + 32) by (bit_vector);
                entry | 32
            } else {
                entry
            };
            out.push(converted);
            i = i + 1;
            assert(out@ =~= lowercased(data@.subrange(0, i as int)));
        }
        assert(data@.subrange(0, data@.len() as int) =~= data@);
        Self { data: out }
    }

    pub fn as_slice(&self) -> (r: &[u8])
        ensures
            r@ == self@,
    {
        self.data.as_slice()
    }

    /// A second string with the same bytes.
    pub fn duplicate(&self) -> (r: Self)
        ensures
            r@ == self@,
    {
        Self { data: vstd::slice::slice_to_vec(self.data.as_slice()) }
    }
}

impl<'a> StaticByteString<'a> {
    pub fn from(data: &'a [u8]) -> (r: Self)
        ensures
            r@ == data@,
    {
        Self { data }
    }

    pub fn as_slice(&self) -> (r: &[u8])
        ensures
            r@ == self@,
    {
        self.data
    }
}

impl<'a> ByteString<'a> {
    pub fn from_slice(data: &'a [u8]) -> (r: Self)
        ensures
            r@ == data@,
            r is Static,
    {
        Self::Static(StaticByteString::from(data))
    }

    pub fn as_slice(&self) -> (r: &[u8])
        ensures
            r@ == self@,
    {
        match self {
            Self::Heaped(hbs) => hbs.as_slice(),
            Self::Static(sbs) => sbs.as_slice(),
        }
    }

    /// Whether both strings hold the same bytes, whichever way they are stored.
    pub fn same_bytes(&self, other: &ByteString) -> (r: bool)
        ensures
            r == (self@ == other@),
    {
        bytes_equal(self.as_slice(), other.as_slice())
    }
}

} // verus!
