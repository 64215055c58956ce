//! Fixed-width identifiers: 32-byte party keys and 32-byte storage addresses.

use vstd::prelude::*;

verus! {

/// Number of bytes in a party identifier or a derived address.
pub const ID_LEN: usize = 32;

/// Copies a byte vector.
fn copy_bytes(v: &Vec<u8>) -> (r: Vec<u8>)
    ensures
        r@ == v@,
{
    let mut r: Vec<u8> = Vec::new();
    let mut i: usize = 0;
    while i < v.len()
        invariant
            i <= v.len(),
            r@ == v@.subrange(0, i as int),
        decreases v.len() - i,
    {
        r.push(v[i]);
        assert(r@ == v@.subrange(0, i + 1 as int));
        i = i + 1;
    }
    assert(v@.subrange(0, v@.len() as int) == v@);
    r
}

/// Compares two byte slices for equality.
pub fn bytes_eq(a: &[u8], b: &[u8]) -> (r: bool)
    ensures
        r == (a@ == b@),
{
    if a.len() != b.len() {
        return false;
    }
    let mut i: usize = 0;
    while i < a.len()
        invariant
            i <= a.len(),
            a.len() == b.len(),
            a@.len() == a.len(),
            b@.len() == b.len(),
            forall|j: int| 0 <= j < i ==> a@[j] == b@[j],
        decreases a.len() - i,
    {
        if a[i] != b[i] {
            return false;
        }
        i = i + 1;
    }
    assert(a@ =~= b@);
    true
}

/// A party's fixed-width (32-byte) identifier.
pub struct PartyId {
    bytes: Vec<u8>,
}

impl View for PartyId {
    type V = Seq<u8>;

    closed spec fn view(&self) -> Seq<u8> {
        self.bytes@
    }
}

impl PartyId {
    /// The identifier is exactly 32 bytes wide.
    pub open spec fn wf(&self) -> bool {
        self@.len() == ID_LEN
    }

    /// Wraps a byte vector as a party identifier; rejects any width but 32.
    pub fn from_bytes(bytes: Vec<u8>) -> (r: Option<PartyId>)
        ensures
            match r {
                Some(p) => p.wf() && p@ == bytes@,
                None => bytes@.len() != ID_LEN,
            },
    {
        if bytes.len() == ID_LEN {
            Some(PartyId { bytes })
        } else {
            None
        }
    }

    /// The identifier's bytes.
    pub fn as_slice(&self) -> (r: &[u8])
        ensures
            r@ == self@,
    {
        self.bytes.as_slice()
    }

    /// An identical copy of the identifier.
    pub fn duplicate(&self) -> (r: PartyId)
        ensures
            r@ == self@,
    {
        PartyId { bytes: copy_bytes(&self.bytes) }
    }
}

/// A derived 32-byte storage address.
pub struct Address {
    bytes: Vec<u8>,
}

impl View for Address {
    type V = Seq<u8>;

    closed spec fn view(&self) -> Seq<u8> {
        self.bytes@
    }
}

impl Address {
    /// The address is exactly 32 bytes wide.
    pub open spec fn wf(&self) -> bool {
        self@.len() == ID_LEN
    }

    /// Wraps a byte vector as an address; rejects any width but 32.
    pub fn from_bytes(bytes: Vec<u8>) -> (r: Option<Address>)
        ensures
            match r {
                Some(a) => a.wf() && a@ == bytes@,
                None => bytes@.len() != ID_LEN,
            },
    {
        if bytes.len() == ID_LEN {
            Some(Address { bytes })
        } else {
            None
        }
    }

    /// Wraps a byte vector already known to be full-width.
    pub(crate) fn from_exact(bytes: Vec<u8>) -> (r: Address)
        requires
            bytes@.len() == ID_LEN,
        ensures
            r.wf(),
            r@ == bytes@,
    {
        Address { bytes }
    }

    /// The address's bytes.
    pub fn as_slice(&self) -> (r: &[u8])
        ensures
            r@ == self@,
    {
        self.bytes.as_slice()
    }

    /// An identical copy of the address.
    pub fn duplicate(&self) -> (r: Address)
        ensures
            r@ == self@,
    {
        Address { bytes: copy_bytes(&self.bytes) }
    }

    /// Whether two addresses hold the same bytes.
    pub fn same_as(&self, other: &Address) -> (r: bool)
        ensures
            r == (self@ == other@),
    {
        bytes_eq(self.bytes.as_slice(), other.bytes.as_slice())
    }
}

} // verus!
