//! Task identifiers: 128-bit ULIDs (a millisecond timestamp followed by
//! random bits), exchanged and stored as 16 big-endian bytes.
use vstd::prelude::*;

verus! {

/// Bytes in the stored form of an identifier.
pub const ID_LEN: usize = 16;

/// The number that `bytes` spell in big-endian order.
pub open spec fn be_value(bytes: Seq<u8>) -> nat
    decreases bytes.len(),
{
    if bytes.len() == 0 {
        0
    } else {
        be_value(bytes.drop_last()) * 256 + bytes.last() as nat
    }
}

/// A task identifier, the value of a ULID.
#[derive(Clone, Copy, Debug, PartialEq, Eq, Structural, PartialOrd, Ord, Hash)]
pub struct Id(pub u128);

impl Id {
    /// The identifier that `bytes` hold in big-endian order, or `None` where
    /// they are not exactly sixteen.
    pub fn from_bytes(bytes: &[u8]) -> (r: Option<Id>)
        ensures
            r is Some <==> bytes@.len() == ID_LEN,
            r is Some ==> (r->0).0 == be_value(bytes@),
    {
        if bytes.len() != ID_LEN {
            return None;
        }
        let mut arr: [u8; 16] = [0u8; 16];
        let mut i: usize = 0;
        while i < ID_LEN
            invariant
                bytes@.len() == ID_LEN,
                i <= ID_LEN,
                forall|j: int| 0 <= j < i ==> arr@[j] == bytes@[j],
            decreases ID_LEN - i,
        {
            arr[i] = bytes[i];
            i = i + 1;
        }
        assert(arr@ =~= bytes@);
        Some(Id(ulid_from_bytes(arr)))
    }

    /// The sixteen big-endian bytes of the identifier.
    pub fn to_bytes(&self) -> (r: Vec<u8>)
        ensures
            r@.len() == ID_LEN,
            be_value(r@) == self.0,
    {
        let arr = ulid_to_bytes(self.0);
        let mut out: Vec<u8> = Vec::new();
        let mut i: usize = 0;
        while i < ID_LEN
            invariant
                arr@.len() == ID_LEN,
                i <= ID_LEN,
                out@ =~= arr@.take(i as int),
            decreases ID_LEN - i,
        {
            out.push(arr[i]);
            i = i + 1;
            assert(out@ =~= arr@.take(i as int));
        }
        assert(arr@.take(16) =~= arr@);
        out
    }

    /// A fresh identifier from the current time and random bits.
    pub fn generate() -> (r: Id) {
        Id(ulid_new())
    }
}

/// Relies on ulid's `Ulid::from_bytes`, which reads the bytes as a big-endian
/// `u128`.
#[verifier::external_body]
fn ulid_from_bytes(bytes: [u8; 16]) -> (r: u128)
    ensures
        r == be_value(bytes@),
{
    ulid::Ulid::from_bytes(bytes).0
}

/// Relies on ulid's `Ulid::to_bytes`, which writes the value as a big-endian
/// `u128`.
#[verifier::external_body]
fn ulid_to_bytes(value: u128) -> (r: [u8; 16])
    ensures
        be_value(r@) == value,
{
    ulid::Ulid(value).to_bytes()
}

/// Relies on ulid's `Ulid::new`, which draws a value from the clock and a
/// random source: nothing is known of it.
#[verifier::external_body]
fn ulid_new() -> (r: u128) {
    ulid::Ulid::new().0
}

} // verus!
