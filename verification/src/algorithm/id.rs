use vstd::prelude::*;
use vstd::std_specs::cmp::PartialEqSpecImpl;

verus! {

/// Identifies an algorithm by the 128 bits of a UUID.
///
/// `Invalid` stands for "no identity": it equals nothing, not even itself.
#[derive(Clone, Copy, Debug)]
pub enum AlgorithmId {
    Invalid,
    Id(u128),
}

/// Whether the bits are those of a random UUID: the version field, the upper half of
/// the seventh byte, holds 4, and the variant field, the two upper bits of the ninth
/// byte, holds binary 10. The other 122 bits are free.
pub open spec fn is_random_uuid(bits: u128) -> bool {
    bits & 0x0000_0000_0000_f000_c000_0000_0000_0000 == 0x0000_0000_0000_4000_8000_0000_0000_0000
}

/// Draws a fresh random UUID with uuid's `Uuid::new_v4` and packs its bytes into a number
/// with `Uuid::as_u128`, the first byte uppermost. `new_v4` sets the version field to 4
/// and the variant field to binary 10 whatever was drawn; nothing is claimed of the
/// other bits.
#[verifier::external_body]
fn random_uuid_bits() -> (r: u128)
    ensures
        is_random_uuid(r),
{
    uuid::Uuid::new_v4().as_u128()
}

impl AlgorithmId {
    /// Two ids match when both are valid and carry the same bits.
    pub open spec fn matches(&self, other: &AlgorithmId) -> bool {
        match (*self, *other) {
            (AlgorithmId::Id(a), AlgorithmId::Id(b)) => a == b,
            _ => false,
        }
    }

    /// A valid id with the bits of a freshly drawn random UUID.
    pub fn random() -> (r: AlgorithmId)
        ensures
            r is Id,
            is_random_uuid(r->Id_0),
    {
        AlgorithmId::Id(random_uuid_bits())
    }
}

impl PartialEq for AlgorithmId {
    fn eq(&self, other: &Self) -> (r: bool) {
        match (self, other) {
            (AlgorithmId::Id(a), AlgorithmId::Id(b)) => *a == *b,
            _ => false,
        }
    }
}

impl PartialEqSpecImpl for AlgorithmId {
    open spec fn obeys_eq_spec() -> bool {
        true
    }

    open spec fn eq_spec(&self, other: &AlgorithmId) -> bool {
        self.matches(other)
    }
}

} // verus!
