use std::collections::HashMap;
use vstd::prelude::*;

verus! {

broadcast use vstd::std_specs::hash::group_hash_axioms;

/// Reputations rise when actions of their kind succeed.
#[derive(PartialEq, Eq, Structural, Hash, Clone, Copy, Debug)]
pub enum ReputationType {
    /// Gained by taking credits from servers.
    Extract,
}

impl ReputationType {
    /// The key under which a reputation is kept.
    pub open spec fn spec_key(self) -> u8 {
        match self {
            ReputationType::Extract => 0,
        }
    }

    #[verifier::when_used_as_spec(spec_key)]
    pub fn key(self) -> (r: u8)
        ensures
            r == self.spec_key(),
    {
        match self {
            ReputationType::Extract => 0,
        }
    }
}

/// The reputation the player has of each kind. A kind never touched counts as zero.
pub struct Reputations {
    reputation_values: HashMap<u8, u32>,
}

impl View for Reputations {
    type V = Map<ReputationType, u32>;

    /// The reputations that have been touched, each with its value.
    closed spec fn view(&self) -> Map<ReputationType, u32> {
        Map::new(
            |kind: ReputationType| self.reputation_values@.contains_key(kind.spec_key()),
            |kind: ReputationType| self.reputation_values@[kind.spec_key()],
        )
    }
}

/// The value of `kind` in `values`: zero if it is not there.
pub open spec fn reputation_in(values: Map<ReputationType, u32>, kind: ReputationType) -> u32 {
    if values.contains_key(kind) {
        values[kind]
    } else {
        0
    }
}

impl Reputations {
    pub fn new() -> (r: Self)
        ensures
            r@ == Map::<ReputationType, u32>::empty(),
    {
        let r = Reputations { reputation_values: HashMap::new() };
        assert(r@ =~= Map::<ReputationType, u32>::empty());
        r
    }

    /// The reputation of the given kind, zero if it was never touched.
    pub fn get(&self, reputation_type: ReputationType) -> (r: u32)
        ensures
            r == reputation_in(self@, reputation_type),
    {
        let key = reputation_type.key();
        match self.reputation_values.get(&key) {
            Some(value) => *value,
            None => 0,
        }
    }

    /// Sets the reputation of the given kind.
    pub fn set(&mut self, reputation_type: ReputationType, value: u32)
        ensures
            final(self)@ == old(self)@.insert(reputation_type, value),
    {
        self.reputation_values.insert(reputation_type.key(), value);
        assert(self@ =~= old(self)@.insert(reputation_type, value));
    }

    /// The reputation of the given kind, to be changed in place. A kind that was never
    /// touched starts at zero.
    pub fn get_mut(&mut self, reputation_type: ReputationType) -> (r: &mut u32)
        ensures
            *r == reputation_in(old(self)@, reputation_type),
            final(self)@ == old(self)@.insert(reputation_type, *final(r)),
    {
        let key = reputation_type.key();
        let value = self.reputation_values.entry(key).or_insert(0);
        value
    }
}

} // verus!
