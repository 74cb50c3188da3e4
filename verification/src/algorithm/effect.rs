use crate::server::ServerStatType;
use rand::Rng;
use std::ops::Range;
use vstd::prelude::*;
use vstd::std_specs::convert::{FromSpecImpl, TryFromSpecImpl};

verus! {

/// The strength of an effect: one number, or a closed range to draw from.
#[derive(Debug, Clone, Copy, Eq, PartialEq, Structural, Hash)]
pub enum AlgorithmEffectValue {
    /// Always the given number.
    Static(i32),
    /// Any integer between the lower and the upper bound, both included.
    /// The lower bound must not exceed the upper one.
    RangeInclusive(i32, i32),
}

/// Draws one integer from rand's `Uniform::new_inclusive(low, high)` with the thread's
/// generator (`rand::rng()`, `Rng::sample`). The construction fails only on `low > high`,
/// which the precondition excludes; the sample lies in the closed range.
#[verifier::external_body]
fn sample_inclusive(low: i32, high: i32) -> (r: i32)
    requires
        low <= high,
    ensures
        low <= r <= high,
{
    let rng = &mut rand::rng();
    rng.sample(rand::distr::Uniform::new_inclusive(low, high).unwrap())
}

impl AlgorithmEffectValue {
    /// A value is well formed unless it is a range whose bounds are out of order.
    pub open spec fn is_well_formed(&self) -> bool {
        match *self {
            AlgorithmEffectValue::Static(_) => true,
            AlgorithmEffectValue::RangeInclusive(low, high) => low <= high,
        }
    }

    /// Whether `v` is a number this value can resolve to.
    pub open spec fn admits(&self, v: i32) -> bool {
        match *self {
            AlgorithmEffectValue::Static(s) => v == s,
            AlgorithmEffectValue::RangeInclusive(low, high) => low <= v <= high,
        }
    }

    /// Builds a range, rejecting bounds that are out of order.
    pub fn range_inclusive(low: i32, high: i32) -> (r: Option<AlgorithmEffectValue>)
        ensures
            low <= high ==> r == Some(AlgorithmEffectValue::RangeInclusive(low, high)),
            low > high ==> r.is_none(),
    {
        if low <= high {
            Some(AlgorithmEffectValue::RangeInclusive(low, high))
        } else {
            None
        }
    }

    /// Tells whether the value can be resolved.
    pub fn is_valid(&self) -> (r: bool)
        ensures
            r == self.is_well_formed(),
    {
        match self {
            AlgorithmEffectValue::Static(_) => true,
            AlgorithmEffectValue::RangeInclusive(low, high) => *low <= *high,
        }
    }

    /// Gets or generates a value.
    /// Repeated calls may give different numbers for a range.
    pub fn make_value(&self) -> (r: i32)
        requires
            self.is_well_formed(),
        ensures
            self.admits(r),
    {
        match self {
            AlgorithmEffectValue::Static(v) => *v,
            AlgorithmEffectValue::RangeInclusive(low, high) => sample_inclusive(*low, *high),
        }
    }
}

impl From<i32> for AlgorithmEffectValue {
    fn from(value: i32) -> (r: Self) {
        AlgorithmEffectValue::Static(value)
    }
}

impl FromSpecImpl<i32> for AlgorithmEffectValue {
    open spec fn obeys_from_spec() -> bool {
        true
    }

    open spec fn from_spec(value: i32) -> Self {
        AlgorithmEffectValue::Static(value)
    }
}

/// Tells that the bounds of a range were out of order.
#[derive(Debug, Clone, Copy, Eq, PartialEq, Structural, Hash)]
pub struct RangeOutOfOrder {
    pub low: i32,
    pub high: i32,
}

impl TryFrom<Range<i32>> for AlgorithmEffectValue {
    type Error = RangeOutOfOrder;

    /// Reads the two ends of `value` as the bounds of the closed range, the end
    /// included. Bounds that are out of order build nothing.
    fn try_from(value: Range<i32>) -> (r: Result<Self, RangeOutOfOrder>) {
        if value.start <= value.end {
            Ok(AlgorithmEffectValue::RangeInclusive(value.start, value.end))
        } else {
            Err(RangeOutOfOrder { low: value.start, high: value.end })
        }
    }
}

impl TryFromSpecImpl<Range<i32>> for AlgorithmEffectValue {
    open spec fn obeys_try_from_spec() -> bool {
        true
    }

    open spec fn try_from_spec(value: Range<i32>) -> Result<Self, RangeOutOfOrder> {
        if value.start <= value.end {
            Ok(AlgorithmEffectValue::RangeInclusive(value.start, value.end))
        } else {
            Err(RangeOutOfOrder { low: value.start, high: value.end })
        }
    }
}

/// Which of the two servers of an exploit an effect is aimed at.
#[derive(Debug, Clone, Copy, Eq, PartialEq, Structural, Hash)]
pub enum AlgorithmEffectTarget {
    /// The server running the algorithm. Often used for self-buffs.
    SelfServer,
    /// The other server. Often used for debuffs.
    TargetServer,
}

/// What an algorithm does when execution crosses one of its thresholds.
#[derive(Debug, Clone, Copy, Eq, PartialEq, Structural, Hash)]
pub enum AlgorithmEffect {
    /// Steals credits from the target; the higher the potency, the more.
    Siphon { potency: AlgorithmEffectValue },
    /// Steals an algorithm from the target.
    Exfil { potency: AlgorithmEffectValue },
    /// Alters a stat of the chosen server by the potency.
    Modify { target: AlgorithmEffectTarget, stat: ServerStatType, potency: AlgorithmEffectValue },
    /// Washes out script-sourced modifications of a stat on the chosen server.
    Purge { target: AlgorithmEffectTarget, stat: ServerStatType, potency: AlgorithmEffectValue },
    /// Damages the connection of the exploit.
    Terminate { potency: AlgorithmEffectValue },
}

impl AlgorithmEffect {
    /// The strength the effect carries.
    pub open spec fn spec_potency(&self) -> AlgorithmEffectValue {
        match *self {
            AlgorithmEffect::Siphon { potency } => potency,
            AlgorithmEffect::Exfil { potency } => potency,
            AlgorithmEffect::Modify { potency, .. } => potency,
            AlgorithmEffect::Purge { potency, .. } => potency,
            AlgorithmEffect::Terminate { potency } => potency,
        }
    }

    /// An effect is well formed when its potency is.
    pub open spec fn is_well_formed(&self) -> bool {
        self.spec_potency().is_well_formed()
    }

    #[verifier::when_used_as_spec(spec_potency)]
    pub fn potency(&self) -> (r: AlgorithmEffectValue)
        ensures
            r == self.spec_potency(),
    {
        match self {
            AlgorithmEffect::Siphon { potency } => *potency,
            AlgorithmEffect::Exfil { potency } => *potency,
            AlgorithmEffect::Modify { potency, .. } => *potency,
            AlgorithmEffect::Purge { potency, .. } => *potency,
            AlgorithmEffect::Terminate { potency } => *potency,
        }
    }

    /// Tells whether the effect's potency can be resolved.
    pub fn is_valid(&self) -> (r: bool)
        ensures
            r == self.is_well_formed(),
    {
        self.potency().is_valid()
    }
}

} // verus!
