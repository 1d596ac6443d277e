use vstd::prelude::*;

verus! {

/// The sign of a quantity.
#[derive(Debug, Clone, Copy, PartialEq, Eq, Structural)]
pub enum Sign {
    Negative,
    Zero,
    Positive,
}

/// How a capped force treats its velocity change on one axis.
#[derive(Debug, Clone, Copy, PartialEq, Eq, Structural)]
pub enum CapCheck {
    /// The change is added whatever the result.
    Unconditional,
    /// The change is added only while the result stays at or below the cap.
    AtMost,
    /// The change is added only while the result stays at or above the cap.
    AtLeast,
}

pub open spec fn cap_check_spec(delta: Sign, current: Sign) -> CapCheck {
    if delta == Sign::Positive && current != Sign::Negative {
        CapCheck::AtMost
    } else if delta == Sign::Negative && current != Sign::Positive {
        CapCheck::AtLeast
    } else {
        CapCheck::Unconditional
    }
}

/// Which check a velocity change with sign `delta` meets on an axis whose
/// current velocity has sign `current`. The cap is consulted only when the
/// velocity is at rest or already moving the way the change pushes; against
/// the change's direction nothing is ever held back.
pub fn cap_check(delta: Sign, current: Sign) -> (r: CapCheck)
    ensures
        r == cap_check_spec(delta, current),
        delta == Sign::Positive && current == Sign::Negative ==> r == CapCheck::Unconditional,
        delta == Sign::Negative && current == Sign::Positive ==> r == CapCheck::Unconditional,
        delta == Sign::Zero ==> r == CapCheck::Unconditional,
{
    match (delta, current) {
        (Sign::Positive, Sign::Zero) | (Sign::Positive, Sign::Positive) => CapCheck::AtMost,
        (Sign::Negative, Sign::Zero) | (Sign::Negative, Sign::Negative) => CapCheck::AtLeast,
        _ => CapCheck::Unconditional,
    }
}

pub open spec fn delta_applies_spec(delta: Sign, current: Sign, overshoot: Sign) -> bool {
    match cap_check_spec(delta, current) {
        CapCheck::Unconditional => true,
        CapCheck::AtMost => overshoot != Sign::Positive,
        CapCheck::AtLeast => overshoot != Sign::Negative,
    }
}

/// Whether a capped force adds its change on an axis: `delta` is the sign
/// of the change, `current` that of the velocity before it, and `overshoot`
/// that of (velocity + change - cap). A change that is added under a cap
/// check never carries the velocity past the cap.
pub fn delta_applies(delta: Sign, current: Sign, overshoot: Sign) -> (r: bool)
    ensures
        r == delta_applies_spec(delta, current, overshoot),
        r && cap_check_spec(delta, current) == CapCheck::AtMost ==> overshoot != Sign::Positive,
        r && cap_check_spec(delta, current) == CapCheck::AtLeast ==> overshoot != Sign::Negative,
        cap_check_spec(delta, current) == CapCheck::Unconditional ==> r,
{
    match cap_check(delta, current) {
        CapCheck::Unconditional => true,
        CapCheck::AtMost => overshoot != Sign::Positive,
        CapCheck::AtLeast => overshoot != Sign::Negative,
    }
}

} // verus!
