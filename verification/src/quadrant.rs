use crate::angle::{floor_mod, FULL_TURN, HALF_TURN, QUARTER_TURN};
use vstd::arithmetic::div_mod::lemma_fundamental_div_mod_converse;
use vstd::prelude::*;

verus! {

/// The sign of a vector component.
#[derive(Clone, Copy, Debug, PartialEq, Eq, Structural)]
pub enum Sign {
    Negative,
    Zero,
    Positive,
}

/// Whether `principal` can be the principal value of an arctangent, in
/// millionths of a degree: it lies between minus and plus a quarter turn.
pub open spec fn is_principal(principal: i64) -> bool {
    -QUARTER_TURN <= principal <= QUARTER_TURN
}

/// The angle that `ac_tan` gives, as a mathematical value.
pub open spec fn ac_tan_angle(sine: Sign, cosine: Sign, principal: i64) -> int {
    match cosine {
        Sign::Zero => if sine == Sign::Positive {
            QUARTER_TURN as int
        } else {
            3 * QUARTER_TURN
        },
        Sign::Positive => principal as int,
        Sign::Negative => HALF_TURN + principal,
    }
}

/// Two-argument arctangent by quadrant, in millionths of a degree. `sine` and
/// `cosine` are the signs of the two components, and `principal` is the
/// arctangent of their quotient, which is read only where the cosine
/// component is not zero. With a zero cosine component nothing is divided:
/// the angle is a quarter turn for a positive sine component and three
/// quarter turns otherwise. The result lies in the half plane that the
/// cosine component points into.
pub fn ac_tan(sine: Sign, cosine: Sign, principal: i64) -> (r: i64)
    requires
        is_principal(principal),
    ensures
        r == ac_tan_angle(sine, cosine, principal),
        -QUARTER_TURN <= r <= 3 * QUARTER_TURN,
        cosine == Sign::Positive ==> -QUARTER_TURN <= r <= QUARTER_TURN,
        cosine == Sign::Negative ==> QUARTER_TURN <= r <= 3 * QUARTER_TURN,
{
    match cosine {
        Sign::Zero => {
            if sine == Sign::Positive {
                QUARTER_TURN
            } else {
                3 * QUARTER_TURN
            }
        },
        Sign::Positive => principal,
        Sign::Negative => HALF_TURN + principal,
    }
}

/// The azimuth before it is wrapped: the principal value, moved on by half a
/// turn where the southward component is positive. With a zero southward
/// component the target stands due east or due west.
pub open spec fn raw_azimuth(south: Sign, east: Sign, principal: i64) -> int {
    match south {
        Sign::Zero => ac_tan_angle(east, Sign::Zero, principal),
        Sign::Positive => principal + HALF_TURN,
        Sign::Negative => principal as int,
    }
}

/// Azimuth in millionths of a degree, clockwise from north, from the signs of
/// the southward and eastward components of the range vector and the
/// arctangent `principal` of minus east over south. The quadrant is settled
/// first (half a turn is added for a positive southward component), then a
/// negative angle is moved up by a full turn. A zero southward component
/// goes through the quadrant rule of `ac_tan`, so nothing is divided by it.
/// The result always lies in `[0, 360)` degrees.
pub fn azimuth(south: Sign, east: Sign, principal: i64) -> (r: i64)
    requires
        is_principal(principal),
    ensures
        r == floor_mod(raw_azimuth(south, east, principal), FULL_TURN as int),
        0 <= r < FULL_TURN,
        r == raw_azimuth(south, east, principal) || r == raw_azimuth(south, east, principal)
            + FULL_TURN,
{
    let mut az: i64 = match south {
        Sign::Zero => ac_tan(east, Sign::Zero, principal),
        Sign::Positive => principal + HALF_TURN,
        Sign::Negative => principal,
    };
    let ghost raw = az as int;
    if az < 0 {
        az = az + FULL_TURN;
        proof {
            lemma_fundamental_div_mod_converse(raw, FULL_TURN as int, -1, az as int);
        }
    } else {
        proof {
            lemma_fundamental_div_mod_converse(raw, FULL_TURN as int, 0, az as int);
        }
    }
    az
}

} // verus!
