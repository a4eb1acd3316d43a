use vstd::arithmetic::div_mod::{
    lemma_add_mod_noop, lemma_fundamental_div_mod, lemma_mod_multiples_vanish,
};
use vstd::prelude::*;

verus! {

/// A full turn, in millionths of a degree.
pub const FULL_TURN: i64 = 360_000_000;

/// Half a turn, in millionths of a degree.
pub const HALF_TURN: i64 = 180_000_000;

/// A quarter of a turn, in millionths of a degree.
pub const QUARTER_TURN: i64 = 90_000_000;

/// The quotient of `x` by `y`, rounded towards minus infinity.
pub open spec fn floor_div(x: int, y: int) -> int
    recommends
        y != 0,
{
    if y > 0 {
        x / y
    } else {
        (-x) / (-y)
    }
}

/// `x - y * floor(x / y)`: the remainder that has the sign of `y`. A zero
/// modulus leaves `x` as it is.
pub open spec fn floor_mod(x: int, y: int) -> int {
    if y == 0 {
        x
    } else {
        x - y * floor_div(x, y)
    }
}

/// The remainder of `x` by a positive `y`, between `0` and `y - 1`.
fn remainder(x: i128, y: i128) -> (r: i128)
    requires
        0 < y <= 0x8000_0000_0000_0000,
        -0x8000_0000_0000_0000 <= x <= 0x8000_0000_0000_0000,
    ensures
        r == x - y * (x as int / y as int),
        0 <= r < y,
{
    let width: i128 = 0x8000_0000_0000_0000;
    assert(0 < y * width <= 0x4000_0000_0000_0000_0000_0000_0000_0000 && y * width >= width)
        by (nonlinear_arith)
        requires
            0 < y <= 0x8000_0000_0000_0000,
            width == 0x8000_0000_0000_0000,
    ;
    let lifted: u128 = (x + y * width) as u128;
    let m: u128 = lifted % (y as u128);
    proof {
        lemma_mod_multiples_vanish(width as int, x as int, y as int);
        lemma_fundamental_div_mod(x as int, y as int);
    }
    m as i128
}

/// Generalised modulo: `x - y * floor(x / y)`. The result has the sign of the
/// modulus whatever the sign and size of `x`; with a zero modulus it is `x`.
pub fn mod_helper(x: i64, y: i64) -> (r: i64)
    ensures
        r == floor_mod(x as int, y as int),
        y > 0 ==> 0 <= r < y,
        y < 0 ==> y < r <= 0,
{
    if y == 0 {
        x
    } else if y > 0 {
        remainder(x as i128, y as i128) as i64
    } else {
        let m: i128 = remainder(-(x as i128), -(y as i128));
        assert(-(-x - (-y) * ((-x) / (-y))) == x - y * ((-x) / (-y))) by (nonlinear_arith);
        (-m) as i64
    }
}

/// Wraps an angle in millionths of a degree into `[0, 360)` degrees.
pub fn wrap_0_360(a: i64) -> (r: i64)
    ensures
        r == floor_mod(a as int, FULL_TURN as int),
        0 <= r < FULL_TURN,
{
    mod_helper(a, FULL_TURN)
}

/// Wraps an angle in millionths of a degree into `[-180, 180)` degrees.
pub fn wrap_neg_180_180(a: i64) -> (r: i64)
    ensures
        r == floor_mod(a + HALF_TURN, FULL_TURN as int) - HALF_TURN,
        -HALF_TURN <= r < HALF_TURN,
{
    let m: i64 = mod_helper(a, FULL_TURN);
    proof {
        let q = (a as int) / (FULL_TURN as int);
        assert(a == FULL_TURN * q + m);
        if m >= HALF_TURN {
            vstd::arithmetic::div_mod::lemma_fundamental_div_mod_converse(
                a + HALF_TURN,
                FULL_TURN as int,
                q + 1,
                m - HALF_TURN,
            );
        } else {
            vstd::arithmetic::div_mod::lemma_fundamental_div_mod_converse(
                a + HALF_TURN,
                FULL_TURN as int,
                q,
                m + HALF_TURN,
            );
        }
        lemma_fundamental_div_mod(a + HALF_TURN, FULL_TURN as int);
    }
    if m >= HALF_TURN {
        m - FULL_TURN
    } else {
        m
    }
}

/// For a positive modulus, `floor_mod` is the Euclidean remainder.
pub proof fn floor_mod_is_remainder(x: int, y: int)
    requires
        y > 0,
    ensures
        floor_mod(x, y) == x % y,
        0 <= floor_mod(x, y) < y,
{
    lemma_fundamental_div_mod(x, y);
}

/// Local sidereal time: Greenwich sidereal time plus the site's east
/// longitude, wrapped into `[0, 360)` degrees. All in millionths of a degree.
pub fn local_sidereal_time(gmst: i64, longitude: i64) -> (r: i64)
    ensures
        r == floor_mod(gmst + longitude, FULL_TURN as int),
        0 <= r < FULL_TURN,
{
    let g: i64 = wrap_0_360(gmst);
    let l: i64 = wrap_0_360(longitude);
    proof {
        floor_mod_is_remainder(gmst as int, FULL_TURN as int);
        floor_mod_is_remainder(longitude as int, FULL_TURN as int);
        floor_mod_is_remainder(g + l, FULL_TURN as int);
        floor_mod_is_remainder(gmst + longitude, FULL_TURN as int);
        lemma_add_mod_noop(gmst as int, longitude as int, FULL_TURN as int);
    }
    wrap_0_360(g + l)
}

/// When Greenwich sidereal time advances by `advance`, local sidereal time at
/// a fixed longitude advances by the same angle, up to whole turns.
pub proof fn sidereal_time_advances(gmst: int, advance: int, longitude: int)
    ensures
        floor_mod(gmst + advance + longitude, FULL_TURN as int) == floor_mod(
            floor_mod(gmst + longitude, FULL_TURN as int) + advance,
            FULL_TURN as int,
        ),
        0 <= advance < FULL_TURN - floor_mod(gmst + longitude, FULL_TURN as int) ==> floor_mod(
            gmst + advance + longitude,
            FULL_TURN as int,
        ) == floor_mod(gmst + longitude, FULL_TURN as int) + advance,
{
    let before = floor_mod(gmst + longitude, FULL_TURN as int);
    floor_mod_is_remainder(gmst + longitude, FULL_TURN as int);
    floor_mod_is_remainder(gmst + advance + longitude, FULL_TURN as int);
    floor_mod_is_remainder(before + advance, FULL_TURN as int);
    lemma_add_mod_noop(gmst + longitude, advance, FULL_TURN as int);
    lemma_add_mod_noop(before, advance, FULL_TURN as int);
    vstd::arithmetic::div_mod::lemma_fundamental_div_mod_converse(before, FULL_TURN as int, 0, before);
    if 0 <= advance < FULL_TURN - before {
        vstd::arithmetic::div_mod::lemma_fundamental_div_mod_converse(
            before + advance,
            FULL_TURN as int,
            0,
            before + advance,
        );
    }
}

/// Where a target stands for an observer: azimuth and elevation in millionths
/// of a degree, slant range in metres, range rate in metres per second
/// (positive while the target recedes).
#[derive(Clone, Copy, Debug, PartialEq, Eq, Structural)]
pub struct LookAngle {
    pub azimuth: i64,
    pub elevation: i64,
    pub range: u64,
    pub range_rate: i64,
}

impl LookAngle {
    /// Azimuth lies in `[0, 360)` degrees and elevation in `[-90, 90]`.
    pub open spec fn wf(&self) -> bool {
        &&& 0 <= self.azimuth < FULL_TURN
        &&& -QUARTER_TURN <= self.elevation <= QUARTER_TURN
    }

    /// The look angle that sampled values stand for: the azimuth wrapped into
    /// `[0, 360)` degrees, the rest as sampled. An elevation beyond the
    /// zenith or the nadir stands for none.
    pub open spec fn sampled(azimuth: i64, elevation: i64, range: u64, range_rate: i64) -> Option<
        LookAngle,
    > {
        if -QUARTER_TURN <= elevation <= QUARTER_TURN {
            Some(
                LookAngle {
                    azimuth: floor_mod(azimuth as int, FULL_TURN as int) as i64,
                    elevation,
                    range,
                    range_rate,
                },
            )
        } else {
            None
        }
    }

    /// A look angle from sampled values. The result depends on the four
    /// values alone, and where there is one, it is well formed.
    pub fn new(azimuth: i64, elevation: i64, range: u64, range_rate: i64) -> (r: Option<LookAngle>)
        ensures
            r == LookAngle::sampled(azimuth, elevation, range, range_rate),
            r matches Some(look) ==> look.wf(),
    {
        if elevation < -QUARTER_TURN || elevation > QUARTER_TURN {
            None
        } else {
            Some(LookAngle { azimuth: wrap_0_360(azimuth), elevation, range, range_rate })
        }
    }
}

/// Wrapping changes an angle by whole turns only, and an angle that is wrapped
/// already stays as it is.
pub proof fn wrap_keeps_direction(a: int)
    ensures
        exists|turns: int| a - floor_mod(a, FULL_TURN as int) == #[trigger] (turns * FULL_TURN),
        0 <= floor_mod(a, FULL_TURN as int) < FULL_TURN,
        floor_mod(floor_mod(a, FULL_TURN as int), FULL_TURN as int) == floor_mod(a, FULL_TURN as int),
        0 <= a < FULL_TURN ==> floor_mod(a, FULL_TURN as int) == a,
{
    let q = a / (FULL_TURN as int);
    let m = floor_mod(a, FULL_TURN as int);
    lemma_fundamental_div_mod(a, FULL_TURN as int);
    assert(a - m == q * FULL_TURN) by (nonlinear_arith)
        requires
            m == a - FULL_TURN * q,
    ;
    vstd::arithmetic::div_mod::lemma_fundamental_div_mod_converse(m, FULL_TURN as int, 0, m);
    lemma_fundamental_div_mod(m, FULL_TURN as int);
    if 0 <= a < FULL_TURN {
        vstd::arithmetic::div_mod::lemma_fundamental_div_mod_converse(a, FULL_TURN as int, 0, a);
    }
}

} // verus!
