//! Circular (hue-wheel) arithmetic shared by every pipeline stage.
//!
//! Hues are whole degrees in `[0, 360)`.  One wraparound difference
//! function and one closest-target search serve the harmonizer, the
//! booster, the shifter and the slot mapper alike.

use crate::num::lemma_scaled_div_le;
use vstd::arithmetic::div_mod::{lemma_div_is_ordered, lemma_div_multiples_vanish};
use vstd::prelude::*;

verus! {

/// Signed wraparound difference `a - b`, normalized into `(-180, 180]`.
pub open spec fn spec_hue_diff(a: int, b: int) -> int {
    let d = (a - b + 360) % 360;
    if d > 180 {
        d - 360
    } else {
        d
    }
}

/// Absolute wraparound distance between two hues, in `[0, 180]`.
pub open spec fn spec_hue_dist(a: int, b: int) -> int {
    let d = spec_hue_diff(a, b);
    if d < 0 {
        -d
    } else {
        d
    }
}

/// Wraparound-aware signed hue difference `a - b` in `(-180, 180]`.
pub fn hue_diff(a: u32, b: u32) -> (r: i32)
    requires
        a < 360,
        b < 360,
    ensures
        r == spec_hue_diff(a as int, b as int),
        -180 < r <= 180,
{
    let d: u32 = (a + 360 - b) % 360;
    if d > 180 {
        (d as i32) - 360
    } else {
        d as i32
    }
}

/// Absolute wraparound hue distance in `[0, 180]`.
pub fn hue_dist(a: u32, b: u32) -> (r: u32)
    requires
        a < 360,
        b < 360,
    ensures
        r == spec_hue_dist(a as int, b as int),
        r <= 180,
{
    let d = hue_diff(a, b);
    if d < 0 {
        (-d) as u32
    } else {
        d as u32
    }
}

/// The wraparound distance is the shorter way around the wheel: it is
/// symmetric and equals the minimum of the direct and the complementary
/// angular separation, so 350 degrees and 10 degrees are 20 degrees
/// apart, never 340.
pub proof fn lemma_hue_dist_wraparound(a: int, b: int)
    requires
        0 <= a < 360,
        0 <= b < 360,
    ensures
        spec_hue_dist(a, b) == spec_hue_dist(b, a),
        spec_hue_dist(a, b) == if a - b >= 0 {
            if a - b <= 180 {
                a - b
            } else {
                360 - (a - b)
            }
        } else {
            if b - a <= 180 {
                b - a
            } else {
                360 - (b - a)
            }
        },
{
}

/// Rotate a hue by a signed angle and normalize back into `[0, 360)`.
pub open spec fn spec_rotate_hue(h: int, delta: int) -> int {
    (h + delta + 360) % 360
}

pub fn rotate_hue(h: u32, delta: i32) -> (r: u32)
    requires
        h < 360,
        -360 <= delta <= 360,
    ensures
        r == spec_rotate_hue(h as int, delta as int),
        r < 360,
{
    if delta >= 0 {
        (h + (delta as u32)) % 360
    } else {
        (h + 360 - ((-delta) as u32)) % 360
    }
}

/// Index of the target hue with minimal wraparound distance to `h`,
/// scanning left to right and keeping the earlier target on ties.
pub open spec fn spec_closest_target(targets: Seq<u32>, h: int) -> int
    recommends
        targets.len() > 0,
    decreases targets.len(),
{
    if targets.len() <= 1 {
        0
    } else {
        let rest = spec_closest_target(targets.drop_last(), h);
        if spec_hue_dist(targets.last() as int, h) < spec_hue_dist(targets[rest] as int, h) {
            targets.len() - 1
        } else {
            rest
        }
    }
}

proof fn lemma_closest_target_in_range(targets: Seq<u32>, h: int)
    requires
        targets.len() > 0,
    ensures
        0 <= spec_closest_target(targets, h) < targets.len(),
    decreases targets.len(),
{
    if targets.len() > 1 {
        lemma_closest_target_in_range(targets.drop_last(), h);
    }
}

/// Every target is at least as far from `h` as the chosen one.
pub proof fn lemma_closest_target_minimal(targets: Seq<u32>, h: int)
    requires
        targets.len() > 0,
    ensures
        0 <= spec_closest_target(targets, h) < targets.len(),
        forall|j: int|
            0 <= j < targets.len() ==> spec_hue_dist(
                targets[spec_closest_target(targets, h)] as int,
                h,
            ) <= #[trigger] spec_hue_dist(targets[j] as int, h),
    decreases targets.len(),
{
    lemma_closest_target_in_range(targets, h);
    if targets.len() > 1 {
        lemma_closest_target_minimal(targets.drop_last(), h);
        assert(forall|j: int|
            0 <= j < targets.len() - 1 ==> targets.drop_last()[j] == targets[j]);
    }
}

/// Find the target hue angularly closest to `h` (first wins on ties).
pub fn closest_target(targets: &Vec<u32>, h: u32) -> (r: usize)
    requires
        targets.len() > 0,
        h < 360,
        forall|i: int| 0 <= i < targets@.len() ==> targets@[i] < 360,
    ensures
        r == spec_closest_target(targets@, h as int),
        r < targets.len(),
{
    let mut best: usize = 0;
    let mut best_dist: u32 = hue_dist(targets[0], h);
    let mut i: usize = 1;
    proof {
        lemma_closest_target_in_range(targets@, h as int);
    }
    while i < targets.len()
        invariant
            h < 360,
            forall|k: int| 0 <= k < targets@.len() ==> targets@[k] < 360,
            1 <= i <= targets@.len(),
            best == spec_closest_target(targets@.take(i as int), h as int),
            best < i,
            best_dist == spec_hue_dist(targets@[best as int] as int, h as int),
        decreases targets@.len() - i,
    {
        let d = hue_dist(targets[i], h);
        proof {
            assert(targets@.take(i + 1).drop_last() =~= targets@.take(i as int));
            lemma_closest_target_in_range(targets@.take(i as int), h as int);
        }
        if d < best_dist {
            best = i;
            best_dist = d;
        }
        i = i + 1;
    }
    proof {
        assert(targets@.take(targets@.len() as int) =~= targets@);
    }
    best
}

/// Pull `h` a fraction (`pct` percent) of the way toward `target`,
/// moving the short way around the wheel.
pub open spec fn spec_pull_toward(h: int, target: int, pct: int) -> int {
    let d = spec_hue_diff(target, h);
    let shift = if d >= 0 {
        d * pct / 100
    } else {
        -((-d) * pct / 100)
    };
    spec_rotate_hue(h, shift)
}

pub fn pull_toward(h: u32, target: u32, pct: u32) -> (r: u32)
    requires
        h < 360,
        target < 360,
        pct <= 100,
    ensures
        r == spec_pull_toward(h as int, target as int, pct as int),
        r < 360,
{
    let d = hue_diff(target, h);
    let shift: i32 = if d >= 0 {
        let m: u32 = d as u32;
        assert(m * pct <= 18000) by (nonlinear_arith)
            requires
                m <= 180,
                pct <= 100,
        ;
        ((m * pct) / 100) as i32
    } else {
        let m: u32 = (-d) as u32;
        assert(m * pct <= 18000) by (nonlinear_arith)
            requires
                m <= 180,
                pct <= 100,
        ;
        -(((m * pct) / 100) as i32)
    };
    rotate_hue(h, shift)
}

/// Rational sine approximation on the first half wave, in
/// thousandths: `4000·x·(180−x) / (40500 − x·(180−x))`.
pub open spec fn spec_sin_half(x: int) -> int {
    4000 * (x * (180 - x)) / (40500 - x * (180 - x))
}

fn sin_half(x: u32) -> (r: u32)
    requires
        x <= 180,
    ensures
        r == spec_sin_half(x as int),
        r <= 1000,
{
    proof {
        assert(0 <= x * (180 - x) <= 8100) by (nonlinear_arith)
            requires
                0 <= x <= 180,
        ;
    }
    let p: u32 = x * (180 - x);
    let num: u32 = 4000 * p;
    let den: u32 = 40500 - p;
    proof {
        lemma_div_is_ordered(num as int, 1000 * den, den as int);
        lemma_div_multiples_vanish(1000, den as int);
        lemma_div_is_ordered(0, num as int, den as int);
    }
    num / den
}

/// Sine of a hue angle, in thousandths.
pub open spec fn spec_sin_milli(h: int) -> int {
    if h <= 180 {
        spec_sin_half(h)
    } else {
        -spec_sin_half(h - 180)
    }
}

pub fn sin_milli(h: u32) -> (r: i32)
    requires
        h < 360,
    ensures
        r == spec_sin_milli(h as int),
        -1000 <= r <= 1000,
{
    if h <= 180 {
        sin_half(h) as i32
    } else {
        -(sin_half(h - 180) as i32)
    }
}

/// Cosine of a hue angle, in thousandths.
pub open spec fn spec_cos_milli(h: int) -> int {
    spec_sin_milli((h + 90) % 360)
}

pub fn cos_milli(h: u32) -> (r: i32)
    requires
        h < 360,
    ensures
        r == spec_cos_milli(h as int),
        -1000 <= r <= 1000,
{
    sin_milli((h + 90) % 360)
}

/// Cubic arctangent approximation: for `t` a tangent in thousandths,
/// the angle in whole degrees, capped defensively at 45.
pub open spec fn spec_atan_deg(t: int) -> int {
    let raw = t * (55713000000 - 10996 * t * t) / 1000000000000;
    if raw > 45 {
        45
    } else {
        raw
    }
}

fn atan_deg(t: u64) -> (r: u32)
    requires
        t <= 1000,
    ensures
        r == spec_atan_deg(t as int),
        r <= 45,
{
    proof {
        assert(10996 * t * t <= 10996000000) by (nonlinear_arith)
            requires
                t <= 1000,
        ;
        assert(t * (55713000000 - 10996 * t * t) <= 55713000000000) by (nonlinear_arith)
            requires
                t <= 1000,
                0 <= 55713000000 - 10996 * t * t <= 55713000000,
        ;
        lemma_div_is_ordered(
            0,
            (t * (55713000000 - 10996 * t * t)) as int,
            1000000000000,
        );
    }
    let inner: u64 = 55713000000 - 10996 * t * t;
    let raw: u64 = (t * inner) / 1000000000000;
    if raw > 45 {
        45
    } else {
        raw as u32
    }
}

/// Quadrant-correct integer arctangent: the angle of the vector
/// `(x, y)` in degrees `[0, 360)`; the zero vector gives 0.
pub open spec fn spec_atan2_deg(y: int, x: int) -> int {
    let ay = if y >= 0 {
        y
    } else {
        -y
    };
    let ax = if x >= 0 {
        x
    } else {
        -x
    };
    let base = if ay <= ax {
        if ax == 0 {
            0
        } else {
            spec_atan_deg(ay * 1000 / ax)
        }
    } else {
        90 - spec_atan_deg(ax * 1000 / ay)
    };
    if x >= 0 && y >= 0 {
        base
    } else if x < 0 && y >= 0 {
        180 - base
    } else if x < 0 {
        180 + base
    } else {
        (360 - base) % 360
    }
}

pub fn atan2_deg(y: i64, x: i64) -> (r: u32)
    requires
        -1000000000000000 <= y <= 1000000000000000,
        -1000000000000000 <= x <= 1000000000000000,
    ensures
        r == spec_atan2_deg(y as int, x as int),
        r < 360,
{
    let ay: u64 = if y >= 0 {
        y as u64
    } else {
        (-y) as u64
    };
    let ax: u64 = if x >= 0 {
        x as u64
    } else {
        (-x) as u64
    };
    let base: u32 = if ay <= ax {
        if ax == 0 {
            0
        } else {
            proof {
                lemma_scaled_div_le(ay as int, ax as int, 1000);
            }
            atan_deg((ay * 1000) / ax)
        }
    } else {
        proof {
            lemma_scaled_div_le(ax as int, ay as int, 1000);
        }
        90 - atan_deg((ax * 1000) / ay)
    };
    if x >= 0 && y >= 0 {
        base
    } else if x < 0 && y >= 0 {
        180 - base
    } else if x < 0 {
        180 + base
    } else {
        (360 - base) % 360
    }
}

} // verus!
