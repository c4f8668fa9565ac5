use vstd::prelude::*;

use crate::text::{parse_rgb, rgb_of};

verus! {

/// A color sampled from the screen or configured as a target.
#[derive(Debug, Clone, Copy, PartialEq, Eq, Structural)]
pub struct RGB {
    pub r: u8,
    pub g: u8,
    pub b: u8,
}

/// Absolute value of an integer.
pub open spec fn abs(x: int) -> int {
    if x < 0 {
        -x
    } else {
        x
    }
}

/// Sum of the absolute per-channel differences of two colors.
pub open spec fn manhattan(a: RGB, b: RGB) -> int {
    abs(a.r - b.r) + abs(a.g - b.g) + abs(a.b - b.b)
}

/// Squared Euclidean distance of two colors in RGB space.
pub open spec fn squared_distance(a: RGB, b: RGB) -> int {
    (a.r - b.r) * (a.r - b.r) + (a.g - b.g) * (a.g - b.g) + (a.b - b.b) * (a.b - b.b)
}

/// Whether `color` lies within the tolerance of `target`: the channel
/// differences sum to at most three times the tolerance.
pub open spec fn within_tolerance(color: RGB, target: RGB, tolerance: int) -> bool {
    manhattan(color, target) <= 3 * tolerance
}

impl RGB {
    pub fn new(r: u8, g: u8, b: u8) -> (c: RGB)
        ensures
            c == (RGB { r, g, b }),
    {
        RGB { r, g, b }
    }

    pub fn squared_distance_to(&self, other: &RGB) -> (d: i32)
        ensures
            d == squared_distance(*self, *other),
    {
        let dr: i32 = self.r as i32 - other.r as i32;
        let dg: i32 = self.g as i32 - other.g as i32;
        let db: i32 = self.b as i32 - other.b as i32;
        assert(dr * dr <= 255 * 255) by (nonlinear_arith)
            requires
                -255 <= dr <= 255,
        ;
        assert(dg * dg <= 255 * 255) by (nonlinear_arith)
            requires
                -255 <= dg <= 255,
        ;
        assert(db * db <= 255 * 255) by (nonlinear_arith)
            requires
                -255 <= db <= 255,
        ;
        assert(0 <= dr * dr && 0 <= dg * dg && 0 <= db * db) by (nonlinear_arith);
        dr * dr + dg * dg + db * db
    }
}

fn channel_gap(a: u8, b: u8) -> (d: i32)
    ensures
        d == abs(a - b),
{
    if a >= b {
        (a - b) as i32
    } else {
        (b - a) as i32
    }
}

/// Compares a sampled color with a target: true exactly when the sum of
/// the absolute channel differences is at most `3 * max_deviation`, so a
/// deviation of 0 asks for an exact match and a negative one matches nothing.
pub fn color_check_one_by_one(color: RGB, target_color: RGB, max_deviation: i32) -> (ok: bool)
    ensures
        ok == within_tolerance(color, target_color, max_deviation as int),
{
    let distance: i64 = channel_gap(color.r, target_color.r) as i64 + channel_gap(
        color.g,
        target_color.g,
    ) as i64 + channel_gap(color.b, target_color.b) as i64;
    distance <= max_deviation as i64 * 3
}

/// Compares a sampled color with a target written `r,g,b`; a target that
/// does not read never matches.
pub fn check_color_distance(rgb: &str, sampled: RGB, deviation: i32) -> (ok: bool)
    ensures
        ok == match rgb_of(rgb@) {
            Some(target) => within_tolerance(sampled, target, deviation as int),
            None => false,
        },
{
    match parse_rgb(rgb) {
        Some(target) => color_check_one_by_one(sampled, target, deviation),
        None => false,
    }
}

/// A sampled color equal to its target matches at tolerance 0; moving one
/// channel by one breaks that match, and keeps it at any tolerance of at
/// least 1 (a distance of 1 is at most 3 times the tolerance).
pub proof fn lemma_one_step_off(target: RGB, sampled: RGB, tolerance: int)
    requires
        tolerance >= 1,
        (abs(sampled.r - target.r) == 1 && sampled.g == target.g && sampled.b == target.b) || (abs(
            sampled.g - target.g,
        ) == 1 && sampled.r == target.r && sampled.b == target.b) || (abs(sampled.b - target.b) == 1
            && sampled.r == target.r && sampled.g == target.g),
    ensures
        within_tolerance(target, target, 0),
        !within_tolerance(sampled, target, 0),
        within_tolerance(sampled, target, tolerance),
{
}

} // verus!
