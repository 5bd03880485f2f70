//! Score vectors and the clamped arithmetic used to combine them.
//!
//! A score has four components: points for the question itself, a manual
//! bonus, a derived speed bonus, and an independent manual override. Totals
//! and per-team aggregates are sums of `i32` components; to keep every
//! operation panic-free the sums are clamped to the `i32` range, which
//! coincides with the plain sum whenever that sum is representable.

use vstd::prelude::*;

verus! {

/// The mathematical sum of `a` and `b` clamped to the `i32` range.
pub open spec fn clamp_i32(v: int) -> int {
    if v > i32::MAX as int {
        i32::MAX as int
    } else if v < i32::MIN as int {
        i32::MIN as int
    } else {
        v
    }
}

/// `i32` addition that saturates at the ends of the range instead of
/// overflowing.
pub fn add_clamped(a: i32, b: i32) -> (r: i32)
    ensures
        r as int == clamp_i32(a as int + b as int),
{
    let wide: i64 = a as i64 + b as i64;
    if wide > i32::MAX as i64 {
        i32::MAX
    } else if wide < i32::MIN as i64 {
        i32::MIN
    } else {
        wide as i32
    }
}

/// One score vector, used both for a single answer and for a team's running
/// totals.
#[derive(Debug, Clone, Copy, PartialEq, Eq, Structural)]
pub struct ScoreData {
    pub question_points: i32,
    pub bonus_points: i32,
    pub speed_bonus_points: i32,
    pub override_points: i32,
}

/// The total of a score vector: the four components summed, clamped to the
/// `i32` range.
pub open spec fn spec_total(s: ScoreData) -> int {
    clamp_i32(
        clamp_i32(
            clamp_i32(s.question_points as int + s.bonus_points as int) + s.speed_bonus_points
                as int,
        ) + s.override_points as int,
    )
}

impl ScoreData {
    /// The zero score.
    pub fn new() -> (r: ScoreData)
        ensures
            r == (ScoreData {
                question_points: 0,
                bonus_points: 0,
                speed_bonus_points: 0,
                override_points: 0,
            }),
    {
        ScoreData { question_points: 0, bonus_points: 0, speed_bonus_points: 0, override_points: 0 }
    }

    /// The total score: question points plus both bonuses plus the override,
    /// clamped to the `i32` range.
    pub fn get_score(&self) -> (r: i32)
        ensures
            r as int == spec_total(*self),
    {
        let a = add_clamped(self.question_points, self.bonus_points);
        let b = add_clamped(a, self.speed_bonus_points);
        add_clamped(b, self.override_points)
    }
}

} // verus!
