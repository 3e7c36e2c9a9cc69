//! The scoring formula: base score, time bonus, difficulty multiplier and
//! streak bonus for one answer.

use vstd::prelude::*;

verus! {

/// Difficulty code of an easy question.
pub const DIFFICULTY_EASY: u8 = 0;

/// Difficulty code of a medium question.
pub const DIFFICULTY_MEDIUM: u8 = 1;

/// Difficulty code of a hard question.
pub const DIFFICULTY_HARD: u8 = 2;

/// Points for a correct answer before bonuses and multiplier.
pub const BASE_SCORE: u64 = 100;

/// The largest time bonus, earned by an instant answer.
pub const MAX_TIME_BONUS: u64 = 50;

/// Points per streak step once a streak reaches two.
pub const STREAK_STEP: u64 = 10;

/// Clamps a mathematical integer to the `u64` range from above.
pub open spec fn cap_u64(x: int) -> int {
    if x > u64::MAX as int {
        u64::MAX as int
    } else {
        x
    }
}

/// Adds two counters, stopping at the largest `u64`.
pub fn saturating_sum(a: u64, b: u64) -> (r: u64)
    ensures
        r == cap_u64(a + b),
{
    if a > u64::MAX - b {
        u64::MAX
    } else {
        a + b
    }
}

/// Difficulty multiplier, on a percentage scale; unknown codes count as easy.
pub open spec fn multiplier_spec(difficulty: u8) -> int {
    if difficulty == DIFFICULTY_MEDIUM {
        150
    } else if difficulty == DIFFICULTY_HARD {
        200
    } else {
        100
    }
}

/// Bonus for answering before the time limit, linear in the time left.
pub open spec fn time_bonus_spec(response_time: int, time_limit: int) -> int {
    if response_time >= time_limit {
        0
    } else {
        (time_limit - response_time) * 50 / time_limit
    }
}

/// Base score plus time bonus, scaled by the difficulty multiplier.
pub open spec fn raw_points_spec(correct: bool, response_time: int, time_limit: int, difficulty: u8) -> int {
    ((if correct { 100int } else { 0int }) + time_bonus_spec(response_time, time_limit))
        * multiplier_spec(difficulty) / 100
}

/// The streak after an answer: one longer when correct, reset otherwise.
pub open spec fn new_streak_spec(correct: bool, prior_streak: int) -> int {
    if correct {
        prior_streak + 1
    } else {
        0
    }
}

/// Ten points per streak step for a correct answer that extends a streak to two or more.
pub open spec fn streak_bonus_spec(correct: bool, prior_streak: int) -> int {
    let s = new_streak_spec(correct, prior_streak);
    if correct && s >= 2 {
        s * 10
    } else {
        0
    }
}

/// Points earned by one answer.
pub open spec fn points_spec(
    correct: bool,
    response_time: int,
    time_limit: int,
    difficulty: u8,
    prior_streak: int,
) -> int {
    raw_points_spec(correct, response_time, time_limit, difficulty) + streak_bonus_spec(correct, prior_streak)
}

/// What one answer earns, and the streak it leaves behind.
#[derive(Clone, Copy, Debug, PartialEq, Eq, Structural)]
pub struct AnswerScore {
    pub points: u64,
    pub new_streak: u64,
}

/// The difficulty multiplier of a difficulty code.
pub fn difficulty_multiplier(difficulty: u8) -> (r: u64)
    ensures
        r == multiplier_spec(difficulty),
{
    if difficulty == DIFFICULTY_MEDIUM {
        150
    } else if difficulty == DIFFICULTY_HARD {
        200
    } else {
        100
    }
}

/// The time bonus for an answer given `response_time` seconds after the
/// question opened, under a limit of `time_limit` seconds.
pub fn time_bonus(response_time: u64, time_limit: u64) -> (r: u64)
    ensures
        r == time_bonus_spec(response_time as int, time_limit as int),
        r <= MAX_TIME_BONUS,
{
    if response_time >= time_limit {
        0
    } else {
        let left = (time_limit - response_time) as u128;
        let limit = time_limit as u128;
        proof {
            assert(left * 50 <= limit * 50) by (nonlinear_arith)
                requires
                    left <= limit,
            ;
            assert((left * 50) as int / (limit as int) <= 50) by (nonlinear_arith)
                requires
                    left <= limit,
                    limit > 0,
            ;
        }
        let b = (left * 50) / limit;
        b as u64
    }
}

/// Scores one answer. Counters that would pass the largest `u64` stop there.
pub fn calculate_points(
    correct: bool,
    response_time: u64,
    time_limit: u64,
    difficulty: u8,
    prior_streak: u64,
) -> (r: AnswerScore)
    ensures
        r.points == cap_u64(
            points_spec(correct, response_time as int, time_limit as int, difficulty, prior_streak as int),
        ),
        r.new_streak == cap_u64(new_streak_spec(correct, prior_streak as int)),
{
    let base: u64 = if correct {
        BASE_SCORE
    } else {
        0
    };
    let bonus = time_bonus(response_time, time_limit);
    let mult = difficulty_multiplier(difficulty);
    proof {
        assert((base + bonus) * mult <= 150 * 200) by (nonlinear_arith)
            requires
                base + bonus <= 150,
                mult <= 200,
        ;
    }
    let raw: u64 = (base + bonus) * mult / 100;
    let streak: u128 = if correct {
        prior_streak as u128 + 1
    } else {
        0
    };
    let streak_bonus: u128 = if correct && streak >= 2 {
        streak * 10
    } else {
        0
    };
    let total: u128 = raw as u128 + streak_bonus;
    let points: u64 = if total > u64::MAX as u128 {
        u64::MAX
    } else {
        total as u64
    };
    let new_streak: u64 = if streak > u64::MAX as u128 {
        u64::MAX
    } else {
        streak as u64
    };
    AnswerScore { points, new_streak }
}

} // verus!
