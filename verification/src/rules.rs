//! The rules in numbers: what cleared rows are worth, how many rows a level
//! takes, and how long a piece rests before gravity moves it.
use vstd::prelude::*;
use crate::game::{max, min, Game_State, FRAMES_PER_DROP, TICKS_PER_FRAME};

verus! {

/// The longest rest that gravity allows a piece, in ticks: 48 frames.
pub const LONGEST_WAIT: u64 = 2400;

/// What `count` rows cleared at once are worth on level `level`. Only one
/// to four rows score.
pub open spec fn points_for(level: int, count: int) -> int {
    if count == 1 {
        40 * (level + 1)
    } else if count == 2 {
        100 * (level + 1)
    } else if count == 3 {
        300 * (level + 1)
    } else if count == 4 {
        1200 * (level + 1)
    } else {
        0
    }
}

/// How many rows must be cleared to leave the level on which the game
/// started.
pub open spec fn first_level_up_limit(start_level: int) -> int {
    vstd::math::min(start_level * 10 + 10, vstd::math::max(100, start_level * 10 - 50))
}

/// How many rows must be cleared in all to leave level `level`, in a game
/// that started on `start_level`.
pub open spec fn lines_for_next_level(start_level: int, level: int) -> int {
    if level == start_level {
        first_level_up_limit(start_level)
    } else {
        first_level_up_limit(start_level) + (level - start_level) * 10
    }
}

/// The threshold of `level` can be computed in 32 bits.
pub open spec fn threshold_fits(start_level: int, level: int) -> bool {
    &&& start_level * 10 + 10 <= i32::MAX
    &&& i32::MIN <= (level - start_level) * 10 <= i32::MAX
    &&& i32::MIN <= lines_for_next_level(start_level, level) <= i32::MAX
}

/// How many frames a piece rests on `level`. Levels below 0 count as 0,
/// levels above 29 as 29.
pub open spec fn frames_per_drop(level: int) -> int {
    FRAMES_PER_DROP@[if level < 0 {
        0
    } else if level > 29 {
        29
    } else {
        level
    }] as int
}

/// How many ticks a piece rests on `level`.
pub open spec fn drop_interval(level: int) -> int {
    frames_per_drop(level) * TICKS_PER_FRAME
}

/// A piece rests at least one frame and at most forty-eight.
pub proof fn lemma_drop_interval_bounds(level: int)
    ensures
        TICKS_PER_FRAME <= drop_interval(level) <= LONGEST_WAIT,
{
    let i = if level < 0 {
        0
    } else if level > 29 {
        29
    } else {
        level
    };
    assert(1 <= FRAMES_PER_DROP@[i] <= 48) by {
        if i < 8 {
            assert(FRAMES_PER_DROP@[i] >= 13);
        } else if i < 16 {
            assert(FRAMES_PER_DROP@[i] >= 4);
        } else if i < 24 {
            assert(FRAMES_PER_DROP@[i] >= 2);
        } else {
            assert(FRAMES_PER_DROP@[i] >= 1);
        }
    }
}

impl Game_State {
    /// How long the falling piece rests before gravity moves it, in ticks.
    pub fn get_time_to_next_drop(&self) -> (ticks: u64)
        requires
            self@.wf(),
        ensures
            ticks == drop_interval(self@.level),
    {
        let faux_level: i32 = if self.level > 29 {
            29
        } else {
            self.level
        };
        return FRAMES_PER_DROP[faux_level as usize] as u64 * TICKS_PER_FRAME;
    }

    /// What `line_count` rows cleared at once are worth on the current
    /// level.
    pub fn compute_points(&self, line_count: i32) -> (points: i32)
        requires
            self@.wf(),
            points_for(self@.level, line_count as int) <= i32::MAX,
        ensures
            points == points_for(self@.level, line_count as int),
    {
        match line_count {
            1 => {
                return 40 * (self.level + 1);
            },
            2 => {
                return 100 * (self.level + 1);
            },
            3 => {
                return 300 * (self.level + 1);
            },
            4 => {
                return 1200 * (self.level + 1);
            },
            _ => {},
        }
        return 0;
    }

    /// How many rows must be cleared in all to leave level `level`.
    pub fn get_lines_for_next_level(&self, level: i32) -> (lines: i32)
        requires
            self@.wf(),
            threshold_fits(self@.start_level, level as int),
        ensures
            lines == lines_for_next_level(self@.start_level, level as int),
    {
        let first_level_up_limit: i32 = min(
            self.start_level * 10 + 10,
            max(100, self.start_level * 10 - 50),
        );
        if level == self.start_level {
            return first_level_up_limit;
        }
        let diff: i32 = level - self.start_level;
        return first_level_up_limit + diff * 10;
    }
}

} // verus!
