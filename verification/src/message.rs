//! Message records as the core sees them.
//!
//! The storage and transport layers deal in timestamps, UUIDs and floating
//! point positions; the core works on plain integers.  A position is held in
//! whole units, an id as the 128-bit value of its UUID, and every time as
//! minutes since a fixed epoch.

use vstd::prelude::*;

verus! {

/// A newly authored message, as handed to the core by the write endpoint.
///
/// The composition engine reads the pack id and the chosen indices; the
/// remaining fields ride along to storage untouched.
pub struct Message {
    pub territory: u32,
    pub x: i32,
    pub y: i32,
    pub z: i32,
    pub yaw: i32,
    pub pack_id: u128,
    pub template_1: usize,
    pub word_1_list: Option<usize>,
    pub word_1_word: Option<usize>,
    pub conjunction: Option<usize>,
    pub template_2: Option<usize>,
    pub word_2_list: Option<usize>,
    pub word_2_word: Option<usize>,
    pub glyph: i8,
}

/// The glyph a message shows when its author picked none.
pub fn glyph_default() -> (g: i8)
    ensures
        g == 3,
{
    3
}

/// A stored message retrieved for display: a candidate for the sampler.
pub struct RetrievedMessage {
    pub id: u128,
    pub x: i32,
    pub y: i32,
    pub z: i32,
    pub yaw: i32,
    pub message: String,
    pub positive_votes: i32,
    pub negative_votes: i32,
    pub user_vote: i64,
    pub glyph: i64,
    /// Creation time, in minutes since the epoch.
    pub created_minutes: i64,
    /// Id of the author.
    pub user: i64,
    /// Minutes since the author was last seen active.
    pub last_seen_minutes: i64,
}

/// Vote score floored at zero: the weighting input the sampler uses.
pub open spec fn spec_score(positive: i32, negative: i32) -> int {
    if positive - negative > 0 {
        positive - negative
    } else {
        0
    }
}

/// Vote score of a message, floored at zero.
pub fn score(positive: i32, negative: i32) -> (s: i64)
    ensures
        s == spec_score(positive, negative),
{
    let diff: i64 = positive as i64 - negative as i64;
    if diff > 0 {
        diff
    } else {
        0
    }
}

/// Whether a message's raw vote score falls below the hide threshold.
///
/// The raw difference is used here, not the floored score: a negative
/// threshold is meant to forgive a few downvotes.
pub fn is_hidden(positive: i32, negative: i32, vote_threshold_hide: i32) -> (h: bool)
    ensures
        h == (positive - negative < vote_threshold_hide),
{
    (positive as i64 - negative as i64) < vote_threshold_hide as i64
}

impl RetrievedMessage {
    /// Vote score of this message, floored at zero.
    pub open spec fn spec_score(self) -> int {
        spec_score(self.positive_votes, self.negative_votes)
    }

    /// Minutes per week, the bonus a message's age is reduced by for each
    /// point of vote score.
    pub open spec fn minutes_per_week() -> int {
        7int * 24 * 60
    }

    /// Age of this message in minutes, reduced by one week per point of
    /// vote score: well-received messages are treated as younger.
    ///
    /// The bounds on the two clock readings keep the arithmetic inside
    /// `i64`; they admit any time within millions of years of the epoch.
    pub fn adjusted_time_since_posting(&self, now_minutes: i64) -> (adjusted: i64)
        requires
            -0x2000_0000_0000 <= now_minutes <= 0x2000_0000_0000,
            -0x2000_0000_0000 <= self.created_minutes <= 0x2000_0000_0000,
        ensures
            adjusted == now_minutes - self.created_minutes - self.spec_score()
                * Self::minutes_per_week(),
    {
        let s: i64 = score(self.positive_votes, self.negative_votes);
        assert(0 <= s < 0x1_0000_0000);
        assert(Self::minutes_per_week() == 10080);
        now_minutes - self.created_minutes - s * 10080
    }
}

} // verus!
