//! Scores a rating token and picks the reaction that goes with the score.
//!
//! A score counts half stars, so that every rating is a whole number: a full
//! star glyph is worth two, and a half star glyph anywhere in the token adds
//! one.

use vstd::prelude::*;
use crate::text::chars_of;
use crate::title::{FULL_STAR, HALF_STAR};

verus! {

/// What a rating token is worth: its full stars, and whether half a star is
/// added to them.
#[derive(Clone, Copy, Debug, PartialEq, Eq, Structural)]
pub struct Score {
    pub full_stars: usize,
    pub half_star: bool,
}

/// The reaction that a score earns.
#[derive(Clone, Copy, Debug, PartialEq, Eq, Structural)]
pub enum Reaction {
    /// Five stars.
    Top,
    /// Four stars or more.
    High,
    /// Three stars or more.
    Mid,
    /// Two stars or more.
    Low,
    /// More than nothing.
    Bottom,
    /// No stars at all.
    Unknown,
}

/// The number of full star glyphs in `s`.
pub open spec fn full_stars_in(s: Seq<char>) -> nat
    decreases s.len(),
{
    if s.len() == 0 {
        0
    } else {
        full_stars_in(s.drop_last()) + if s.last() == FULL_STAR {
            1nat
        } else {
            0nat
        }
    }
}

/// The score of a rating token, in half stars.
pub open spec fn half_stars_of(s: Seq<char>) -> nat {
    2 * full_stars_in(s) + if s.contains(HALF_STAR) {
        1nat
    } else {
        0nat
    }
}

/// The reaction for a score given in half stars. The first rule that applies
/// decides.
pub open spec fn reaction_for(half_stars: nat) -> Reaction {
    if half_stars == 10 {
        Reaction::Top
    } else if half_stars >= 8 {
        Reaction::High
    } else if half_stars >= 6 {
        Reaction::Mid
    } else if half_stars >= 4 {
        Reaction::Low
    } else if half_stars > 0 {
        Reaction::Bottom
    } else {
        Reaction::Unknown
    }
}

/// The symbol that stands for a reaction in the digest.
pub open spec fn symbol_of(reaction: Reaction) -> Seq<char> {
    match reaction {
        Reaction::Top => "🤩"@,
        Reaction::High => "🔥"@,
        Reaction::Mid => "🙂"@,
        Reaction::Low => "😐"@,
        Reaction::Bottom => "🤮"@,
        Reaction::Unknown => "🤔"@,
    }
}

/// The empty token, and no other token of rating glyphs, scores nothing.
pub proof fn lemma_zero_score(s: Seq<char>)
    requires
        crate::title::all_glyphs(s),
    ensures
        half_stars_of(s) == 0 <==> s.len() == 0,
{
    if s.len() > 0 {
        if s.last() == HALF_STAR {
            assert(s.contains(HALF_STAR));
        } else {
            assert(s.last() == FULL_STAR);
        }
    } else {
        assert(!s.contains(HALF_STAR));
    }
}

impl Score {
    /// The score in half stars.
    pub open spec fn half_stars(self) -> nat {
        2 * (self.full_stars as nat) + if self.half_star {
            1nat
        } else {
            0nat
        }
    }

    /// The reaction that this score earns.
    pub fn reaction(&self) -> (r: Reaction)
        ensures
            r == reaction_for(self.half_stars()),
    {
        if self.full_stars == 5 && !self.half_star {
            Reaction::Top
        } else if self.full_stars >= 4 {
            Reaction::High
        } else if self.full_stars >= 3 {
            Reaction::Mid
        } else if self.full_stars >= 2 {
            Reaction::Low
        } else if self.full_stars >= 1 || self.half_star {
            Reaction::Bottom
        } else {
            Reaction::Unknown
        }
    }
}

impl Reaction {
    /// The symbol that stands for this reaction in the digest.
    pub fn symbol(&self) -> (r: &'static str)
        ensures
            r@ == symbol_of(*self),
    {
        match self {
            Reaction::Top => "🤩",
            Reaction::High => "🔥",
            Reaction::Mid => "🙂",
            Reaction::Low => "😐",
            Reaction::Bottom => "🤮",
            Reaction::Unknown => "🤔",
        }
    }
}

/// Scores a rating token: its full star glyphs, and whether a half star glyph
/// occurs in it.
pub fn calculate_score(raw: &str) -> (score: Score)
    ensures
        score.full_stars == full_stars_in(raw@),
        score.half_star == raw@.contains(HALF_STAR),
        score.half_stars() == half_stars_of(raw@),
{
    let chars = chars_of(raw);
    let n: usize = chars.len();
    let mut full_stars: usize = 0;
    let mut half_star = false;
    let mut i: usize = 0;
    while i < n
        invariant
            i <= n,
            n == chars@.len(),
            full_stars == full_stars_in(chars@.take(i as int)),
            full_stars <= i,
            half_star == chars@.take(i as int).contains(HALF_STAR),
        decreases n - i,
    {
        let c = chars[i];
        proof {
            let before = chars@.take(i as int);
            let after = chars@.take(i + 1);
            assert(after.drop_last() =~= before);
            assert(after.last() == c);
            if before.contains(HALF_STAR) {
                let j = choose|j: int| 0 <= j < before.len() && before[j] == HALF_STAR;
                assert(after[j] == HALF_STAR);
            }
            if after.contains(HALF_STAR) && c != HALF_STAR {
                let j = choose|j: int| 0 <= j < after.len() && after[j] == HALF_STAR;
                assert(before[j] == HALF_STAR);
            }
        }
        if c == FULL_STAR {
            full_stars += 1;
        }
        if c == HALF_STAR {
            half_star = true;
        }
        i += 1;
    }
    assert(chars@.take(n as int) =~= chars@);
    Score { full_stars, half_star }
}

/// The reaction symbol for a score.
pub fn get_reaction_emoji(score: Score) -> (symbol: &'static str)
    ensures
        symbol@ == symbol_of(reaction_for(score.half_stars())),
{
    score.reaction().symbol()
}

} // verus!
