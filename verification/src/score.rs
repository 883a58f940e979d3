//! The session score and the append-only high-score history.

use vstd::prelude::*;

verus! {

use crate::events::GameOver;

/// A sum clipped to the largest score value.
pub open spec fn sat_u32(v: int) -> int {
    if v > u32::MAX {
        u32::MAX as int
    } else {
        v
    }
}

/// The running score of the current game session. It resets to zero when a
/// new game starts and grows by one per collected star.
pub struct Score {
    pub value: u32,
}

impl Score {
    /// A zero score.
    pub fn new() -> (r: Score)
        ensures
            r.value == 0,
    {
        Score { value: 0 }
    }

    /// One collected star: one more point, clipped at the largest value.
    pub fn increment(&mut self)
        ensures
            final(self).value == sat_u32(old(self).value + 1),
    {
        if self.value < u32::MAX {
            self.value = self.value + 1;
        }
    }

    /// A fresh game starts from zero.
    pub fn reset(&mut self)
        ensures
            final(self).value == 0,
    {
        self.value = 0;
    }
}

/// The append-only list of `(label, score)` pairs, one entry per completed
/// game. It is never reset while the process runs.
pub struct HighScores {
    pub scores: Vec<(String, u32)>,
}

impl HighScores {
    /// An empty history.
    pub fn new() -> (r: HighScores)
        ensures
            r.scores@.len() == 0,
    {
        HighScores { scores: Vec::new() }
    }

    /// Appends one entry for a finished game: the fixed player label and the
    /// final score the game-over signal carries. Earlier entries are kept
    /// unchanged.
    pub fn update_high_scores(&mut self, event: &GameOver)
        ensures
            final(self).scores@.len() == old(self).scores@.len() + 1,
            forall|i: int|
                0 <= i < old(self).scores@.len() ==> final(self).scores@[i] == old(
                    self,
                ).scores@[i],
            final(self).scores@.last().1 == event.score,
            final(self).scores@.last().0@ == "Player"@,
    {
        self.scores.push(("Player".to_owned(), event.score));
    }

    /// How many games have finished so far.
    pub fn len(&self) -> (r: usize)
        ensures
            r == self.scores@.len(),
    {
        self.scores.len()
    }
}

} // verus!
