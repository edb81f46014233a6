use vstd::prelude::*;

verus! {

/// How many lives a new play session starts with.
pub const DEFAULT_PLAYER_STOCK: i64 = 3;

/// Bound on the total score; bonuses are tiny next to it, so adding
/// one can never overflow.
pub const SCORE_LIMIT: i64 = 0x4000_0000_0000_0000;

/// The external counters that destruction decisions feed: the score
/// and the remaining player stock.
#[derive(Clone, Copy, PartialEq, Eq, Structural, Debug)]
pub struct Score {
    pub score: i64,
    pub player_stock: i64,
}

impl Score {
    pub fn new() -> (r: Score)
        ensures
            r.score == 0,
            r.player_stock == DEFAULT_PLAYER_STOCK,
    {
        Score { score: 0, player_stock: DEFAULT_PLAYER_STOCK }
    }

    /// Awards `score_diff` points.
    pub fn add_score(&mut self, score_diff: i64)
        requires
            0 <= score_diff,
            0 <= old(self).score,
            old(self).score + score_diff <= SCORE_LIMIT,
        ensures
            final(self).score == old(self).score + score_diff,
            final(self).player_stock == old(self).player_stock,
    {
        self.score = self.score + score_diff;
    }

    /// The player was hit by an enemy bullet: one stock is consumed
    /// if any is left, and the result says whether the player
    /// survives (some stock remains after the hit).
    pub fn on_hit_enemy_bullet(&mut self) -> (survives: bool)
        ensures
            final(self).score == old(self).score,
            final(self).player_stock == if old(self).player_stock > 0 {
                old(self).player_stock - 1
            } else {
                old(self).player_stock as int
            },
            survives == (final(self).player_stock > 0),
    {
        if self.player_stock > 0 {
            self.player_stock = self.player_stock - 1;
        }
        self.player_stock > 0
    }
}

} // verus!
