//! Score algebra: win/draw probability pairs in fixed-point arithmetic and
//! the saturating accumulator used on tree edges.

use vstd::prelude::*;

verus! {

/// Fixed-point denominator for probabilities: a chance of 1.0 is `SCORE_UNIT`
/// units, so every chance lives in `0 ..= SCORE_UNIT`.
pub const SCORE_UNIT: u16 = 256;

/// Half of `SCORE_UNIT`, the scalar value of a pure draw.
pub const SCORE_HALF: u16 = 128;

/// A `(win_chance, draw_chance)` pair from the side-to-move's perspective,
/// in units of `1 / SCORE_UNIT`. The loss chance is implicit:
/// `loss = SCORE_UNIT - win - draw`.
#[derive(Clone, Copy, PartialEq, Eq, Structural, Debug)]
pub struct Score {
    pub win: u16,
    pub draw: u16,
}

impl Score {
    /// A score is meaningful when win and draw chances sum to at most one.
    pub open spec fn wf(self) -> bool {
        self.win + self.draw <= SCORE_UNIT
    }

    /// The score after swapping perspective: we win where the opponent loses.
    pub open spec fn spec_reversed(self) -> Score {
        Score { win: (SCORE_UNIT - self.win - self.draw) as u16, draw: self.draw }
    }

    /// Ranking scalar `2*win + draw`, i.e. `win + draw/2` in units of
    /// `1 / (2*SCORE_UNIT)`.
    pub open spec fn spec_scalar(self) -> int {
        2 * self.win + self.draw
    }

    pub fn new(win: u16, draw: u16) -> (s: Score)
        requires
            win + draw <= SCORE_UNIT,
        ensures
            s == (Score { win, draw }),
            s.wf(),
    {
        Score { win, draw }
    }

    /// The certain-win constant.
    pub fn won() -> (s: Score)
        ensures
            s == (Score { win: SCORE_UNIT, draw: 0u16 }),
            s.wf(),
    {
        Score { win: SCORE_UNIT, draw: 0 }
    }

    /// The certain-loss constant.
    pub fn lost() -> (s: Score)
        ensures
            s == (Score { win: 0u16, draw: 0u16 }),
            s.wf(),
    {
        Score { win: 0, draw: 0 }
    }

    /// The certain-draw constant.
    pub fn drawn() -> (s: Score)
        ensures
            s == (Score { win: 0u16, draw: SCORE_UNIT }),
            s.wf(),
    {
        Score { win: 0, draw: SCORE_UNIT }
    }

    /// Swap perspective: `win' = 1 - win - draw`, `draw' = draw`.
    pub fn reversed(self) -> (r: Score)
        requires
            self.wf(),
        ensures
            r == self.spec_reversed(),
            r.wf(),
    {
        Score { win: SCORE_UNIT - self.win - self.draw, draw: self.draw }
    }

    /// A raw `(win, draw)` pair clipped into a well-formed score: the draw
    /// chance is capped at one, then the win chance at what room is left.
    pub open spec fn spec_sanitized(win: u16, draw: u16) -> Score {
        let d = if draw <= SCORE_UNIT {
            draw
        } else {
            SCORE_UNIT
        };
        let w = if win <= SCORE_UNIT - d {
            win
        } else {
            (SCORE_UNIT - d) as u16
        };
        Score { win: w, draw: d }
    }

    /// Clip an untrusted `(win, draw)` pair, e.g. an evaluation handed in by
    /// the value network collaborator, into a well-formed score.
    pub fn sanitized(win: u16, draw: u16) -> (s: Score)
        ensures
            s == Score::spec_sanitized(win, draw),
            s.wf(),
    {
        let d = if draw <= SCORE_UNIT {
            draw
        } else {
            SCORE_UNIT
        };
        let w = if win <= SCORE_UNIT - d {
            win
        } else {
            SCORE_UNIT - d
        };
        Score { win: w, draw: d }
    }

    /// Ranking scalar `2*win + draw`; a draw scores exactly `SCORE_UNIT`.
    pub fn scalar(self) -> (r: u32)
        ensures
            r == self.spec_scalar(),
    {
        2 * (self.win as u32) + (self.draw as u32)
    }
}

/// Law: reversing perspective twice gives back the original score, bit for bit.
pub proof fn lemma_reversed_involution(s: Score)
    requires
        s.wf(),
    ensures
        s.spec_reversed().spec_reversed() == s,
{
}

/// Sum of scores folded into an edge during backpropagation. Each component
/// saturates at `u64::MAX` instead of wrapping.
#[derive(Clone, Copy, PartialEq, Eq, Structural, Debug)]
pub struct ScoreSum {
    pub win: u64,
    pub draw: u64,
}

impl ScoreSum {
    pub open spec fn spec_zero() -> ScoreSum {
        ScoreSum { win: 0, draw: 0 }
    }

    /// The sum with one more score folded in, saturating per component.
    pub open spec fn spec_add(self, s: Score) -> ScoreSum {
        ScoreSum {
            win: if self.win + s.win <= u64::MAX { (self.win + s.win) as u64 } else { u64::MAX },
            draw: if self.draw + s.draw <= u64::MAX {
                (self.draw + s.draw) as u64
            } else {
                u64::MAX
            },
        }
    }

    pub fn zero() -> (z: ScoreSum)
        ensures
            z == ScoreSum::spec_zero(),
    {
        ScoreSum { win: 0, draw: 0 }
    }

    /// Fold one score into the running totals, saturating per component.
    pub fn add(&mut self, s: Score)
        ensures
            *final(self) == old(self).spec_add(s),
    {
        self.win = self.win.saturating_add(s.win as u64);
        self.draw = self.draw.saturating_add(s.draw as u64);
    }
}

} // verus!
