use vstd::prelude::*;

use crate::machine::SlotMachine;
use crate::scoring::{lemma_total_payout_nonneg, spec_total_payout, total_payout};
use crate::symbol::Symbol;
use crate::wins::{grid_wf, lemma_wins_sound, spec_wins, WinningLine};

verus! {

/// The whole session state of one player at one machine: the pool balance,
/// the current bet, the outcome of the last spin, and the spinning flag that
/// serializes spins (a spin request while one is running is a no-op).
pub struct GameState {
    pub slot_machine: SlotMachine,
    pub player_pool: u64,
    pub current_bet: u64,
    pub last_grid: Option<Vec<Vec<Symbol>>>,
    pub last_wins: Vec<WinningLine>,
    pub is_spinning: bool,
    pub last_win_amount: u64,
    pub has_recent_win: bool,
}

/// `post` differs from `pre` in the bet alone.
pub open spec fn only_bet_changed(pre: GameState, post: GameState) -> bool {
    &&& post.slot_machine == pre.slot_machine
    &&& post.player_pool == pre.player_pool
    &&& post.last_grid == pre.last_grid
    &&& post.last_wins == pre.last_wins
    &&& post.is_spinning == pre.is_spinning
    &&& post.last_win_amount == pre.last_win_amount
    &&& post.has_recent_win == pre.has_recent_win
}

impl GameState {
    pub fn new(slot_machine: SlotMachine, player_pool: u64, current_bet: u64) -> (g: GameState)
        ensures
            g.slot_machine == slot_machine,
            g.player_pool == player_pool,
            g.current_bet == current_bet,
            g.last_grid is None,
            g.last_wins@.len() == 0,
            !g.is_spinning,
            g.last_win_amount == 0,
            !g.has_recent_win,
    {
        GameState {
            slot_machine,
            player_pool,
            current_bet,
            last_grid: None,
            last_wins: Vec::new(),
            is_spinning: false,
            last_win_amount: 0,
            has_recent_win: false,
        }
    }

    /// Starts a spin if none is running and the pool covers the bet: debits
    /// the bet and raises the spinning flag. Anything else is a no-op, and
    /// the call reports whether the spin started.
    pub fn try_start_spin(&mut self) -> (started: bool)
        ensures
            started == (!old(self).is_spinning && old(self).player_pool >= old(
                self,
            ).current_bet),
            started ==> ({
                &&& final(self).player_pool == old(self).player_pool - old(self).current_bet
                &&& final(self).is_spinning
                &&& final(self).slot_machine == old(self).slot_machine
                &&& final(self).current_bet == old(self).current_bet
                &&& final(self).last_grid == old(self).last_grid
                &&& final(self).last_wins == old(self).last_wins
                &&& final(self).last_win_amount == old(self).last_win_amount
                &&& final(self).has_recent_win == old(self).has_recent_win
            }),
            !started ==> *final(self) == *old(self),
    {
        if !self.is_spinning && self.player_pool >= self.current_bet {
            self.player_pool = self.player_pool - self.current_bet;
            self.is_spinning = true;
            true
        } else {
            false
        }
    }

    /// Sets the bet to `amount` clamped to `[1, pool]`. Ignored while a spin
    /// is running.
    pub fn set_bet(&mut self, amount: u64)
        requires
            old(self).is_spinning || old(self).player_pool >= 1,
        ensures
            old(self).is_spinning ==> *final(self) == *old(self),
            !old(self).is_spinning ==> ({
                &&& final(self).current_bet == (if amount < 1 {
                    1u64
                } else if amount > old(self).player_pool {
                    old(self).player_pool
                } else {
                    amount
                })
                &&& only_bet_changed(*old(self), *final(self))
            }),
    {
        if self.is_spinning {
            return ;
        }
        if amount < 1 {
            self.current_bet = 1;
        } else if amount > self.player_pool {
            self.current_bet = self.player_pool;
        } else {
            self.current_bet = amount;
        }
    }

    /// Raises the bet by one unit, capped at the pool. Ignored while a spin
    /// is running.
    pub fn bet_up(&mut self)
        ensures
            old(self).is_spinning ==> *final(self) == *old(self),
            !old(self).is_spinning ==> ({
                &&& final(self).current_bet == (if old(self).current_bet + 1 <= old(
                    self,
                ).player_pool {
                    old(self).current_bet + 1
                } else {
                    old(self).player_pool as int
                })
                &&& only_bet_changed(*old(self), *final(self))
            }),
    {
        if !self.is_spinning {
            if self.current_bet < self.player_pool {
                self.current_bet = self.current_bet + 1;
            } else {
                self.current_bet = self.player_pool;
            }
        }
    }

    /// Lowers the bet by one unit, floored at one. Ignored while a spin is
    /// running.
    pub fn bet_down(&mut self)
        ensures
            old(self).is_spinning ==> *final(self) == *old(self),
            !old(self).is_spinning ==> ({
                &&& final(self).current_bet == (if old(self).current_bet <= 1 {
                    1u64
                } else {
                    (old(self).current_bet - 1) as u64
                })
                &&& only_bet_changed(*old(self), *final(self))
            }),
    {
        if !self.is_spinning {
            if self.current_bet <= 1 {
                self.current_bet = 1;
            } else {
                self.current_bet = self.current_bet - 1;
            }
        }
    }

    /// Resolves a finished spin on its final grid: detects the winning
    /// lines, credits their total payout to the pool (the payout only adds;
    /// the bet was debited at spin start), records the outcome, and clears
    /// the spinning flag. With no winning line the pool and the last win
    /// amount stay, and only the recent-win flag drops.
    pub fn conclude_spin(&mut self, grid: Vec<Vec<Symbol>>)
        requires
            old(self).is_spinning,
            grid_wf(grid.deep_view()),
            old(self).player_pool + spec_total_payout(
                spec_wins(grid.deep_view()),
                old(self).current_bet as int,
            ) <= u64::MAX,
        ensures
            !final(self).is_spinning,
            final(self).slot_machine == old(self).slot_machine,
            final(self).current_bet == old(self).current_bet,
            final(self).last_grid == Some(grid),
            final(self).last_wins.deep_view() == spec_wins(grid.deep_view()),
            final(self).player_pool >= old(self).player_pool,
            spec_wins(grid.deep_view()).len() > 0 ==> ({
                &&& final(self).player_pool == old(self).player_pool + spec_total_payout(
                    spec_wins(grid.deep_view()),
                    old(self).current_bet as int,
                )
                &&& final(self).last_win_amount == spec_total_payout(
                    spec_wins(grid.deep_view()),
                    old(self).current_bet as int,
                )
                &&& final(self).has_recent_win
            }),
            spec_wins(grid.deep_view()).len() == 0 ==> ({
                &&& final(self).player_pool == old(self).player_pool
                &&& final(self).last_win_amount == old(self).last_win_amount
                &&& !final(self).has_recent_win
            }),
    {
        let wins = self.slot_machine.check_wins(&grid);
        proof {
            lemma_wins_sound(grid.deep_view());
            lemma_total_payout_nonneg(wins.deep_view(), self.current_bet as int);
        }
        if wins.len() > 0 {
            let total = total_payout(&wins, self.current_bet);
            self.player_pool = self.player_pool + total;
            self.last_win_amount = total;
            self.has_recent_win = true;
        } else {
            self.has_recent_win = false;
        }
        self.last_wins = wins;
        self.last_grid = Some(grid);
        self.is_spinning = false;
    }
}

} // verus!
