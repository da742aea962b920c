use vstd::arithmetic::mul::lemma_mul_nonnegative;
use vstd::prelude::*;

use crate::wins::{WinLineV, WinningLine};

verus! {

/// The payout of one winning line for a given bet: the first symbol's
/// multiplier times the bet, plus the first symbol's flat addition. Using the
/// first symbol alone is valid because every symbol of a winning line shares
/// its name (see `lemma_wins_sound`).
pub open spec fn spec_line_payout(l: WinLineV, bet: int) -> int {
    l.symbols[0].multiplier * bet + l.symbols[0].addition
}

/// The total payout of a list of winning lines: the sum of their line
/// payouts.
pub open spec fn spec_total_payout(ls: Seq<WinLineV>, bet: int) -> int
    decreases ls.len(),
{
    if ls.len() == 0 {
        0
    } else {
        spec_total_payout(ls.drop_last(), bet) + spec_line_payout(ls.last(), bet)
    }
}

/// Law: a line payout is never negative.
pub proof fn lemma_line_payout_nonneg(l: WinLineV, bet: int)
    requires
        bet >= 0,
    ensures
        spec_line_payout(l, bet) >= 0,
{
    lemma_mul_nonnegative(l.symbols[0].multiplier as int, bet);
}

/// Law: a total payout is never negative, which is what makes `update_pool`
/// additive-only.
pub proof fn lemma_total_payout_nonneg(ls: Seq<WinLineV>, bet: int)
    requires
        bet >= 0,
    ensures
        spec_total_payout(ls, bet) >= 0,
    decreases ls.len(),
{
    if ls.len() > 0 {
        lemma_total_payout_nonneg(ls.drop_last(), bet);
        lemma_line_payout_nonneg(ls.last(), bet);
    }
}

proof fn lemma_total_take_step(ls: Seq<WinLineV>, bet: int, k: int)
    requires
        0 <= k < ls.len(),
    ensures
        spec_total_payout(ls.take(k + 1), bet) == spec_total_payout(ls.take(k), bet)
            + spec_line_payout(ls[k], bet),
{
    assert(ls.take(k + 1).drop_last() =~= ls.take(k));
    assert(ls.take(k + 1).last() == ls[k]);
}

proof fn lemma_total_prefix_bound(ls: Seq<WinLineV>, bet: int, k: int)
    requires
        0 <= k <= ls.len(),
        bet >= 0,
    ensures
        spec_total_payout(ls.take(k), bet) <= spec_total_payout(ls, bet),
    decreases ls.len() - k,
{
    if k < ls.len() {
        lemma_total_take_step(ls, bet, k);
        lemma_line_payout_nonneg(ls[k], bet);
        lemma_total_prefix_bound(ls, bet, k + 1);
    } else {
        assert(ls.take(k) =~= ls);
    }
}

/// Law: the line payout is linear in the bet. Doubling the bet doubles the
/// multiplier term while the flat addition stays, so
/// `payout(2 * bet) == 2 * payout(bet) - addition`.
pub proof fn lemma_line_payout_linear(l: WinLineV, bet: int)
    ensures
        spec_line_payout(l, 2 * bet) == 2 * spec_line_payout(l, bet) - l.symbols[0].addition,
{
    assert(l.symbols[0].multiplier * (2 * bet) == 2 * (l.symbols[0].multiplier * bet))
        by (nonlinear_arith);
}

/// The payout of one winning line for the given bet.
pub fn line_payout(line: &WinningLine, bet: u64) -> (p: u64)
    requires
        line.deep_view().symbols.len() > 0,
        spec_line_payout(line.deep_view(), bet as int) <= u64::MAX,
    ensures
        p == spec_line_payout(line.deep_view(), bet as int),
{
    proof {
        lemma_mul_nonnegative(line.deep_view().symbols[0].multiplier as int, bet as int);
        assert(line.symbols@[0].deep_view() == line.deep_view().symbols[0]);
    }
    let s = &line.symbols[0];
    s.multiplier * bet + s.addition
}

/// The total payout of the winning lines for the given bet.
pub fn total_payout(wins: &Vec<WinningLine>, bet: u64) -> (t: u64)
    requires
        forall|i: int|
            0 <= i < wins.deep_view().len() ==> (#[trigger] wins.deep_view()[i]).symbols.len()
                > 0,
        spec_total_payout(wins.deep_view(), bet as int) <= u64::MAX,
    ensures
        t == spec_total_payout(wins.deep_view(), bet as int),
{
    let ghost ws = wins.deep_view();
    let n = wins.len();
    let mut t: u64 = 0;
    let mut i: usize = 0;
    while i < n
        invariant
            i <= n,
            n == ws.len(),
            ws == wins.deep_view(),
            forall|k: int| 0 <= k < ws.len() ==> (#[trigger] ws[k]).symbols.len() > 0,
            spec_total_payout(ws, bet as int) <= u64::MAX,
            t == spec_total_payout(ws.take(i as int), bet as int),
        decreases n - i,
    {
        proof {
            lemma_total_take_step(ws, bet as int, i as int);
            lemma_total_prefix_bound(ws, bet as int, i as int + 1);
            lemma_total_payout_nonneg(ws.take(i as int), bet as int);
            lemma_line_payout_nonneg(ws[i as int], bet as int);
            assert(wins@[i as int].deep_view() == ws[i as int]);
        }
        let p = line_payout(&wins[i], bet);
        t = t + p;
        i += 1;
    }
    proof {
        assert(ws.take(n as int) =~= ws);
    }
    t
}

/// Credits the total payout of `wins` to the pool. This operation only adds:
/// the bet is debited separately when the spin starts, never here, so the
/// pool after the call is the pool before plus the total payout and never
/// decreases.
pub fn update_pool(current_pool: &mut u64, wins: &Vec<WinningLine>, bet: u64)
    requires
        forall|i: int|
            0 <= i < wins.deep_view().len() ==> (#[trigger] wins.deep_view()[i]).symbols.len()
                > 0,
        *old(current_pool) + spec_total_payout(wins.deep_view(), bet as int) <= u64::MAX,
    ensures
        *final(current_pool) == *old(current_pool) + spec_total_payout(
            wins.deep_view(),
            bet as int,
        ),
        *final(current_pool) >= *old(current_pool),
{
    proof {
        lemma_total_payout_nonneg(wins.deep_view(), bet as int);
    }
    let payout = total_payout(wins, bet);
    *current_pool = *current_pool + payout;
}

} // verus!
