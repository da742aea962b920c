use vstd::arithmetic::div_mod::{
    lemma_div_by_multiple, lemma_mod_division_less_than_divisor, lemma_mod_multiples_basic,
    lemma_mod_sub_multiples_vanish, lemma_small_mod,
};
use vstd::arithmetic::mul::{lemma_mul_inequality, lemma_mul_strict_inequality};
use vstd::prelude::*;

use crate::errors::ConfigError;
use crate::symbol::{names_match, Symbol, SymbolV};

verus! {

/// Height of one symbol cell, in the scroll units `current_offset` and
/// `target_offset` are measured in.
pub const SYMBOL_HEIGHT: u64 = 100;

/// Number of symbols visible at once on a column.
pub const VISIBLE_WINDOW: usize = 3;

/// One animated reel column: a long circular symbol sequence plus the scroll
/// offset that selects the visible window. Index `i` of the visible window
/// shows `reel_symbols[(current_offset / symbol_height + i) % len]`.
pub struct SlotColumn {
    pub reel_symbols: Vec<Symbol>,
    pub current_offset: u64,
    pub target_offset: u64,
    pub is_spinning: bool,
    pub symbol_height: u64,
    pub column: usize,
}

impl SlotColumn {
    /// The circular symbol sequence.
    pub open spec fn buf(&self) -> Seq<SymbolV> {
        self.reel_symbols.deep_view()
    }

    /// One full turn of the column, in scroll units.
    pub open spec fn max_offset(&self) -> int {
        self.buf().len() * self.symbol_height
    }

    /// A column is well formed when the buffer is at least as long as the
    /// visible window, the symbol height is positive, both offsets lie within
    /// one turn, and a turn is small enough that offset arithmetic cannot
    /// overflow.
    pub open spec fn wf(&self) -> bool {
        &&& self.buf().len() >= VISIBLE_WINDOW
        &&& self.symbol_height >= 1
        &&& 2 * self.max_offset() <= u64::MAX
        &&& self.current_offset < self.max_offset()
        &&& self.target_offset < self.max_offset()
    }

    /// Builds a resting column, rejecting a buffer shorter than the visible
    /// window as a configuration error.
    pub fn new(symbols: Vec<Symbol>, column_index: usize) -> (r: Result<SlotColumn, ConfigError>)
        requires
            2 * symbols@.len() * SYMBOL_HEIGHT <= u64::MAX,
        ensures
            r is Ok <==> symbols@.len() >= VISIBLE_WINDOW,
            symbols@.len() < VISIBLE_WINDOW ==> r == Err::<SlotColumn, ConfigError>(
                ConfigError::BufferTooShort,
            ),
            r is Ok ==> ({
                let c = r->Ok_0;
                &&& c.wf()
                &&& c.buf() == symbols.deep_view()
                &&& c.current_offset == 0
                &&& c.target_offset == 0
                &&& !c.is_spinning
                &&& c.symbol_height == SYMBOL_HEIGHT
                &&& c.column == column_index
            }),
    {
        if symbols.len() < VISIBLE_WINDOW {
            return Err(ConfigError::BufferTooShort);
        }
        let c = SlotColumn {
            reel_symbols: symbols,
            current_offset: 0,
            target_offset: 0,
            is_spinning: false,
            symbol_height: SYMBOL_HEIGHT,
            column: column_index,
        };
        proof {
            lemma_mul_strict_inequality(0, c.buf().len() as int, SYMBOL_HEIGHT as int);
        }
        Ok(c)
    }
}

impl Clone for SlotColumn {
    fn clone(&self) -> (c: SlotColumn)
        ensures
            c.buf() == self.buf(),
            c.current_offset == self.current_offset,
            c.target_offset == self.target_offset,
            c.is_spinning == self.is_spinning,
            c.symbol_height == self.symbol_height,
            c.column == self.column,
    {
        SlotColumn {
            reel_symbols: crate::symbol::clone_symbols(&self.reel_symbols),
            current_offset: self.current_offset,
            target_offset: self.target_offset,
            is_spinning: self.is_spinning,
            symbol_height: self.symbol_height,
            column: self.column,
        }
    }
}

/// A long circular reel built by cycling a base symbol list.
pub fn generate_circular_reel(base_symbols: &Vec<Symbol>, reel_length: usize) -> (reel: Vec<
    Symbol,
>)
    requires
        base_symbols@.len() > 0,
    ensures
        reel.deep_view().len() == reel_length,
        forall|i: int|
            0 <= i < reel_length ==> #[trigger] reel.deep_view()[i] == base_symbols.deep_view()[i
                % (base_symbols@.len() as int)],
{
    let n = base_symbols.len();
    let mut reel: Vec<Symbol> = Vec::new();
    let mut i: usize = 0;
    while i < reel_length
        invariant
            i <= reel_length,
            n == base_symbols@.len(),
            n > 0,
            reel.deep_view().len() == i,
            forall|k: int|
                0 <= k < i ==> #[trigger] reel.deep_view()[k] == base_symbols.deep_view()[k
                    % (n as int)],
        decreases reel_length - i,
    {
        let idx = i % n;
        let s = base_symbols[idx].clone();
        let ghost reel_before = reel.deep_view();
        reel.push(s);
        proof {
            assert(forall|k: int|
                0 <= k < reel_before.len() ==> #[trigger] reel.deep_view()[k] == reel_before[k]);
            assert(reel.deep_view()[i as int] == base_symbols.deep_view()[idx as int]);
        }
        i += 1;
    }
    reel
}

/// `(s + i) % l`, computed without overflow.
fn wrap_add(s: usize, i: usize, l: usize) -> (r: usize)
    requires
        s < l,
        i < l,
    ensures
        r == (s + i) % (l as int),
        r < l,
{
    if i < l - s {
        proof {
            lemma_small_mod((s + i) as nat, l as nat);
        }
        s + i
    } else {
        proof {
            lemma_mod_sub_multiples_vanish((s + i) as int, l as int);
            lemma_small_mod((s + i - l) as nat, l as nat);
        }
        i - (l - s)
    }
}

/// The number of visible-window positions actually compared for a target of
/// the given length: at most the window size.
pub open spec fn window_len(target_len: int) -> int {
    if target_len < VISIBLE_WINDOW {
        target_len
    } else {
        VISIBLE_WINDOW as int
    }
}

/// Window position `i` of a window starting at `s` shows a symbol named like
/// `target[i]`.
pub open spec fn pos_matches(buf: Seq<SymbolV>, target: Seq<SymbolV>, s: int, i: int) -> bool {
    buf[(s + i) % (buf.len() as int)].name == target[i].name
}

/// How many of the first `k` window positions match the target, for a window
/// starting at `s`.
pub open spec fn match_count_upto(buf: Seq<SymbolV>, target: Seq<SymbolV>, s: int, k: int) -> int
    decreases k,
{
    if k <= 0 {
        0
    } else {
        match_count_upto(buf, target, s, k - 1) + if pos_matches(buf, target, s, k - 1) {
            1int
        } else {
            0int
        }
    }
}

/// How many positions of the compared window match the target, for a window
/// starting at `s`.
pub open spec fn match_count(buf: Seq<SymbolV>, target: Seq<SymbolV>, s: int) -> int {
    match_count_upto(buf, target, s, window_len(target.len() as int))
}

/// The window starting at `s` reproduces the target exactly (by name), over
/// the whole compared window.
pub open spec fn window_shows(buf: Seq<SymbolV>, target: Seq<SymbolV>, s: int) -> bool {
    forall|i: int| 0 <= i < window_len(target.len() as int) ==> pos_matches(buf, target, s, i)
}

proof fn lemma_match_count_upto_bounds(buf: Seq<SymbolV>, target: Seq<SymbolV>, s: int, k: int)
    requires
        k >= 0,
    ensures
        0 <= match_count_upto(buf, target, s, k) <= k,
        match_count_upto(buf, target, s, k) == k <==> (forall|i: int|
            0 <= i < k ==> pos_matches(buf, target, s, i)),
    decreases k,
{
    if k > 0 {
        lemma_match_count_upto_bounds(buf, target, s, k - 1);
    }
}

/// Law: a window position has a full match count exactly when it reproduces
/// the whole compared window.
pub proof fn lemma_full_match_count(buf: Seq<SymbolV>, target: Seq<SymbolV>, s: int)
    ensures
        0 <= match_count(buf, target, s) <= window_len(target.len() as int),
        match_count(buf, target, s) == window_len(target.len() as int) <==> window_shows(
            buf,
            target,
            s,
        ),
{
    lemma_match_count_upto_bounds(buf, target, s, window_len(target.len() as int));
}

/// The search phase: scans every start position of the circular buffer and
/// returns the first position with the greatest match count, stopping early
/// at the first perfect match.
fn find_best_position(symbols: &Vec<Symbol>, target: &Vec<Symbol>) -> (best: (usize, usize))
    requires
        symbols@.len() >= VISIBLE_WINDOW,
        target@.len() >= 1,
    ensures
        ({
            let buf = symbols.deep_view();
            let tgt = target.deep_view();
            &&& (best.0 as int) < buf.len()
            &&& best.1 == match_count(buf, tgt, best.0 as int)
            &&& best.1 <= window_len(tgt.len() as int)
            &&& forall|p: int| 0 <= p < buf.len() ==> match_count(buf, tgt, p) <= best.1
            &&& forall|p: int| 0 <= p < best.0 ==> match_count(buf, tgt, p) < best.1
        }),
{
    let ghost buf = symbols.deep_view();
    let ghost tgt = target.deep_view();
    let l = symbols.len();
    let m = if target.len() < VISIBLE_WINDOW {
        target.len()
    } else {
        VISIBLE_WINDOW
    };
    let mut best_s: usize = 0;
    let mut best_cnt: usize = 0;
    let mut s: usize = 0;
    while s < l
        invariant
            buf == symbols.deep_view(),
            tgt == target.deep_view(),
            l == buf.len(),
            l >= VISIBLE_WINDOW,
            tgt.len() >= 1,
            m == window_len(tgt.len() as int),
            m <= target@.len(),
            s <= l,
            best_s < l,
            best_cnt <= m,
            best_cnt > 0 ==> best_cnt == match_count(buf, tgt, best_s as int),
            best_cnt == 0 ==> best_s == 0,
            forall|p: int| 0 <= p < s ==> match_count(buf, tgt, p) <= best_cnt,
            forall|p: int| 0 <= p < best_s ==> match_count(buf, tgt, p) < best_cnt,
        decreases l - s,
    {
        let mut cnt: usize = 0;
        let mut i: usize = 0;
        while i < m
            invariant
                buf == symbols.deep_view(),
                tgt == target.deep_view(),
                l == buf.len(),
                l >= VISIBLE_WINDOW,
                m <= VISIBLE_WINDOW,
                m <= target@.len(),
                s < l,
                i <= m,
                cnt <= i,
                cnt == match_count_upto(buf, tgt, s as int, i as int),
            decreases m - i,
        {
            let idx = wrap_add(s, i, l);
            if names_match(&symbols[idx], &target[i]) {
                proof {
                    assert(pos_matches(buf, tgt, s as int, i as int));
                }
                cnt += 1;
            } else {
                proof {
                    assert(!pos_matches(buf, tgt, s as int, i as int));
                }
            }
            i += 1;
        }
        if cnt > best_cnt {
            best_cnt = cnt;
            best_s = s;
        }
        if cnt == m {
            proof {
                assert forall|p: int| 0 <= p < l implies match_count(buf, tgt, p) <= best_cnt by {
                    lemma_match_count_upto_bounds(buf, tgt, p, m as int);
                }
            }
            return (best_s, best_cnt);
        }
        s += 1;
    }
    proof {
        if best_cnt == 0 {
            lemma_match_count_upto_bounds(buf, tgt, 0, m as int);
        }
    }
    (best_s, best_cnt)
}

/// The reconciliation step: repositions the column so that its visible
/// window reproduces `target`.
///
/// The search phase scans the circular buffer for the start position with
/// the most name matches (first-found on ties, stopping at a perfect match).
/// If a perfect run exists the buffer is left untouched and the offset is
/// moved there — so a buffer that already contains the target never gets
/// spliced. Otherwise the fallback phase overwrites one window of the buffer
/// with the target symbols at a pseudo-random splice position and moves the
/// offset there, so afterwards the visible window equals the target exactly.
/// Both offsets are set to the same rest position, so subsequent ticks do
/// not animate past it. An empty target is a no-op.
pub fn position_reel_to_show_symbols(column: &mut SlotColumn, target: &Vec<Symbol>)
    requires
        old(column).wf(),
    ensures
        final(column).wf(),
        final(column).symbol_height == old(column).symbol_height,
        final(column).column == old(column).column,
        final(column).is_spinning == old(column).is_spinning,
        final(column).buf().len() == old(column).buf().len(),
        target@.len() == 0 ==> *final(column) == *old(column),
        target@.len() > 0 ==> ({
            let start = final(column).current_offset as int / final(column).symbol_height as int;
            &&& final(column).target_offset == final(column).current_offset
            &&& final(column).current_offset as int % final(column).symbol_height as int == 0
            &&& 0 <= start < final(column).buf().len()
            &&& window_shows(final(column).buf(), target.deep_view(), start)
        }),
        (exists|s: int|
            0 <= s < old(column).buf().len() && window_shows(
                old(column).buf(),
                target.deep_view(),
                s,
            )) ==> final(column).reel_symbols@ == old(column).reel_symbols@,
        target@.len() > 0 && (exists|s: int|
            0 <= s < old(column).buf().len() && window_shows(
                old(column).buf(),
                target.deep_view(),
                s,
            )) ==> (forall|s2: int|
            0 <= s2 < final(column).current_offset as int / final(column).symbol_height as int
                ==> !window_shows(old(column).buf(), target.deep_view(), s2)),
        target@.len() > 0 && !(exists|s: int|
            0 <= s < old(column).buf().len() && window_shows(
                old(column).buf(),
                target.deep_view(),
                s,
            )) ==> ({
            let start = final(column).current_offset as int / final(column).symbol_height as int;
            let m = window_len(target@.len() as int);
            &&& start + m <= final(column).buf().len()
            &&& forall|i: int|
                0 <= i < m ==> final(column).buf()[start + i] == target.deep_view()[i]
            &&& forall|j: int|
                0 <= j < final(column).buf().len() && !(start <= j < start + m)
                    ==> final(column).buf()[j] == old(column).buf()[j]
        }),
{
    if target.len() == 0 {
        return ;
    }
    let ghost old_buf = old(column).buf();
    let ghost tgt = target.deep_view();
    let l = column.reel_symbols.len();
    let h = column.symbol_height;
    let m = if target.len() < VISIBLE_WINDOW {
        target.len()
    } else {
        VISIBLE_WINDOW
    };
    let (best_s, best_cnt) = find_best_position(&column.reel_symbols, target);
    if best_cnt == m {
        proof {
            lemma_full_match_count(old_buf, tgt, best_s as int);
            assert forall|s2: int| 0 <= s2 < best_s as int implies !window_shows(
                old_buf,
                tgt,
                s2,
            ) by {
                lemma_full_match_count(old_buf, tgt, s2);
            }
            lemma_mul_inequality(best_s as int, l as int - 1, h as int);
            lemma_mul_strict_inequality(l as int - 1, l as int, h as int);
            lemma_div_by_multiple(best_s as int, h as int);
            lemma_mod_multiples_basic(best_s as int, h as int);
        }
        let off = (best_s as u64) * h;
        column.current_offset = off;
        column.target_offset = off;
    } else {
        proof {
            assert forall|s: int| 0 <= s < l implies !window_shows(old_buf, tgt, s) by {
                lemma_full_match_count(old_buf, tgt, s);
            }
        }
        let p = if l > VISIBLE_WINDOW {
            crate::rng::random_below(l - VISIBLE_WINDOW)
        } else {
            0
        };
        let mut i: usize = 0;
        while i < m
            invariant
                tgt == target.deep_view(),
                l == column.buf().len(),
                h == column.symbol_height,
                m == window_len(tgt.len() as int),
                m <= target@.len(),
                p + m <= l,
                i <= m,
                column.current_offset == old(column).current_offset,
                column.target_offset == old(column).target_offset,
                column.is_spinning == old(column).is_spinning,
                column.symbol_height == old(column).symbol_height,
                column.column == old(column).column,
                old(column).wf(),
                forall|j: int|
                    0 <= j < l && !(p <= j < p + i) ==> #[trigger] column.buf()[j] == old_buf[j],
                forall|k: int| 0 <= k < i ==> #[trigger] column.buf()[p + k] == tgt[k],
            decreases m - i,
        {
            let s = target[i].clone();
            let ghost buf_before = column.buf();
            column.reel_symbols[p + i] = s;
            proof {
                assert(forall|j: int|
                    0 <= j < l && j != p + i ==> #[trigger] column.buf()[j] == buf_before[j]);
                assert(column.buf()[(p + i) as int] == tgt[i as int]);
            }
            i += 1;
        }
        proof {
            lemma_mul_inequality(p as int, l as int - 1, h as int);
            lemma_mul_strict_inequality(l as int - 1, l as int, h as int);
            lemma_div_by_multiple(p as int, h as int);
            lemma_mod_multiples_basic(p as int, h as int);
        }
        let off = (p as u64) * h;
        column.current_offset = off;
        column.target_offset = off;
        proof {
            assert forall|i: int|
                0 <= i < window_len(tgt.len() as int) implies pos_matches(
                column.buf(),
                tgt,
                p as int,
                i,
            ) by {
                lemma_small_mod((p + i) as nat, l as nat);
                assert(column.buf()[p + i] == tgt[i]);
            }
        }
    }
}

/// The symbols currently visible on the column: `visible_count` consecutive
/// symbols of the circular buffer, starting at the window position the
/// current offset selects.
pub fn get_visible_symbols_for_column(column: &SlotColumn, visible_count: usize) -> (v: Vec<
    Symbol,
>)
    requires
        column.wf(),
        visible_count <= column.buf().len(),
    ensures
        v.deep_view().len() == visible_count,
        forall|i: int|
            0 <= i < visible_count ==> #[trigger] v.deep_view()[i] == column.buf()[((
            column.current_offset as int / column.symbol_height as int) % (
            column.buf().len() as int) + i) % (column.buf().len() as int)],
{
    let ghost buf = column.buf();
    let l = column.reel_symbols.len();
    let start64 = (column.current_offset / column.symbol_height) % (l as u64);
    proof {
        lemma_mod_division_less_than_divisor(
            (column.current_offset / column.symbol_height) as int,
            l as int,
        );
    }
    let start = start64 as usize;
    let mut v: Vec<Symbol> = Vec::new();
    let mut i: usize = 0;
    while i < visible_count
        invariant
            buf == column.buf(),
            l == buf.len(),
            start < l,
            start == (column.current_offset as int / column.symbol_height as int) % (l as int),
            visible_count <= l,
            i <= visible_count,
            v.deep_view().len() == i,
            forall|k: int|
                0 <= k < i ==> #[trigger] v.deep_view()[k] == buf[(start + k) % (l as int)],
        decreases visible_count - i,
    {
        let idx = wrap_add(start, i, l);
        let s = column.reel_symbols[idx].clone();
        let ghost v_before = v.deep_view();
        v.push(s);
        proof {
            assert(forall|k: int|
                0 <= k < v_before.len() ==> #[trigger] v.deep_view()[k] == v_before[k]);
            assert(v.deep_view()[i as int] == buf[(start + i) % (l as int)]);
        }
        i += 1;
    }
    v
}

/// One tick of the scrolling motion: advances the offset by `delta` scroll
/// units and wraps it at the end of the circular buffer.
pub fn advance_offset(column: &mut SlotColumn, delta: u64)
    requires
        old(column).wf(),
        delta <= old(column).max_offset(),
    ensures
        final(column).wf(),
        final(column).current_offset as int == (old(column).current_offset + delta) % old(
            column,
        ).max_offset(),
        final(column).reel_symbols@ == old(column).reel_symbols@,
        final(column).target_offset == old(column).target_offset,
        final(column).is_spinning == old(column).is_spinning,
        final(column).symbol_height == old(column).symbol_height,
        final(column).column == old(column).column,
{
    let l = column.reel_symbols.len();
    let max = (l as u64) * column.symbol_height;
    let sum = column.current_offset + delta;
    if sum >= max {
        proof {
            lemma_mod_sub_multiples_vanish(sum as int, max as int);
            lemma_small_mod((sum - max) as nat, max as nat);
        }
        column.current_offset = sum - max;
    } else {
        proof {
            lemma_small_mod(sum as nat, max as nat);
        }
        column.current_offset = sum;
    }
}

/// The remaining scroll distance from the current offset forward to the
/// target offset, around the circular buffer (a full turn when the offsets
/// coincide, as in the original motion model).
pub fn distance_to_target(column: &SlotColumn) -> (d: u64)
    requires
        column.wf(),
    ensures
        column.target_offset > column.current_offset ==> d == column.target_offset
            - column.current_offset,
        column.target_offset <= column.current_offset ==> d as int == column.max_offset()
            - column.current_offset + column.target_offset,
{
    let l = column.reel_symbols.len();
    let max = (l as u64) * column.symbol_height;
    if column.target_offset > column.current_offset {
        column.target_offset - column.current_offset
    } else {
        (max - column.current_offset) + column.target_offset
    }
}

} // verus!
