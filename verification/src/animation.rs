use vstd::prelude::*;

use crate::aligner::{
    generate_circular_reel, position_reel_to_show_symbols, window_shows, SlotColumn,
    SYMBOL_HEIGHT, VISIBLE_WINDOW,
};
use crate::symbol::{clone_symbols, Symbol, SymbolV};

verus! {

/// No two symbols of the list share a name.
pub open spec fn distinct_names(s: Seq<SymbolV>) -> bool {
    forall|i: int, j: int|
        0 <= i < s.len() && 0 <= j < s.len() && i != j ==> (#[trigger] s[i]).name
            != (#[trigger] s[j]).name
}

/// Draws one target column for a reel: three symbols picked at random from
/// the base catalog without replacement, so that a column never shows one
/// symbol twice when the catalog names are distinct.
pub fn draw_target_column(base: &Vec<Symbol>) -> (col: Vec<Symbol>)
    requires
        base@.len() >= VISIBLE_WINDOW,
    ensures
        col.deep_view().len() == VISIBLE_WINDOW,
        forall|i: int|
            0 <= i < col.deep_view().len() ==> base.deep_view().contains(
                #[trigger] col.deep_view()[i],
            ),
        distinct_names(base.deep_view()) ==> distinct_names(col.deep_view()),
{
    let ghost base_dv = base.deep_view();
    let mut avail = clone_symbols(base);
    let mut col: Vec<Symbol> = Vec::new();
    let mut k: usize = 0;
    while k < VISIBLE_WINDOW
        invariant
            base_dv == base.deep_view(),
            base_dv.len() >= VISIBLE_WINDOW,
            k <= VISIBLE_WINDOW,
            col.deep_view().len() == k,
            avail.deep_view().len() == base_dv.len() - k,
            forall|i: int|
                0 <= i < k ==> base_dv.contains(#[trigger] col.deep_view()[i]),
            forall|j: int|
                0 <= j < avail.deep_view().len() ==> base_dv.contains(
                    #[trigger] avail.deep_view()[j],
                ),
            distinct_names(base_dv) ==> ({
                &&& distinct_names(col.deep_view())
                &&& distinct_names(avail.deep_view())
                &&& forall|i: int, j: int|
                    0 <= i < col.deep_view().len() && 0 <= j < avail.deep_view().len()
                        ==> (#[trigger] col.deep_view()[i]).name
                        != (#[trigger] avail.deep_view()[j]).name
            }),
        decreases VISIBLE_WINDOW - k,
    {
        let idx = crate::rng::random_below(avail.len());
        let ghost avail_before = avail.deep_view();
        let ghost col_before = col.deep_view();
        let s = avail.remove(idx);
        proof {
            assert(forall|j: int|
                0 <= j < idx ==> #[trigger] avail.deep_view()[j] == avail_before[j]);
            assert(forall|j: int|
                idx <= j < avail.deep_view().len() ==> #[trigger] avail.deep_view()[j]
                    == avail_before[j + 1]);
            assert(s.deep_view() == avail_before[idx as int]);
        }
        col.push(s);
        proof {
            assert(forall|i: int|
                0 <= i < col_before.len() ==> #[trigger] col.deep_view()[i] == col_before[i]);
            assert(col.deep_view()[k as int] == avail_before[idx as int]);
            if distinct_names(base_dv) {
                assert forall|i: int, j: int|
                    0 <= i < col.deep_view().len() && 0 <= j < col.deep_view().len() && i != j
                        implies (#[trigger] col.deep_view()[i]).name
                    != (#[trigger] col.deep_view()[j]).name by {
                    if i == k {
                        assert(col.deep_view()[j] == col_before[j]);
                    } else if j == k {
                        assert(col.deep_view()[i] == col_before[i]);
                    }
                }
                assert forall|i: int, j: int|
                    0 <= i < col.deep_view().len() && 0 <= j < avail.deep_view().len() implies (
                #[trigger] col.deep_view()[i]).name != (#[trigger] avail.deep_view()[j]).name by {
                    let jj = if j < idx {
                        j
                    } else {
                        j + 1
                    };
                    assert(avail.deep_view()[j] == avail_before[jj]);
                    if i == k {
                        assert(col.deep_view()[i] == avail_before[idx as int]);
                        assert(avail_before[idx as int].name != avail_before[jj].name);
                    }
                }
                assert forall|i: int, j: int|
                    0 <= i < avail.deep_view().len() && 0 <= j < avail.deep_view().len() && i != j
                        implies (#[trigger] avail.deep_view()[i]).name
                    != (#[trigger] avail.deep_view()[j]).name by {
                    let ii = if i < idx {
                        i
                    } else {
                        i + 1
                    };
                    let jj = if j < idx {
                        j
                    } else {
                        j + 1
                    };
                    assert(avail.deep_view()[i] == avail_before[ii]);
                    assert(avail.deep_view()[j] == avail_before[jj]);
                }
            }
        }
        k += 1;
    }
    col
}

/// The transposition between the two axes of the game: the animated columns
/// are per-reel (each a top-to-bottom symbol list), while win detection works
/// on a row-major grid. `grid[row][col] == columns[col][row]`.
pub fn columns_to_grid(columns: &Vec<Vec<Symbol>>, rows: usize) -> (g: Vec<Vec<Symbol>>)
    requires
        forall|c: int|
            0 <= c < columns@.len() ==> (#[trigger] columns.deep_view()[c]).len() == rows,
    ensures
        g.deep_view().len() == rows,
        forall|r: int| 0 <= r < rows ==> (#[trigger] g.deep_view()[r]).len() == columns@.len(),
        forall|r: int, c: int|
            0 <= r < rows && 0 <= c < columns@.len() ==> #[trigger] g.deep_view()[r][c]
                == columns.deep_view()[c][r],
{
    let ghost cs = columns.deep_view();
    let n = columns.len();
    let mut g: Vec<Vec<Symbol>> = Vec::new();
    let mut r: usize = 0;
    while r < rows
        invariant
            cs == columns.deep_view(),
            n == cs.len(),
            forall|c: int| 0 <= c < n ==> (#[trigger] cs[c]).len() == rows,
            r <= rows,
            g.deep_view().len() == r,
            forall|rr: int| 0 <= rr < r ==> (#[trigger] g.deep_view()[rr]).len() == n,
            forall|rr: int, c: int|
                0 <= rr < r && 0 <= c < n ==> #[trigger] g.deep_view()[rr][c] == cs[c][rr],
        decreases rows - r,
    {
        let mut row: Vec<Symbol> = Vec::new();
        let mut c: usize = 0;
        while c < n
            invariant
                cs == columns.deep_view(),
                n == cs.len(),
                forall|cc: int| 0 <= cc < n ==> (#[trigger] cs[cc]).len() == rows,
                r < rows,
                c <= n,
                row.deep_view().len() == c,
                forall|cc: int|
                    0 <= cc < c ==> #[trigger] row.deep_view()[cc] == cs[cc][r as int],
            decreases n - c,
        {
            proof {
                assert(columns@[c as int].deep_view() == cs[c as int]);
                assert(columns@[c as int]@.len() == cs[c as int].len());
            }
            let s = columns[c][r].clone();
            let ghost row_before = row.deep_view();
            row.push(s);
            proof {
                assert(forall|cc: int|
                    0 <= cc < row_before.len() ==> #[trigger] row.deep_view()[cc]
                        == row_before[cc]);
                assert(row.deep_view()[c as int] == cs[c as int][r as int]);
            }
            c += 1;
        }
        let ghost g_before = g.deep_view();
        g.push(row);
        proof {
            assert(forall|rr: int|
                0 <= rr < g_before.len() ==> #[trigger] g.deep_view()[rr] == g_before[rr]);
            assert(g.deep_view()[r as int] == row.deep_view());
        }
        r += 1;
    }
    g
}

/// The pre-determined outcome of a spin, column by column: entry `c` holds
/// the three symbols reel `c` must show, top to bottom.
pub struct TargetResults {
    pub grid: Vec<Vec<Symbol>>,
}

impl TargetResults {
    pub fn new(grid: Vec<Vec<Symbol>>) -> (t: TargetResults)
        ensures
            t.grid@ == grid@,
    {
        TargetResults { grid }
    }

    pub fn get(&self, column_index: usize) -> (r: Option<&Vec<Symbol>>)
        ensures
            r is Some <==> column_index < self.grid@.len(),
            r is Some ==> (r->0)@ == self.grid@[column_index as int]@,
    {
        if column_index < self.grid.len() {
            Some(&self.grid[column_index])
        } else {
            None
        }
    }
}

/// The per-spin animation state: which reel is scrolling, which reels have
/// stopped, the circular columns, and the target outcome each column must
/// come to rest on. Reels stop strictly in sequence, reel 0 first.
pub struct SlotAnimationState {
    pub is_animating: bool,
    pub current_spinning_reel: Option<usize>,
    pub columns: Vec<SlotColumn>,
    pub completed_reels: Vec<bool>,
    pub target_results: Vec<Vec<Symbol>>,
}

impl SlotAnimationState {
    pub open spec fn wf(&self) -> bool {
        &&& self.columns@.len() == self.completed_reels@.len()
        &&& self.columns@.len() == self.target_results@.len()
        &&& forall|i: int| 0 <= i < self.columns@.len() ==> (#[trigger] self.columns@[i]).wf()
        &&& match self.current_spinning_reel {
            Some(i) => self.is_animating && (i as int) < self.columns@.len(),
            None => true,
        }
    }

    /// A fresh idle state: nothing animating, no columns yet.
    pub fn new() -> (s: SlotAnimationState)
        ensures
            s.wf(),
            !s.is_animating,
            s.current_spinning_reel is None,
            s.columns@.len() == 0,
            s.completed_reels@.len() == 0,
            s.target_results@.len() == 0,
    {
        SlotAnimationState {
            is_animating: false,
            current_spinning_reel: None,
            columns: Vec::new(),
            completed_reels: Vec::new(),
            target_results: Vec::new(),
        }
    }

    /// Starts a spin animation: builds one fresh circular column per target
    /// column by cycling the base catalog, marks no reel completed, and sets
    /// the first reel scrolling.
    pub fn start_animation(
        &mut self,
        base_symbols: &Vec<Symbol>,
        targets: Vec<Vec<Symbol>>,
        reel_length: usize,
    )
        requires
            base_symbols@.len() > 0,
            targets@.len() > 0,
            reel_length >= VISIBLE_WINDOW,
            2 * reel_length * SYMBOL_HEIGHT <= u64::MAX,
        ensures
            final(self).wf(),
            final(self).is_animating,
            final(self).current_spinning_reel == Some(0usize),
            final(self).columns@.len() == targets@.len(),
            final(self).target_results@ == targets@,
            forall|i: int|
                0 <= i < targets@.len() ==> final(self).completed_reels@[i] == false,
            forall|i: int|
                0 <= i < targets@.len() ==> ({
                    let c = #[trigger] final(self).columns@[i];
                    &&& c.buf().len() == reel_length
                    &&& forall|j: int|
                        0 <= j < reel_length ==> c.buf()[j] == base_symbols.deep_view()[j % (
                        base_symbols@.len() as int)]
                    &&& c.current_offset == 0
                    &&& c.target_offset == 0
                    &&& c.is_spinning == (i == 0)
                    &&& c.symbol_height == SYMBOL_HEIGHT
                    &&& c.column == i
                }),
    {
        let n = targets.len();
        let mut columns: Vec<SlotColumn> = Vec::new();
        let mut completed: Vec<bool> = Vec::new();
        let mut i: usize = 0;
        while i < n
            invariant
                base_symbols@.len() > 0,
                reel_length >= VISIBLE_WINDOW,
                2 * reel_length * SYMBOL_HEIGHT <= u64::MAX,
                i <= n,
                columns@.len() == i,
                completed@.len() == i,
                forall|k: int| 0 <= k < i ==> (#[trigger] columns@[k]).wf(),
                forall|k: int| 0 <= k < i ==> completed@[k] == false,
                forall|k: int|
                    0 <= k < i ==> ({
                        let c = #[trigger] columns@[k];
                        &&& c.buf().len() == reel_length
                        &&& forall|j: int|
                            0 <= j < reel_length ==> c.buf()[j] == base_symbols.deep_view()[j % (
                            base_symbols@.len() as int)]
                        &&& c.current_offset == 0
                        &&& c.target_offset == 0
                        &&& c.is_spinning == (k == 0)
                        &&& c.symbol_height == SYMBOL_HEIGHT
                        &&& c.column == k
                    }),
            decreases n - i,
        {
            let reel = generate_circular_reel(base_symbols, reel_length);
            let c = SlotColumn {
                reel_symbols: reel,
                current_offset: 0,
                target_offset: 0,
                is_spinning: i == 0,
                symbol_height: SYMBOL_HEIGHT,
                column: i,
            };
            proof {
                vstd::arithmetic::mul::lemma_mul_strict_inequality(
                    0,
                    c.buf().len() as int,
                    SYMBOL_HEIGHT as int,
                );
            }
            columns.push(c);
            completed.push(false);
            i += 1;
        }
        self.columns = columns;
        self.completed_reels = completed;
        self.target_results = targets;
        self.current_spinning_reel = Some(0);
        self.is_animating = true;
    }

    /// Stops the reel that is currently scrolling: aligns its column to that
    /// reel's target (searching the buffer first, splicing only if no run
    /// matches), marks the reel completed, and either starts the next reel or
    /// ends the animation after the last one.
    pub fn stop_current_reel(&mut self)
        requires
            old(self).wf(),
            old(self).current_spinning_reel is Some,
        ensures
            final(self).wf(),
            final(self).columns@.len() == old(self).columns@.len(),
            final(self).target_results@ == old(self).target_results@,
            ({
                let i = old(self).current_spinning_reel->0 as int;
                let tgt = old(self).target_results.deep_view()[i];
                let n = old(self).columns@.len() as int;
                &&& final(self).completed_reels@ == old(self).completed_reels@.update(i, true)
                &&& forall|j: int|
                    0 <= j < n && j != i && j != i + 1 ==> final(self).columns@[j] == old(
                        self,
                    ).columns@[j]
                &&& !final(self).columns@[i].is_spinning
                &&& final(self).columns@[i].buf().len() == old(self).columns@[i].buf().len()
                &&& (tgt.len() > 0 ==> ({
                    let c = final(self).columns@[i];
                    let start = c.current_offset as int / c.symbol_height as int;
                    &&& c.target_offset == c.current_offset
                    &&& 0 <= start < c.buf().len()
                    &&& window_shows(c.buf(), tgt, start)
                }))
                &&& ((exists|s: int|
                    0 <= s < old(self).columns@[i].buf().len() && window_shows(
                        old(self).columns@[i].buf(),
                        tgt,
                        s,
                    )) ==> final(self).columns@[i].buf() == old(self).columns@[i].buf())
                &&& (if i + 1 < n {
                    &&& final(self).is_animating
                    &&& final(self).current_spinning_reel == Some((i + 1) as usize)
                    &&& final(self).columns@[i + 1].is_spinning
                    &&& final(self).columns@[i + 1].buf() == old(self).columns@[i + 1].buf()
                    &&& final(self).columns@[i + 1].current_offset == old(
                        self,
                    ).columns@[i + 1].current_offset
                    &&& final(self).columns@[i + 1].target_offset == old(
                        self,
                    ).columns@[i + 1].target_offset
                } else {
                    &&& !final(self).is_animating
                    &&& final(self).current_spinning_reel is None
                })
            }),
    {
        let i = self.current_spinning_reel.unwrap();
        let n = self.columns.len();
        proof {
            assert(i < n);
        }
        let target = clone_symbols(&self.target_results[i]);
        let mut col = self.columns[i].clone();
        position_reel_to_show_symbols(&mut col, &target);
        col.is_spinning = false;
        self.columns[i] = col;
        self.completed_reels[i] = true;
        if i + 1 < n {
            let mut next = self.columns[i + 1].clone();
            next.is_spinning = true;
            self.columns[i + 1] = next;
            self.current_spinning_reel = Some(i + 1);
        } else {
            self.current_spinning_reel = None;
            self.is_animating = false;
        }
    }
}

} // verus!
