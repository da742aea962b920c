use vstd::prelude::*;

use crate::machine::SlotMachine;
use crate::symbol::{clone_symbols, names_match, Symbol, SymbolV};

verus! {

/// Which line of the grid a win lies on. For diagonals, index 0 is
/// top-left to bottom-right and index 1 is top-right to bottom-left.
/// Vertical lines are never produced by `check_wins` (the animated reels are
/// circular, so vertical coincidences cannot occur); the variant exists for
/// grids drawn independently per cell.
#[derive(Clone, Copy, Debug, PartialEq, Eq, Structural)]
pub enum LineType {
    Horizontal(usize),
    Vertical(usize),
    Diagonal(usize),
}

/// A winning line: the symbols that matched, in line order, and where the
/// line lies.
pub struct WinningLine {
    pub symbols: Vec<Symbol>,
    pub line_type: LineType,
}

/// The mathematical image of a [`WinningLine`].
pub ghost struct WinLineV {
    pub symbols: Seq<SymbolV>,
    pub line_type: LineType,
}

impl DeepView for WinningLine {
    type V = WinLineV;

    open spec fn deep_view(&self) -> WinLineV {
        WinLineV { symbols: self.symbols.deep_view(), line_type: self.line_type }
    }
}

/// The grid shape win detection works on: non-empty and square (the row
/// count equals each row's length), which makes both diagonals well defined.
pub open spec fn grid_wf(g: Seq<Seq<SymbolV>>) -> bool {
    &&& g.len() > 0
    &&& forall|r: int| 0 <= r < g.len() ==> (#[trigger] g[r]).len() == g.len()
}

/// Every symbol of the line shares the first symbol's name.
pub open spec fn all_same_name(s: Seq<SymbolV>) -> bool {
    forall|i: int| 0 <= i < s.len() ==> (#[trigger] s[i]).name == s[0].name
}

pub open spec fn main_diagonal(g: Seq<Seq<SymbolV>>) -> Seq<SymbolV> {
    Seq::new(g.len(), |i: int| g[i][i])
}

pub open spec fn anti_diagonal(g: Seq<Seq<SymbolV>>) -> Seq<SymbolV> {
    Seq::new(g.len(), |i: int| g[i][g.len() - 1 - i])
}

/// The horizontal wins among rows `0 .. r`, in row order.
pub open spec fn row_wins_upto(g: Seq<Seq<SymbolV>>, r: int) -> Seq<WinLineV>
    decreases r,
{
    if r <= 0 {
        Seq::empty()
    } else {
        row_wins_upto(g, r - 1) + if all_same_name(g[r - 1]) {
            seq![
                WinLineV {
                    symbols: g[r - 1],
                    line_type: LineType::Horizontal((r - 1) as usize),
                },
            ]
        } else {
            Seq::empty()
        }
    }
}

/// All winning lines of a grid: the winning rows in row order, then the main
/// diagonal if it wins, then the anti-diagonal if it wins.
pub open spec fn spec_wins(g: Seq<Seq<SymbolV>>) -> Seq<WinLineV> {
    row_wins_upto(g, g.len() as int) + (if all_same_name(main_diagonal(g)) {
        seq![WinLineV { symbols: main_diagonal(g), line_type: LineType::Diagonal(0) }]
    } else {
        Seq::empty()
    }) + (if all_same_name(anti_diagonal(g)) {
        seq![WinLineV { symbols: anti_diagonal(g), line_type: LineType::Diagonal(1) }]
    } else {
        Seq::empty()
    })
}

/// Whether every symbol of `line` carries the same name as its first one.
fn all_names_same(line: &Vec<Symbol>) -> (b: bool)
    ensures
        b == all_same_name(line.deep_view()),
{
    let n = line.len();
    let mut i: usize = 0;
    while i < n
        invariant
            i <= n,
            n == line.deep_view().len(),
            forall|k: int| 0 <= k < i ==> (#[trigger] line.deep_view()[k]).name
                == line.deep_view()[0].name,
        decreases n - i,
    {
        if !names_match(&line[i], &line[0]) {
            proof {
                assert(line.deep_view()[i as int].name != line.deep_view()[0].name);
            }
            return false;
        }
        i += 1;
    }
    true
}

impl SlotMachine {
    /// Scans a finalized square grid for winning lines: each all-same-name
    /// row, then the main diagonal, then the anti-diagonal. Vertical lines
    /// are not scanned, since the circular reels cannot produce them.
    pub fn check_wins(&self, grid: &Vec<Vec<Symbol>>) -> (wins: Vec<WinningLine>)
        requires
            grid_wf(grid.deep_view()),
        ensures
            wins.deep_view() == spec_wins(grid.deep_view()),
    {
        let ghost g = grid.deep_view();
        let rows = grid.len();
        let mut wins: Vec<WinningLine> = Vec::new();

        let mut r: usize = 0;
        while r < rows
            invariant
                r <= rows,
                rows == g.len(),
                g == grid.deep_view(),
                grid_wf(g),
                wins.deep_view() =~= row_wins_upto(g, r as int),
            decreases rows - r,
        {
            proof {
                assert(grid@[r as int].deep_view() == g[r as int]);
            }
            if all_names_same(&grid[r]) {
                let symbols = clone_symbols(&grid[r]);
                let ghost wins_before = wins.deep_view();
                wins.push(WinningLine { symbols, line_type: LineType::Horizontal(r) });
                proof {
                    assert(forall|k: int|
                        0 <= k < wins_before.len() ==> #[trigger] wins.deep_view()[k]
                            == wins_before[k]);
                    assert(wins.deep_view()[wins_before.len() as int] == (WinLineV {
                        symbols: g[r as int],
                        line_type: LineType::Horizontal(r),
                    }));
                    assert(wins.deep_view() =~= row_wins_upto(g, r as int + 1));
                }
            } else {
                proof {
                    assert(wins.deep_view() =~= row_wins_upto(g, r as int + 1));
                }
            }
            r += 1;
        }

        // Main diagonal.
        let mut diag: Vec<Symbol> = Vec::new();
        let mut i: usize = 0;
        while i < rows
            invariant
                i <= rows,
                rows == g.len(),
                g == grid.deep_view(),
                grid_wf(g),
                diag.deep_view().len() == i,
                forall|k: int| 0 <= k < i ==> #[trigger] diag.deep_view()[k] == g[k][k],
            decreases rows - i,
        {
            proof {
                assert(grid@[i as int].deep_view() == g[i as int]);
                assert(grid@[i as int]@.len() == g[i as int].len());
            }
            let s = grid[i][i].clone();
            let ghost diag_before = diag.deep_view();
            diag.push(s);
            proof {
                assert(forall|k: int|
                    0 <= k < diag_before.len() ==> #[trigger] diag.deep_view()[k]
                        == diag_before[k]);
                assert(diag.deep_view()[i as int] == g[i as int][i as int]);
            }
            i += 1;
        }
        proof {
            assert(diag.deep_view() =~= main_diagonal(g));
        }
        if all_names_same(&diag) {
            let ghost wins_before = wins.deep_view();
            wins.push(WinningLine { symbols: diag, line_type: LineType::Diagonal(0) });
            proof {
                assert(forall|k: int|
                    0 <= k < wins_before.len() ==> #[trigger] wins.deep_view()[k]
                        == wins_before[k]);
                assert(wins.deep_view()[wins_before.len() as int] == (WinLineV {
                    symbols: main_diagonal(g),
                    line_type: LineType::Diagonal(0),
                }));
            }
        }

        // Anti-diagonal.
        let mut anti: Vec<Symbol> = Vec::new();
        let mut j: usize = 0;
        while j < rows
            invariant
                j <= rows,
                rows == g.len(),
                g == grid.deep_view(),
                grid_wf(g),
                anti.deep_view().len() == j,
                forall|k: int| 0 <= k < j ==> #[trigger] anti.deep_view()[k] == g[k][g.len() - 1
                    - k],
            decreases rows - j,
        {
            proof {
                assert(grid@[j as int].deep_view() == g[j as int]);
                assert(grid@[j as int]@.len() == g[j as int].len());
            }
            let s = grid[j][rows - 1 - j].clone();
            let ghost anti_before = anti.deep_view();
            anti.push(s);
            proof {
                assert(forall|k: int|
                    0 <= k < anti_before.len() ==> #[trigger] anti.deep_view()[k]
                        == anti_before[k]);
                assert(anti.deep_view()[j as int] == g[j as int][g.len() - 1 - j as int]);
            }
            j += 1;
        }
        proof {
            assert(anti.deep_view() =~= anti_diagonal(g));
        }
        if all_names_same(&anti) {
            let ghost wins_before = wins.deep_view();
            wins.push(WinningLine { symbols: anti, line_type: LineType::Diagonal(1) });
            proof {
                assert(forall|k: int|
                    0 <= k < wins_before.len() ==> #[trigger] wins.deep_view()[k]
                        == wins_before[k]);
                assert(wins.deep_view()[wins_before.len() as int] == (WinLineV {
                    symbols: anti_diagonal(g),
                    line_type: LineType::Diagonal(1),
                }));
            }
        }

        proof {
            assert(wins.deep_view() =~= spec_wins(g));
        }
        wins
    }
}

proof fn lemma_row_wins_upto_props(g: Seq<Seq<SymbolV>>, r: int)
    requires
        0 <= r <= g.len(),
    ensures
        forall|i: int|
            0 <= i < row_wins_upto(g, r).len() ==> exists|rr: int|
                0 <= rr < r && all_same_name(g[rr]) && #[trigger] row_wins_upto(g, r)[i]
                    == (WinLineV {
                    symbols: g[rr],
                    line_type: LineType::Horizontal(rr as usize),
                }),
        forall|rr: int|
            0 <= rr < r && all_same_name(#[trigger] g[rr]) ==> exists|i: int|
                0 <= i < row_wins_upto(g, r).len() && row_wins_upto(g, r)[i] == (WinLineV {
                    symbols: g[rr],
                    line_type: LineType::Horizontal(rr as usize),
                }),
    decreases r,
{
    if r > 0 {
        lemma_row_wins_upto_props(g, r - 1);
        let prev = row_wins_upto(g, r - 1);
        let cur = row_wins_upto(g, r);
        assert(forall|i: int| 0 <= i < prev.len() ==> #[trigger] cur[i] == prev[i]);
        if all_same_name(g[r - 1]) {
            assert(cur[prev.len() as int] == (WinLineV {
                symbols: g[r - 1],
                line_type: LineType::Horizontal((r - 1) as usize),
            }));
        }
        assert forall|rr: int| 0 <= rr < r && all_same_name(#[trigger] g[rr]) implies exists|
            i: int,
        |
            0 <= i < cur.len() && cur[i] == (WinLineV {
                symbols: g[rr],
                line_type: LineType::Horizontal(rr as usize),
            }) by {
            let target = WinLineV { symbols: g[rr], line_type: LineType::Horizontal(rr as usize) };
            if rr < r - 1 {
                let i = choose|i: int| 0 <= i < prev.len() && prev[i] == target;
                assert(cur[i] == target);
            } else {
                assert(cur[prev.len() as int] == target);
            }
        }
    }
}

/// Law: a grid row whose cells all share one name is reported as a
/// horizontal winning line for exactly that row, carrying that row's symbols.
pub proof fn lemma_row_win_reported(g: Seq<Seq<SymbolV>>, r: int)
    requires
        grid_wf(g),
        0 <= r < g.len(),
        all_same_name(g[r]),
    ensures
        exists|i: int|
            0 <= i < spec_wins(g).len() && spec_wins(g)[i] == (WinLineV {
                symbols: g[r],
                line_type: LineType::Horizontal(r as usize),
            }),
{
    lemma_row_wins_upto_props(g, g.len() as int);
    let rw = row_wins_upto(g, g.len() as int);
    let i = choose|i: int|
        0 <= i < rw.len() && rw[i] == (WinLineV {
            symbols: g[r],
            line_type: LineType::Horizontal(r as usize),
        });
    assert(spec_wins(g)[i] == rw[i]);
}

/// Law: every reported line has matching names throughout (so its first
/// symbol's attributes stand for the whole line when the catalog maps names
/// to attributes one to one), and its length equals the grid dimension.
pub proof fn lemma_wins_sound(g: Seq<Seq<SymbolV>>)
    requires
        grid_wf(g),
    ensures
        forall|i: int|
            0 <= i < spec_wins(g).len() ==> all_same_name(
                (#[trigger] spec_wins(g)[i]).symbols,
            ) && spec_wins(g)[i].symbols.len() == g.len(),
{
    lemma_row_wins_upto_props(g, g.len() as int);
    let rw = row_wins_upto(g, g.len() as int);
    assert forall|i: int| 0 <= i < spec_wins(g).len() implies all_same_name(
        (#[trigger] spec_wins(g)[i]).symbols,
    ) && spec_wins(g)[i].symbols.len() == g.len() by {
        if i < rw.len() {
            assert(spec_wins(g)[i] == rw[i]);
            let rr = choose|rr: int|
                0 <= rr < g.len() && all_same_name(g[rr]) && rw[i] == (WinLineV {
                    symbols: g[rr],
                    line_type: LineType::Horizontal(rr as usize),
                });
            assert(g[rr].len() == g.len());
        } else {
            assert(spec_wins(g)[i].symbols == main_diagonal(g) || spec_wins(g)[i].symbols
                == anti_diagonal(g));
        }
    }
}

} // verus!
