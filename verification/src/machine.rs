use vstd::prelude::*;

use crate::errors::ConfigError;
use crate::symbol::{Symbol, SymbolV};

verus! {

/// Sum of a sequence of `u64` values, as an unbounded integer.
pub open spec fn sum_u64(s: Seq<u64>) -> int
    decreases s.len(),
{
    if s.len() == 0 {
        0
    } else {
        sum_u64(s.drop_last()) + s.last()
    }
}

/// Sum of the draw weights of a symbol pool.
pub open spec fn sum_weights(s: Seq<SymbolV>) -> int
    decreases s.len(),
{
    if s.len() == 0 {
        0
    } else {
        sum_weights(s.drop_last()) + s.last().weight
    }
}

pub open spec fn has_positive_weight(s: Seq<SymbolV>) -> bool {
    exists|j: int| 0 <= j < s.len() && s[j].weight > 0
}

/// `s` is a possible draw from `pool`: it is one of the pool's symbols and
/// that symbol's weight is positive.
pub open spec fn drawn_from(pool: Seq<SymbolV>, s: SymbolV) -> bool {
    exists|k: int| 0 <= k < pool.len() && s == pool[k] && pool[k].weight > 0
}

/// A draw pool is well formed when it is non-empty, at least one weight is
/// positive, and the total weight fits in a machine word.
pub open spec fn pool_wf(pool: Seq<SymbolV>) -> bool {
    &&& pool.len() > 0
    &&& has_positive_weight(pool)
    &&& sum_weights(pool) <= u64::MAX
}

proof fn lemma_sum_pointwise(ws: Seq<u64>, ps: Seq<SymbolV>)
    requires
        ws.len() == ps.len(),
        forall|k: int| 0 <= k < ps.len() ==> ws[k] == (#[trigger] ps[k]).weight,
    ensures
        sum_u64(ws) == sum_weights(ps),
    decreases ws.len(),
{
    if ws.len() > 0 {
        lemma_sum_pointwise(ws.drop_last(), ps.drop_last());
    }
}

/// One weighted random source: draws one of its symbols per spin, with
/// probability proportional to the symbol's weight.
pub struct Reel {
    symbols: Vec<Symbol>,
}

impl Reel {
    /// The pool of symbols this reel draws from.
    pub closed spec fn pool(&self) -> Seq<SymbolV> {
        self.symbols.deep_view()
    }

    pub open spec fn wf(&self) -> bool {
        pool_wf(self.pool())
    }

    /// Builds a reel, rejecting an empty pool and a pool with no positive
    /// weight as configuration errors.
    pub fn new(symbols: Vec<Symbol>) -> (r: Result<Reel, ConfigError>)
        requires
            sum_weights(symbols.deep_view()) <= u64::MAX,
        ensures
            r is Ok <==> (symbols@.len() > 0 && has_positive_weight(symbols.deep_view())),
            r is Ok ==> (r->Ok_0).wf() && (r->Ok_0).pool() == symbols.deep_view(),
            symbols@.len() == 0 ==> r == Err::<Reel, ConfigError>(ConfigError::EmptyPool),
            symbols@.len() > 0 && !has_positive_weight(symbols.deep_view()) ==> r
                == Err::<Reel, ConfigError>(ConfigError::NoPositiveWeight),
    {
        if symbols.len() == 0 {
            return Err(ConfigError::EmptyPool);
        }
        let n = symbols.len();
        let mut found = false;
        let mut i: usize = 0;
        while i < n
            invariant
                i <= n,
                n == symbols.deep_view().len(),
                found == exists|j: int| 0 <= j < i && symbols.deep_view()[j].weight > 0,
            decreases n - i,
        {
            if symbols[i].weight > 0 {
                found = true;
                proof {
                    assert(symbols.deep_view()[i as int].weight > 0);
                }
            }
            i += 1;
        }
        if !found {
            return Err(ConfigError::NoPositiveWeight);
        }
        Ok(Reel { symbols })
    }

    /// Draws one symbol. Which symbol comes back depends on the random
    /// source; whatever it is, it comes from this reel's pool and its weight
    /// is positive, so a zero-weight symbol is never drawn.
    pub fn spin(&self) -> (s: Symbol)
        requires
            self.wf(),
        ensures
            drawn_from(self.pool(), s.deep_view()),
    {
        let n = self.symbols.len();
        let mut weights: Vec<u64> = Vec::new();
        let mut i: usize = 0;
        while i < n
            invariant
                i <= n,
                n == self.pool().len(),
                weights@.len() == i,
                forall|k: int| 0 <= k < i ==> weights@[k] == (#[trigger] self.pool()[k]).weight,
            decreases n - i,
        {
            weights.push(self.symbols[i].weight);
            i += 1;
        }
        proof {
            lemma_sum_pointwise(weights@, self.pool());
            let j = choose|j: int| 0 <= j < self.pool().len() && self.pool()[j].weight > 0;
            assert(weights@[j] > 0);
        }
        let idx = crate::rng::sample_weighted(&weights);
        let s = self.symbols[idx].clone();
        proof {
            assert(s.deep_view() == self.pool()[idx as int]);
        }
        s
    }
}

/// A bank of reels; one spin draws a full grid of symbols from it.
pub struct SlotMachine {
    reels: Vec<Reel>,
}

impl SlotMachine {
    /// The symbol pools of the machine's reels, in reel order.
    pub closed spec fn pools(&self) -> Seq<Seq<SymbolV>> {
        Seq::new(self.reels@.len(), |i: int| self.reels@[i].pool())
    }

    pub open spec fn wf(&self) -> bool {
        forall|i: int| 0 <= i < self.pools().len() ==> pool_wf(#[trigger] self.pools()[i])
    }

    pub fn new(reels: Vec<Reel>) -> (m: SlotMachine)
        ensures
            m.pools() == Seq::new(reels@.len(), |i: int| reels@[i].pool()),
            m.wf() <==> (forall|i: int| 0 <= i < reels@.len() ==> (#[trigger] reels@[i]).wf()),
    {
        let m = SlotMachine { reels };
        proof {
            assert(m.reels@ == reels@);
            assert forall|i: int| 0 <= i < m.pools().len() implies (pool_wf(
                #[trigger] m.pools()[i],
            ) <==> reels@[i].wf()) by {
                assert(m.pools()[i] == reels@[i].pool());
            }
            assert forall|i: int| 0 <= i < reels@.len() implies ((#[trigger] reels@[i]).wf()
                <==> pool_wf(m.pools()[i])) by {
                assert(m.pools()[i] == reels@[i].pool());
            }
        }
        m
    }

    pub fn num_reels(&self) -> (n: usize)
        ensures
            n == self.pools().len(),
    {
        self.reels.len()
    }

    /// Draws a fresh `rows` x reels grid, row-major: each cell is drawn
    /// independently from the cell's reel.
    pub fn spin_grid(&self, rows: usize) -> (grid: Vec<Vec<Symbol>>)
        requires
            self.wf(),
        ensures
            grid.deep_view().len() == rows,
            forall|r: int| 0 <= r < rows ==> (#[trigger] grid.deep_view()[r]).len()
                == self.pools().len(),
            forall|r: int, c: int|
                0 <= r < rows && 0 <= c < self.pools().len() ==> drawn_from(
                    self.pools()[c],
                    #[trigger] grid.deep_view()[r][c],
                ),
    {
        let n = self.reels.len();
        let mut grid: Vec<Vec<Symbol>> = Vec::new();
        let mut r: usize = 0;
        while r < rows
            invariant
                r <= rows,
                n == self.pools().len(),
                self.wf(),
                grid.deep_view().len() == r,
                forall|rr: int| 0 <= rr < r ==> (#[trigger] grid.deep_view()[rr]).len() == n,
                forall|rr: int, c: int|
                    0 <= rr < r && 0 <= c < n ==> drawn_from(
                        self.pools()[c],
                        #[trigger] grid.deep_view()[rr][c],
                    ),
            decreases rows - r,
        {
            let mut row: Vec<Symbol> = Vec::new();
            let mut c: usize = 0;
            while c < n
                invariant
                    c <= n,
                    n == self.pools().len(),
                    self.wf(),
                    row.deep_view().len() == c,
                    forall|cc: int|
                        0 <= cc < c ==> drawn_from(
                            self.pools()[cc],
                            #[trigger] row.deep_view()[cc],
                        ),
                decreases n - c,
            {
                proof {
                    assert(self.pools()[c as int] == self.reels@[c as int].pool());
                    assert(pool_wf(self.pools()[c as int]));
                }
                let s = self.reels[c].spin();
                let ghost row_before = row.deep_view();
                row.push(s);
                proof {
                    assert(forall|cc: int|
                        0 <= cc < row_before.len() ==> #[trigger] row.deep_view()[cc]
                            == row_before[cc]);
                    assert(row.deep_view()[c as int] == s.deep_view());
                }
                c += 1;
            }
            let ghost grid_before = grid.deep_view();
            grid.push(row);
            proof {
                assert(forall|rr: int|
                    0 <= rr < grid_before.len() ==> #[trigger] grid.deep_view()[rr]
                        == grid_before[rr]);
                assert(grid.deep_view()[r as int] == row.deep_view());
            }
            r += 1;
        }
        grid
    }
}

} // verus!
