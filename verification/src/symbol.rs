use vstd::prelude::*;

verus! {

/// A named payout unit drawn onto the grid.
///
/// Two symbols match for line-detection purposes exactly when their `name`
/// fields are equal; `icon` and the numeric fields never take part in
/// matching. `multiplier` and `addition` are whole monetary units, `weight`
/// is the relative draw probability.
pub struct Symbol {
    pub icon: String,
    pub name: String,
    pub multiplier: u64,
    pub addition: u64,
    pub weight: u64,
}

/// The mathematical image of a [`Symbol`]: the same fields with the strings
/// replaced by their character sequences. All contracts of this crate speak
/// of symbols through this type.
pub ghost struct SymbolV {
    pub icon: Seq<char>,
    pub name: Seq<char>,
    pub multiplier: u64,
    pub addition: u64,
    pub weight: u64,
}

impl DeepView for Symbol {
    type V = SymbolV;

    open spec fn deep_view(&self) -> SymbolV {
        SymbolV {
            icon: self.icon@,
            name: self.name@,
            multiplier: self.multiplier,
            addition: self.addition,
            weight: self.weight,
        }
    }
}

impl Symbol {
    pub fn new(icon: &str, name: &str, multiplier: u64, addition: u64, weight: u64) -> (s: Symbol)
        ensures
            s.deep_view() == (SymbolV { icon: icon@, name: name@, multiplier, addition, weight }),
    {
        Symbol { icon: icon.to_owned(), name: name.to_owned(), multiplier, addition, weight }
    }
}

impl Clone for Symbol {
    fn clone(&self) -> (s: Symbol)
        ensures
            s.deep_view() == self.deep_view(),
    {
        Symbol {
            icon: self.icon.clone(),
            name: self.name.clone(),
            multiplier: self.multiplier,
            addition: self.addition,
            weight: self.weight,
        }
    }
}

/// A fresh copy of a symbol list, equal to the original under `deep_view`.
pub fn clone_symbols(v: &Vec<Symbol>) -> (c: Vec<Symbol>)
    ensures
        c.deep_view() == v.deep_view(),
{
    let n = v.len();
    let mut c: Vec<Symbol> = Vec::new();
    let mut i: usize = 0;
    while i < n
        invariant
            i <= n,
            n == v.deep_view().len(),
            c.deep_view().len() == i,
            forall|k: int| 0 <= k < i ==> #[trigger] c.deep_view()[k] == v.deep_view()[k],
        decreases n - i,
    {
        let s = v[i].clone();
        let ghost c_before = c.deep_view();
        c.push(s);
        proof {
            assert(forall|k: int|
                0 <= k < c_before.len() ==> #[trigger] c.deep_view()[k] == c_before[k]);
            assert(c.deep_view()[i as int] == v.deep_view()[i as int]);
        }
        i += 1;
    }
    proof {
        assert(c.deep_view() =~= v.deep_view());
    }
    c
}

/// Line matching compares symbols by `name` alone.
pub fn names_match(a: &Symbol, b: &Symbol) -> (r: bool)
    ensures
        r == (a.deep_view().name == b.deep_view().name),
{
    a.name == b.name
}

/// The fixed catalog of the standard five-symbol game.
pub fn default_symbols() -> (v: Vec<Symbol>)
    ensures
        v.deep_view().len() == 5,
        v.deep_view()[0] == (SymbolV {
            icon: "\u{1F352}"@,
            name: "Cherry"@,
            multiplier: 2,
            addition: 0,
            weight: 50,
        }),
        v.deep_view()[1] == (SymbolV {
            icon: "\u{1F34B}"@,
            name: "Lemon"@,
            multiplier: 3,
            addition: 0,
            weight: 30,
        }),
        v.deep_view()[2] == (SymbolV {
            icon: "\u{1F514}"@,
            name: "Bell"@,
            multiplier: 5,
            addition: 0,
            weight: 15,
        }),
        v.deep_view()[3] == (SymbolV {
            icon: "\u{2B50}"@,
            name: "Star"@,
            multiplier: 10,
            addition: 0,
            weight: 4,
        }),
        v.deep_view()[4] == (SymbolV {
            icon: "7"@,
            name: "Seven"@,
            multiplier: 20,
            addition: 0,
            weight: 1,
        }),
{
    let mut v: Vec<Symbol> = Vec::new();
    v.push(Symbol::new("\u{1F352}", "Cherry", 2, 0, 50));
    v.push(Symbol::new("\u{1F34B}", "Lemon", 3, 0, 30));
    v.push(Symbol::new("\u{1F514}", "Bell", 5, 0, 15));
    v.push(Symbol::new("\u{2B50}", "Star", 10, 0, 4));
    v.push(Symbol::new("7", "Seven", 20, 0, 1));
    v
}

} // verus!
