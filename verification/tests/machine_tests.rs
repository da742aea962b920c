use slot_engine::errors::ConfigError;
use slot_engine::machine::{Reel, SlotMachine};
use slot_engine::symbol::{default_symbols, Symbol};

fn sym(name: &str, multiplier: u64, addition: u64, weight: u64) -> Symbol {
    Symbol::new(name, name, multiplier, addition, weight)
}

#[test]
fn reel_new_rejects_empty_pool() {
    let r = Reel::new(Vec::new());
    assert!(matches!(r, Err(ConfigError::EmptyPool)));
}

#[test]
fn reel_new_rejects_all_zero_weights() {
    let pool = vec![sym("Dud", 1, 0, 0), sym("Blank", 1, 0, 0)];
    let r = Reel::new(pool);
    assert!(matches!(r, Err(ConfigError::NoPositiveWeight)));
}

#[test]
fn reel_new_accepts_mixed_weights() {
    let pool = vec![sym("Dud", 1, 0, 0), sym("Hit", 2, 0, 5)];
    assert!(Reel::new(pool).is_ok());
}

#[test]
fn draw_never_returns_zero_weight_symbol() {
    let pool = vec![sym("Dud", 1, 0, 0), sym("Hit", 2, 0, 5), sym("Blank", 3, 0, 0)];
    let reel = Reel::new(pool).unwrap();
    for _ in 0..500 {
        let s = reel.spin();
        assert_eq!(s.name, "Hit");
    }
}

#[test]
fn draw_returns_symbols_from_pool() {
    let pool = vec![sym("Cherry", 2, 0, 50), sym("Lemon", 3, 0, 30), sym("Bell", 5, 0, 15)];
    let reel = Reel::new(pool).unwrap();
    for _ in 0..200 {
        let s = reel.spin();
        assert!(s.name == "Cherry" || s.name == "Lemon" || s.name == "Bell");
    }
}

#[test]
fn pools_may_hold_duplicate_names() {
    let pool = vec![sym("Cherry", 2, 0, 50), sym("Cherry", 2, 0, 30), sym("Bell", 5, 0, 15)];
    let reel = Reel::new(pool).unwrap();
    for _ in 0..100 {
        let s = reel.spin();
        assert!(s.name == "Cherry" || s.name == "Bell");
    }
}

#[test]
fn spin_grid_has_requested_shape() {
    let symbols = default_symbols();
    let machine = SlotMachine::new(vec![
        Reel::new(symbols.clone()).unwrap(),
        Reel::new(symbols.clone()).unwrap(),
        Reel::new(symbols.clone()).unwrap(),
    ]);
    let grid = machine.spin_grid(3);
    assert_eq!(grid.len(), 3);
    for row in &grid {
        assert_eq!(row.len(), 3);
        for cell in row {
            assert!(symbols.iter().any(|s| s.name == cell.name));
            assert!(symbols.iter().find(|s| s.name == cell.name).unwrap().weight > 0);
        }
    }
}

#[test]
fn default_symbols_match_catalog() {
    let v = default_symbols();
    assert_eq!(v.len(), 5);
    let expected: Vec<(&str, u64, u64, u64)> = vec![
        ("Cherry", 2, 0, 50),
        ("Lemon", 3, 0, 30),
        ("Bell", 5, 0, 15),
        ("Star", 10, 0, 4),
        ("Seven", 20, 0, 1),
    ];
    for (s, (name, mult, add, weight)) in v.iter().zip(expected.iter()) {
        assert_eq!(s.name, *name);
        assert_eq!(s.multiplier, *mult);
        assert_eq!(s.addition, *add);
        assert_eq!(s.weight, *weight);
    }
}
