use slot_engine::machine::{Reel, SlotMachine};
use slot_engine::symbol::{default_symbols, Symbol};
use slot_engine::wins::LineType;

fn sym(name: &str) -> Symbol {
    Symbol::new(name, name, 2, 0, 10)
}

fn row(names: [&str; 3]) -> Vec<Symbol> {
    names.iter().map(|n| sym(n)).collect()
}

fn machine() -> SlotMachine {
    let symbols = default_symbols();
    SlotMachine::new(vec![
        Reel::new(symbols.clone()).unwrap(),
        Reel::new(symbols.clone()).unwrap(),
        Reel::new(symbols).unwrap(),
    ])
}

#[test]
fn uniform_row_reported_as_horizontal_win() {
    let grid = vec![
        row(["Cherry", "Cherry", "Cherry"]),
        row(["Lemon", "Bell", "Star"]),
        row(["Seven", "Lemon", "Bell"]),
    ];
    let wins = machine().check_wins(&grid);
    assert_eq!(wins.len(), 1);
    assert!(matches!(wins[0].line_type, LineType::Horizontal(0)));
    for s in &wins[0].symbols {
        assert_eq!(s.name, "Cherry");
    }
}

#[test]
fn reported_lines_have_grid_length_and_matching_names() {
    let grid = vec![
        row(["Cherry", "Cherry", "Cherry"]),
        row(["Lemon", "Lemon", "Lemon"]),
        row(["Seven", "Lemon", "Bell"]),
    ];
    let wins = machine().check_wins(&grid);
    assert_eq!(wins.len(), 2);
    for w in &wins {
        assert_eq!(w.symbols.len(), grid.len());
        for s in &w.symbols {
            assert_eq!(s.name, w.symbols[0].name);
        }
    }
}

#[test]
fn main_diagonal_win_detected() {
    let grid = vec![
        row(["Bell", "Cherry", "Lemon"]),
        row(["Cherry", "Bell", "Star"]),
        row(["Lemon", "Star", "Bell"]),
    ];
    let wins = machine().check_wins(&grid);
    assert_eq!(wins.len(), 1);
    assert!(matches!(wins[0].line_type, LineType::Diagonal(0)));
    for s in &wins[0].symbols {
        assert_eq!(s.name, "Bell");
    }
}

#[test]
fn anti_diagonal_win_detected() {
    let grid = vec![
        row(["Bell", "Cherry", "Star"]),
        row(["Cherry", "Star", "Lemon"]),
        row(["Star", "Lemon", "Bell"]),
    ];
    let wins = machine().check_wins(&grid);
    assert_eq!(wins.len(), 1);
    assert!(matches!(wins[0].line_type, LineType::Diagonal(1)));
    for s in &wins[0].symbols {
        assert_eq!(s.name, "Star");
    }
}

#[test]
fn uniform_grid_wins_all_rows_and_diagonals() {
    let grid = vec![
        row(["Cherry", "Cherry", "Cherry"]),
        row(["Cherry", "Cherry", "Cherry"]),
        row(["Cherry", "Cherry", "Cherry"]),
    ];
    let wins = machine().check_wins(&grid);
    assert_eq!(wins.len(), 5);
    assert!(matches!(wins[0].line_type, LineType::Horizontal(0)));
    assert!(matches!(wins[1].line_type, LineType::Horizontal(1)));
    assert!(matches!(wins[2].line_type, LineType::Horizontal(2)));
    assert!(matches!(wins[3].line_type, LineType::Diagonal(0)));
    assert!(matches!(wins[4].line_type, LineType::Diagonal(1)));
}

#[test]
fn mismatched_grid_has_no_wins() {
    let grid = vec![
        row(["Cherry", "Lemon", "Bell"]),
        row(["Lemon", "Bell", "Cherry"]),
        row(["Cherry", "Lemon", "Bell"]),
    ];
    let wins = machine().check_wins(&grid);
    assert!(wins.is_empty());
}
