use slot_engine::scoring::{line_payout, total_payout, update_pool};
use slot_engine::symbol::Symbol;
use slot_engine::wins::{LineType, WinningLine};

fn line_of(name: &str, multiplier: u64, addition: u64) -> WinningLine {
    let symbols = (0..3).map(|_| Symbol::new(name, name, multiplier, addition, 10)).collect();
    WinningLine { symbols, line_type: LineType::Horizontal(0) }
}

#[test]
fn line_payout_is_multiplier_times_bet_plus_addition() {
    let line = line_of("Bell", 5, 0);
    assert_eq!(line_payout(&line, 5), 25);
}

#[test]
fn line_payout_with_addition() {
    let line = line_of("Star", 10, 7);
    assert_eq!(line_payout(&line, 3), 37);
}

#[test]
fn line_payout_is_linear_in_bet() {
    let line = line_of("Lemon", 3, 4);
    let b = 6;
    assert_eq!(line_payout(&line, 2 * b), 2 * line_payout(&line, b) - 4);
}

#[test]
fn total_payout_sums_line_payouts() {
    let lines = vec![line_of("Cherry", 2, 0), line_of("Bell", 5, 1)];
    // 2*4 + 0 == 8, 5*4 + 1 == 21
    assert_eq!(total_payout(&lines, 4), 29);
}

#[test]
fn total_payout_of_no_lines_is_zero() {
    let lines: Vec<WinningLine> = Vec::new();
    assert_eq!(total_payout(&lines, 10), 0);
}

#[test]
fn update_pool_only_adds() {
    let lines = vec![line_of("Cherry", 2, 0)];
    let mut pool: u64 = 100;
    update_pool(&mut pool, &lines, 5);
    assert_eq!(pool, 110);
}

#[test]
fn update_pool_with_no_wins_keeps_pool() {
    let lines: Vec<WinningLine> = Vec::new();
    let mut pool: u64 = 100;
    update_pool(&mut pool, &lines, 5);
    assert_eq!(pool, 100);
}
