use slot_engine::aligner::{
    advance_offset, distance_to_target, generate_circular_reel, get_visible_symbols_for_column,
    position_reel_to_show_symbols, SlotColumn, SYMBOL_HEIGHT,
};
use slot_engine::errors::ConfigError;
use slot_engine::symbol::Symbol;

fn sym(name: &str) -> Symbol {
    Symbol::new(name, name, 2, 0, 10)
}

fn syms(names: &[&str]) -> Vec<Symbol> {
    names.iter().map(|n| sym(n)).collect()
}

fn names_of(v: &[Symbol]) -> Vec<String> {
    v.iter().map(|s| s.name.clone()).collect()
}

#[test]
fn column_new_rejects_short_buffer() {
    let c = SlotColumn::new(syms(&["A", "B"]), 0);
    assert!(matches!(c, Err(ConfigError::BufferTooShort)));
}

#[test]
fn column_new_starts_at_rest() {
    let c = SlotColumn::new(syms(&["A", "B", "C"]), 2).unwrap();
    assert_eq!(c.current_offset, 0);
    assert_eq!(c.target_offset, 0);
    assert!(!c.is_spinning);
    assert_eq!(c.symbol_height, SYMBOL_HEIGHT);
    assert_eq!(c.column, 2);
}

#[test]
fn wrapping_match_found_without_splice() {
    // Buffer [A,B,C,D,E], target [D,E,A]: the only full match wraps at
    // start position 3, and the buffer must stay untouched.
    let mut col = SlotColumn::new(syms(&["A", "B", "C", "D", "E"]), 0).unwrap();
    let before = names_of(&col.reel_symbols);
    let target = syms(&["D", "E", "A"]);
    position_reel_to_show_symbols(&mut col, &target);
    assert_eq!(col.current_offset, 3 * SYMBOL_HEIGHT);
    assert_eq!(col.target_offset, 3 * SYMBOL_HEIGHT);
    assert_eq!(names_of(&col.reel_symbols), before);
    let window = get_visible_symbols_for_column(&col, 3);
    assert_eq!(names_of(&window), vec!["D", "E", "A"]);
}

#[test]
fn straight_match_found_without_splice() {
    let mut col = SlotColumn::new(syms(&["X", "A", "B", "C", "X"]), 0).unwrap();
    let before = names_of(&col.reel_symbols);
    let target = syms(&["A", "B", "C"]);
    position_reel_to_show_symbols(&mut col, &target);
    assert_eq!(col.current_offset, SYMBOL_HEIGHT);
    assert_eq!(names_of(&col.reel_symbols), before);
    let window = get_visible_symbols_for_column(&col, 3);
    assert_eq!(names_of(&window), vec!["A", "B", "C"]);
}

#[test]
fn fallback_splice_writes_exact_target() {
    // No window of the buffer matches the target, so the aligner must
    // splice and the visible window must equal the target exactly.
    let mut col = SlotColumn::new(syms(&["X", "X", "X", "X", "X", "X", "X", "X"]), 0).unwrap();
    let target = syms(&["A", "B", "C"]);
    position_reel_to_show_symbols(&mut col, &target);
    assert_eq!(col.current_offset % SYMBOL_HEIGHT, 0);
    assert_eq!(col.current_offset, col.target_offset);
    let window = get_visible_symbols_for_column(&col, 3);
    assert_eq!(names_of(&window), vec!["A", "B", "C"]);
    // Exactly one window was overwritten.
    let changed = col.reel_symbols.iter().filter(|s| s.name != "X").count();
    assert_eq!(changed, 3);
}

#[test]
fn splice_on_minimum_length_buffer() {
    let mut col = SlotColumn::new(syms(&["X", "X", "X"]), 0).unwrap();
    let target = syms(&["A", "B", "C"]);
    position_reel_to_show_symbols(&mut col, &target);
    assert_eq!(col.current_offset, 0);
    let window = get_visible_symbols_for_column(&col, 3);
    assert_eq!(names_of(&window), vec!["A", "B", "C"]);
}

#[test]
fn short_target_compares_available_entries_only() {
    let mut col = SlotColumn::new(syms(&["A", "B", "C", "D", "E"]), 0).unwrap();
    let before = names_of(&col.reel_symbols);
    let target = syms(&["C", "D"]);
    position_reel_to_show_symbols(&mut col, &target);
    assert_eq!(col.current_offset, 2 * SYMBOL_HEIGHT);
    assert_eq!(names_of(&col.reel_symbols), before);
    let window = get_visible_symbols_for_column(&col, 2);
    assert_eq!(names_of(&window), vec!["C", "D"]);
}

#[test]
fn empty_target_is_a_no_op() {
    let mut col = SlotColumn::new(syms(&["A", "B", "C"]), 0).unwrap();
    let target: Vec<Symbol> = Vec::new();
    position_reel_to_show_symbols(&mut col, &target);
    assert_eq!(col.current_offset, 0);
    assert_eq!(names_of(&col.reel_symbols), vec!["A", "B", "C"]);
}

#[test]
fn visible_window_follows_offset() {
    let mut col = SlotColumn::new(syms(&["A", "B", "C", "D", "E"]), 0).unwrap();
    col.current_offset = 2 * SYMBOL_HEIGHT;
    let window = get_visible_symbols_for_column(&col, 3);
    assert_eq!(names_of(&window), vec!["C", "D", "E"]);
}

#[test]
fn visible_window_wraps_around() {
    let mut col = SlotColumn::new(syms(&["A", "B", "C", "D", "E"]), 0).unwrap();
    col.current_offset = 4 * SYMBOL_HEIGHT;
    let window = get_visible_symbols_for_column(&col, 3);
    assert_eq!(names_of(&window), vec!["E", "A", "B"]);
}

#[test]
fn circular_reel_cycles_base_symbols() {
    let base = syms(&["A", "B", "C"]);
    let reel = generate_circular_reel(&base, 8);
    assert_eq!(names_of(&reel), vec!["A", "B", "C", "A", "B", "C", "A", "B"]);
}

#[test]
fn advance_offset_wraps_at_full_turn() {
    let mut col = SlotColumn::new(syms(&["A", "B", "C"]), 0).unwrap();
    advance_offset(&mut col, 2 * SYMBOL_HEIGHT);
    assert_eq!(col.current_offset, 2 * SYMBOL_HEIGHT);
    advance_offset(&mut col, 2 * SYMBOL_HEIGHT);
    assert_eq!(col.current_offset, SYMBOL_HEIGHT);
}

#[test]
fn distance_to_target_measures_forward() {
    let mut col = SlotColumn::new(syms(&["A", "B", "C"]), 0).unwrap();
    col.current_offset = 50;
    col.target_offset = 120;
    assert_eq!(distance_to_target(&col), 70);
    col.current_offset = 250;
    col.target_offset = 20;
    // wraps: 300 - 250 + 20
    assert_eq!(distance_to_target(&col), 70);
}
