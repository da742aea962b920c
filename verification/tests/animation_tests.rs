use slot_engine::animation::{
    columns_to_grid, draw_target_column, SlotAnimationState, TargetResults,
};
use slot_engine::aligner::get_visible_symbols_for_column;
use slot_engine::symbol::{default_symbols, Symbol};

fn sym(name: &str) -> Symbol {
    Symbol::new(name, name, 2, 0, 10)
}

fn syms(names: &[&str]) -> Vec<Symbol> {
    names.iter().map(|n| sym(n)).collect()
}

fn names_of(v: &[Symbol]) -> Vec<String> {
    v.iter().map(|s| s.name.clone()).collect()
}

#[test]
fn target_column_draws_three_distinct_catalog_symbols() {
    let base = default_symbols();
    for _ in 0..100 {
        let col = draw_target_column(&base);
        assert_eq!(col.len(), 3);
        for s in &col {
            assert!(base.iter().any(|b| b.name == s.name));
        }
        assert_ne!(col[0].name, col[1].name);
        assert_ne!(col[0].name, col[2].name);
        assert_ne!(col[1].name, col[2].name);
    }
}

#[test]
fn columns_to_grid_transposes() {
    let columns = vec![syms(&["A", "B", "C"]), syms(&["D", "E", "F"]), syms(&["G", "H", "I"])];
    let grid = columns_to_grid(&columns, 3);
    assert_eq!(grid.len(), 3);
    assert_eq!(names_of(&grid[0]), vec!["A", "D", "G"]);
    assert_eq!(names_of(&grid[1]), vec!["B", "E", "H"]);
    assert_eq!(names_of(&grid[2]), vec!["C", "F", "I"]);
}

#[test]
fn target_results_lookup() {
    let t = TargetResults::new(vec![syms(&["A", "B", "C"]), syms(&["D", "E", "F"])]);
    assert_eq!(names_of(t.get(0).unwrap()), vec!["A", "B", "C"]);
    assert_eq!(names_of(t.get(1).unwrap()), vec!["D", "E", "F"]);
    assert!(t.get(2).is_none());
}

#[test]
fn reels_stop_in_sequence_and_land_on_targets() {
    let base = default_symbols();
    let targets = vec![
        syms(&["Cherry", "Lemon", "Bell"]),
        syms(&["Star", "Seven", "Cherry"]),
        syms(&["Bell", "Star", "Lemon"]),
    ];
    let mut state = SlotAnimationState::new();
    state.start_animation(&base, targets.clone(), 50);
    assert!(state.is_animating);
    assert_eq!(state.current_spinning_reel, Some(0));
    assert_eq!(state.columns.len(), 3);
    assert!(state.columns[0].is_spinning);
    assert!(!state.columns[1].is_spinning);

    state.stop_current_reel();
    assert!(state.completed_reels[0]);
    assert!(!state.completed_reels[1]);
    assert_eq!(state.current_spinning_reel, Some(1));
    assert!(state.columns[1].is_spinning);

    state.stop_current_reel();
    assert_eq!(state.current_spinning_reel, Some(2));

    state.stop_current_reel();
    assert_eq!(state.current_spinning_reel, None);
    assert!(!state.is_animating);
    assert!(state.completed_reels.iter().all(|&c| c));

    for (i, target) in targets.iter().enumerate() {
        let window = get_visible_symbols_for_column(&state.columns[i], 3);
        assert_eq!(names_of(&window), names_of(target));
        assert!(!state.columns[i].is_spinning);
        assert_eq!(state.columns[i].current_offset, state.columns[i].target_offset);
    }
}

#[test]
fn restarting_animation_resets_completion() {
    let base = default_symbols();
    let targets = vec![syms(&["Cherry", "Lemon", "Bell"])];
    let mut state = SlotAnimationState::new();
    state.start_animation(&base, targets.clone(), 20);
    state.stop_current_reel();
    assert!(!state.is_animating);
    state.start_animation(&base, targets, 20);
    assert!(state.is_animating);
    assert_eq!(state.current_spinning_reel, Some(0));
    assert!(!state.completed_reels[0]);
}
