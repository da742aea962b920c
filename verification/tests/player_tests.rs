use slot_engine::player::Player;

#[test]
fn new_player_keeps_fields() {
    let p = Player::new(10, 2, 300);
    assert_eq!(p.exp(), 10);
    assert_eq!(p.revive(), 2);
    assert_eq!(p.highscore(), 300);
}

#[test]
fn setters_change_one_field_each() {
    let mut p = Player::new(0, 0, 0);
    p.set_exp(42);
    assert_eq!(p.exp(), 42);
    assert_eq!(p.revive(), 0);
    assert_eq!(p.highscore(), 0);
    p.set_revive(3);
    assert_eq!(p.exp(), 42);
    assert_eq!(p.revive(), 3);
    p.set_highscore(777);
    assert_eq!(p.highscore(), 777);
    assert_eq!(p.exp(), 42);
    assert_eq!(p.revive(), 3);
}
