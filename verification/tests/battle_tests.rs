use mine_rpg::battle::{award_exp, battle, BattleOutcome, Player};

fn player(level: u8, hp: i8, exp: u16) -> Player {
    Player { level, hp, exp, exp_to_next: 10 * level as u16 }
}

#[test]
fn equal_level_is_an_instant_kill_without_damage() {
    let mut p = player(3, 10, 0);
    let outcome = battle(&mut p, 3);
    assert!(matches!(outcome, BattleOutcome::Victory));
    assert_eq!(p.hp, 10);
    assert_eq!(p.level, 3);
    assert_eq!(p.exp, 0);
}

#[test]
fn weaker_monster_falls_without_striking_back() {
    let mut p = player(9, 10, 0);
    let outcome = battle(&mut p, 1);
    assert!(matches!(outcome, BattleOutcome::Victory));
    assert_eq!(p.hp, 10);
}

#[test]
fn stronger_monster_costs_at_least_its_level_in_hp() {
    // level 1 versus a level-3 monster: three strikes to fell it, so the
    // monster strikes back twice for 3 each
    let mut p = player(1, 10, 0);
    let outcome = battle(&mut p, 3);
    assert!(matches!(outcome, BattleOutcome::Victory));
    assert_eq!(p.hp, 4);
    assert!(10 - p.hp >= 3);
}

#[test]
fn overwhelming_monster_defeats_the_player() {
    let mut p = player(1, 2, 0);
    let outcome = battle(&mut p, 9);
    assert!(matches!(outcome, BattleOutcome::Defeat));
    assert_eq!(p.hp, -7);
}

#[test]
fn battle_leaves_progression_untouched() {
    let mut p = player(2, 10, 14);
    let _ = battle(&mut p, 5);
    assert_eq!(p.level, 2);
    assert_eq!(p.exp, 14);
    assert_eq!(p.exp_to_next, 20);
}

#[test]
fn award_exp_below_threshold_only_accumulates() {
    let mut p = player(1, 10, 0);
    award_exp(&mut p, 5);
    assert_eq!(p.exp, 5);
    assert_eq!(p.level, 1);
    assert_eq!(p.exp_to_next, 10);
}

#[test]
fn award_exp_levels_up_and_keeps_the_remainder() {
    let mut p = player(1, 10, 8);
    award_exp(&mut p, 3);
    assert_eq!(p.level, 2);
    assert_eq!(p.exp, 1);
    assert_eq!(p.exp_to_next, 20);
}

#[test]
fn award_exp_never_touches_hp() {
    let mut p = player(4, 7, 39);
    award_exp(&mut p, 9);
    assert_eq!(p.hp, 7);
    assert_eq!(p.level, 5);
    assert_eq!(p.exp, 8);
    assert_eq!(p.exp_to_next, 50);
}
