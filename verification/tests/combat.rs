use mud_domain::game::combat::{resolve_attack, roll_attack, roll_damage, roll_dice, AttackResult};
use mud_domain::game::comm::{kill_mob_execute_attack, kill_player_execute_attack};
use mud_domain::game::item::Damage;

#[test]
fn a_hit_delivers_the_damage_less_the_reduction() {
    let r = resolve_attack(2, 3, 1, 4, 2, 5);
    assert_eq!(r.attack_dice, 6);
    assert_eq!(r.defense_dice, 5);
    assert!(r.success);
    assert_eq!(r.damage_total, 5);
    assert_eq!(r.damage_deliver, 4);
    assert_eq!(kill_player_execute_attack("rat", &r), "you attack rat and hit, causing 4/5 damage!");
    assert_eq!(kill_mob_execute_attack("cat", "rat", &r), "cat execute a attack and hit rat causing 4/5 damage!");
}

#[test]
fn a_miss_delivers_nothing() {
    let r = resolve_attack(0, 3, 1, 2, 2, 5);
    assert!(!r.success);
    assert_eq!(r.damage_total, 0);
    assert_eq!(r.damage_deliver, 0);
    assert_eq!(kill_player_execute_attack("rat", &r), "you attack rat and miss!");
    assert_eq!(kill_mob_execute_attack("cat", "rat", &r), "cat execute a attack rat and miss!");
    assert_eq!(AttackResult::new(0, 3, 1).success, false);
}

#[test]
fn rolls_stay_in_their_ranges() {
    let damage = Damage { min: 2, max: 4 };
    for _ in 0..100 {
        let d = roll_dice();
        assert!((1..=6).contains(&d));
        let h = roll_damage(&damage);
        assert!((2..=4).contains(&h));
        let r = roll_attack(1, &damage, 1, 2);
        assert!((2..=7).contains(&r.attack_dice));
        assert!(r.damage_deliver <= 2);
    }
}
