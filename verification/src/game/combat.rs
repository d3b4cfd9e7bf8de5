use crate::game::item::Damage;
use rand::Rng;
use vstd::prelude::*;

verus! {

/// How an attack went: the rolls of both sides and the damage.
#[derive(Clone, Copy, Debug, PartialEq, Eq, Structural)]
pub struct AttackResult {
    pub attack: u32,
    pub defense: u32,
    pub rd: u32,
    pub attack_dice: u32,
    pub defense_dice: u32,
    pub success: bool,
    pub damage_total: u32,
    pub damage_deliver: u32,
}

impl AttackResult {
    pub fn new(attack: u32, defense: u32, rd: u32) -> (r: Self)
        ensures
            r == (AttackResult {
                attack,
                defense,
                rd,
                attack_dice: 0,
                defense_dice: 0,
                success: false,
                damage_total: 0,
                damage_deliver: 0,
            }),
    {
        AttackResult {
            attack,
            defense,
            rd,
            attack_dice: 0,
            defense_dice: 0,
            success: false,
            damage_total: 0,
            damage_deliver: 0,
        }
    }
}

/// `rand::Rng::gen_range` on the generator of the thread: a number from `low` up to, but not
/// including, `high`. Which one is left to chance and is not stated.
#[verifier::external_body]
fn random_in(low: u32, high: u32) -> (r: u32)
    requires
        low < high,
    ensures
        low <= r < high,
{
    rand::thread_rng().gen_range(low, high)
}

/// A roll of one six-sided die.
pub fn roll_dice() -> (r: u32)
    ensures
        1 <= r <= 6,
{
    random_in(1, 6 + 1)
}

/// A damage between the minimum and the maximum, both included.
pub fn roll_damage(damage: &Damage) -> (r: u32)
    requires
        damage.min <= damage.max < u32::MAX,
    ensures
        damage.min <= r <= damage.max,
{
    random_in(damage.min, damage.max + 1)
}

/// An attack roll and a defense roll can each take the attack and the defense this far.
pub open spec fn fits_rolls(attack: u32, defense: u32, damage: Damage, rd: u32) -> bool {
    &&& attack + 6 <= u32::MAX
    &&& defense + 6 <= u32::MAX
    &&& damage.min <= damage.max < u32::MAX
    &&& rd <= damage.min
}

/// The outcome of an attack for given rolls: it hits where the attack roll plus the attack
/// reaches the defense roll plus the defense, and then delivers the damage rolled less the
/// reduction.
pub open spec fn attack_outcome(
    attack: u32,
    defense: u32,
    rd: u32,
    attack_roll: u32,
    defense_roll: u32,
    damage_roll: u32,
) -> AttackResult {
    let attack_dice = (attack_roll + attack) as u32;
    let defense_dice = (defense_roll + defense) as u32;
    let success = attack_dice >= defense_dice;
    AttackResult {
        attack,
        defense,
        rd,
        attack_dice,
        defense_dice,
        success,
        damage_total: if success { damage_roll } else { 0 },
        damage_deliver: if success { (damage_roll - rd) as u32 } else { 0 },
    }
}

/// The outcome of an attack for given rolls (see `attack_outcome`).
pub fn resolve_attack(
    attack: u32,
    defense: u32,
    rd: u32,
    attack_roll: u32,
    defense_roll: u32,
    damage_roll: u32,
) -> (r: AttackResult)
    requires
        attack_roll + attack <= u32::MAX,
        defense_roll + defense <= u32::MAX,
        rd <= damage_roll,
    ensures
        r == attack_outcome(attack, defense, rd, attack_roll, defense_roll, damage_roll),
        r.attack_dice == attack_roll + attack,
        r.defense_dice == defense_roll + defense,
        r.success <==> attack_roll + attack >= defense_roll + defense,
        r.success ==> r.damage_total == damage_roll && r.damage_deliver + rd == damage_roll,
        !r.success ==> r.damage_total == 0 && r.damage_deliver == 0,
{
    let mut result = AttackResult::new(attack, defense, rd);
    result.attack_dice = attack_roll + attack;
    result.defense_dice = defense_roll + defense;
    result.success = result.attack_dice >= result.defense_dice;
    if result.success {
        result.damage_total = damage_roll;
        result.damage_deliver = result.damage_total - rd;
    }
    result
}

/// Law: a missed attack deals no damage, and a hit deals the damage rolled less the reduction,
/// never more than the maximum damage less the reduction.
pub proof fn attack_damage_is_bounded(
    attack: u32,
    defense: u32,
    damage: Damage,
    rd: u32,
    a: u32,
    d: u32,
    h: u32,
)
    requires
        fits_rolls(attack, defense, damage, rd),
        1 <= a <= 6,
        1 <= d <= 6,
        damage.min <= h <= damage.max,
    ensures
        !attack_outcome(attack, defense, rd, a, d, h).success ==> attack_outcome(attack, defense, rd, a, d, h).damage_deliver
            == 0,
        attack_outcome(attack, defense, rd, a, d, h).success ==> attack_outcome(attack, defense, rd, a, d, h).damage_deliver
            + rd == attack_outcome(attack, defense, rd, a, d, h).damage_total,
        attack_outcome(attack, defense, rd, a, d, h).damage_deliver + rd <= damage.max,
{
}

/// Law: an attack hits exactly when the attack roll plus the attack reaches the defense roll
/// plus the defense (a tie hits); a hit delivers the damage rolled less the reduction, a miss
/// nothing.
pub proof fn attack_hits_when_it_reaches_the_defense(
    attack: u32,
    defense: u32,
    rd: u32,
    attack_roll: u32,
    defense_roll: u32,
    damage_roll: u32,
)
    requires
        attack_roll + attack <= u32::MAX,
        defense_roll + defense <= u32::MAX,
        rd <= damage_roll,
    ensures
        attack_outcome(attack, defense, rd, attack_roll, defense_roll, damage_roll).success <==> attack_roll + attack
            >= defense_roll + defense,
        attack_roll + attack >= defense_roll + defense ==> attack_outcome(
            attack,
            defense,
            rd,
            attack_roll,
            defense_roll,
            damage_roll,
        ).damage_deliver + rd == damage_roll,
        attack_roll + attack < defense_roll + defense ==> attack_outcome(
            attack,
            defense,
            rd,
            attack_roll,
            defense_roll,
            damage_roll,
        ).damage_deliver == 0,
{
}

/// Roll an attack: a die for each side, and the damage where it hits (see
/// `attack_outcome`).
pub fn roll_attack(attack: u32, damage: &Damage, defense: u32, rd: u32) -> (r: AttackResult)
    requires
        fits_rolls(attack, defense, *damage, rd),
    ensures
        exists|a: u32, d: u32, h: u32|
            1 <= a <= 6 && 1 <= d <= 6 && damage.min <= h <= damage.max && r == attack_outcome(
                attack,
                defense,
                rd,
                a,
                d,
                h,
            ),
{
    let attack_roll = roll_dice();
    let defense_roll = roll_dice();
    let hit = attack_roll + attack >= defense_roll + defense;
    let damage_roll = if hit {
        roll_damage(damage)
    } else {
        damage.min
    };
    resolve_attack(attack, defense, rd, attack_roll, defense_roll, damage_roll)
}

} // verus!
