use crate::errors::Error;
use crate::game::astro_bodies::AstroBodyKind;
use crate::game::combat::AttackResult;
use crate::game::mob::Attributes;
use crate::game::domain::Dir;
use crate::game::labels::{label_text, Labels};
use crate::utils::text::{decimal, usize_to_string};
use crate::ids::ObjId;
use vstd::prelude::*;
use vstd::string::StringExecFns;

verus! {

/// One cell of a room map: a room, a door between two neighbour rooms, or nothing.
#[derive(Debug, Clone, Copy, PartialEq, Eq, Structural)]
pub enum RoomMapCell {
    Empty,
    Room(ObjId),
    DoorHor,
    DoorVer,
}

/// A grid of cells, row by row.
#[derive(Debug, Clone)]
pub struct RoomMap {
    pub width: u32,
    pub height: u32,
    pub cells: Vec<RoomMapCell>,
}

// The texts the game sends to players. Each text is stated by a spec function of the same
// name with `_text` behind it.

fn cat2(a: &str, b: &str) -> (r: String)
    ensures
        r@ == a@ + b@,
{
    String::from_str(a).concat(b)
}

fn cat3(a: &str, b: &str, c: &str) -> (r: String)
    ensures
        r@ == a@ + b@ + c@,
{
    cat2(a, b).concat(c)
}

fn cat4(a: &str, b: &str, c: &str, d: &str) -> (r: String)
    ensures
        r@ == a@ + b@ + c@ + d@,
{
    cat3(a, b, c).concat(d)
}

fn cat5(a: &str, b: &str, c: &str, d: &str, e: &str) -> (r: String)
    ensures
        r@ == a@ + b@ + c@ + d@ + e@,
{
    cat4(a, b, c, d).concat(e)
}

pub open spec fn move_you_move_text(dir: Dir) -> Seq<char> {
    "you move to "@ + seq![dir.code()] + "!"@
}

pub fn move_you_move(dir: &Dir) -> (r: String)
    ensures
        r@ == move_you_move_text(*dir),
{
    cat3("you move to ", dir.as_str(), "!")
}

pub open spec fn move_come_text(who: Seq<char>, dir: Dir) -> Seq<char> {
    who + " comes from "@ + seq![dir.code()] + "."@
}

pub fn move_come(who: &str, dir: &Dir) -> (r: String)
    ensures
        r@ == move_come_text(who@, *dir),
{
    cat4(who, " comes from ", dir.as_str(), ".")
}

pub open spec fn move_goes_text(who: Seq<char>, dir: Dir) -> Seq<char> {
    who + " goes to "@ + seq![dir.code()] + "."@
}

pub fn move_goes(who: &str, dir: &Dir) -> (r: String)
    ensures
        r@ == move_goes_text(who@, *dir),
{
    cat4(who, " goes to ", dir.as_str(), ".")
}

pub open spec fn move_not_possible_text(dir: Dir) -> Seq<char> {
    "not possible to move to "@ + seq![dir.code()] + "!"@
}

pub fn move_not_possible(dir: &Dir) -> (r: String)
    ensures
        r@ == move_not_possible_text(*dir),
{
    cat3("not possible to move to ", dir.as_str(), "!")
}

pub open spec fn unknown_input_text(input: Seq<char>) -> Seq<char> {
    "unknown command '"@ + input + "'"@
}

pub fn unknown_input(input: &str) -> (r: String)
    ensures
        r@ == unknown_input_text(input@),
{
    cat3("unknown command '", input, "'")
}

pub open spec fn kill_target_not_found_text(target: Seq<char>) -> Seq<char> {
    "target ["@ + target + "] not found!"@
}

pub fn kill_target_not_found(target: &str) -> (r: String)
    ensures
        r@ == kill_target_not_found_text(target@),
{
    cat3("target [", target, "] not found!")
}

pub open spec fn kill_can_not_kill_players_text(target: Seq<char>) -> Seq<char> {
    "target ["@ + target + "] is friendly, you can not kill him!"@
}

pub fn kill_can_not_kill_players(target: &str) -> (r: String)
    ensures
        r@ == kill_can_not_kill_players_text(target@),
{
    cat3("target [", target, "] is friendly, you can not kill him!")
}

pub open spec fn attack_player_initiate_text(label: Seq<char>) -> Seq<char> {
    "you attack "@ + label + "!"@
}

pub fn attack_player_initiate(label: &str) -> (r: String)
    ensures
        r@ == attack_player_initiate_text(label@),
{
    cat3("you attack ", label, "!")
}

pub open spec fn attack_mob_initiate_attack_text(attacker: Seq<char>, target: Seq<char>) -> Seq<char> {
    attacker + " attacks "@ + target + "!"@
}

pub fn attack_mob_initiate_attack(attacker: &str, target: &str) -> (r: String)
    ensures
        r@ == attack_mob_initiate_attack_text(attacker@, target@),
{
    cat4(attacker, " attacks ", target, "!")
}

pub open spec fn say_someone_said_text(actor: Seq<char>, msg: Seq<char>) -> Seq<char> {
    actor + " says '"@ + msg + "'"@
}

pub fn say_someone_said(actor: &str, msg: &str) -> (r: String)
    ensures
        r@ == say_someone_said_text(actor@, msg@),
{
    cat4(actor, " says '", msg, "'")
}

pub open spec fn spawn_mob_text(label: Seq<char>) -> Seq<char> {
    "a "@ + label + " appears here from no where"@
}

pub fn spawn_mob(label: &str) -> (r: String)
    ensures
        r@ == spawn_mob_text(label@),
{
    cat3("a ", label, " appears here from no where")
}

pub open spec fn killed_text(mob: Seq<char>) -> Seq<char> {
    mob + " was killed"@
}

pub fn killed(mob: &str) -> (r: String)
    ensures
        r@ == killed_text(mob@),
{
    cat2(mob, " was killed")
}

pub open spec fn item_corpse_appears_in_room_text(item: Seq<char>) -> Seq<char> {
    item + " appears here!"@
}

pub fn item_corpse_appears_in_room(item: &str) -> (r: String)
    ensures
        r@ == item_corpse_appears_in_room_text(item@),
{
    cat2(item, " appears here!")
}

pub open spec fn item_body_disappears_text(item: Seq<char>) -> Seq<char> {
    "a "@ + item + " disappear."@
}

pub fn item_body_disappears(item: &str) -> (r: String)
    ensures
        r@ == item_body_disappears_text(item@),
{
    cat3("a ", item, " disappear.")
}

pub open spec fn examine_target_not_found_text(target: Seq<char>) -> Seq<char> {
    "no ["@ + target + "] can be found!\n"@
}

pub fn examine_target_not_found(target: &str) -> (r: String)
    ensures
        r@ == examine_target_not_found_text(target@),
{
    cat3("no [", target, "] can be found!\n")
}

pub open spec fn pick_where_not_found_text(target: Seq<char>) -> Seq<char> {
    "there is no "@ + target + " here, what are you talking about?\n"@
}

pub fn pick_where_not_found(target: &str) -> (r: String)
    ensures
        r@ == pick_where_not_found_text(target@),
{
    cat3("there is no ", target, " here, what are you talking about?\n")
}

pub open spec fn pick_player_from_text(target_inventory: Seq<char>, target_item: Seq<char>) -> Seq<char> {
    "you pick a "@ + target_item + " from "@ + target_inventory
}

pub fn pick_player_from(target_inventory: &str, target_item: &str) -> (r: String)
    ensures
        r@ == pick_player_from_text(target_inventory@, target_item@),
{
    cat4("you pick a ", target_item, " from ", target_inventory)
}

pub open spec fn pick_from_text(actor: Seq<char>, target_inventory: Seq<char>, target_item: Seq<char>) -> Seq<char> {
    actor + " pick a "@ + target_item + " from "@ + target_inventory
}

pub fn pick_from(actor: &str, target_inventory: &str, target_item: &str) -> (r: String)
    ensures
        r@ == pick_from_text(actor@, target_inventory@, target_item@),
{
    cat5(actor, " pick a ", target_item, " from ", target_inventory)
}

pub open spec fn pick_player_from_room_text(target_item: Seq<char>) -> Seq<char> {
    "you pick a "@ + target_item + " from the floor"@
}

pub fn pick_player_from_room(target_item: &str) -> (r: String)
    ensures
        r@ == pick_player_from_room_text(target_item@),
{
    cat3("you pick a ", target_item, " from the floor")
}

pub open spec fn pick_from_room_text(actor: Seq<char>, target_item: Seq<char>) -> Seq<char> {
    actor + " pick a "@ + target_item + " from the floor"@
}

pub fn pick_from_room(actor: &str, target_item: &str) -> (r: String)
    ensures
        r@ == pick_from_room_text(actor@, target_item@),
{
    cat4(actor, " pick a ", target_item, " from the floor")
}

pub open spec fn pick_fail_item_is_stuck_text(target_item: Seq<char>) -> Seq<char> {
    "you can not get a "@ + target_item
}

pub fn pick_fail_item_is_stuck(target_item: &str) -> (r: String)
    ensures
        r@ == pick_fail_item_is_stuck_text(target_item@),
{
    cat2("you can not get a ", target_item)
}

pub open spec fn pick_fail_storage_is_not_inventory_text(target_item: Seq<char>) -> Seq<char> {
    "you can not get it, "@ + target_item + " is not a storage"@
}

pub fn pick_fail_storage_is_not_inventory(target_item: &str) -> (r: String)
    ensures
        r@ == pick_fail_storage_is_not_inventory_text(target_item@),
{
    cat3("you can not get it, ", target_item, " is not a storage")
}

pub open spec fn pick_fail_inventory_full_text(target_item: Seq<char>) -> Seq<char> {
    "you can not pick "@ + target_item + ", you already full"@
}

pub fn pick_fail_inventory_full(target_item: &str) -> (r: String)
    ensures
        r@ == pick_fail_inventory_full_text(target_item@),
{
    cat3("you can not pick ", target_item, ", you already full")
}

pub open spec fn equip_item_not_found_text(label: Seq<char>) -> Seq<char> {
    "you can not find a "@ + label + " to equip"@
}

pub fn equip_item_not_found(label: &str) -> (r: String)
    ensures
        r@ == equip_item_not_found_text(label@),
{
    cat3("you can not find a ", label, " to equip")
}

pub open spec fn equip_item_invalid_text(label: Seq<char>) -> Seq<char> {
    "you can not equip a "@ + label + "\n"@
}

pub fn equip_item_invalid(label: &str) -> (r: String)
    ensures
        r@ == equip_item_invalid_text(label@),
{
    cat3("you can not equip a ", label, "\n")
}

pub open spec fn equip_player_from_room_text(target_item: Seq<char>) -> Seq<char> {
    "you equip a "@ + target_item + "\n"@
}

pub fn equip_player_from_room(target_item: &str) -> (r: String)
    ensures
        r@ == equip_player_from_room_text(target_item@),
{
    cat3("you equip a ", target_item, "\n")
}

pub open spec fn equip_from_room_text(actor: Seq<char>, target_item: Seq<char>) -> Seq<char> {
    actor + " equip a "@ + target_item + "\n"@
}

pub fn equip_from_room(actor: &str, target_item: &str) -> (r: String)
    ensures
        r@ == equip_from_room_text(actor@, target_item@),
{
    cat4(actor, " equip a ", target_item, "\n")
}

pub open spec fn strip_item_not_found_text(label: Seq<char>) -> Seq<char> {
    "you can not find a "@ + label + " to strip\n"@
}

pub fn strip_item_not_found(label: &str) -> (r: String)
    ensures
        r@ == strip_item_not_found_text(label@),
{
    cat3("you can not find a ", label, " to strip\n")
}

pub open spec fn strip_player_from_room_text(target_item: Seq<char>) -> Seq<char> {
    "you stop to use "@ + target_item + "\n"@
}

pub fn strip_player_from_room(target_item: &str) -> (r: String)
    ensures
        r@ == strip_player_from_room_text(target_item@),
{
    cat3("you stop to use ", target_item, "\n")
}

pub open spec fn strip_from_room_text(actor: Seq<char>, target_item: Seq<char>) -> Seq<char> {
    actor + " stop to use "@ + target_item + "\n"@
}

pub fn strip_from_room(actor: &str, target_item: &str) -> (r: String)
    ensures
        r@ == strip_from_room_text(actor@, target_item@),
{
    cat4(actor, " stop to use ", target_item, "\n")
}

pub open spec fn drop_item_not_found_text(label: Seq<char>) -> Seq<char> {
    "you can not find a "@ + label + " to drop\n"@
}

pub fn drop_item_not_found(label: &str) -> (r: String)
    ensures
        r@ == drop_item_not_found_text(label@),
{
    cat3("you can not find a ", label, " to drop\n")
}

pub open spec fn drop_item_text(item_label: Seq<char>) -> Seq<char> {
    "you drop a "@ + item_label + "\n"@
}

pub fn drop_item(item_label: &str) -> (r: String)
    ensures
        r@ == drop_item_text(item_label@),
{
    cat3("you drop a ", item_label, "\n")
}

pub open spec fn drop_item_others_text(actor: Seq<char>, item_label: Seq<char>) -> Seq<char> {
    actor + " drop a "@ + item_label + "\n"@
}

pub fn drop_item_others(actor: &str, item_label: &str) -> (r: String)
    ensures
        r@ == drop_item_others_text(actor@, item_label@),
{
    cat4(actor, " drop a ", item_label, "\n")
}

pub open spec fn admin_suicide_others_text(label: Seq<char>) -> Seq<char> {
    label + " committed suicide"@
}

pub fn admin_suicide_others(label: &str) -> (r: String)
    ensures
        r@ == admin_suicide_others_text(label@),
{
    cat2(label, " committed suicide")
}

pub open spec fn mob_resurrected_text(label: Seq<char>) -> Seq<char> {
    label + " have resurrected!"@
}

pub fn mob_resurrected(label: &str) -> (r: String)
    ensures
        r@ == mob_resurrected_text(label@),
{
    cat2(label, " have resurrected!")
}

pub open spec fn rest_start_others_text(label: Seq<char>) -> Seq<char> {
    label + " sit and rest"@
}

pub fn rest_start_others(label: &str) -> (r: String)
    ensures
        r@ == rest_start_others_text(label@),
{
    cat2(label, " sit and rest")
}

pub open spec fn stand_up_others_text(label: Seq<char>) -> Seq<char> {
    label + " stand up"@
}

pub fn stand_up_others(label: &str) -> (r: String)
    ensures
        r@ == stand_up_others_text(label@),
{
    cat2(label, " stand up")
}

pub open spec fn enter_player_text(target: Seq<char>) -> Seq<char> {
    "you enter in the "@ + target
}

pub fn enter_player(target: &str) -> (r: String)
    ensures
        r@ == enter_player_text(target@),
{
    cat2("you enter in the ", target)
}

pub open spec fn enter_others_text(mob: Seq<char>, target: Seq<char>) -> Seq<char> {
    mob + " enter in the "@ + target
}

pub fn enter_others(mob: &str, target: &str) -> (r: String)
    ensures
        r@ == enter_others_text(mob@, target@),
{
    cat3(mob, " enter in the ", target)
}

pub open spec fn enter_others_other_side_text(mob: Seq<char>) -> Seq<char> {
    mob + " comes from outside"@
}

pub fn enter_others_other_side(mob: &str) -> (r: String)
    ensures
        r@ == enter_others_other_side_text(mob@),
{
    cat2(mob, " comes from outside")
}

pub open spec fn out_others_other_side_text(mob: Seq<char>, target: Seq<char>) -> Seq<char> {
    mob + " come out of the "@ + target
}

pub fn out_others_other_side(mob: &str, target: &str) -> (r: String)
    ensures
        r@ == out_others_other_side_text(mob@, target@),
{
    cat3(mob, " come out of the ", target)
}

pub open spec fn out_others_text(mob: Seq<char>) -> Seq<char> {
    mob + " goes outside"@
}

pub fn out_others(mob: &str) -> (r: String)
    ensures
        r@ == out_others_text(mob@),
{
    cat2(mob, " goes outside")
}

pub open spec fn vendor_sell_item_not_found_text(label: Seq<char>) -> Seq<char> {
    "you don't have a '"@ + label + "' to sell"@
}

pub fn vendor_sell_item_not_found(label: &str) -> (r: String)
    ensures
        r@ == vendor_sell_item_not_found_text(label@),
{
    cat3("you don't have a '", label, "' to sell")
}

pub open spec fn vendor_sell_item_fail_has_no_price_text(label: Seq<char>) -> Seq<char> {
    "you can not sell "@ + label
}

pub fn vendor_sell_item_fail_has_no_price(label: &str) -> (r: String)
    ensures
        r@ == vendor_sell_item_fail_has_no_price_text(label@),
{
    cat2("you can not sell ", label)
}

pub open spec fn vendor_sell_item_for_others_text(mob: Seq<char>, label: Seq<char>) -> Seq<char> {
    mob + " sell a "@ + label
}

pub fn vendor_sell_item_for_others(mob: &str, label: &str) -> (r: String)
    ensures
        r@ == vendor_sell_item_for_others_text(mob@, label@),
{
    cat3(mob, " sell a ", label)
}

pub open spec fn vendor_can_not_sell_text(label: Seq<char>) -> Seq<char> {
    "'"@ + label + "' can not be sell"@
}

pub fn vendor_can_not_sell(label: &str) -> (r: String)
    ensures
        r@ == vendor_can_not_sell_text(label@),
{
    cat3("'", label, "' can not be sell")
}

pub open spec fn vendor_buy_item_not_found_text(label: Seq<char>) -> Seq<char> {
    "seller don't have a '"@ + label + "'"@
}

pub fn vendor_buy_item_not_found(label: &str) -> (r: String)
    ensures
        r@ == vendor_buy_item_not_found_text(label@),
{
    cat3("seller don't have a '", label, "'")
}

pub open spec fn vendor_buy_success_others_text(mob_label: Seq<char>, item_label: Seq<char>) -> Seq<char> {
    mob_label + " bought a "@ + item_label
}

pub fn vendor_buy_success_others(mob_label: &str, item_label: &str) -> (r: String)
    ensures
        r@ == vendor_buy_success_others_text(mob_label@, item_label@),
{
    cat3(mob_label, " bought a ", item_label)
}

pub open spec fn vendor_buy_success_floor_others_text(mob_label: Seq<char>, item_label: Seq<char>) -> Seq<char> {
    mob_label + " bought a "@ + item_label + " and drop in the floor"@
}

pub fn vendor_buy_success_floor_others(mob_label: &str, item_label: &str) -> (r: String)
    ensures
        r@ == vendor_buy_success_floor_others_text(mob_label@, item_label@),
{
    cat4(mob_label, " bought a ", item_label, " and drop in the floor")
}

pub open spec fn hire_fail_not_found_text(label: Seq<char>) -> Seq<char> {
    "you can not hire "@ + label
}

pub fn hire_fail_not_found(label: &str) -> (r: String)
    ensures
        r@ == hire_fail_not_found_text(label@),
{
    cat2("you can not hire ", label)
}

pub open spec fn hire_text(hired_label: Seq<char>) -> Seq<char> {
    hired_label + " hired"@
}

pub fn hire(hired_label: &str) -> (r: String)
    ensures
        r@ == hire_text(hired_label@),
{
    cat2(hired_label, " hired")
}

pub open spec fn hire_others_text(mob_label: Seq<char>, hired_label: Seq<char>) -> Seq<char> {
    mob_label + " hired "@ + hired_label
}

pub fn hire_others(mob_label: &str, hired_label: &str) -> (r: String)
    ensures
        r@ == hire_others_text(mob_label@, hired_label@),
{
    cat3(mob_label, " hired ", hired_label)
}

pub open spec fn extract_start_text(target: Seq<char>) -> Seq<char> {
    "you start to extract "@ + target
}

pub fn extract_start(target: &str) -> (r: String)
    ensures
        r@ == extract_start_text(target@),
{
    cat2("you start to extract ", target)
}

pub open spec fn extract_start_others_text(mob: Seq<char>, target: Seq<char>) -> Seq<char> {
    mob + " start to extract "@ + target
}

pub fn extract_start_others(mob: &str, target: &str) -> (r: String)
    ensures
        r@ == extract_start_others_text(mob@, target@),
{
    cat3(mob, " start to extract ", target)
}

pub open spec fn extract_fail_text(target: Seq<char>) -> Seq<char> {
    "you fail to extract "@ + target
}

pub fn extract_fail(target: &str) -> (r: String)
    ensures
        r@ == extract_fail_text(target@),
{
    cat2("you fail to extract ", target)
}

pub open spec fn pick_where_text() -> Seq<char> {
    "where? pick where?\n"@
}

pub fn pick_where() -> (r: String)
    ensures
        r@ == pick_where_text(),
{
    String::from_str("where? pick where?\n")
}

pub open spec fn pick_what_text() -> Seq<char> {
    "get what?\n"@
}

pub fn pick_what() -> (r: String)
    ensures
        r@ == pick_what_text(),
{
    String::from_str("get what?\n")
}

pub open spec fn inventory_full_text() -> Seq<char> {
    "your inventory is full"@
}

pub fn inventory_full() -> (r: String)
    ensures
        r@ == inventory_full_text(),
{
    String::from_str("your inventory is full")
}

pub open spec fn equip_what_text() -> Seq<char> {
    "what? what do you want to equip?"@
}

pub fn equip_what() -> (r: String)
    ensures
        r@ == equip_what_text(),
{
    String::from_str("what? what do you want to equip?")
}

pub open spec fn strip_what_text() -> Seq<char> {
    "what? what do you want to remove?\n"@
}

pub fn strip_what() -> (r: String)
    ensures
        r@ == strip_what_text(),
{
    String::from_str("what? what do you want to remove?\n")
}

pub open spec fn drop_item_no_target_text() -> Seq<char> {
    "what do you want to drop?\n"@
}

pub fn drop_item_no_target() -> (r: String)
    ensures
        r@ == drop_item_no_target_text(),
{
    String::from_str("what do you want to drop?\n")
}

pub open spec fn admin_invalid_command_text() -> Seq<char> {
    "invalid admin command"@
}

pub fn admin_invalid_command() -> (r: String)
    ensures
        r@ == admin_invalid_command_text(),
{
    String::from_str("invalid admin command")
}

pub open spec fn admin_suicide_text() -> Seq<char> {
    "you committed suicide"@
}

pub fn admin_suicide() -> (r: String)
    ensures
        r@ == admin_suicide_text(),
{
    String::from_str("you committed suicide")
}

pub open spec fn mob_you_resurrected_text() -> Seq<char> {
    "you have resurrected!"@
}

pub fn mob_you_resurrected() -> (r: String)
    ensures
        r@ == mob_you_resurrected_text(),
{
    String::from_str("you have resurrected!")
}

pub open spec fn rest_fail_in_combat_text() -> Seq<char> {
    "you can not rest, you are FIGHTING!"@
}

pub fn rest_fail_in_combat() -> (r: String)
    ensures
        r@ == rest_fail_in_combat_text(),
{
    String::from_str("you can not rest, you are FIGHTING!")
}

pub open spec fn rest_start_text() -> Seq<char> {
    "you sit and rest"@
}

pub fn rest_start() -> (r: String)
    ensures
        r@ == rest_start_text(),
{
    String::from_str("you sit and rest")
}

pub open spec fn rest_healed_text() -> Seq<char> {
    "you feel fully healed"@
}

pub fn rest_healed() -> (r: String)
    ensures
        r@ == rest_healed_text(),
{
    String::from_str("you feel fully healed")
}

pub open spec fn stand_fail_not_resting_text() -> Seq<char> {
    "you are already standing"@
}

pub fn stand_fail_not_resting() -> (r: String)
    ensures
        r@ == stand_fail_not_resting_text(),
{
    String::from_str("you are already standing")
}

pub open spec fn stand_up_text() -> Seq<char> {
    "you stand up"@
}

pub fn stand_up() -> (r: String)
    ensures
        r@ == stand_up_text(),
{
    String::from_str("you stand up")
}

pub open spec fn enter_fail_text() -> Seq<char> {
    "fail to enter, you don't understand whats happens"@
}

pub fn enter_fail() -> (r: String)
    ensures
        r@ == enter_fail_text(),
{
    String::from_str("fail to enter, you don't understand whats happens")
}

pub open spec fn out_fail_text() -> Seq<char> {
    "you can not go out from here"@
}

pub fn out_fail() -> (r: String)
    ensures
        r@ == out_fail_text(),
{
    String::from_str("you can not go out from here")
}

pub open spec fn out_fail_bad_outside_text() -> Seq<char> {
    "you can not go out from here, outside is not safe"@
}

pub fn out_fail_bad_outside() -> (r: String)
    ensures
        r@ == out_fail_bad_outside_text(),
{
    String::from_str("you can not go out from here, outside is not safe")
}

pub open spec fn out_player_text() -> Seq<char> {
    "you go outside"@
}

pub fn out_player() -> (r: String)
    ensures
        r@ == out_player_text(),
{
    String::from_str("you go outside")
}

pub open spec fn vendor_operation_fail_text() -> Seq<char> {
    "you have no vendor to interact, go away"@
}

pub fn vendor_operation_fail() -> (r: String)
    ensures
        r@ == vendor_operation_fail_text(),
{
    String::from_str("you have no vendor to interact, go away")
}

pub open spec fn vendor_buy_fail_text() -> Seq<char> {
    "buy item fail"@
}

pub fn vendor_buy_fail() -> (r: String)
    ensures
        r@ == vendor_buy_fail_text(),
{
    String::from_str("buy item fail")
}

pub open spec fn hire_fail_text() -> Seq<char> {
    "you can not hire now"@
}

pub fn hire_fail() -> (r: String)
    ensures
        r@ == hire_fail_text(),
{
    String::from_str("you can not hire now")
}


/// The parts with the separator between each two of them.
pub open spec fn joined(parts: Seq<Seq<char>>, sep: Seq<char>) -> Seq<char>
    decreases parts.len(),
{
    if parts.len() == 0 {
        Seq::empty()
    } else if parts.len() == 1 {
        parts[0]
    } else {
        joined(parts.drop_last(), sep) + sep + parts.last()
    }
}

pub open spec fn string_views(v: Seq<String>) -> Seq<Seq<char>> {
    v.map_values(|x: String| x@)
}

/// The parts with the separator between each two of them, as `join` of a slice does.
pub fn join(parts: &Vec<String>, sep: &str) -> (r: String)
    ensures
        r@ == joined(string_views(parts@), sep@),
{
    let mut r = String::new();
    let mut i: usize = 0;
    while i < parts.len()
        invariant
            i <= parts.len(),
            r@ == joined(string_views(parts@).take(i as int), sep@),
        decreases parts.len() - i,
    {
        let ghost before = string_views(parts@).take(i as int);
        let ghost after = string_views(parts@).take(i + 1);
        proof {
            assert(after.drop_last() =~= before);
            assert(after.last() == parts@[i as int]@);
        }
        if i == 0 {
            r = parts[i].clone();
            proof {
                assert(after =~= seq![parts@[0]@]);
            }
        } else {
            r.append(sep);
            r.append(parts[i].as_str());
        }
        i = i + 1;
    }
    proof {
        assert(string_views(parts@).take(parts.len() as int) =~= string_views(parts@));
    }
    r
}

/// The names of the exits, with "exit" last where the room can be left.
pub open spec fn exit_names(exits: Seq<Dir>, can_exit: bool) -> Seq<Seq<char>> {
    exits.map_values(|d: Dir| seq![d.code()]) + if can_exit {
        seq!["exit"@]
    } else {
        Seq::empty()
    }
}

pub open spec fn look_description_text(
    room_label: Seq<char>,
    room_desc: Seq<char>,
    exits: Seq<Dir>,
    can_exit: bool,
    visible_objects: Seq<Seq<char>>,
) -> Seq<char> {
    let header = "["@ + room_label + "] - "@ + joined(exit_names(exits, can_exit), ", "@);
    joined(seq![header, room_desc] + visible_objects.map_values(|l: Seq<char>| "- "@ + l), "\n"@)
}

/// What a mob sees of a room: its name and exits, its description, and a line for each
/// visible object.
pub fn look_description(
    room_label: &str,
    room_desc: &str,
    exits: Vec<Dir>,
    can_exit: bool,
    visible_objects: Vec<&str>,
) -> (r: Result<String, Error>)
    ensures
        r matches Ok(t) && t@ == look_description_text(
            room_label@,
            room_desc@,
            exits@,
            can_exit,
            crate::utils::strinput::views(visible_objects@),
        ),
{
    let mut exit_list: Vec<String> = Vec::new();
    let mut i: usize = 0;
    while i < exits.len()
        invariant
            i <= exits.len(),
            string_views(exit_list@) == exits@.take(i as int).map_values(|d: Dir| seq![d.code()]),
        decreases exits.len() - i,
    {
        let ghost before = exit_list@;
        exit_list.push(String::from_str(exits[i].as_str()));
        proof {
            assert(string_views(exit_list@) =~= string_views(before).push(seq![exits@[i as int].code()]));
            assert(exits@.take(i + 1) =~= exits@.take(i as int).push(exits@[i as int]));
        }
        i = i + 1;
    }
    proof {
        assert(exits@.take(exits.len() as int) =~= exits@);
    }
    if can_exit {
        let ghost before = exit_list@;
        exit_list.push(String::from_str("exit"));
        proof {
            assert(string_views(exit_list@) =~= string_views(before).push("exit"@));
        }
    }
    proof {
        assert(string_views(exit_list@) =~= exit_names(exits@, can_exit));
    }
    let exits_text = join(&exit_list, ", ");
    let mut header = String::from_str("[");
    header.append(room_label);
    header.append("] - ");
    header.append(exits_text.as_str());
    let mut lines: Vec<String> = Vec::new();
    lines.push(header);
    lines.push(String::from_str(room_desc));
    let mut j: usize = 0;
    while j < visible_objects.len()
        invariant
            j <= visible_objects.len(),
            lines@.len() == j + 2,
            lines@[0]@ == "["@ + room_label@ + "] - "@ + joined(exit_names(exits@, can_exit), ", "@),
            lines@[1]@ == room_desc@,
            forall|k: int| 0 <= k < j ==> #[trigger] lines@[k + 2]@ == "- "@ + visible_objects@[k]@,
        decreases visible_objects.len() - j,
    {
        let mut line = String::from_str("- ");
        line.append(visible_objects[j]);
        lines.push(line);
        j = j + 1;
    }
    proof {
        let header = "["@ + room_label@ + "] - "@ + joined(exit_names(exits@, can_exit), ", "@);
        let expected = seq![header, room_desc@] + crate::utils::strinput::views(visible_objects@).map_values(
            |l: Seq<char>| "- "@ + l,
        );
        assert forall|k: int| 0 <= k < lines@.len() implies string_views(lines@)[k] == expected[k] by {
            if k >= 2 {
                assert(lines@[(k - 2) + 2]@ == "- "@ + visible_objects@[k - 2]@);
            }
        }
        assert(string_views(lines@) =~= expected);
    }
    let text = join(&lines, "\n");
    Ok(text)
}

pub open spec fn help_text() -> Seq<char> {
    "-------------------------------------------------------------\n  [Help]\n-------------------------------------------------------------\n  look               - look around\n  examine <target>   - examine target insides carefully\n  n,s,e,w            - move to different directions\n  say <msg>          - say something in the room\n  uptime             - server uptime\n  stats              - show your stats information and inventory\n  rest               - rest to recovery from wounds, see stand\n  stand              - sand up and stop to rest, see rest\n  kill <target>      - attack something and try to kill it\n  get <obj>          - pick up a <obj> from floor\n  get <obj> in <obj> - pick up a <obj> from <from>\n  equip <item>       - use a weapon or wear a armor\n  remove <item>      - strip an item you are using\n  drop <item>        - drop a object\n  put <item> <obj>   - put a object into other container\n  enter <target>     - enter in something\n  out                - get out of something\n  hire               - hire someone\n  map                - show map of current zone\n  buy <item>         - list objecst to buy or buy a item\n  sell <item>        - list objecst to sell or sell a item\n  extract <obj>      - extract resources from a stuff that can be extracted\n-------------------------------------------------------------"@
}

/// The list of commands.
pub fn help() -> (r: String)
    ensures
        r@ == help_text(),
{
    String::from_str("-------------------------------------------------------------\n  [Help]\n-------------------------------------------------------------\n  look               - look around\n  examine <target>   - examine target insides carefully\n  n,s,e,w            - move to different directions\n  say <msg>          - say something in the room\n  uptime             - server uptime\n  stats              - show your stats information and inventory\n  rest               - rest to recovery from wounds, see stand\n  stand              - sand up and stop to rest, see rest\n  kill <target>      - attack something and try to kill it\n  get <obj>          - pick up a <obj> from floor\n  get <obj> in <obj> - pick up a <obj> from <from>\n  equip <item>       - use a weapon or wear a armor\n  remove <item>      - strip an item you are using\n  drop <item>        - drop a object\n  put <item> <obj>   - put a object into other container\n  enter <target>     - enter in something\n  out                - get out of something\n  hire               - hire someone\n  map                - show map of current zone\n  buy <item>         - list objecst to buy or buy a item\n  sell <item>        - list objecst to sell or sell a item\n  extract <obj>      - extract resources from a stuff that can be extracted\n-------------------------------------------------------------")
}

/// A number written with two digits at least.
pub open spec fn two_digits(n: nat) -> Seq<char> {
    if n < 10 {
        "0"@ + decimal(n)
    } else {
        decimal(n)
    }
}

fn write_two_digits(n: usize) -> (r: String)
    ensures
        r@ == two_digits(n as nat),
{
    let digits = usize_to_string(n);
    if n < 10 {
        let mut r = String::from_str("0");
        r.append(digits.as_str());
        r
    } else {
        digits
    }
}

/// The rooms of the first `n` cells, in order.
pub open spec fn room_ids(cells: Seq<RoomMapCell>, n: int) -> Seq<ObjId>
    decreases n,
{
    if n <= 0 {
        Seq::empty()
    } else {
        match cells[n - 1] {
            RoomMapCell::Room(id) => room_ids(cells, n - 1).push(id),
            _ => room_ids(cells, n - 1),
        }
    }
}

/// The index of the last of the first `n` cells that is the current room, 0 where none is.
pub open spec fn current_index(cells: Seq<RoomMapCell>, n: int, current_id: ObjId) -> nat
    decreases n,
{
    if n <= 0 {
        0
    } else if cells[n - 1] == RoomMapCell::Room(current_id) {
        room_ids(cells, n - 1).len()
    } else {
        current_index(cells, n - 1, current_id)
    }
}

pub open spec fn cell_text(cell: RoomMapCell, index: nat, current_id: ObjId) -> Seq<char> {
    match cell {
        RoomMapCell::Empty => ".."@,
        RoomMapCell::Room(id) => if id == current_id {
            "**"@
        } else {
            two_digits(index)
        },
        RoomMapCell::DoorHor => "=="@,
        RoomMapCell::DoorVer => "||"@,
    }
}

/// The first `n` cells, a line for each `width` of them.
pub open spec fn grid_text(cells: Seq<RoomMapCell>, width: nat, n: int, current_id: ObjId) -> Seq<char>
    decreases n,
{
    if n <= 0 {
        Seq::empty()
    } else {
        grid_text(cells, width, n - 1, current_id) + cell_text(cells[n - 1], room_ids(cells, n - 1).len(), current_id)
            + if n % (width as int) == 0 {
            "\n"@
        } else {
            Seq::empty()
        }
    }
}

/// A line for each of the first `n` rooms: its index, or "**" for the current one, and label.
pub open spec fn legend_text(rooms: Seq<ObjId>, n: int, current: nat, labels: Map<u32, crate::game::labels::Label>) -> Seq<char>
    decreases n,
{
    if n <= 0 {
        Seq::empty()
    } else {
        legend_text(rooms, n - 1, current, labels) + if n - 1 == current {
            "**"@
        } else {
            two_digits((n - 1) as nat)
        } + " - "@ + label_text(labels, rooms[n - 1].0) + "\n"@
    }
}

pub open spec fn print_room_map_text(current_id: ObjId, room_map: RoomMap, labels: Map<u32, crate::game::labels::Label>) -> Seq<char> {
    let cells = room_map.cells@;
    let n = room_map.width * room_map.height;
    let rooms = room_ids(cells, n);
    "Map\n"@ + grid_text(cells, room_map.width as nat, n, current_id) + "labels:\n"@ + legend_text(
        rooms,
        rooms.len() as int,
        current_index(cells, n, current_id),
        labels,
    )
}

/// The map as text: a line of cells for each row, where each room shows its index, then a line
/// for each room with its label.
pub fn print_room_map(current_id: ObjId, room_map: RoomMap, labels: &Labels) -> (r: String)
    requires
        room_map.width * room_map.height <= room_map.cells@.len(),
    ensures
        r@ == print_room_map_text(current_id, room_map, labels@),
{
    let ghost cells = room_map.cells@;
    let w: u64 = room_map.width as u64;
    let h: u64 = room_map.height as u64;
    proof {
        assert(w * h <= 0xffff_ffff * 0xffff_ffff) by (nonlinear_arith)
            requires
                w <= 0xffff_ffff,
                h <= 0xffff_ffff,
        ;
        assert(w == 0 ==> w * h == 0) by (nonlinear_arith);
    }
    let p: u64 = w * h;
    let len: usize = room_map.cells.len();
    proof {
        assert(p == room_map.width * room_map.height);
        assert(p <= len);
    }
    let total: usize = p as usize;
    proof {
        assert(total == p);
    }
    let mut buffer = String::from_str("Map\n");
    let mut rooms: Vec<ObjId> = Vec::new();
    let mut current: usize = 0;
    let mut index: usize = 0;
    while index < total
        invariant
            total == room_map.width * room_map.height,
            total <= cells.len(),
            room_map.width == 0 ==> total == 0,
            cells == room_map.cells@,
            index <= total,
            rooms@ == room_ids(cells, index as int),
            current == current_index(cells, index as int, current_id),
            buffer@ == "Map\n"@ + grid_text(cells, room_map.width as nat, index as int, current_id),
        decreases total - index,
    {
        let cell = room_map.cells[index];
        match cell {
            RoomMapCell::Empty => buffer.append(".."),
            RoomMapCell::Room(obj_id) => {
                let i = rooms.len();
                rooms.push(obj_id);
                if obj_id == current_id {
                    current = i;
                    buffer.append("**");
                } else {
                    let digits = write_two_digits(i);
                    buffer.append(digits.as_str());
                }
            },
            RoomMapCell::DoorHor => buffer.append("=="),
            RoomMapCell::DoorVer => buffer.append("||"),
        }
        if (index + 1) % (room_map.width as usize) == 0 {
            buffer.append("\n");
        }
        index = index + 1;
    }
    buffer.append("labels:\n");
    let mut j: usize = 0;
    while j < rooms.len()
        invariant
            j <= rooms.len(),
            rooms@ == room_ids(cells, total as int),
            current == current_index(cells, total as int, current_id),
            buffer@ == "Map\n"@ + grid_text(cells, room_map.width as nat, total as int, current_id) + "labels:\n"@
                + legend_text(rooms@, j as int, current as nat, labels@),
        decreases rooms.len() - j,
    {
        if j == current {
            buffer.append("**");
        } else {
            let digits = write_two_digits(j);
            buffer.append(digits.as_str());
        }
        buffer.append(" - ");
        buffer.append(labels.get_label_f(rooms[j]));
        buffer.append("\n");
        j = j + 1;
    }
    buffer
}

/// The candidates, each on a line of its own after a dash.
pub open spec fn listed(candidates: Seq<Seq<char>>) -> Seq<char>
    decreases candidates.len(),
{
    if candidates.len() == 0 {
        Seq::empty()
    } else {
        listed(candidates.drop_last()) + " - "@ + candidates.last() + "\n"@
    }
}

pub open spec fn hire_list_text(candidates: Seq<Seq<char>>) -> Seq<char> {
    "You can hire the following:\n"@ + listed(candidates)
}

pub open spec fn str_views(v: Seq<&str>) -> Seq<Seq<char>> {
    v.map_values(|x: &str| x@)
}

pub fn hire_list(candidates: Vec<&str>) -> (r: String)
    ensures
        r@ == hire_list_text(str_views(candidates@)),
{
    let mut buff = String::from_str("You can hire the following:\n");
    let mut i: usize = 0;
    while i < candidates.len()
        invariant
            i <= candidates.len(),
            buff@ == hire_list_text(str_views(candidates@).take(i as int)),
        decreases candidates.len() - i,
    {
        proof {
            let t1 = str_views(candidates@).take(i + 1);
            assert(t1.drop_last() =~= str_views(candidates@).take(i as int));
            assert(t1.last() == candidates@[i as int]@);
        }
        buff.append(" - ");
        buff.append(candidates[i]);
        buff.append("\n");
        i = i + 1;
    }
    proof {
        assert(str_views(candidates@).take(candidates.len() as int) =~= str_views(candidates@));
    }
    buff
}

pub open spec fn space_jump_failed_text() -> Seq<char> {
    "jump fail!"@
}

pub fn space_jump_failed() -> (r: String)
    ensures
        r@ == space_jump_failed_text(),
{
    String::from_str("jump fail!")
}

pub open spec fn space_jump_complete_text() -> Seq<char> {
    "jump complete!"@
}

pub fn space_jump_complete() -> (r: String)
    ensures
        r@ == space_jump_complete_text(),
{
    String::from_str("jump complete!")
}

/// What a body of space is, as the sector tree shows it.
#[derive(Debug, Clone, Copy, PartialEq, Eq, Structural)]
pub enum ShowSectorTreeBodyKind {
    BodyKind(AstroBodyKind),
    Unknown,
}

impl From<AstroBodyKind> for ShowSectorTreeBodyKind {
    fn from(kind: AstroBodyKind) -> (r: Self) {
        ShowSectorTreeBodyKind::BodyKind(kind)
    }
}

impl vstd::std_specs::convert::FromSpecImpl<AstroBodyKind> for ShowSectorTreeBodyKind {
    open spec fn obeys_from_spec() -> bool {
        true
    }

    open spec fn from_spec(v: AstroBodyKind) -> ShowSectorTreeBodyKind {
        ShowSectorTreeBodyKind::BodyKind(v)
    }
}

/// A body of the sector tree: what it orbits, and the distance of its orbit already written
/// with two decimals.
#[derive(Clone, Debug)]
pub struct ShowSectorTreeBody<'a> {
    pub id: ObjId,
    pub label: &'a str,
    pub orbit_id: ObjId,
    pub orbit_distance: String,
    pub kind: ShowSectorTreeBodyKind,
    pub is_self: bool,
}

/// The line of a body: its label, its orbit distance, and a mark where it is the viewer.
pub open spec fn body_line(prefix: Seq<char>, b: ShowSectorTreeBody) -> Seq<char> {
    prefix + b.label@ + " "@ + b.orbit_distance@ + if b.is_self {
        " <"@
    } else {
        Seq::empty()
    }
}

/// The lines of the bodies among `bs` that orbit `orbit`, each followed by what orbits it.
pub open spec fn level_lines(
    bs: Seq<ShowSectorTreeBody>,
    all: Seq<ShowSectorTreeBody>,
    origin: ObjId,
    orbit: ObjId,
    local: Seq<char>,
    next: Seq<char>,
    fuel: nat,
) -> Seq<Seq<char>>
    decreases fuel, bs.len() + 1,
{
    if bs.len() == 0 {
        Seq::empty()
    } else {
        let b = bs.last();
        level_lines(bs.drop_last(), all, origin, orbit, local, next, fuel) + if b.orbit_id == orbit {
            seq![body_line(local, b)] + tree_lines(all, origin, b.id, next, fuel)
        } else {
            Seq::empty()
        }
    }
}

/// The lines of what orbits `orbit`, as deep as `fuel` allows: the bodies around the origin
/// have no prefix, those around them "- ", and each level further two more spaces.
pub open spec fn tree_lines(all: Seq<ShowSectorTreeBody>, origin: ObjId, orbit: ObjId, prefix: Seq<char>, fuel: nat) -> Seq<Seq<char>>
    decreases fuel, 0nat,
{
    if fuel == 0 {
        Seq::empty()
    } else {
        let local = if orbit == origin {
            Seq::empty()
        } else {
            prefix
        };
        let next = if orbit == origin {
            "- "@
        } else {
            "  "@ + prefix
        };
        level_lines(all, all, origin, orbit, local, next, (fuel - 1) as nat)
    }
}

pub open spec fn show_sectortree_text(origin_id: ObjId, sector_label: Seq<char>, bodies: Seq<ShowSectorTreeBody>) -> Seq<char> {
    joined(
        seq!["["@ + sector_label + "]"@] + tree_lines(bodies, origin_id, origin_id, Seq::empty(), (bodies.len() + 1) as nat)
            + seq![Seq::empty()],
        "\n"@,
    )
}

fn append_bodies(
    bodies: &Vec<ShowSectorTreeBody>,
    buffer: &mut Vec<String>,
    origin_id: ObjId,
    orbit_id: ObjId,
    prefix: &str,
    fuel: usize,
)
    ensures
        string_views(final(buffer)@) == string_views(old(buffer)@) + tree_lines(bodies@, origin_id, orbit_id, prefix@, fuel as nat),
    decreases fuel,
{
    let ghost start = string_views(buffer@);
    if fuel == 0 {
        proof {
            assert(string_views(buffer@) =~= start + Seq::<Seq<char>>::empty());
        }
        return;
    }
    let at_origin = orbit_id.0 == origin_id.0;
    let local: &str = if at_origin {
        ""
    } else {
        prefix
    };
    let next = if at_origin {
        String::from_str("- ")
    } else {
        cat2("  ", prefix)
    };
    proof {
        reveal_strlit("");
        assert(local@ == if orbit_id == origin_id { Seq::<char>::empty() } else { prefix@ });
    }
    let mut i: usize = 0;
    while i < bodies.len()
        invariant
            0 < fuel,
            i <= bodies.len(),
            local@ == if orbit_id == origin_id { Seq::<char>::empty() } else { prefix@ },
            next@ == if orbit_id == origin_id { "- "@ } else { "  "@ + prefix@ },
            string_views(buffer@) == start + level_lines(
                bodies@.take(i as int),
                bodies@,
                origin_id,
                orbit_id,
                local@,
                next@,
                (fuel - 1) as nat,
            ),
        decreases bodies.len() - i,
    {
        let body = &bodies[i];
        proof {
            assert(bodies@.take(i + 1).drop_last() =~= bodies@.take(i as int));
            assert(bodies@.take(i + 1).last() == bodies@[i as int]);
        }
        if body.orbit_id.0 == orbit_id.0 {
            let mut line = String::from_str(local);
            line.append(body.label);
            line.append(" ");
            line.append(body.orbit_distance.as_str());
            if body.is_self {
                line.append(" <");
            }
            let ghost before = string_views(buffer@);
            buffer.push(line);
            proof {
                reveal_strlit("");
                assert(string_views(buffer@) =~= before.push(body_line(local@, *body)));
            }
            append_bodies(bodies, buffer, origin_id, body.id, next.as_str(), fuel - 1);
            proof {
                assert(string_views(buffer@) =~= start + level_lines(
                    bodies@.take(i + 1),
                    bodies@,
                    origin_id,
                    orbit_id,
                    local@,
                    next@,
                    (fuel - 1) as nat,
                ));
            }
        } else {
            proof {
                assert(string_views(buffer@) =~= start + level_lines(
                    bodies@.take(i + 1),
                    bodies@,
                    origin_id,
                    orbit_id,
                    local@,
                    next@,
                    (fuel - 1) as nat,
                ));
            }
        }
        i = i + 1;
    }
    proof {
        assert(bodies@.take(bodies.len() as int) =~= bodies@);
    }
}

/// The tree of the bodies of a sector, each under what it orbits (see `tree_lines`).
pub fn show_sectortree(origin_id: ObjId, sector_label: &str, bodies: &Vec<ShowSectorTreeBody>) -> (r: String)
    requires
        bodies.len() < usize::MAX,
    ensures
        r@ == show_sectortree_text(origin_id, sector_label@, bodies@),
{
    let mut buffer: Vec<String> = Vec::new();
    buffer.push(cat3("[", sector_label, "]"));
    proof {
        reveal_strlit("");
        assert(""@ =~= Seq::<char>::empty());
    }
    let ghost first = string_views(buffer@);
    append_bodies(bodies, &mut buffer, origin_id, origin_id, "", bodies.len() + 1);
    let ghost second = string_views(buffer@);
    buffer.push(String::new());
    proof {
        assert(first =~= seq!["["@ + sector_label@ + "]"@]);
        assert(string_views(buffer@) =~= second.push(Seq::<char>::empty()));
        assert(string_views(buffer@) =~= seq!["["@ + sector_label@ + "]"@] + tree_lines(
            bodies@,
            origin_id,
            origin_id,
            Seq::empty(),
            (bodies.len() + 1) as nat,
        ) + seq![Seq::<char>::empty()]);
    }
    join(&buffer, "\n")
}

/// Each text after a dash.
pub open spec fn dashed(cs: Seq<Seq<char>>) -> Seq<Seq<char>> {
    cs.map_values(|c: Seq<char>| "- "@ + c)
}

pub open spec fn space_land_list_text(candidates: Seq<Seq<char>>) -> Seq<char> {
    joined(seq!["Landing locations:"@] + dashed(candidates), "\n"@)
}

/// The places a ship can land at, one a line.
pub fn space_land_list(candidates: &Vec<&str>) -> (r: String)
    ensures
        r@ == space_land_list_text(str_views(candidates@)),
{
    let mut buffer: Vec<String> = Vec::new();
    buffer.push(String::from_str("Landing locations:"));
    let mut i: usize = 0;
    while i < candidates.len()
        invariant
            i <= candidates.len(),
            string_views(buffer@) == seq!["Landing locations:"@] + dashed(str_views(candidates@).take(i as int)),
        decreases candidates.len() - i,
    {
        let ghost before = string_views(buffer@);
        buffer.push(cat2("- ", candidates[i]));
        proof {
            assert(string_views(buffer@) =~= before.push("- "@ + candidates@[i as int]@));
            assert(str_views(candidates@).take(i + 1) =~= str_views(candidates@).take(i as int).push(candidates@[i as int]@));
            assert(dashed(str_views(candidates@).take(i + 1)) =~= dashed(str_views(candidates@).take(i as int)).push(
                "- "@ + candidates@[i as int]@,
            ));
            assert(string_views(buffer@) =~= seq!["Landing locations:"@] + dashed(str_views(candidates@).take(i + 1)));
        }
        i = i + 1;
    }
    proof {
        assert(str_views(candidates@).take(candidates.len() as int) =~= str_views(candidates@));
    }
    join(&buffer, "\n")
}

pub open spec fn kill_player_execute_attack_text(target: Seq<char>, r: AttackResult) -> Seq<char> {
    if r.success {
        "you attack "@ + target + " and hit, causing "@ + decimal(r.damage_deliver as nat) + "/"@ + decimal(
            r.damage_total as nat,
        ) + " damage!"@
    } else {
        "you attack "@ + target + " and miss!"@
    }
}

pub fn kill_player_execute_attack(target: &str, attack_result: &AttackResult) -> (r: String)
    ensures
        r@ == kill_player_execute_attack_text(target@, *attack_result),
{
    if attack_result.success {
        let mut s = cat3("you attack ", target, " and hit, causing ");
        s.append(usize_to_string(attack_result.damage_deliver as usize).as_str());
        s.append("/");
        s.append(usize_to_string(attack_result.damage_total as usize).as_str());
        s.append(" damage!");
        s
    } else {
        cat3("you attack ", target, " and miss!")
    }
}

pub open spec fn kill_mob_execute_attack_text(mob: Seq<char>, target: Seq<char>, r: AttackResult) -> Seq<char> {
    if r.success {
        mob + " execute a attack and hit "@ + target + " causing "@ + decimal(r.damage_deliver as nat) + "/"@
            + decimal(r.damage_total as nat) + " damage!"@
    } else {
        mob + " execute a attack "@ + target + " and miss!"@
    }
}

pub fn kill_mob_execute_attack(mob: &str, target: &str, attack_result: &AttackResult) -> (r: String)
    ensures
        r@ == kill_mob_execute_attack_text(mob@, target@, *attack_result),
{
    if attack_result.success {
        let mut s = cat4(mob, " execute a attack and hit ", target, " causing ");
        s.append(usize_to_string(attack_result.damage_deliver as usize).as_str());
        s.append("/");
        s.append(usize_to_string(attack_result.damage_total as usize).as_str());
        s.append(" damage!");
        s
    } else {
        cat4(mob, " execute a attack ", target, " and miss!")
    }
}

/// An item as an inventory lists it. Its weight, a decimal number, is not kept.
pub struct InventoryItemDesc<'a> {
    pub id: ObjId,
    pub label: &'a str,
    pub amount: u32,
    pub equipped: bool,
}

/// What an inventory holds, with its weight and the weight it can hold already written.
pub struct InventoryDesc<'a> {
    pub max_weight: Option<String>,
    pub total_weight: String,
    pub items: Vec<InventoryItemDesc<'a>>,
}

/// An item's name, marked where it is equipped, and its amount where there is more than one.
pub open spec fn print_item_text(item: Seq<char>, amount: u32, equipped: bool) -> Seq<char> {
    item + (if equipped {
        "(equipped)"@
    } else {
        Seq::empty()
    }) + (if amount > 1 {
        " x"@ + decimal(amount as nat)
    } else {
        Seq::empty()
    })
}

fn print_item(item: &str, amount: u32, equipped: bool) -> (r: String)
    ensures
        r@ == print_item_text(item@, amount, equipped),
{
    let mut r = String::from_str(item);
    if equipped {
        r.append("(equipped)");
    }
    if amount > 1 {
        r.append(" x");
        r.append(usize_to_string(amount as usize).as_str());
    }
    proof {
        reveal_strlit("");
    }
    r
}

/// The items of an inventory description, as plain values: id, label, amount, equipped.
pub open spec fn plain_items(items: Seq<InventoryItemDesc>) -> Seq<(u32, Seq<char>, u32, bool)> {
    items.map_values(|i: InventoryItemDesc| (i.id.0, i.label@, i.amount, i.equipped))
}

/// The lines of the items of an inventory.
pub open spec fn item_lines(items: Seq<(u32, Seq<char>, u32, bool)>) -> Seq<Seq<char>> {
    items.map_values(|i: (u32, Seq<char>, u32, bool)| "- "@ + print_item_text(i.1, i.2, i.3))
}

/// The weight line of an inventory.
pub open spec fn weight_line(total: Seq<char>, max: Option<Seq<char>>) -> Seq<char> {
    match max {
        Some(m) => "weight "@ + total + "/"@ + m,
        None => "weight "@ + total,
    }
}

/// An inventory's items, one a line after a title, and its weight.
pub open spec fn inventory_text(items: Seq<(u32, Seq<char>, u32, bool)>, total: Seq<char>, max: Option<Seq<char>>) -> Seq<char> {
    joined(seq!["Inventory:"@] + item_lines(items) + seq![weight_line(total, max)], "\n"@)
}

/// The text a string holds, where there is one.
pub open spec fn opt_text(o: Option<String>) -> Option<Seq<char>> {
    match o {
        Some(m) => Some(m@),
        None => None,
    }
}

pub open spec fn show_inventory_text(inv: InventoryDesc) -> Seq<char> {
    inventory_text(
        plain_items(inv.items@),
        inv.total_weight@,
        opt_text(inv.max_weight),
    )
}

/// The items of an inventory, one a line, and its weight.
pub fn show_inventory(inventory: &InventoryDesc) -> (r: String)
    ensures
        r@ == show_inventory_text(*inventory),
{
    let mut buffer: Vec<String> = Vec::new();
    buffer.push(String::from_str("Inventory:"));
    let mut i: usize = 0;
    while i < inventory.items.len()
        invariant
            i <= inventory.items.len(),
            string_views(buffer@) == seq!["Inventory:"@] + item_lines(plain_items(inventory.items@.take(i as int))),
        decreases inventory.items.len() - i,
    {
        let item = &inventory.items[i];
        let ghost before = string_views(buffer@);
        buffer.push(cat2("- ", print_item(item.label, item.amount, item.equipped).as_str()));
        proof {
            assert(item_lines(plain_items(inventory.items@.take(i + 1))) =~= item_lines(plain_items(inventory.items@.take(i as int))).push(
                "- "@ + print_item_text(item.label@, item.amount, item.equipped),
            ));
            assert(string_views(buffer@) =~= before.push("- "@ + print_item_text(item.label@, item.amount, item.equipped)));
        }
        i = i + 1;
    }
    let line = match &inventory.max_weight {
        Some(max_weight) => {
            let mut l = cat2("weight ", inventory.total_weight.as_str());
            l.append("/");
            l.append(max_weight.as_str());
            l
        },
        None => cat2("weight ", inventory.total_weight.as_str()),
    };
    let ghost before = string_views(buffer@);
    buffer.push(line);
    proof {
        assert(inventory.items@.take(inventory.items.len() as int) =~= inventory.items@);
        let ghost max = opt_text(inventory.max_weight);
        assert(string_views(buffer@) =~= before.push(weight_line(inventory.total_weight@, max)));
        assert(string_views(buffer@) =~= seq!["Inventory:"@] + item_lines(plain_items(inventory.items@)) + seq![
            weight_line(inventory.total_weight@, max),
        ]);
    }
    join(&buffer, "\n")
}

/// The decimal writing of an integer, with a minus sign where it is negative.
pub open spec fn signed_decimal(i: int) -> Seq<char> {
    if i < 0 {
        "-"@ + decimal((-i) as nat)
    } else {
        decimal(i as nat)
    }
}

fn write_signed(i: i32) -> (r: String)
    ensures
        r@ == signed_decimal(i as int),
{
    if i < 0 {
        let n: i64 = -(i as i64);
        cat2("-", usize_to_string(n as usize).as_str())
    } else {
        usize_to_string(i as usize)
    }
}

fn write_number(n: u32) -> (r: String)
    ensures
        r@ == decimal(n as nat),
{
    usize_to_string(n as usize)
}

pub open spec fn stats_text(xp: u32, a: Attributes, inventory: Seq<char>) -> Seq<char> {
    "Stats: \nattack:  "@ + decimal(a.attack as nat) + "\ndefense: "@ + decimal(a.defense as nat) + "\ndamage:  "@
        + decimal(a.damage.min as nat) + "-"@ + decimal(a.damage.max as nat) + "\npv:      "@ + signed_decimal(
        a.pv.current as int,
    ) + "-"@ + decimal(a.pv.max as nat) + "\nxp:      "@ + decimal(xp as nat) + "\n"@ + inventory + "\n"@
}

/// The attributes, the experience and the inventory of a mob.
pub fn stats(xp: u32, attributes: &Attributes, inventory: &InventoryDesc) -> (r: String)
    ensures
        r@ == stats_text(xp, *attributes, show_inventory_text(*inventory)),
{
    let inventory_str = show_inventory(inventory);
    let mut r = String::from_str("Stats: \nattack:  ");
    r.append(write_number(attributes.attack).as_str());
    r.append("\ndefense: ");
    r.append(write_number(attributes.defense).as_str());
    r.append("\ndamage:  ");
    r.append(write_number(attributes.damage.min).as_str());
    r.append("-");
    r.append(write_number(attributes.damage.max).as_str());
    r.append("\npv:      ");
    r.append(write_signed(attributes.pv.current).as_str());
    r.append("-");
    r.append(write_number(attributes.pv.max).as_str());
    r.append("\nxp:      ");
    r.append(write_number(xp).as_str());
    r.append("\n");
    r.append(inventory_str.as_str());
    r.append("\n");
    r
}

pub open spec fn examine_target_text(mob_label: Seq<char>, xp: u32, a: Attributes, inventory: Seq<char>) -> Seq<char> {
    "you examine "@ + mob_label + "!\n"@ + stats_text(xp, a, inventory)
}

pub fn examine_target(mob_label: &str, xp: u32, attributes: &Attributes, inventory: &InventoryDesc) -> (r: String)
    ensures
        r@ == examine_target_text(mob_label@, xp, *attributes, show_inventory_text(*inventory)),
{
    let mut r = cat3("you examine ", mob_label, "!\n");
    r.append(stats(xp, attributes, inventory).as_str());
    r
}

pub open spec fn examine_target_item_text(item: Seq<char>, inventory: Seq<char>) -> Seq<char> {
    "you examine "@ + item + "!\n"@ + inventory
}

pub fn examine_target_item(item: &str, inventory: &InventoryDesc) -> (r: String)
    ensures
        r@ == examine_target_item_text(item@, show_inventory_text(*inventory)),
{
    let mut r = cat3("you examine ", item, "!\n");
    r.append(show_inventory(inventory).as_str());
    r
}

pub open spec fn vendor_buy_you_have_not_enough_money_text(money: u32, price: u32) -> Seq<char> {
    "not enough money, it cost "@ + decimal(price as nat) + " and you have only "@ + decimal(money as nat)
}

pub fn vendor_buy_you_have_not_enough_money(money: u32, price: u32) -> (r: String)
    ensures
        r@ == vendor_buy_you_have_not_enough_money_text(money, price),
{
    let mut s = String::from_str("not enough money, it cost ");
    s.append(usize_to_string(price as usize).as_str());
    s.append(" and you have only ");
    s.append(usize_to_string(money as usize).as_str());
    s
}

pub open spec fn vendor_buy_success_text(item: Seq<char>, price: u32, new_money: u32) -> Seq<char> {
    "you bought a "@ + item + " for "@ + decimal(price as nat) + ", you have now "@ + decimal(new_money as nat)
        + " of money"@
}

pub fn vendor_buy_success(item: &str, price: u32, new_money: u32) -> (r: String)
    ensures
        r@ == vendor_buy_success_text(item@, price, new_money),
{
    let mut s = cat2("you bought a ", item);
    s.append(" for ");
    s.append(usize_to_string(price as usize).as_str());
    s.append(", you have now ");
    s.append(usize_to_string(new_money as usize).as_str());
    s.append(" of money");
    s
}

/// The weights, decimal numbers, come written.
pub open spec fn vendor_buy_success_floor_text(
    item: Seq<char>,
    price: u32,
    new_money: u32,
    item_weight: Seq<char>,
    available_weight: Seq<char>,
) -> Seq<char> {
    vendor_buy_success_text(item, price, new_money) + ", it's weight "@ + item_weight + " but you can only take "@
        + available_weight + ", it was drop in the floor, "@
}

pub fn vendor_buy_success_floor(item: &str, price: u32, new_money: u32, item_weight: &str, available_weight: &str) -> (r: String)
    ensures
        r@ == vendor_buy_success_floor_text(item@, price, new_money, item_weight@, available_weight@),
{
    let mut s = vendor_buy_success(item, price, new_money);
    s.append(", it's weight ");
    s.append(item_weight);
    s.append(" but you can only take ");
    s.append(available_weight);
    s.append(", it was drop in the floor, ");
    s
}

} // verus!
