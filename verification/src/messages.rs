//! The texts that the simulation writes to the message log.

use crate::object::Slot;
use crate::text::{append_decimal, decimal};
use vstd::prelude::*;
use vstd::string::*;

verus! {

/// `a` and `b` in a row.
pub fn join2(a: &str, b: &str) -> (s: String)
    ensures
        s@ == a@ + b@,
{
    let mut s = String::from_str(a);
    s.append(b);
    s
}

/// `a`, `b` and `c` in a row.
pub fn join3(a: &str, b: &str, c: &str) -> (s: String)
    ensures
        s@ == a@ + b@ + c@,
{
    let mut s = String::from_str(a);
    s.append(b);
    s.append(c);
    s
}

/// `a`, `b`, `c` and `d` in a row.
pub fn join4(a: &str, b: &str, c: &str, d: &str) -> (s: String)
    ensures
        s@ == a@ + b@ + c@ + d@,
{
    let mut s = String::from_str(a);
    s.append(b);
    s.append(c);
    s.append(d);
    s
}

/// `a`, `b`, `c`, `d` and `e` in a row.
pub fn join5(a: &str, b: &str, c: &str, d: &str, e: &str) -> (s: String)
    ensures
        s@ == a@ + b@ + c@ + d@ + e@,
{
    let mut s = String::from_str(a);
    s.append(b);
    s.append(c);
    s.append(d);
    s.append(e);
    s
}

/// `a`, the decimal numeral of `n`, and `b` in a row.
pub fn join_number(a: &str, n: i32, b: &str) -> (s: String)
    ensures
        s@ == a@ + decimal(n as int) + b@,
{
    let mut s = String::from_str(a);
    append_decimal(&mut s, n);
    s.append(b);
    s
}

/// The name of a fallen monster's remains.
pub open spec fn remains_text(name: Seq<char>) -> Seq<char> {
    "remains of "@ + name
}

/// What the log says when the monster called `name` dies.
pub open spec fn dead_text(name: Seq<char>) -> Seq<char> {
    name + " is dead!"@
}

/// What the log says of a blow that dealt `damage`.
pub open spec fn hit_text(attacker: Seq<char>, target: Seq<char>, damage: int) -> Seq<char> {
    attacker + " attacks "@ + target + " for "@ + decimal(damage) + " hit points."@
}

/// What the log says of a blow that dealt no damage.
pub open spec fn no_effect_text(attacker: Seq<char>, target: Seq<char>) -> Seq<char> {
    attacker + " attacks "@ + target + " but it has no effect!"@
}

/// What the log says when the confusion of the monster called `name` has
/// passed.
pub open spec fn no_longer_confused_text(name: Seq<char>) -> Seq<char> {
    "The "@ + name + " is no longer confused!"@
}

/// What the log says when there is no room for the item called `name`.
pub open spec fn inventory_full_text(name: Seq<char>) -> Seq<char> {
    "Your inventory is full, cannot pick up "@ + name + "."@
}

/// What the log says when the item called `name` is picked up.
pub open spec fn picked_up_text(name: Seq<char>) -> Seq<char> {
    "You picked up a "@ + name + "!"@
}

/// What the log says when something without a use is used.
pub open spec fn cannot_use_text(name: Seq<char>) -> Seq<char> {
    "The "@ + name + " cannot be used."@
}

/// What the log says when a lightning bolt strikes.
pub open spec fn lightning_text(name: Seq<char>, damage: int) -> Seq<char> {
    "A lightning bolt strikes the "@ + name + " with a loud thunder! The damage is "@ + decimal(
        damage,
    ) + " hit points."@
}

/// What the log says when the monster called `name` is confused.
pub open spec fn confused_text(name: Seq<char>) -> Seq<char> {
    "The eyes of "@ + name + " look vacant, as he starts to stumble around!"@
}

/// What the log says when a fireball goes off.
pub open spec fn fireball_text(radius: int) -> Seq<char> {
    "The fireball explodes, burning everything within "@ + decimal(radius) + " tiles!"@
}

/// What the log says of each fighter that a fireball burns.
pub open spec fn burned_text(name: Seq<char>, damage: int) -> Seq<char> {
    "The "@ + name + " gets burned for "@ + decimal(damage) + " hit points."@
}

/// What the log says when the item called `name` is dropped.
pub open spec fn dropped_text(name: Seq<char>) -> Seq<char> {
    "You dropped a "@ + name + "."@
}

/// The name of a slot, as it is written in messages.
pub open spec fn slot_text(slot: Slot) -> Seq<char> {
    match slot {
        Slot::LeftHand => "left hand"@,
        Slot::RightHand => "right hand"@,
        Slot::Head => "head"@,
    }
}

/// What the log says when the item called `name` is put on.
pub open spec fn equipped_text(name: Seq<char>, slot: Slot) -> Seq<char> {
    "Equipped "@ + name + " on "@ + slot_text(slot) + "."@
}

/// What the log says when the item called `name` is taken off.
pub open spec fn dequipped_text(name: Seq<char>, slot: Slot) -> Seq<char> {
    "Dequipped "@ + name + " from "@ + slot_text(slot) + "."@
}

/// What the log says when something that is no equipment is to be put on.
pub open spec fn cannot_equip_text(name: Seq<char>) -> Seq<char> {
    "Can't equip "@ + name + " because it's not an Equipment."@
}

/// What the log says when something that is no equipment is to be taken
/// off.
pub open spec fn cannot_dequip_text(name: Seq<char>) -> Seq<char> {
    "Can't dequip "@ + name + " because it's not an Equipment."@
}

/// What the log says when the player reaches `level`.
pub open spec fn level_up_text(level: int) -> Seq<char> {
    "Your battle skills grow stronger! You reached level "@ + decimal(level) + "!"@
}

/// The name of a slot, as it is written in messages.
pub fn slot_name(slot: Slot) -> (s: &'static str)
    ensures
        s@ == slot_text(slot),
{
    match slot {
        Slot::LeftHand => "left hand",
        Slot::RightHand => "right hand",
        Slot::Head => "head",
    }
}

/// The text of [`hit_text`].
pub fn hit_message(attacker: &str, target: &str, damage: i32) -> (s: String)
    ensures
        s@ == hit_text(attacker@, target@, damage as int),
{
    let mut s = String::from_str(attacker);
    s.append(" attacks ");
    s.append(target);
    s.append(" for ");
    append_decimal(&mut s, damage);
    s.append(" hit points.");
    s
}

/// The text of [`lightning_text`].
pub fn lightning_message(name: &str, damage: i32) -> (s: String)
    ensures
        s@ == lightning_text(name@, damage as int),
{
    let mut s = String::from_str("A lightning bolt strikes the ");
    s.append(name);
    s.append(" with a loud thunder! The damage is ");
    append_decimal(&mut s, damage);
    s.append(" hit points.");
    s
}

/// The text of [`burned_text`].
pub fn burned_message(name: &str, damage: i32) -> (s: String)
    ensures
        s@ == burned_text(name@, damage as int),
{
    let mut s = String::from_str("The ");
    s.append(name);
    s.append(" gets burned for ");
    append_decimal(&mut s, damage);
    s.append(" hit points.");
    s
}

} // verus!
