//! What the player carries: picking up, dropping, and putting equipment on
//! and off.

use crate::color::Color;
use crate::game::{add_message, Game, GameView, Messages};
use crate::messages::{
    cannot_dequip_text, cannot_equip_text, dequipped_text, dropped_text, equipped_text,
    inventory_full_text, join3, join5, picked_up_text, slot_name,
};
use crate::object::{Equipment, Object, ObjectView, Slot, PLAYER};
use vstd::prelude::*;

verus! {

/// How many items the inventory holds at most: one for each letter of the
/// menu.
pub const INVENTORY_CAPACITY: usize = 26;

/// How the use of an item ended.
#[derive(Clone, Copy, Debug, PartialEq, Eq, Structural)]
pub enum UseResult {
    /// The item did its work and is gone.
    UsedUp,
    /// The item did its work and stays in the inventory.
    UsedAndKept,
    /// Nothing happened and the item stays in the inventory.
    Cancelled,
}

impl ObjectView {
    /// Whether the object is a piece of equipment worn in `slot`.
    pub open spec fn wears(self, slot: Slot) -> bool {
        self.equipment matches Some(e) && e.equipped && e.slot == slot
    }

    /// The object with its equipment marked as worn, or as not worn.
    pub open spec fn worn(self, equipped: bool) -> ObjectView {
        match self.equipment {
            Some(e) => ObjectView { equipment: Some(Equipment { equipped, ..e }), ..self },
            None => self,
        }
    }

    /// What putting the object on writes to the log: that it was put on, if
    /// it is equipment that was not worn; nothing, if it was worn already;
    /// that it cannot be worn, if it is no equipment.
    pub open spec fn equip_log(self) -> Seq<(Seq<char>, Color)> {
        match self.equipment {
            Some(e) => if e.equipped {
                seq![]
            } else {
                seq![(equipped_text(self.name, e.slot), Color::LightGreen)]
            },
            None => seq![(cannot_equip_text(self.name), Color::Red)],
        }
    }

    /// What taking the object off writes to the log.
    pub open spec fn dequip_log(self) -> Seq<(Seq<char>, Color)> {
        match self.equipment {
            Some(e) => if e.equipped {
                seq![(dequipped_text(self.name, e.slot), Color::LightYellow)]
            } else {
                seq![]
            },
            None => seq![(cannot_dequip_text(self.name), Color::Red)],
        }
    }
}

/// Whether no two items of `inventory` are worn in the same slot.
pub open spec fn one_per_slot(inventory: Seq<ObjectView>) -> bool {
    forall|i: int, j: int, slot: Slot|
        0 <= i < j < inventory.len() ==> !((#[trigger] inventory[i].wears(slot))
            && #[trigger] inventory[j].wears(slot))
}

/// The inventory after the item `id` was put on, if it was not worn, or
/// taken off, if it was. Before an item is put on, the item worn in its slot
/// is taken off. What is no equipment stays as it is.
pub open spec fn toggled(inventory: Seq<ObjectView>, id: int) -> Seq<ObjectView> {
    match inventory[id].equipment {
        Some(e) => if e.equipped {
            inventory.update(id, inventory[id].worn(false))
        } else {
            cleared(inventory, e.slot).update(id, inventory[id].worn(true))
        },
        None => inventory,
    }
}

/// The inventory with the first item worn in `slot` taken off.
pub open spec fn cleared(inventory: Seq<ObjectView>, slot: Slot) -> Seq<ObjectView> {
    match first_worn(inventory, slot) {
        Some(i) => inventory.update(i, inventory[i].worn(false)),
        None => inventory,
    }
}

/// The number of the first item of `inventory` worn in `slot`.
pub open spec fn first_worn(inventory: Seq<ObjectView>, slot: Slot) -> Option<int>
    decreases inventory.len(),
{
    if inventory.len() == 0 {
        None
    } else {
        match first_worn(inventory.drop_last(), slot) {
            Some(i) => Some(i),
            None => if inventory.last().wears(slot) {
                Some(inventory.len() - 1)
            } else {
                None
            },
        }
    }
}

/// What putting on or taking off the item `id` writes to the log.
pub open spec fn toggle_log(inventory: Seq<ObjectView>, id: int) -> Seq<(Seq<char>, Color)> {
    match inventory[id].equipment {
        Some(e) => if e.equipped {
            inventory[id].dequip_log()
        } else {
            (match first_worn(inventory, e.slot) {
                Some(i) => inventory[i].dequip_log(),
                None => seq![],
            }) + inventory[id].equip_log()
        },
        None => seq![],
    }
}

/// What [`first_worn`] finds: the first item worn in the slot, or that
/// there is none.
pub proof fn lemma_first_worn(inventory: Seq<ObjectView>, slot: Slot)
    ensures
        match first_worn(inventory, slot) {
            Some(i) => 0 <= i < inventory.len() && inventory[i].wears(slot) && forall|j: int|
                0 <= j < i ==> !(#[trigger] inventory[j]).wears(slot),
            None => forall|j: int|
                0 <= j < inventory.len() ==> !(#[trigger] inventory[j]).wears(slot),
        },
    decreases inventory.len(),
{
    if inventory.len() > 0 {
        lemma_first_worn(inventory.drop_last(), slot);
        match first_worn(inventory.drop_last(), slot) {
            Some(i) => {
                assert(inventory.drop_last()[i] == inventory[i]);
                assert forall|j: int| 0 <= j < i implies !(#[trigger] inventory[j]).wears(slot) by {
                    assert(inventory.drop_last()[j] == inventory[j]);
                }
            },
            None => {
                assert forall|j: int| 0 <= j < inventory.len() - 1 implies !(
                #[trigger] inventory[j]).wears(slot) by {
                    assert(inventory.drop_last()[j] == inventory[j]);
                }
            },
        }
    }
}

/// The number of the first item of `inventory` worn in `slot`.
pub fn get_equipped_in_slot(slot: Slot, inventory: &Vec<Object>) -> (found: Option<usize>)
    ensures
        match found {
            Some(i) => first_worn(inventory.deep_view(), slot) == Some(i as int),
            None => first_worn(inventory.deep_view(), slot) is None,
        },
{
    let ghost items = inventory.deep_view();
    let mut i: usize = 0;
    assert(items.take(0) =~= Seq::<ObjectView>::empty());
    while i < inventory.len()
        invariant
            i <= inventory@.len(),
            items == inventory.deep_view(),
            first_worn(items.take(i as int), slot) is None,
        decreases inventory@.len() - i,
    {
        proof {
            assert(items.take(i + 1).drop_last() =~= items.take(i as int));
            assert(items.take(i + 1).last() == inventory@[i as int]@);
        }
        let worn = match inventory[i].equipment {
            Some(e) => e.equipped && slot_eq(e.slot, slot),
            None => false,
        };
        if worn {
            proof {
                lemma_first_worn_prefix(items, i + 1, slot);
            }
            return Some(i);
        }
        i += 1;
    }
    assert(items.take(i as int) =~= items);
    None
}

/// An item found among the first `n` is found at the same place in the whole
/// inventory.
proof fn lemma_first_worn_prefix(inventory: Seq<ObjectView>, n: int, slot: Slot)
    requires
        0 <= n <= inventory.len(),
        first_worn(inventory.take(n), slot) is Some,
    ensures
        first_worn(inventory, slot) == first_worn(inventory.take(n), slot),
    decreases inventory.len() - n,
{
    if n < inventory.len() {
        assert(inventory.take(n + 1).drop_last() =~= inventory.take(n));
        lemma_first_worn_prefix(inventory, n + 1, slot);
    } else {
        assert(inventory.take(n) =~= inventory);
    }
}

fn slot_eq(a: Slot, b: Slot) -> (same: bool)
    ensures
        same == (a == b),
{
    match (a, b) {
        (Slot::LeftHand, Slot::LeftHand) => true,
        (Slot::RightHand, Slot::RightHand) => true,
        (Slot::Head, Slot::Head) => true,
        _ => false,
    }
}

impl Object {
    /// Puts the object on. What is no equipment cannot be put on, which the
    /// log records.
    pub fn equip(&mut self, log: &mut Messages)
        ensures
            final(self)@ == old(self)@.worn(true),
            final(log).deep_view() == old(log).deep_view() + old(self)@.equip_log(),
    {
        match self.equipment {
            Some(e) => {
                if !e.equipped {
                    self.equipment = Some(
                        Equipment {
                            slot: e.slot,
                            equipped: true,
                            power_bonus: e.power_bonus,
                            defense_bonus: e.defense_bonus,
                            max_hp_bonus: e.max_hp_bonus,
                        },
                    );
                    add_message(
                        log,
                        join5("Equipped ", self.name.as_str(), " on ", slot_name(e.slot), "."),
                        Color::LightGreen,
                    );
                    assert(log.deep_view() =~= old(log).deep_view() + old(self)@.equip_log());
                } else {
                    assert(log.deep_view() =~= old(log).deep_view() + old(self)@.equip_log());
                }
            },
            None => {
                add_message(
                    log,
                    join3("Can't equip ", self.name.as_str(), " because it's not an Equipment."),
                    Color::Red,
                );
                assert(log.deep_view() =~= old(log).deep_view() + old(self)@.equip_log());
            },
        }
    }

    /// Takes the object off. What is no equipment cannot be taken off, which
    /// the log records.
    pub fn dequip(&mut self, log: &mut Messages)
        ensures
            final(self)@ == old(self)@.worn(false),
            final(log).deep_view() == old(log).deep_view() + old(self)@.dequip_log(),
    {
        match self.equipment {
            Some(e) => {
                if e.equipped {
                    self.equipment = Some(
                        Equipment {
                            slot: e.slot,
                            equipped: false,
                            power_bonus: e.power_bonus,
                            defense_bonus: e.defense_bonus,
                            max_hp_bonus: e.max_hp_bonus,
                        },
                    );
                    add_message(
                        log,
                        join5("Dequipped ", self.name.as_str(), " from ", slot_name(e.slot), "."),
                        Color::LightYellow,
                    );
                    assert(log.deep_view() =~= old(log).deep_view() + old(self)@.dequip_log());
                } else {
                    assert(log.deep_view() =~= old(log).deep_view() + old(self)@.dequip_log());
                }
            },
            None => {
                add_message(
                    log,
                    join3("Can't dequip ", self.name.as_str(), " because it's not an Equipment."),
                    Color::Red,
                );
                assert(log.deep_view() =~= old(log).deep_view() + old(self)@.dequip_log());
            },
        }
    }
}

/// Puts the item `inventory_id` on if it is not worn and takes it off if it
/// is. Before an item is put on, the item worn in its slot is taken off. The
/// item stays in the inventory. What is no equipment stays as it is, and the
/// use counts as cancelled.
pub fn toggle_equipment(inventory_id: usize, game: &mut Game) -> (result: UseResult)
    requires
        inventory_id < old(game).inventory@.len(),
    ensures
        result == if old(game)@.inventory[inventory_id as int].equipment is Some {
            UseResult::UsedAndKept
        } else {
            UseResult::Cancelled
        },
        final(game)@ == (GameView {
            inventory: toggled(old(game)@.inventory, inventory_id as int),
            ..old(game)@.logged(toggle_log(old(game)@.inventory, inventory_id as int))
        }),
{
    let ghost before = game@;
    let equipment = match game.inventory[inventory_id].equipment {
        Some(e) => e,
        None => {
            assert(game@.log + Seq::<(Seq<char>, Color)>::empty() =~= game@.log);
            return UseResult::Cancelled;
        },
    };
    if equipment.equipped {
        game.inventory[inventory_id].dequip(&mut game.log);
        assert(game@.inventory =~= toggled(before.inventory, inventory_id as int));
    } else {
        match get_equipped_in_slot(equipment.slot, &game.inventory) {
            Some(current) => {
                proof {
                    lemma_first_worn(before.inventory, equipment.slot);
                }
                game.inventory[current].dequip(&mut game.log);
            },
            None => {
                assert(game@.log + Seq::<(Seq<char>, Color)>::empty() =~= game@.log);
            },
        }
        assert(game@.inventory =~= cleared(before.inventory, equipment.slot));
        game.inventory[inventory_id].equip(&mut game.log);
        assert(game@.inventory =~= toggled(before.inventory, inventory_id as int));
        assert(game@.log =~= before.log + toggle_log(before.inventory, inventory_id as int));
    }
    UseResult::UsedAndKept
}

/// The objects on the level after the one in slot `id` was taken away: the
/// last object takes its slot.
pub open spec fn without(objects: Seq<ObjectView>, id: int) -> Seq<ObjectView> {
    objects.update(id, objects.last()).drop_last()
}

/// The item as it goes into the inventory: worn if it is equipment and its
/// slot is free, not worn otherwise.
pub open spec fn stowed(inventory: Seq<ObjectView>, item: ObjectView) -> ObjectView {
    match item.equipment {
        Some(e) => item.worn(first_worn(inventory, e.slot) is None),
        None => item,
    }
}

/// What picking up `item` writes to the log: that it was picked up, and that
/// it was put on if it was.
pub open spec fn stow_log(inventory: Seq<ObjectView>, item: ObjectView) -> Seq<(Seq<char>, Color)> {
    seq![(picked_up_text(item.name), Color::Green)] + (match item.equipment {
        Some(e) => if first_worn(inventory, e.slot) is None {
            seq![(equipped_text(item.name, e.slot), Color::LightGreen)]
        } else {
            seq![]
        },
        None => seq![],
    })
}

/// Moves the object in slot `object_id` from the level into the inventory.
/// A piece of equipment is put on at once if nothing is worn in its slot.
/// With the inventory full the object stays where it is, and the log says so.
pub fn pick_item_up(object_id: usize, objects: &mut Vec<Object>, game: &mut Game)
    requires
        PLAYER < object_id < old(objects)@.len(),
    ensures
        old(game).inventory@.len() >= INVENTORY_CAPACITY ==> {
            &&& final(objects).deep_view() == old(objects).deep_view()
            &&& final(game)@ == old(game)@.logged(
                seq![
                    (
                        inventory_full_text(old(objects).deep_view()[object_id as int].name),
                        Color::Red,
                    ),
                ],
            )
        },
        old(game).inventory@.len() < INVENTORY_CAPACITY ==> {
            let item = old(objects).deep_view()[object_id as int];
            &&& final(objects).deep_view() == without(old(objects).deep_view(), object_id as int)
            &&& final(game)@ == (GameView {
                inventory: old(game)@.inventory.push(stowed(old(game)@.inventory, item)),
                ..old(game)@.logged(stow_log(old(game)@.inventory, item))
            })
        },
{
    let ghost before = game@;
    if game.inventory.len() >= INVENTORY_CAPACITY {
        add_message(
            &mut game.log,
            join3("Your inventory is full, cannot pick up ", objects[object_id].name.as_str(), "."),
            Color::Red,
        );
        assert(game@.log =~= before.log + seq![
            (inventory_full_text(old(objects).deep_view()[object_id as int].name), Color::Red),
        ]);
    } else {
        let mut item = objects.swap_remove(object_id);
        assert(objects.deep_view() =~= without(old(objects).deep_view(), object_id as int));
        add_message(
            &mut game.log,
            join3("You picked up a ", item.name.as_str(), "!"),
            Color::Green,
        );
        match item.equipment {
            Some(e) => {
                item.equipment = Some(
                    Equipment {
                        slot: e.slot,
                        equipped: false,
                        power_bonus: e.power_bonus,
                        defense_bonus: e.defense_bonus,
                        max_hp_bonus: e.max_hp_bonus,
                    },
                );
                if get_equipped_in_slot(e.slot, &game.inventory).is_none() {
                    item.equip(&mut game.log);
                }
            },
            None => {},
        }
        game.inventory.push(item);
        assert(game@.inventory =~= before.inventory.push(
            stowed(before.inventory, old(objects).deep_view()[object_id as int]),
        ));
        assert(game@.log =~= before.log + stow_log(
            before.inventory,
            old(objects).deep_view()[object_id as int],
        ));
    }
}

/// The item as it lies on the level after it was dropped at `(x, y)`: not
/// worn.
pub open spec fn dropped(item: ObjectView, x: i32, y: i32) -> ObjectView {
    ObjectView { x, y, ..item.worn(false) }
}

/// What dropping `item` writes to the log: that it was taken off, if it was
/// worn, and that it was dropped.
pub open spec fn drop_log(item: ObjectView) -> Seq<(Seq<char>, Color)> {
    (match item.equipment {
        Some(e) => item.dequip_log(),
        None => seq![],
    }) + seq![(dropped_text(item.name), Color::Yellow)]
}

/// Moves the item `inventory_id` from the inventory onto the level, to
/// where the player stands. A piece of equipment that is worn is taken off
/// first.
pub fn drop_item(inventory_id: usize, objects: &mut Vec<Object>, game: &mut Game)
    requires
        inventory_id < old(game).inventory@.len(),
        PLAYER < old(objects)@.len(),
    ensures
        final(objects).deep_view() == old(objects).deep_view().push(
            dropped(
                old(game)@.inventory[inventory_id as int],
                old(objects)@[PLAYER as int].x,
                old(objects)@[PLAYER as int].y,
            ),
        ),
        final(game)@ == (GameView {
            inventory: old(game)@.inventory.remove(inventory_id as int),
            ..old(game)@.logged(drop_log(old(game)@.inventory[inventory_id as int]))
        }),
{
    let ghost before = game@;
    let mut item = game.inventory.remove(inventory_id);
    assert(game@.inventory =~= before.inventory.remove(inventory_id as int));
    if item.equipment.is_some() {
        item.dequip(&mut game.log);
    } else {
        assert(game@.log + Seq::<(Seq<char>, Color)>::empty() =~= game@.log);
    }
    item.set_pos(objects[PLAYER].x, objects[PLAYER].y);
    add_message(&mut game.log, join3("You dropped a ", item.name.as_str(), "."), Color::Yellow);
    objects.push(item);
    assert(objects.deep_view() =~= old(objects).deep_view().push(
        dropped(
            before.inventory[inventory_id as int],
            old(objects)@[PLAYER as int].x,
            old(objects)@[PLAYER as int].y,
        ),
    ));
    assert(game@.log =~= before.log + drop_log(before.inventory[inventory_id as int]));
}

} // verus!
