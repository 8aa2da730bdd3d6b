//! What holds of the simulation over any number of steps.

use crate::ai::{after_turns, ai_next, takes_turns, turn_log, turn_objects};
use crate::color::Color;
use crate::game::GameView;
use crate::inventory::{
    cleared, first_worn, lemma_first_worn, one_per_slot, stowed, toggled, UseResult,
};
use crate::items::{confused, item_use, Target, CONFUSE_NUM_TURNS};
use crate::messages::no_longer_confused_text;
use crate::object::{Ai, Behavior, Fighter, ObjectView, Slot};
use crate::spawn::SpawnPolicyView;
use crate::tile::explored_kept;
use crate::turn::{handled, Command, FollowUp, PlayerAction};
use vstd::prelude::*;

verus! {

/// The object after `n` blows of `damage` each.
pub open spec fn after_hits(object: ObjectView, damage: int, n: nat) -> ObjectView
    decreases n,
{
    if n == 0 {
        object
    } else {
        after_hits(object, damage, (n - 1) as nat).after_damage(damage)
    }
}

/// How many blows of `damage` each it takes to use up `hp` hit points.
pub open spec fn fatal_blow(hp: int, damage: int) -> nat
    decreases
            (if hp > 0 {
                hp
            } else {
                0
            }),
{
    if hp <= 0 || damage <= 0 {
        0
    } else {
        1 + fatal_blow(hp - damage, damage)
    }
}

proof fn lemma_fatal_blow(hp: int, damage: int, n: nat)
    requires
        damage > 0,
    ensures
        n < fatal_blow(hp, damage) <==> hp - n * damage > 0,
    decreases n,
{
    if n == 0 {
        assert(hp - 0 * damage == hp);
    } else {
        assert(hp - n * damage == (hp - damage) - (n - 1) * damage) by (nonlinear_arith);
        if hp > 0 {
            lemma_fatal_blow(hp - damage, damage, (n - 1) as nat);
        } else {
            assert(n * damage >= 0) by (nonlinear_arith)
                requires
                    n >= 0,
                    damage > 0,
            ;
        }
    }
}

/// What is left of a living fighter after `n` blows of `damage` each. While
/// the blows have not used up its hit points it lives on, poorer by `n`
/// times the damage. From the blow that uses them up it is dead as that blow
/// left it, and no further blow changes it.
pub proof fn lemma_repeated_damage(object: ObjectView, damage: int, n: nat)
    requires
        object.alive,
        object.fighter is Some,
        object.fighter->0.hp > 0,
        0 < damage <= i32::MAX,
    ensures
        ({
            let f = object.fighter->0;
            let last = fatal_blow(f.hp as int, damage);
            if f.hp - n * damage > 0 {
                after_hits(object, damage, n) == (ObjectView {
                    fighter: Some(Fighter { hp: (f.hp - n * damage) as i32, ..f }),
                    ..object
                })
            } else {
                &&& n >= last
                &&& f.hp - last * damage <= 0
                &&& after_hits(object, damage, n) == (ObjectView {
                    alive: false,
                    fighter: Some(Fighter { hp: (f.hp - last * damage) as i32, ..f }),
                    ..object
                }).slain(f.on_death)
            }
        }),
    decreases n,
{
    let f = object.fighter->0;
    let last = fatal_blow(f.hp as int, damage);
    lemma_fatal_blow(f.hp as int, damage, n);
    if n == 0 {
        assert(f.hp - 0 * damage == f.hp);
    } else {
        let m = (n - 1) as nat;
        lemma_repeated_damage(object, damage, m);
        lemma_fatal_blow(f.hp as int, damage, m);
        assert(f.hp - n * damage == (f.hp - m * damage) - damage) by (nonlinear_arith)
            requires
                m == n - 1,
        ;
        let earlier = after_hits(object, damage, m);
        if f.hp - m * damage > 0 {
            assert(earlier.hurt(damage).fighter->0.hp == f.hp - n * damage);
            if f.hp - n * damage <= 0 {
                assert(n == last) by {
                    assert(m < last);
                    assert(!(n < last));
                }
            }
        } else {
            assert(!earlier.alive);
        }
    }
}

/// What is not alive ignores damage: it stays as it is, nothing is written
/// to the log, and nobody earns experience.
pub proof fn lemma_dead_ignore_damage(object: ObjectView, damage: int)
    requires
        !object.alive,
    ensures
        object.after_damage(damage) == object,
        object.damage_log(damage) == Seq::<(Seq<char>, Color)>::empty(),
        object.damage_award(damage) is None,
{
}

/// Death is final: what damage has killed is not alive, and later damage
/// neither changes it nor calls its death a second time.
pub proof fn lemma_death_is_final(object: ObjectView, fatal: int, later: int)
    requires
        object.hurt(fatal).spent(),
    ensures
        !object.after_damage(fatal).alive,
        object.after_damage(fatal).after_damage(later) == object.after_damage(fatal),
        object.after_damage(fatal).damage_log(later) == Seq::<(Seq<char>, Color)>::empty(),
        object.after_damage(fatal).damage_award(later) is None,
{
}

/// The state of mind after `k` turns.
pub open spec fn ai_after(ai: Ai, k: nat) -> Ai
    decreases k,
{
    if k == 0 {
        ai
    } else {
        ai_next(ai_after(ai, (k - 1) as nat))
    }
}

/// Whether the next turn in this state of mind ends a confusion: the
/// monster is confused and its count has run below zero.
pub open spec fn comes_round(ai: Ai) -> bool {
    ai matches Ai::Confused { num_turns, .. } && num_turns < 0
}

/// The course of a confusion that starts with the count `num_turns`. For
/// `num_turns + 1` turns the monster is confused and the count goes down by
/// one each turn. None of these turns ends the confusion. The turn after
/// them does, and from then on the monster follows the behaviour that the
/// confusion remembered.
pub proof fn lemma_confusion_lifecycle(previous_ai: Behavior, num_turns: i32, k: nat)
    requires
        num_turns >= 0,
    ensures
        ({
            let start = Ai::Confused { previous_ai, num_turns };
            &&& k <= num_turns + 1 ==> ai_after(start, k) == (Ai::Confused {
                previous_ai,
                num_turns: (num_turns - k) as i32,
            })
            &&& k <= num_turns ==> !comes_round(ai_after(start, k))
            &&& k == num_turns + 1 ==> comes_round(ai_after(start, k))
            &&& k >= num_turns + 2 ==> ai_after(start, k) == previous_ai.as_ai() && !comes_round(
                ai_after(start, k),
            )
        }),
    decreases k,
{
    if k > 0 {
        lemma_confusion_lifecycle(previous_ai, num_turns, (k - 1) as nat);
    }
}

/// A turn moves the mind of the object that takes it one step on, and it
/// writes to the log that a confusion has passed exactly when the turn ends
/// one.
pub proof fn lemma_turn_moves_mind(
    objects: Seq<ObjectView>,
    game: GameView,
    sight: Seq<Seq<bool>>,
    id: int,
    wander: (int, int),
)
    requires
        takes_turns(objects, id),
    ensures
        turn_objects(objects, game, sight, id, wander).len() == objects.len(),
        turn_objects(objects, game, sight, id, wander)[id].ai == Some(ai_next(objects[id].ai->0)),
        comes_round(objects[id].ai->0) ==> turn_log(objects, game, sight, id) == seq![
            (no_longer_confused_text(objects[id].name), Color::Red),
        ],
        objects[id].ai->0 is Confused && !comes_round(objects[id].ai->0) ==> turn_log(
            objects,
            game,
            sight,
            id,
        ) == Seq::<(Seq<char>, Color)>::empty(),
{
}

/// A confusion wears off. A clear-minded monster that is confused is
/// confused for one turn more than the count of the confusion, and the turn
/// after that gives it back the state of mind it had before.
pub proof fn lemma_confusion_wears_off(object: ObjectView, k: nat)
    requires
        object.ai == Some(Ai::Basic),
    ensures
        ({
            let start = confused(object).ai->0;
            &&& start == (Ai::Confused {
                previous_ai: Behavior::Basic,
                num_turns: CONFUSE_NUM_TURNS,
            })
            &&& k <= CONFUSE_NUM_TURNS + 1 ==> ai_after(start, k) is Confused
            &&& k <= CONFUSE_NUM_TURNS ==> !comes_round(ai_after(start, k))
            &&& comes_round(ai_after(start, (CONFUSE_NUM_TURNS + 1) as nat))
            &&& k >= CONFUSE_NUM_TURNS + 2 ==> ai_after(start, k) == object.ai->0
        }),
{
    lemma_confusion_lifecycle(Behavior::Basic, CONFUSE_NUM_TURNS, k);
    lemma_confusion_lifecycle(Behavior::Basic, CONFUSE_NUM_TURNS, (CONFUSE_NUM_TURNS + 1) as nat);
}

/// Confusing a monster that is confused already starts the count anew and
/// keeps what the first confusion remembered: confusion does not nest.
pub proof fn lemma_confusion_does_not_nest(object: ObjectView)
    ensures
        confused(confused(object)) == confused(object),
        confused(object).ai->0.clear_minded() == match object.ai {
            Some(ai) => ai.clear_minded(),
            None => Behavior::Basic,
        },
{
}

/// One way of handling the inventory.
pub enum Handling {
    /// Put the item `id` on if it is not worn, take it off if it is.
    Toggle { id: int },
    /// Pick `item` up from the level.
    PickUp { item: ObjectView },
    /// Take the item `id` out of the inventory, to drop it or because it was
    /// used up.
    Remove { id: int },
}

/// The inventory after it was handled in the given way. Handling an item
/// that is not there changes nothing.
pub open spec fn handle(inventory: Seq<ObjectView>, handling: Handling) -> Seq<ObjectView> {
    match handling {
        Handling::Toggle { id } => if 0 <= id < inventory.len() {
            toggled(inventory, id)
        } else {
            inventory
        },
        Handling::PickUp { item } => inventory.push(stowed(inventory, item)),
        Handling::Remove { id } => if 0 <= id < inventory.len() {
            inventory.remove(id)
        } else {
            inventory
        },
    }
}

/// The inventory after it was handled in the given ways, one after the
/// other.
pub open spec fn handle_all(inventory: Seq<ObjectView>, handlings: Seq<Handling>) -> Seq<
    ObjectView,
>
    decreases handlings.len(),
{
    if handlings.len() == 0 {
        inventory
    } else {
        handle(handle_all(inventory, handlings.drop_last()), handlings.last())
    }
}

/// Taking off the item worn in a slot leaves nothing worn in that slot,
/// where no two items were worn in one slot, and changes no other slot.
proof fn lemma_cleared(inventory: Seq<ObjectView>, slot: Slot)
    requires
        one_per_slot(inventory),
    ensures
        cleared(inventory, slot).len() == inventory.len(),
        forall|j: int|
            0 <= j < inventory.len() ==> !(#[trigger] cleared(inventory, slot)[j]).wears(slot),
        forall|j: int, other: Slot|
            0 <= j < inventory.len() && other != slot ==> (#[trigger] cleared(
                inventory,
                slot,
            )[j].wears(other)) == inventory[j].wears(other),
{
    lemma_first_worn(inventory, slot);
    match first_worn(inventory, slot) {
        Some(i) => {
            assert forall|j: int| 0 <= j < inventory.len() implies !(#[trigger] cleared(
                inventory,
                slot,
            )[j]).wears(slot) by {
                if j != i && inventory[j].wears(slot) {
                    assert(inventory[i].wears(slot));
                    if i < j {
                        assert(!(inventory[i].wears(slot) && inventory[j].wears(slot)));
                    } else {
                        assert(!(inventory[j].wears(slot) && inventory[i].wears(slot)));
                    }
                }
            }
        },
        None => {},
    }
}

/// One handling keeps the rule that no two items are worn in one slot.
pub proof fn lemma_handle_keeps_one_per_slot(inventory: Seq<ObjectView>, handling: Handling)
    requires
        one_per_slot(inventory),
    ensures
        one_per_slot(handle(inventory, handling)),
{
    let after = handle(inventory, handling);
    match handling {
        Handling::Toggle { id } => {
            if 0 <= id < inventory.len() {
                match inventory[id].equipment {
                    Some(e) => {
                        if e.equipped {
                            assert forall|i: int, j: int, slot: Slot|
                                0 <= i < j < after.len() implies !((#[trigger] after[i].wears(slot))
                                && #[trigger] after[j].wears(slot)) by {
                                if after[i].wears(slot) && after[j].wears(slot) {
                                    assert(inventory[i].wears(slot) && inventory[j].wears(slot));
                                }
                            }
                        } else {
                            lemma_cleared(inventory, e.slot);
                            let bare = cleared(inventory, e.slot);
                            assert forall|i: int, j: int, slot: Slot|
                                0 <= i < j < after.len() implies !((#[trigger] after[i].wears(slot))
                                && #[trigger] after[j].wears(slot)) by {
                                if after[i].wears(slot) && after[j].wears(slot) {
                                    if slot == e.slot {
                                        assert(!bare[i].wears(slot));
                                        assert(!bare[j].wears(slot));
                                    } else {
                                        assert(bare[i].wears(slot) == inventory[i].wears(slot));
                                        assert(bare[j].wears(slot) == inventory[j].wears(slot));
                                        assert(inventory[i].wears(slot));
                                        assert(inventory[j].wears(slot));
                                    }
                                }
                            }
                        }
                    },
                    None => {},
                }
            }
        },
        Handling::PickUp { item } => {
            assert forall|i: int, j: int, slot: Slot| 0 <= i < j < after.len() implies !((
            #[trigger] after[i].wears(slot)) && #[trigger] after[j].wears(slot)) by {
                if after[i].wears(slot) && after[j].wears(slot) {
                    if j < inventory.len() {
                        assert(inventory[i].wears(slot) && inventory[j].wears(slot));
                    } else {
                        lemma_first_worn(inventory, slot);
                        assert(inventory[i].wears(slot));
                    }
                }
            }
        },
        Handling::Remove { id } => {
            if 0 <= id < inventory.len() {
                assert forall|i: int, j: int, slot: Slot| 0 <= i < j < after.len() implies !((
                #[trigger] after[i].wears(slot)) && #[trigger] after[j].wears(slot)) by {
                    let oi = if i < id {
                        i
                    } else {
                        i + 1
                    };
                    let oj = if j < id {
                        j
                    } else {
                        j + 1
                    };
                    assert(after[i] == inventory[oi]);
                    assert(after[j] == inventory[oj]);
                    if after[i].wears(slot) && after[j].wears(slot) {
                        assert(inventory[oi].wears(slot) && inventory[oj].wears(slot));
                    }
                }
            }
        },
    }
}

/// However the inventory is handled, and however often: where no two items
/// were worn in the same slot before, no two are after.
pub proof fn lemma_one_per_slot_kept(inventory: Seq<ObjectView>, handlings: Seq<Handling>)
    requires
        one_per_slot(inventory),
    ensures
        one_per_slot(handle_all(inventory, handlings)),
    decreases handlings.len(),
{
    if handlings.len() > 0 {
        lemma_one_per_slot_kept(inventory, handlings.drop_last());
        lemma_handle_keeps_one_per_slot(
            handle_all(inventory, handlings.drop_last()),
            handlings.last(),
        );
    }
}

/// Using an item handles the inventory in one of the three ways or leaves
/// it alone, so it keeps the rule that no two items are worn in one slot.
pub proof fn lemma_use_keeps_one_per_slot(
    objects: Seq<ObjectView>,
    game: GameView,
    sight: Seq<Seq<bool>>,
    id: int,
    target: Option<Target>,
)
    requires
        0 <= id < game.inventory.len(),
        one_per_slot(game.inventory),
    ensures
        one_per_slot(item_use(objects, game, sight, id, target).game.inventory),
{
    lemma_handle_keeps_one_per_slot(game.inventory, Handling::Toggle { id });
    lemma_handle_keeps_one_per_slot(game.inventory, Handling::Remove { id });
    lemma_handle_keeps_one_per_slot(toggled(game.inventory, id), Handling::Remove { id });
}

/// A use that is cancelled leaves everything as it was, the log apart: the
/// objects on the level with their positions and hit points, the inventory,
/// the tiles and the depth.
pub proof fn lemma_cancelled_use_changes_nothing(
    objects: Seq<ObjectView>,
    game: GameView,
    sight: Seq<Seq<bool>>,
    id: int,
    target: Option<Target>,
)
    requires
        item_use(objects, game, sight, id, target).result == UseResult::Cancelled,
    ensures
        item_use(objects, game, sight, id, target).objects == objects,
        item_use(objects, game, sight, id, target).game == (GameView {
            log: item_use(objects, game, sight, id, target).game.log,
            ..game
        }),
{
}

/// No command but the descent to a new level touches the tiles: what was
/// explored stays explored.
pub proof fn lemma_commands_keep_tiles(
    policy: SpawnPolicyView,
    command: Command,
    objects: Seq<ObjectView>,
    game: GameView,
    objects_after: Seq<ObjectView>,
    game_after: GameView,
    response: (PlayerAction, FollowUp),
)
    requires
        handled(policy, command, objects, game, objects_after, game_after, response),
        command != Command::Descend,
    ensures
        game_after.map == game.map,
        explored_kept(game.map, game_after.map),
{
}

/// Neither the monsters' turns nor the use of an item touch the tiles: what
/// was explored stays explored.
pub proof fn lemma_play_keeps_tiles(
    objects: Seq<ObjectView>,
    game: GameView,
    sight: Seq<Seq<bool>>,
    steps: Seq<(int, int)>,
    id: int,
    target: Option<Target>,
)
    ensures
        after_turns(objects, game, sight, steps).1.map == game.map,
        item_use(objects, game, sight, id, target).game.map == game.map,
        explored_kept(game.map, game.map),
    decreases steps.len(),
{
    if steps.len() > 0 {
        lemma_play_keeps_tiles(objects, game, sight, steps.drop_last(), id, target);
    }
}

} // verus!
