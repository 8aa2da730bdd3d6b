//! How monsters spend their turn.

use crate::color::Color;
use crate::combat::{attack_log, attacked, attacker_after};
use crate::game::{add_message, Game, GameView};
use crate::geometry::{dist_sq, step_toward, unit_step};
use crate::messages::{join3, no_longer_confused_text};
use crate::movement::{move_by, moved};
use crate::object::{Ai, Behavior, Object, ObjectView, PLAYER};
use crate::random::random_range;
use crate::tile::{is_in_fov, visible_at, SightGrid, Tile, TileGrid};
use vstd::prelude::*;

verus! {

/// Hands out two different entries of a slice at once, both for writing.
pub fn mut_two<T>(first_index: usize, second_index: usize, items: &mut [T]) -> (pair: (
    &mut T,
    &mut T,
))
    requires
        first_index != second_index,
        first_index < old(items)@.len(),
        second_index < old(items)@.len(),
    ensures
        *pair.0 == old(items)@[first_index as int],
        *pair.1 == old(items)@[second_index as int],
        final(items)@ == old(items)@.update(first_index as int, *final(pair.0)).update(
            second_index as int,
            *final(pair.1),
        ),
{
    let split_at_index = if first_index < second_index {
        second_index
    } else {
        first_index
    };
    let (first_slice, second_slice) = items.split_at_mut(split_at_index);
    if first_index < second_index {
        (&mut first_slice[first_index], &mut second_slice[0])
    } else {
        (&mut second_slice[0], &mut first_slice[second_index])
    }
}

/// The objects after the one in slot `id` took a step toward `(tx, ty)`: the
/// step is the unit vector toward the goal, rounded, and it is taken unless
/// the spot it leads to is blocked.
pub open spec fn approach(
    grid: Seq<Seq<Tile>>,
    objects: Seq<ObjectView>,
    id: int,
    tx: int,
    ty: int,
) -> Seq<ObjectView> {
    let dx = tx - objects[id].x;
    let dy = ty - objects[id].y;
    moved(grid, objects, id, unit_step(dx, dy), unit_step(dy, dx))
}

/// Moves the object in slot `id` one step toward `(target_x, target_y)`,
/// unless the spot it would step onto is blocked.
pub fn move_towards(
    id: usize,
    target_x: i32,
    target_y: i32,
    map: &TileGrid,
    objects: &mut Vec<Object>,
)
    requires
        id < old(objects)@.len(),
    ensures
        final(objects).deep_view() == approach(
            map.deep_view(),
            old(objects).deep_view(),
            id as int,
            target_x as int,
            target_y as int,
        ),
{
    let dx: i64 = target_x as i64 - objects[id].x as i64;
    let dy: i64 = target_y as i64 - objects[id].y as i64;
    let step_x = step_toward(dx, dy);
    let step_y = step_toward(dy, dx);
    move_by(id, step_x, step_y, map, objects);
}

/// The state of mind after one turn: unchanged while clear, one turn nearer
/// its end while confused, and back to the earlier behaviour on the turn
/// after the count has run below zero.
pub open spec fn ai_next(ai: Ai) -> Ai {
    match ai {
        Ai::Basic => Ai::Basic,
        Ai::Confused { previous_ai, num_turns } => if num_turns >= 0 {
            Ai::Confused { previous_ai, num_turns: (num_turns - 1) as i32 }
        } else {
            previous_ai.as_ai()
        },
    }
}

/// Whether the object in slot `id` takes turns: it is there, it is not the
/// player, and it has a mind.
pub open spec fn takes_turns(objects: Seq<ObjectView>, id: int) -> bool {
    PLAYER < id < objects.len() && objects[id].ai is Some
}

/// What a clear-minded monster in slot `id` does to the objects. Out of the
/// player's sight it waits. In sight and two or more tiles away it steps
/// toward the player. Next to a player that has hit points left it strikes.
pub open spec fn basic_objects(
    objects: Seq<ObjectView>,
    game: GameView,
    sight: Seq<Seq<bool>>,
    id: int,
) -> Seq<ObjectView> {
    let monster = objects[id];
    let player = objects[PLAYER as int];
    if !visible_at(sight, monster.x as int, monster.y as int) {
        objects
    } else if dist_sq(monster.x as int, monster.y as int, player.x as int, player.y as int) >= 4 {
        approach(game.map, objects, id, player.x as int, player.y as int)
    } else if player.fighter matches Some(f) && f.hp > 0 {
        objects.update(PLAYER as int, attacked(monster, player, game.inventory)).update(
            id,
            attacker_after(monster, player, game.inventory),
        )
    } else {
        objects
    }
}

/// What the turn of a clear-minded monster in slot `id` writes to the log.
pub open spec fn basic_log(
    objects: Seq<ObjectView>,
    game: GameView,
    sight: Seq<Seq<bool>>,
    id: int,
) -> Seq<(Seq<char>, Color)> {
    let monster = objects[id];
    let player = objects[PLAYER as int];
    if visible_at(sight, monster.x as int, monster.y as int) && dist_sq(
        monster.x as int,
        monster.y as int,
        player.x as int,
        player.y as int,
    ) < 4 && (player.fighter matches Some(f) && f.hp > 0) {
        attack_log(monster, player, game.inventory)
    } else {
        seq![]
    }
}

/// The objects after the turn of the one in slot `id`, where `wander` is the
/// step that it stumbles if it is confused. What does not take turns leaves
/// everything as it is.
pub open spec fn turn_objects(
    objects: Seq<ObjectView>,
    game: GameView,
    sight: Seq<Seq<bool>>,
    id: int,
    wander: (int, int),
) -> Seq<ObjectView> {
    if !takes_turns(objects, id) {
        objects
    } else {
        let ai = objects[id].ai->0;
        let acted = match ai {
            Ai::Basic => basic_objects(objects, game, sight, id),
            Ai::Confused { num_turns, .. } => if num_turns >= 0 {
                moved(game.map, objects, id, wander.0, wander.1)
            } else {
                objects
            },
        };
        acted.update(id, ObjectView { ai: Some(ai_next(ai)), ..acted[id] })
    }
}

/// What the turn of the object in slot `id` writes to the log: the blow of a
/// clear-minded monster, or the word that a confusion has passed.
pub open spec fn turn_log(
    objects: Seq<ObjectView>,
    game: GameView,
    sight: Seq<Seq<bool>>,
    id: int,
) -> Seq<(Seq<char>, Color)> {
    if !takes_turns(objects, id) {
        seq![]
    } else {
        match objects[id].ai->0 {
            Ai::Basic => basic_log(objects, game, sight, id),
            Ai::Confused { num_turns, .. } => if num_turns >= 0 {
                seq![]
            } else {
                seq![(no_longer_confused_text(objects[id].name), Color::Red)]
            },
        }
    }
}

/// The turn of a clear-minded monster.
pub fn ai_basic(
    monster_id: usize,
    objects: &mut Vec<Object>,
    sight: &SightGrid,
    game: &mut Game,
) -> (ai: Ai)
    requires
        PLAYER < monster_id < old(objects)@.len(),
    ensures
        ai == Ai::Basic,
        final(objects).deep_view() == basic_objects(
            old(objects).deep_view(),
            old(game)@,
            sight.deep_view(),
            monster_id as int,
        ),
        final(game)@ == old(game)@.logged(
            basic_log(old(objects).deep_view(), old(game)@, sight.deep_view(), monster_id as int),
        ),
{
    let (monster_x, monster_y) = objects[monster_id].pos();
    if is_in_fov(sight, monster_x, monster_y) {
        if objects[monster_id].distance_to(&objects[PLAYER]).at_least(2) {
            let (player_x, player_y) = objects[PLAYER].pos();
            move_towards(monster_id, player_x, player_y, &game.map, objects);
            assert(game@.log + Seq::<(Seq<char>, Color)>::empty() =~= game@.log);
        } else if player_stands(&objects[PLAYER]) {
            let ghost before = objects.deep_view();
            let (monster, player) = mut_two(monster_id, PLAYER, objects.as_mut_slice());
            monster.attack(player, game);
            assert(objects.deep_view() =~= before.update(
                PLAYER as int,
                attacked(
                    before[monster_id as int],
                    before[PLAYER as int],
                    old(game)@.inventory,
                ),
            ).update(
                monster_id as int,
                attacker_after(
                    before[monster_id as int],
                    before[PLAYER as int],
                    old(game)@.inventory,
                ),
            ));
        } else {
            assert(game@.log + Seq::<(Seq<char>, Color)>::empty() =~= game@.log);
        }
    } else {
        assert(game@.log + Seq::<(Seq<char>, Color)>::empty() =~= game@.log);
    }
    Ai::Basic
}

fn player_stands(player: &Object) -> (b: bool)
    ensures
        b == (player@.fighter matches Some(f) && f.hp > 0),
{
    match player.fighter {
        Some(f) => f.hp > 0,
        None => false,
    }
}

/// The turn of a confused monster. While turns are left it stumbles by
/// `(dx, dy)` if nothing blocks the way, and one turn less is left. Once
/// none is left it comes to its senses, which the log records.
pub fn ai_confused(
    monster_id: usize,
    objects: &mut Vec<Object>,
    game: &mut Game,
    previous_ai: Behavior,
    num_turns: i32,
    dx: i32,
    dy: i32,
) -> (ai: Ai)
    requires
        monster_id < old(objects)@.len(),
    ensures
        ai == ai_next(Ai::Confused { previous_ai, num_turns }),
        final(objects).deep_view() == if num_turns >= 0 {
            moved(
                old(game)@.map,
                old(objects).deep_view(),
                monster_id as int,
                dx as int,
                dy as int,
            )
        } else {
            old(objects).deep_view()
        },
        final(game)@ == old(game)@.logged(
            if num_turns >= 0 {
                seq![]
            } else {
                seq![
                    (
                        no_longer_confused_text(old(objects).deep_view()[monster_id as int].name),
                        Color::Red,
                    ),
                ]
            },
        ),
{
    if num_turns >= 0 {
        move_by(monster_id, dx, dy, &game.map, objects);
        assert(game@.log + Seq::<(Seq<char>, Color)>::empty() =~= game@.log);
        Ai::Confused { previous_ai: previous_ai, num_turns: num_turns - 1 }
    } else {
        add_message(
            &mut game.log,
            join3("The ", objects[monster_id].name.as_str(), " is no longer confused!"),
            Color::Red,
        );
        assert(game@.log =~= old(game)@.log + seq![
            (no_longer_confused_text(old(objects).deep_view()[monster_id as int].name), Color::Red),
        ]);
        previous_ai.resume()
    }
}

/// The turn of the object in slot `monster_id`, with `wander` as the step
/// that it stumbles if it is confused. Does nothing for a slot that does not
/// take turns: one that is not there, the player's, or one without a mind.
pub fn ai_act(
    monster_id: usize,
    objects: &mut Vec<Object>,
    sight: &SightGrid,
    game: &mut Game,
    wander: (i32, i32),
)
    ensures
        final(objects).deep_view() == turn_objects(
            old(objects).deep_view(),
            old(game)@,
            sight.deep_view(),
            monster_id as int,
            (wander.0 as int, wander.1 as int),
        ),
        final(game)@ == old(game)@.logged(
            turn_log(old(objects).deep_view(), old(game)@, sight.deep_view(), monster_id as int),
        ),
{
    if monster_id == PLAYER || monster_id >= objects.len() {
        assert(game@.log + Seq::<(Seq<char>, Color)>::empty() =~= game@.log);
        return ;
    }
    match objects[monster_id].ai {
        Some(ai) => {
            let new_ai = match ai {
                Ai::Basic => ai_basic(monster_id, objects, sight, game),
                Ai::Confused { previous_ai, num_turns } => ai_confused(
                    monster_id,
                    objects,
                    game,
                    previous_ai,
                    num_turns,
                    wander.0,
                    wander.1,
                ),
            };
            let ghost acted = objects.deep_view();
            assert(acted.len() == old(objects).deep_view().len());
            assert(objects@.len() == acted.len());
            objects[monster_id].ai = Some(new_ai);
            assert(objects.deep_view() =~= acted.update(
                monster_id as int,
                ObjectView { ai: Some(new_ai), ..acted[monster_id as int] },
            ));
        },
        None => {
            assert(game@.log + Seq::<(Seq<char>, Color)>::empty() =~= game@.log);
        },
    }
}

/// Whether `wander` is a step that a confused monster can stumble: at most
/// one tile along each axis, standing still included.
pub open spec fn is_stumble(wander: (int, int)) -> bool {
    -1 <= wander.0 <= 1 && -1 <= wander.1 <= 1
}

/// The turn of the object in slot `monster_id`. A confused monster stumbles
/// a step drawn at random; everything else is as [`ai_act`] has it.
pub fn ai_take_turn(
    monster_id: usize,
    objects: &mut Vec<Object>,
    sight: &SightGrid,
    game: &mut Game,
)
    ensures
        exists|wander: (int, int)|
            #[trigger] is_stumble(wander) && final(objects).deep_view() == turn_objects(
                old(objects).deep_view(),
                old(game)@,
                sight.deep_view(),
                monster_id as int,
                wander,
            ),
        final(game)@ == old(game)@.logged(
            turn_log(old(objects).deep_view(), old(game)@, sight.deep_view(), monster_id as int),
        ),
{
    let stumbles = monster_id < objects.len() && match objects[monster_id].ai {
        Some(Ai::Confused { num_turns, .. }) => num_turns >= 0,
        _ => false,
    };
    let wander = if stumbles {
        (random_range(-1, 2) as i32, random_range(-1, 2) as i32)
    } else {
        (0, 0)
    };
    ai_act(monster_id, objects, sight, game, wander);
    assert(is_stumble((wander.0 as int, wander.1 as int)));
}

/// The state after the objects in the first slots took their turns, one
/// after the other in slot order, as many as there are `steps`; `steps[id]`
/// is the step that the object in slot `id` stumbles if it is confused.
pub open spec fn after_turns(
    objects: Seq<ObjectView>,
    game: GameView,
    sight: Seq<Seq<bool>>,
    steps: Seq<(int, int)>,
) -> (Seq<ObjectView>, GameView)
    decreases steps.len(),
{
    if steps.len() == 0 {
        (objects, game)
    } else {
        let (o, g) = after_turns(objects, game, sight, steps.drop_last());
        let id = steps.len() - 1;
        (turn_objects(o, g, sight, id, steps.last()), g.logged(turn_log(o, g, sight, id)))
    }
}

/// A round of turns keeps the number of objects.
pub proof fn lemma_after_turns_len(
    objects: Seq<ObjectView>,
    game: GameView,
    sight: Seq<Seq<bool>>,
    steps: Seq<(int, int)>,
)
    ensures
        after_turns(objects, game, sight, steps).0.len() == objects.len(),
    decreases steps.len(),
{
    if steps.len() > 0 {
        lemma_after_turns_len(objects, game, sight, steps.drop_last());
    }
}

/// Whether every one of `steps` is a step that a confused monster can
/// stumble.
pub open spec fn all_stumbles(steps: Seq<(int, int)>) -> bool {
    forall|i: int| 0 <= i < steps.len() ==> is_stumble(#[trigger] steps[i])
}

/// Gives every object its turn, in slot order. What has no mind, and the
/// player's slot, is passed over. Each confused monster stumbles a step
/// drawn at random, and nothing else is left to chance.
pub fn take_monster_turns(objects: &mut Vec<Object>, sight: &SightGrid, game: &mut Game)
    ensures
        exists|steps: Seq<(int, int)>|
            steps.len() == old(objects)@.len() && all_stumbles(steps) && (
                final(objects).deep_view(),
                final(game)@,
            ) == #[trigger] after_turns(
                old(objects).deep_view(),
                old(game)@,
                sight.deep_view(),
                steps,
            ),
{
    let ghost before = objects.deep_view();
    let ghost game_before = game@;
    let ghost seen = sight.deep_view();
    let ghost mut steps: Seq<(int, int)> = Seq::empty();
    let count = objects.len();
    let mut id: usize = 0;
    while id < count
        invariant
            id <= count,
            count == before.len(),
            objects@.len() == count,
            seen == sight.deep_view(),
            steps.len() == id,
            all_stumbles(steps),
            (objects.deep_view(), game@) == after_turns(before, game_before, seen, steps),
        decreases count - id,
    {
        let ghost prior = objects.deep_view();
        let ghost prior_game = game@;
        ai_take_turn(id, objects, sight, game);
        proof {
            let wander = choose|wander: (int, int)|
                #[trigger] is_stumble(wander) && objects.deep_view() == turn_objects(
                    prior,
                    prior_game,
                    seen,
                    id as int,
                    wander,
                );
            let longer = steps.push(wander);
            assert(longer.drop_last() =~= steps);
            assert(longer.last() == wander);
            steps = longer;
            lemma_after_turns_len(before, game_before, seen, steps);
        }
        id += 1;
    }
}

} // verus!
