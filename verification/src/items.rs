//! What the items do when they are used.

use crate::color::Color;
use crate::combat::Stat;
use crate::game::{add_message, Game, GameView};
use crate::geometry::{dist_sq, Distance};
use crate::inventory::{toggle_equipment, toggle_log, toggled, UseResult};
use crate::messages::{
    burned_message, burned_text, cannot_use_text, confused_text, fireball_text, join3,
    join_number, lightning_message, lightning_text,
};
use crate::object::{Ai, Behavior, Item, Object, ObjectView, PLAYER};
use crate::tile::{is_in_fov, visible_at, SightGrid};
use vstd::prelude::*;

verus! {

/// The hit points that a healing potion gives back.
pub const HEAL_AMOUNT: i32 = 4;

/// The damage of a lightning bolt.
pub const LIGHTNING_DAMAGE: i32 = 20;

/// How far a lightning bolt reaches.
pub const LIGHTNING_RANGE: i32 = 5;

/// How far a scroll of confusion reaches.
pub const CONFUSE_RANGE: i32 = 8;

/// The count that a confusion starts with.
pub const CONFUSE_NUM_TURNS: i32 = 10;

/// How far from its centre a fireball burns.
pub const FIREBALL_RADIUS: i32 = 3;

/// The damage of a fireball.
pub const FIREBALL_DAMAGE: i32 = 12;

/// What the player aimed an item at.
#[derive(Clone, Copy, Debug, PartialEq, Eq, Structural)]
pub enum Target {
    /// The object in this slot of the level.
    Monster(usize),
    /// This position of the level.
    Tile(i32, i32),
}

/// What an item has to be aimed at before it can be used.
#[derive(Clone, Copy, Debug, PartialEq, Eq, Structural)]
pub enum Targeting {
    /// Nothing: the item is used as it is.
    Nothing,
    /// A monster no farther away than `max_range`.
    Monster { max_range: i32 },
    /// A position in sight, however far.
    Tile,
}

/// How a use of an item left the game.
pub struct Outcome {
    pub objects: Seq<ObjectView>,
    pub game: GameView,
    pub result: UseResult,
}

/// Whether the object in slot `id` is an enemy that a bolt of the reach
/// `max_range` can strike: a monster with a mind that fights, in sight, and
/// no farther than `max_range` from the player.
pub open spec fn strikable(
    objects: Seq<ObjectView>,
    sight: Seq<Seq<bool>>,
    max_range: int,
    id: int,
) -> bool {
    &&& PLAYER < id < objects.len()
    &&& objects[id].fighter is Some
    &&& objects[id].ai is Some
    &&& visible_at(sight, objects[id].x as int, objects[id].y as int)
    &&& max_range >= 0
    &&& gap(objects, id) <= max_range * max_range
}

/// The square of the distance between the player and the object in slot `id`.
pub open spec fn gap(objects: Seq<ObjectView>, id: int) -> int {
    dist_sq(
        objects[PLAYER as int].x as int,
        objects[PLAYER as int].y as int,
        objects[id].x as int,
        objects[id].y as int,
    )
}

/// The slot of the enemy nearest to the player among the first `n` objects
/// that a bolt of the reach `max_range` can strike; of several equally near,
/// the first.
pub open spec fn nearest_among(
    objects: Seq<ObjectView>,
    sight: Seq<Seq<bool>>,
    max_range: int,
    n: int,
) -> Option<int>
    decreases n,
{
    if n <= 0 {
        None
    } else {
        let earlier = nearest_among(objects, sight, max_range, n - 1);
        if strikable(objects, sight, max_range, n - 1) && (earlier matches Some(i) ==> gap(
            objects,
            n - 1,
        ) < gap(objects, i)) {
            Some(n - 1)
        } else {
            earlier
        }
    }
}

/// The slot of the enemy nearest to the player that a bolt of the reach
/// `max_range` can strike.
pub open spec fn nearest(objects: Seq<ObjectView>, sight: Seq<Seq<bool>>, max_range: int) -> Option<
    int,
> {
    nearest_among(objects, sight, max_range, objects.len() as int)
}

/// What [`nearest_among`] finds: an enemy in reach such that none in reach
/// is nearer and none before it is as near; or that none is in reach.
pub proof fn lemma_nearest(objects: Seq<ObjectView>, sight: Seq<Seq<bool>>, max_range: int, n: int)
    requires
        n <= objects.len(),
    ensures
        match nearest_among(objects, sight, max_range, n) {
            Some(i) => {
                &&& 0 <= i < n
                &&& strikable(objects, sight, max_range, i)
                &&& forall|j: int|
                    0 <= j < n && #[trigger] strikable(objects, sight, max_range, j) ==> gap(
                        objects,
                        i,
                    ) <= gap(objects, j) && (gap(objects, i) == gap(objects, j) ==> i <= j)
            },
            None => forall|j: int|
                0 <= j < n ==> !#[trigger] strikable(objects, sight, max_range, j),
        },
    decreases n,
{
    if n > 0 {
        lemma_nearest(objects, sight, max_range, n - 1);
    }
}

/// The slot of the enemy nearest to the player that a bolt of the reach
/// `max_range` can strike.
pub fn closest_monster(max_range: i32, objects: &Vec<Object>, sight: &SightGrid) -> (found: Option<
    usize,
>)
    ensures
        match found {
            Some(i) => nearest(objects.deep_view(), sight.deep_view(), max_range as int) == Some(
                i as int,
            ),
            None => nearest(objects.deep_view(), sight.deep_view(), max_range as int) is None,
        },
{
    let ghost all = objects.deep_view();
    let ghost seen = sight.deep_view();
    let mut closest_enemy: Option<usize> = None;
    let mut closest_dist = Distance { squared: 0 };
    let mut id: usize = 0;
    while id < objects.len()
        invariant
            id <= objects@.len(),
            all == objects.deep_view(),
            seen == sight.deep_view(),
            match closest_enemy {
                Some(i) => nearest_among(all, seen, max_range as int, id as int) == Some(i as int)
                    && i < id && closest_dist.squared == gap(all, i as int),
                None => nearest_among(all, seen, max_range as int, id as int) is None,
            },
        decreases objects@.len() - id,
    {
        if id != PLAYER && objects[id].fighter.is_some() && objects[id].ai.is_some() && is_in_fov(
            sight,
            objects[id].x,
            objects[id].y,
        ) {
            let dist = objects[PLAYER].distance_to(&objects[id]);
            if dist.at_most(max_range) {
                let nearer = match closest_enemy {
                    Some(_) => dist.squared < closest_dist.squared,
                    None => true,
                };
                if nearer {
                    closest_enemy = Some(id);
                    closest_dist = dist;
                }
            }
        }
        id += 1;
    }
    closest_enemy
}

/// Drinking a healing potion. At full health nothing happens; otherwise the
/// player gets hit points back.
pub open spec fn heal_cast(objects: Seq<ObjectView>, game: GameView) -> Outcome {
    let player = objects[PLAYER as int];
    let max_hp = player.effective(Stat::MaxHp, game.inventory);
    match player.fighter {
        Some(f) => if f.hp == max_hp {
            Outcome {
                objects,
                game: game.logged(seq![("You are already at full health."@, Color::Red)]),
                result: UseResult::Cancelled,
            }
        } else {
            Outcome {
                objects: objects.update(
                    PLAYER as int,
                    player.healed(HEAL_AMOUNT as int, max_hp as int),
                ),
                game: game.logged(seq![("Your wounds start to feel better!"@, Color::LightViolet)]),
                result: UseResult::UsedUp,
            }
        },
        None => Outcome { objects, game, result: UseResult::Cancelled },
    }
}

/// Drinks a healing potion.
pub fn cast_heal(objects: &mut Vec<Object>, game: &mut Game) -> (result: UseResult)
    requires
        PLAYER < old(objects)@.len(),
    ensures
        (Outcome { objects: final(objects).deep_view(), game: final(game)@, result }) == heal_cast(
            old(objects).deep_view(),
            old(game)@,
        ),
{
    match objects[PLAYER].fighter {
        Some(fighter) => {
            if fighter.hp == objects[PLAYER].max_hp(game) {
                add_message(
                    &mut game.log,
                    String::from_str("You are already at full health."),
                    Color::Red,
                );
                assert(game@.log =~= old(game)@.log + seq![
                    ("You are already at full health."@, Color::Red),
                ]);
                return UseResult::Cancelled;
            }
            add_message(
                &mut game.log,
                String::from_str("Your wounds start to feel better!"),
                Color::LightViolet,
            );
            objects[PLAYER].heal(HEAL_AMOUNT, game);
            assert(game@.log =~= old(game)@.log + seq![
                ("Your wounds start to feel better!"@, Color::LightViolet),
            ]);
            assert(objects.deep_view() =~= heal_cast(old(objects).deep_view(), old(game)@).objects);
            UseResult::UsedUp
        },
        None => UseResult::Cancelled,
    }
}

/// Reading a scroll of lightning bolt. The bolt strikes the nearest enemy in
/// reach and in sight, and the player earns the experience of an enemy that
/// dies of it. With no enemy in reach nothing happens.
pub open spec fn lightning_cast(
    objects: Seq<ObjectView>,
    game: GameView,
    sight: Seq<Seq<bool>>,
) -> Outcome {
    match nearest(objects, sight, LIGHTNING_RANGE as int) {
        Some(i) => Outcome {
            objects: objects.update(i, objects[i].after_damage(LIGHTNING_DAMAGE as int)).update(
                PLAYER as int,
                objects[PLAYER as int].rewarded(objects[i].damage_award(LIGHTNING_DAMAGE as int)),
            ),
            game: game.logged(
                seq![(lightning_text(objects[i].name, LIGHTNING_DAMAGE as int), Color::LightBlue)]
                    + objects[i].damage_log(LIGHTNING_DAMAGE as int),
            ),
            result: UseResult::UsedUp,
        },
        None => Outcome {
            objects,
            game: game.logged(seq![("No enemy is close enough to strike."@, Color::Red)]),
            result: UseResult::Cancelled,
        },
    }
}

/// Reads a scroll of lightning bolt.
pub fn cast_lightning(objects: &mut Vec<Object>, game: &mut Game, sight: &SightGrid) -> (result:
    UseResult)
    requires
        PLAYER < old(objects)@.len(),
    ensures
        (Outcome { objects: final(objects).deep_view(), game: final(game)@, result })
            == lightning_cast(old(objects).deep_view(), old(game)@, sight.deep_view()),
{
    let ghost before = objects.deep_view();
    match closest_monster(LIGHTNING_RANGE, objects, sight) {
        Some(monster_id) => {
            proof {
                lemma_nearest(
                    before,
                    sight.deep_view(),
                    LIGHTNING_RANGE as int,
                    before.len() as int,
                );
            }
            add_message(
                &mut game.log,
                lightning_message(objects[monster_id].name.as_str(), LIGHTNING_DAMAGE),
                Color::LightBlue,
            );
            let award = objects[monster_id].take_damage(LIGHTNING_DAMAGE, game);
            objects[PLAYER].gain_experience(award);
            assert(game@.log =~= old(game)@.log + (seq![
                (
                    lightning_text(before[monster_id as int].name, LIGHTNING_DAMAGE as int),
                    Color::LightBlue,
                ),
            ] + before[monster_id as int].damage_log(LIGHTNING_DAMAGE as int)));
            assert(objects.deep_view() =~= lightning_cast(
                before,
                old(game)@,
                sight.deep_view(),
            ).objects);
            UseResult::UsedUp
        },
        None => {
            add_message(
                &mut game.log,
                String::from_str("No enemy is close enough to strike."),
                Color::Red,
            );
            assert(game@.log =~= old(game)@.log + seq![
                ("No enemy is close enough to strike."@, Color::Red),
            ]);
            UseResult::Cancelled
        },
    }
}

/// Whether `(x, y)` is no farther from the player than `max_range`; without
/// a range everything is near enough.
pub open spec fn in_range(
    objects: Seq<ObjectView>,
    x: int,
    y: int,
    max_range: Option<i32>,
) -> bool {
    match max_range {
        Some(range) => range >= 0 && dist_sq(
            objects[PLAYER as int].x as int,
            objects[PLAYER as int].y as int,
            x,
            y,
        ) <= range * range,
        None => true,
    }
}

/// Whether `(x, y)` is no farther from the player than `max_range`.
pub fn within_range(objects: &Vec<Object>, x: i32, y: i32, max_range: Option<i32>) -> (near: bool)
    requires
        PLAYER < objects@.len(),
    ensures
        near == in_range(objects.deep_view(), x as int, y as int, max_range),
{
    match max_range {
        Some(range) => objects[PLAYER].distance(x, y).at_most(range),
        None => true,
    }
}

/// The slot of the monster that `target` names, if it names one that a
/// scroll of confusion can be read at: a fighter other than the player, in
/// sight and in the scroll's range.
pub open spec fn aimed_at(
    objects: Seq<ObjectView>,
    sight: Seq<Seq<bool>>,
    target: Option<Target>,
) -> Option<int> {
    match target {
        Some(Target::Monster(id)) => if PLAYER < id < objects.len() && objects[id as int].fighter
            is Some && visible_at(
            sight,
            objects[id as int].x as int,
            objects[id as int].y as int,
        ) && in_range(
            objects,
            objects[id as int].x as int,
            objects[id as int].y as int,
            Some(CONFUSE_RANGE),
        ) {
            Some(id as int)
        } else {
            None
        },
        _ => None,
    }
}

/// The object with its mind clouded: it remembers the behaviour to return
/// to and starts the count anew. A monster that is confused already keeps
/// what it remembered; confusion does not pile up.
pub open spec fn confused(object: ObjectView) -> ObjectView {
    ObjectView {
        ai: Some(
            Ai::Confused {
                previous_ai: match object.ai {
                    Some(ai) => ai.clear_minded(),
                    None => Behavior::Basic,
                },
                num_turns: CONFUSE_NUM_TURNS,
            },
        ),
        ..object
    }
}

/// Reading a scroll of confusion at `target`. A monster that was aimed at is
/// confused; without one nothing happens.
pub open spec fn confuse_cast(
    objects: Seq<ObjectView>,
    game: GameView,
    sight: Seq<Seq<bool>>,
    target: Option<Target>,
) -> Outcome {
    match aimed_at(objects, sight, target) {
        Some(i) => Outcome {
            objects: objects.update(i, confused(objects[i])),
            game: game.logged(seq![(confused_text(objects[i].name), Color::LightGreen)]),
            result: UseResult::UsedUp,
        },
        None => Outcome {
            objects,
            game: game.logged(seq![("No enemy is close enough to strike."@, Color::Red)]),
            result: UseResult::Cancelled,
        },
    }
}

/// Reads a scroll of confusion at `target`.
pub fn cast_confuse(
    objects: &mut Vec<Object>,
    game: &mut Game,
    sight: &SightGrid,
    target: Option<Target>,
) -> (result: UseResult)
    requires
        PLAYER < old(objects)@.len(),
    ensures
        (Outcome { objects: final(objects).deep_view(), game: final(game)@, result })
            == confuse_cast(old(objects).deep_view(), old(game)@, sight.deep_view(), target),
{
    let ghost before = objects.deep_view();
    let monster_id = match target {
        Some(Target::Monster(id)) => if PLAYER < id && id < objects.len()
            && objects[id].fighter.is_some() && is_in_fov(sight, objects[id].x, objects[id].y)
            && within_range(objects, objects[id].x, objects[id].y, Some(CONFUSE_RANGE)) {
            Some(id)
        } else {
            None
        },
        _ => None,
    };
    match monster_id {
        Some(monster_id) => {
            let previous_ai = match objects[monster_id].ai {
                Some(ai) => ai.underlying(),
                None => Behavior::Basic,
            };
            objects[monster_id].ai = Some(
                Ai::Confused { previous_ai: previous_ai, num_turns: CONFUSE_NUM_TURNS },
            );
            add_message(
                &mut game.log,
                join3(
                    "The eyes of ",
                    objects[monster_id].name.as_str(),
                    " look vacant, as he starts to stumble around!",
                ),
                Color::LightGreen,
            );
            assert(game@.log =~= old(game)@.log + seq![
                (confused_text(before[monster_id as int].name), Color::LightGreen),
            ]);
            assert(objects.deep_view() =~= before.update(
                monster_id as int,
                confused(before[monster_id as int]),
            ));
            UseResult::UsedUp
        },
        None => {
            add_message(
                &mut game.log,
                String::from_str("No enemy is close enough to strike."),
                Color::Red,
            );
            assert(game@.log =~= old(game)@.log + seq![
                ("No enemy is close enough to strike."@, Color::Red),
            ]);
            UseResult::Cancelled
        },
    }
}

/// Whether a fireball that goes off at `(x, y)` burns the object: it fights
/// and is no farther away than the fireball's radius.
pub open spec fn in_blast(object: ObjectView, x: int, y: int) -> bool {
    object.fighter is Some && dist_sq(object.x as int, object.y as int, x, y) <= FIREBALL_RADIUS
        * FIREBALL_RADIUS
}

/// The objects after a fireball went off at `(x, y)`, before the player is
/// given the experience: everything in the blast has taken the damage.
pub open spec fn scorched(objects: Seq<ObjectView>, x: int, y: int) -> Seq<ObjectView> {
    Seq::new(
        objects.len(),
        |i: int|
            if in_blast(objects[i], x, y) {
                objects[i].after_damage(FIREBALL_DAMAGE as int)
            } else {
                objects[i]
            },
    )
}

/// What the blast writes to the log: for each object that burns, in slot
/// order, that it burns, and its death if it dies.
pub open spec fn blast_log(objects: Seq<ObjectView>, x: int, y: int) -> Seq<(Seq<char>, Color)>
    decreases objects.len(),
{
    if objects.len() == 0 {
        seq![]
    } else {
        blast_log(objects.drop_last(), x, y) + (if in_blast(objects.last(), x, y) {
            seq![(burned_text(objects.last().name, FIREBALL_DAMAGE as int), Color::Orange)]
                + objects.last().damage_log(FIREBALL_DAMAGE as int)
        } else {
            seq![]
        })
    }
}

/// The experience that the blast earns the player: that of every monster
/// that dies of it, the player's own slot left out.
pub open spec fn blast_award(objects: Seq<ObjectView>, x: int, y: int) -> int
    decreases objects.len(),
{
    if objects.len() == 0 {
        0
    } else {
        blast_award(objects.drop_last(), x, y) + (if objects.len() - 1 != PLAYER && in_blast(
            objects.last(),
            x,
            y,
        ) {
            match objects.last().damage_award(FIREBALL_DAMAGE as int) {
                Some(xp) => xp as int,
                None => 0,
            }
        } else {
            0
        })
    }
}

/// The position that `target` names, if it names one that a scroll of
/// fireball can be read at: a position in sight.
pub open spec fn aimed_where(sight: Seq<Seq<bool>>, target: Option<Target>) -> Option<(i32, i32)> {
    match target {
        Some(Target::Tile(x, y)) => if visible_at(sight, x as int, y as int) {
            Some((x, y))
        } else {
            None
        },
        _ => None,
    }
}

/// Reading a scroll of fireball at `target`. Aimed at a position in sight,
/// the fireball burns every fighter within its radius, the player included,
/// and the player earns the experience of all the monsters that die, in one
/// sum at the end. Not aimed at such a position, nothing happens.
pub open spec fn fireball_cast(
    objects: Seq<ObjectView>,
    game: GameView,
    sight: Seq<Seq<bool>>,
    target: Option<Target>,
) -> Outcome {
    match aimed_where(sight, target) {
        Some((x, y)) => {
            let burned = scorched(objects, x as int, y as int);
            Outcome {
                objects: burned.update(
                    PLAYER as int,
                    burned[PLAYER as int].gained(blast_award(objects, x as int, y as int)),
                ),
                game: game.logged(
                    seq![(fireball_text(FIREBALL_RADIUS as int), Color::Orange)] + blast_log(
                        objects,
                        x as int,
                        y as int,
                    ),
                ),
                result: UseResult::UsedUp,
            }
        },
        _ => Outcome { objects, game, result: UseResult::Cancelled },
    }
}

/// Reads a scroll of fireball at `target`.
pub fn cast_fireball(
    objects: &mut Vec<Object>,
    game: &mut Game,
    sight: &SightGrid,
    target: Option<Target>,
) -> (result: UseResult)
    requires
        PLAYER < old(objects)@.len(),
    ensures
        (Outcome { objects: final(objects).deep_view(), game: final(game)@, result })
            == fireball_cast(old(objects).deep_view(), old(game)@, sight.deep_view(), target),
{
    let ghost before = objects.deep_view();
    let ghost game_before = game@;
    let (x, y) = match target {
        Some(Target::Tile(x, y)) => {
            if !is_in_fov(sight, x, y) {
                return UseResult::Cancelled;
            }
            (x, y)
        },
        _ => {
            return UseResult::Cancelled;
        },
    };
    add_message(
        &mut game.log,
        join_number(
            "The fireball explodes, burning everything within ",
            FIREBALL_RADIUS,
            " tiles!",
        ),
        Color::Orange,
    );
    let ghost opening = seq![(fireball_text(FIREBALL_RADIUS as int), Color::Orange)];
    assert(game@.log =~= game_before.log + (opening + blast_log(
        before.take(0),
        x as int,
        y as int,
    )));
    let mut xp_to_gain: i128 = 0;
    let mut i: usize = 0;
    while i < objects.len()
        invariant
            i <= objects@.len(),
            objects@.len() == before.len(),
            PLAYER < before.len(),
            objects.deep_view().len() == before.len(),
            forall|j: int|
                0 <= j < before.len() ==> #[trigger] objects.deep_view()[j] == if j < i
                    && in_blast(before[j], x as int, y as int) {
                    before[j].after_damage(FIREBALL_DAMAGE as int)
                } else {
                    before[j]
                },
            game@ == (GameView {
                log: game_before.log + (opening + blast_log(
                    before.take(i as int),
                    x as int,
                    y as int,
                )),
                ..game_before
            }),
            xp_to_gain == blast_award(before.take(i as int), x as int, y as int),
            -0x8000_0000 * i <= xp_to_gain <= 0x8000_0000 * i,
            i <= usize::MAX,
        decreases objects@.len() - i,
    {
        proof {
            assert(before.take(i + 1).drop_last() =~= before.take(i as int));
            assert(before.take(i + 1).last() == before[i as int]);
            assert(objects.deep_view()[i as int] == before[i as int]);
        }
        let ghost prior = objects.deep_view();
        if objects[i].distance(x, y).at_most(FIREBALL_RADIUS) && objects[i].fighter.is_some() {
            add_message(
                &mut game.log,
                burned_message(objects[i].name.as_str(), FIREBALL_DAMAGE),
                Color::Orange,
            );
            let award = objects[i].take_damage(FIREBALL_DAMAGE, game);
            match award {
                Some(xp) => {
                    if i != PLAYER {
                        xp_to_gain = xp_to_gain + xp as i128;
                    }
                },
                None => {},
            }
            assert(game@.log =~= game_before.log + (opening + blast_log(
                before.take(i + 1),
                x as int,
                y as int,
            )));
            assert(objects.deep_view() =~= prior.update(
                i as int,
                before[i as int].after_damage(FIREBALL_DAMAGE as int),
            ));
        } else {
            assert(game@.log =~= game_before.log + (opening + blast_log(
                before.take(i + 1),
                x as int,
                y as int,
            )));
        }
        i += 1;
    }
    assert(before.take(i as int) =~= before);
    assert(objects.deep_view() =~= scorched(before, x as int, y as int));
    objects[PLAYER].add_experience(xp_to_gain);
    assert(objects.deep_view() =~= fireball_cast(
        before,
        game_before,
        sight.deep_view(),
        target,
    ).objects);
    UseResult::UsedUp
}

/// What `item` has to be aimed at before it is used: a scroll of confusion
/// at a monster in its range, a scroll of fireball at a position, anything
/// else at nothing.
pub open spec fn aim_of(item: Item) -> Targeting {
    match item {
        Item::Confuse => Targeting::Monster { max_range: CONFUSE_RANGE },
        Item::Fireball => Targeting::Tile,
        _ => Targeting::Nothing,
    }
}

/// What `item` has to be aimed at before it is used.
pub fn targeting_of(item: Item) -> (targeting: Targeting)
    ensures
        targeting == aim_of(item),
{
    match item {
        Item::Confuse => Targeting::Monster { max_range: CONFUSE_RANGE },
        Item::Fireball => Targeting::Tile,
        _ => Targeting::Nothing,
    }
}

/// What to tell the player who is about to aim the item `id`: how to aim
/// it. Nothing for what needs no aim.
pub open spec fn aim_prompt(inventory: Seq<ObjectView>, id: int) -> Seq<(Seq<char>, Color)> {
    match inventory[id].item {
        Some(Item::Confuse) => seq![
            ("Left-click an enemy to confuse it, or right-click to cancel."@, Color::LightCyan),
        ],
        Some(Item::Fireball) => seq![
            (
                "Left-click a target tile for the fireball, or right-click to cancel."@,
                Color::LightCyan,
            ),
        ],
        _ => seq![],
    }
}

/// Opens the use of the item `inventory_id`: tells what it has to be aimed
/// at, and writes to the log how to aim. The caller lets the player aim and
/// hands the target to [`use_item`].
pub fn begin_use(inventory_id: usize, game: &mut Game) -> (targeting: Targeting)
    requires
        inventory_id < old(game).inventory@.len(),
    ensures
        targeting == match old(game)@.inventory[inventory_id as int].item {
            Some(item) => aim_of(item),
            None => Targeting::Nothing,
        },
        final(game)@ == old(game)@.logged(aim_prompt(old(game)@.inventory, inventory_id as int)),
{
    let targeting = match game.inventory[inventory_id].item {
        Some(item) => targeting_of(item),
        None => Targeting::Nothing,
    };
    match targeting {
        Targeting::Monster { .. } => {
            add_message(
                &mut game.log,
                String::from_str("Left-click an enemy to confuse it, or right-click to cancel."),
                Color::LightCyan,
            );
        },
        Targeting::Tile => {
            add_message(
                &mut game.log,
                String::from_str(
                    "Left-click a target tile for the fireball, or right-click to cancel.",
                ),
                Color::LightCyan,
            );
        },
        Targeting::Nothing => {},
    }
    assert(game@.log =~= old(game)@.log + aim_prompt(old(game)@.inventory, inventory_id as int));
    targeting
}

/// What the item `id` does when it is used at `target`, before anyone looks
/// whether it is used up.
pub open spec fn item_effect(
    objects: Seq<ObjectView>,
    game: GameView,
    sight: Seq<Seq<bool>>,
    id: int,
    target: Option<Target>,
) -> Outcome {
    match game.inventory[id].item->0 {
        Item::Heal => heal_cast(objects, game),
        Item::Lightning => lightning_cast(objects, game, sight),
        Item::Confuse => confuse_cast(objects, game, sight, target),
        Item::Fireball => fireball_cast(objects, game, sight, target),
        Item::Equipment => Outcome {
            objects,
            game: GameView {
                inventory: toggled(game.inventory, id),
                ..game.logged(toggle_log(game.inventory, id))
            },
            result: if game.inventory[id].equipment is Some {
                UseResult::UsedAndKept
            } else {
                UseResult::Cancelled
            },
        },
    }
}

/// Using the item `id` at `target`. What has no use stays, and the log says
/// so. Otherwise the item does its work. An item that is used up leaves the
/// inventory. A use that is cancelled changes nothing but the log, which
/// gets a word of it.
pub open spec fn item_use(
    objects: Seq<ObjectView>,
    game: GameView,
    sight: Seq<Seq<bool>>,
    id: int,
    target: Option<Target>,
) -> Outcome {
    if game.inventory[id].item is None {
        Outcome {
            objects,
            game: game.logged(seq![(cannot_use_text(game.inventory[id].name), Color::White)]),
            result: UseResult::Cancelled,
        }
    } else {
        let effect = item_effect(objects, game, sight, id, target);
        match effect.result {
            UseResult::UsedUp => Outcome {
                game: GameView { inventory: effect.game.inventory.remove(id), ..effect.game },
                ..effect
            },
            UseResult::UsedAndKept => effect,
            UseResult::Cancelled => Outcome {
                game: effect.game.logged(seq![("Cancelled"@, Color::White)]),
                ..effect
            },
        }
    }
}

/// Uses the item `inventory_id` at `target`.
pub fn use_item(
    inventory_id: usize,
    target: Option<Target>,
    objects: &mut Vec<Object>,
    game: &mut Game,
    sight: &SightGrid,
) -> (result: UseResult)
    requires
        inventory_id < old(game).inventory@.len(),
        PLAYER < old(objects)@.len(),
    ensures
        (Outcome { objects: final(objects).deep_view(), game: final(game)@, result }) == item_use(
            old(objects).deep_view(),
            old(game)@,
            sight.deep_view(),
            inventory_id as int,
            target,
        ),
{
    let ghost before = game@;
    match game.inventory[inventory_id].item {
        Some(item) => {
            let result = match item {
                Item::Heal => cast_heal(objects, game),
                Item::Lightning => cast_lightning(objects, game, sight),
                Item::Confuse => cast_confuse(objects, game, sight, target),
                Item::Fireball => cast_fireball(objects, game, sight, target),
                Item::Equipment => toggle_equipment(inventory_id, game),
            };
            let ghost effect = item_effect(
                old(objects).deep_view(),
                before,
                sight.deep_view(),
                inventory_id as int,
                target,
            );
            assert(game@ == effect.game);
            match result {
                UseResult::UsedUp => {
                    game.inventory.remove(inventory_id);
                    assert(game@.inventory =~= effect.game.inventory.remove(inventory_id as int));
                },
                UseResult::UsedAndKept => {},
                UseResult::Cancelled => {
                    add_message(&mut game.log, String::from_str("Cancelled"), Color::White);
                    assert(game@.log =~= effect.game.log + seq![("Cancelled"@, Color::White)]);
                },
            }
            result
        },
        None => {
            add_message(
                &mut game.log,
                join3("The ", game.inventory[inventory_id].name.as_str(), " cannot be used."),
                Color::White,
            );
            assert(game@.log =~= before.log + seq![
                (cannot_use_text(before.inventory[inventory_id as int].name), Color::White),
            ]);
            UseResult::Cancelled
        },
    }
}

} // verus!
