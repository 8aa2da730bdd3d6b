//! What lives in a level: the monsters and items that a room is stocked
//! with, and how their numbers and odds grow with the depth.

use crate::color::Color;
use crate::movement::{blocked_at, is_blocked};
use crate::geometry::Rect;
use crate::object::{
    Ai, DeathCallback, Equipment, Fighter, Item, Object, ObjectView, Slot,
};
use crate::random::random_range;
use crate::tile::{Tile, TileGrid};
use vstd::prelude::*;
use vstd::string::*;

verus! {

/// One step of a table that depends on the depth: from `level` on, the
/// table's value is `value`.
#[derive(Clone, Copy, Debug, PartialEq, Eq, Structural)]
pub struct Transition {
    pub level: u32,
    pub value: u32,
}

/// The value of `table` at the depth `level`: that of the last entry whose
/// level is not above `level`, and 0 where there is none.
pub open spec fn value_at(table: Seq<Transition>, level: u32) -> u32
    decreases table.len(),
{
    if table.len() == 0 {
        0
    } else if table.last().level <= level {
        table.last().value
    } else {
        value_at(table.drop_last(), level)
    }
}

/// The value of `table` at the depth `level`.
pub fn from_dungeon_level(table: &Vec<Transition>, level: u32) -> (value: u32)
    ensures
        value == value_at(table@, level),
{
    let mut i: usize = table.len();
    assert(table@.take(i as int) =~= table@);
    while i > 0
        invariant
            i <= table@.len(),
            value_at(table@, level) == value_at(table@.take(i as int), level),
        decreases i,
    {
        let entry = table[i - 1];
        proof {
            assert(table@.take(i as int).last() == entry);
            assert(table@.take(i as int).drop_last() =~= table@.take(i - 1));
        }
        if entry.level <= level {
            return entry.value;
        }
        i -= 1;
    }
    0
}

/// The sum of `weights`.
pub open spec fn weight_sum(weights: Seq<u32>) -> int
    decreases weights.len(),
{
    if weights.len() == 0 {
        0
    } else {
        weight_sum(weights.drop_last()) + weights.last()
    }
}

/// Whether a roll of `roll` falls to the entry `choice` of `weights`. The
/// entries share out the numbers from 0 up to the sum of all weights in their
/// order, each taking as many as its weight.
pub open spec fn falls_to(weights: Seq<u32>, roll: int, choice: int) -> bool {
    &&& 0 <= choice < weights.len()
    &&& weight_sum(weights.take(choice)) <= roll < weight_sum(weights.take(choice + 1))
}

/// Finds the entry of `weights` that a roll falls to; none where the roll is
/// not below the sum of the weights.
pub fn pick_weighted(weights: &Vec<u32>, roll: u64) -> (choice: Option<usize>)
    ensures
        match choice {
            Some(i) => falls_to(weights@, roll as int, i as int),
            None => roll >= weight_sum(weights@),
        },
{
    let mut below: u128 = 0;
    let mut i: usize = 0;
    while i < weights.len()
        invariant
            i <= weights@.len(),
            below == weight_sum(weights@.take(i as int)),
            below <= i * 0xFFFF_FFFF,
            below <= roll,
        decreases weights@.len() - i,
    {
        proof {
            assert(weights@.take(i + 1).drop_last() =~= weights@.take(i as int));
            assert(weights@.take(i + 1).last() == weights@[i as int]);
        }
        let next: u128 = below + weights[i] as u128;
        if (roll as u128) < next {
            return Some(i);
        }
        below = next;
        i += 1;
    }
    proof {
        assert(weights@.take(i as int) =~= weights@);
    }
    None
}

/// The monsters that a level can hold.
#[derive(Clone, Copy, Debug, PartialEq, Eq, Structural)]
pub enum MonsterKind {
    Orc,
    Troll,
}

/// The items that a level can hold.
#[derive(Clone, Copy, Debug, PartialEq, Eq, Structural)]
pub enum Loot {
    HealingPotion,
    LightningScroll,
    FireballScroll,
    ConfusionScroll,
    Sword,
    Shield,
}

/// A living, blocking monster of the given kind at `(x, y)`.
pub open spec fn monster_view(kind: MonsterKind, x: i32, y: i32) -> ObjectView {
    match kind {
        MonsterKind::Orc => ObjectView {
            alive: true,
            fighter: Some(
                Fighter {
                    max_hp: 10,
                    hp: 10,
                    defense: 0,
                    power: 3,
                    xp: 35,
                    on_death: DeathCallback::Monster,
                },
            ),
            ai: Some(Ai::Basic),
            ..ObjectView::plain(x, y, 'o', "orc"@, Color::DesaturatedGreen, true)
        },
        MonsterKind::Troll => ObjectView {
            alive: true,
            fighter: Some(
                Fighter {
                    max_hp: 16,
                    hp: 16,
                    defense: 1,
                    power: 4,
                    xp: 100,
                    on_death: DeathCallback::Monster,
                },
            ),
            ai: Some(Ai::Basic),
            ..ObjectView::plain(x, y, 'T', "troll"@, Color::DarkerGreen, true)
        },
    }
}

/// An item of the given kind lying at `(x, y)`.
pub open spec fn item_view(loot: Loot, x: i32, y: i32) -> ObjectView {
    match loot {
        Loot::HealingPotion => ObjectView {
            item: Some(Item::Heal),
            ..ObjectView::plain(x, y, '!', "healing potion"@, Color::Violet, false)
        },
        Loot::LightningScroll => ObjectView {
            item: Some(Item::Lightning),
            ..ObjectView::plain(x, y, '#', "scroll of lightning bolt"@, Color::DarkGreen, false)
        },
        Loot::FireballScroll => ObjectView {
            item: Some(Item::Fireball),
            ..ObjectView::plain(x, y, '#', "scroll of fireball"@, Color::LightYellow, false)
        },
        Loot::ConfusionScroll => ObjectView {
            item: Some(Item::Confuse),
            ..ObjectView::plain(x, y, '#', "scroll of confusion"@, Color::LightYellow, false)
        },
        Loot::Sword => ObjectView {
            item: Some(Item::Equipment),
            equipment: Some(
                Equipment {
                    slot: Slot::RightHand,
                    equipped: false,
                    power_bonus: 3,
                    defense_bonus: 0,
                    max_hp_bonus: 0,
                },
            ),
            ..ObjectView::plain(x, y, '/', "sword"@, Color::Sky, false)
        },
        Loot::Shield => ObjectView {
            item: Some(Item::Equipment),
            equipment: Some(
                Equipment {
                    slot: Slot::LeftHand,
                    equipped: false,
                    power_bonus: 0,
                    defense_bonus: 1,
                    max_hp_bonus: 0,
                },
            ),
            ..ObjectView::plain(x, y, '[', "shield"@, Color::DarkerOrange, false)
        },
    }
}

/// The stairs down at `(x, y)`: they stay on display once their tile has been
/// explored.
pub open spec fn stairs_view(x: i32, y: i32) -> ObjectView {
    ObjectView {
        always_visible: true,
        ..ObjectView::plain(x, y, '>', "stairs"@, Color::White, false)
    }
}

/// The player at `(x, y)`, as a game begins.
pub open spec fn player_view(x: i32, y: i32) -> ObjectView {
    ObjectView {
        alive: true,
        fighter: Some(
            Fighter {
                max_hp: 30,
                hp: 30,
                defense: 2,
                power: 5,
                xp: 0,
                on_death: DeathCallback::Player,
            },
        ),
        ..ObjectView::plain(x, y, '@', "player"@, Color::White, true)
    }
}

/// A living, blocking monster of the given kind at `(x, y)`.
pub fn new_monster(kind: MonsterKind, x: i32, y: i32) -> (o: Object)
    ensures
        o@ == monster_view(kind, x, y),
{
    match kind {
        MonsterKind::Orc => {
            let mut orc = Object::new(x, y, 'o', "orc", Color::DesaturatedGreen, true);
            orc.fighter = Some(
                Fighter {
                    max_hp: 10,
                    hp: 10,
                    defense: 0,
                    power: 3,
                    xp: 35,
                    on_death: DeathCallback::Monster,
                },
            );
            orc.ai = Some(Ai::Basic);
            orc.alive = true;
            orc
        },
        MonsterKind::Troll => {
            let mut troll = Object::new(x, y, 'T', "troll", Color::DarkerGreen, true);
            troll.fighter = Some(
                Fighter {
                    max_hp: 16,
                    hp: 16,
                    defense: 1,
                    power: 4,
                    xp: 100,
                    on_death: DeathCallback::Monster,
                },
            );
            troll.ai = Some(Ai::Basic);
            troll.alive = true;
            troll
        },
    }
}

/// An item of the given kind lying at `(x, y)`.
pub fn new_item(loot: Loot, x: i32, y: i32) -> (o: Object)
    ensures
        o@ == item_view(loot, x, y),
{
    match loot {
        Loot::HealingPotion => {
            let mut object = Object::new(x, y, '!', "healing potion", Color::Violet, false);
            object.item = Some(Item::Heal);
            object
        },
        Loot::LightningScroll => {
            let mut object = Object::new(
                x,
                y,
                '#',
                "scroll of lightning bolt",
                Color::DarkGreen,
                false,
            );
            object.item = Some(Item::Lightning);
            object
        },
        Loot::FireballScroll => {
            let mut object = Object::new(
                x,
                y,
                '#',
                "scroll of fireball",
                Color::LightYellow,
                false,
            );
            object.item = Some(Item::Fireball);
            object
        },
        Loot::ConfusionScroll => {
            let mut object = Object::new(
                x,
                y,
                '#',
                "scroll of confusion",
                Color::LightYellow,
                false,
            );
            object.item = Some(Item::Confuse);
            object
        },
        Loot::Sword => {
            let mut object = Object::new(x, y, '/', "sword", Color::Sky, false);
            object.item = Some(Item::Equipment);
            object.equipment = Some(
                Equipment {
                    slot: Slot::RightHand,
                    equipped: false,
                    power_bonus: 3,
                    defense_bonus: 0,
                    max_hp_bonus: 0,
                },
            );
            object
        },
        Loot::Shield => {
            let mut object = Object::new(x, y, '[', "shield", Color::DarkerOrange, false);
            object.item = Some(Item::Equipment);
            object.equipment = Some(
                Equipment {
                    slot: Slot::LeftHand,
                    equipped: false,
                    power_bonus: 0,
                    defense_bonus: 1,
                    max_hp_bonus: 0,
                },
            );
            object
        },
    }
}

/// The stairs down at `(x, y)`.
pub fn new_stairs(x: i32, y: i32) -> (o: Object)
    ensures
        o@ == stairs_view(x, y),
{
    let mut stairs = Object::new(x, y, '>', "stairs", Color::White, false);
    stairs.always_visible = true;
    stairs
}

/// The player at `(x, y)`, as a game begins.
pub fn new_player(x: i32, y: i32) -> (o: Object)
    ensures
        o@ == player_view(x, y),
{
    let mut player = Object::new(x, y, '@', "player", Color::White, true);
    player.alive = true;
    player.fighter = Some(
        Fighter {
            max_hp: 30,
            hp: 30,
            defense: 2,
            power: 5,
            xp: 0,
            on_death: DeathCallback::Player,
        },
    );
    player
}

/// How rooms are stocked, by depth: the most monsters and items a room can
/// get, and the weight of each kind in the draw.
#[derive(Clone, Debug)]
pub struct SpawnPolicy {
    pub max_monsters: Vec<Transition>,
    pub orc: Vec<Transition>,
    pub troll: Vec<Transition>,
    pub max_items: Vec<Transition>,
    pub heal: Vec<Transition>,
    pub lightning: Vec<Transition>,
    pub fireball: Vec<Transition>,
    pub confuse: Vec<Transition>,
    pub sword: Vec<Transition>,
    pub shield: Vec<Transition>,
}

/// A [`SpawnPolicy`] as a mathematical value.
pub struct SpawnPolicyView {
    pub max_monsters: Seq<Transition>,
    pub orc: Seq<Transition>,
    pub troll: Seq<Transition>,
    pub max_items: Seq<Transition>,
    pub heal: Seq<Transition>,
    pub lightning: Seq<Transition>,
    pub fireball: Seq<Transition>,
    pub confuse: Seq<Transition>,
    pub sword: Seq<Transition>,
    pub shield: Seq<Transition>,
}

impl View for SpawnPolicy {
    type V = SpawnPolicyView;

    open spec fn view(&self) -> SpawnPolicyView {
        SpawnPolicyView {
            max_monsters: self.max_monsters@,
            orc: self.orc@,
            troll: self.troll@,
            max_items: self.max_items@,
            heal: self.heal@,
            lightning: self.lightning@,
            fireball: self.fireball@,
            confuse: self.confuse@,
            sword: self.sword@,
            shield: self.shield@,
        }
    }
}

impl SpawnPolicyView {
    /// The weights of the monster kinds at the depth `level`, in the order
    /// orc, troll.
    pub open spec fn monster_weights(self, level: u32) -> Seq<u32> {
        seq![value_at(self.orc, level), value_at(self.troll, level)]
    }

    /// The weights of the item kinds at the depth `level`, in the order
    /// healing potion, lightning scroll, fireball scroll, confusion scroll,
    /// sword, shield.
    pub open spec fn item_weights(self, level: u32) -> Seq<u32> {
        seq![
            value_at(self.heal, level),
            value_at(self.lightning, level),
            value_at(self.fireball, level),
            value_at(self.confuse, level),
            value_at(self.sword, level),
            value_at(self.shield, level),
        ]
    }
}

impl SpawnPolicyView {
    /// The weight of a monster kind at the depth `level`.
    pub open spec fn monster_weight(self, level: u32, kind: MonsterKind) -> u32 {
        match kind {
            MonsterKind::Orc => value_at(self.orc, level),
            MonsterKind::Troll => value_at(self.troll, level),
        }
    }

    /// The weight of an item kind at the depth `level`.
    pub open spec fn loot_weight(self, level: u32, loot: Loot) -> u32 {
        match loot {
            Loot::HealingPotion => value_at(self.heal, level),
            Loot::LightningScroll => value_at(self.lightning, level),
            Loot::FireballScroll => value_at(self.fireball, level),
            Loot::ConfusionScroll => value_at(self.confuse, level),
            Loot::Sword => value_at(self.sword, level),
            Loot::Shield => value_at(self.shield, level),
        }
    }
}

/// The entry that a roll falls to has a weight: nothing falls to an entry of
/// weight 0.
pub proof fn lemma_falls_to_weight(weights: Seq<u32>, roll: int, choice: int)
    requires
        falls_to(weights, roll, choice),
    ensures
        weights[choice] > 0,
{
    assert(weights.take(choice + 1).drop_last() =~= weights.take(choice));
    assert(weights.take(choice + 1).last() == weights[choice]);
}

/// The monster kind that the entry `choice` of the monster weights stands for.
pub open spec fn monster_of(choice: int) -> MonsterKind {
    if choice == 0 {
        MonsterKind::Orc
    } else {
        MonsterKind::Troll
    }
}

/// The item kind that the entry `choice` of the item weights stands for.
pub open spec fn loot_of(choice: int) -> Loot {
    if choice == 0 {
        Loot::HealingPotion
    } else if choice == 1 {
        Loot::LightningScroll
    } else if choice == 2 {
        Loot::FireballScroll
    } else if choice == 3 {
        Loot::ConfusionScroll
    } else if choice == 4 {
        Loot::Sword
    } else {
        Loot::Shield
    }
}

fn one_step(level: u32, value: u32) -> (table: Vec<Transition>)
    ensures
        table@ == seq![Transition { level, value }],
{
    let mut table = Vec::new();
    table.push(Transition { level, value });
    table
}

impl SpawnPolicy {
    /// The policy of the game as it ships. At every depth a room gets up to
    /// 3 monsters, 4 orcs to 1 troll, and up to 2 items, 7 healing potions to
    /// 1 scroll of each kind. Swords turn up from depth 4 on, shields from
    /// depth 8 on.
    pub fn standard() -> (policy: SpawnPolicy)
        ensures
            policy@ == (SpawnPolicyView {
                max_monsters: seq![Transition { level: 1, value: 3 }],
                orc: seq![Transition { level: 1, value: 80 }],
                troll: seq![Transition { level: 1, value: 20 }],
                max_items: seq![Transition { level: 1, value: 2 }],
                heal: seq![Transition { level: 1, value: 70 }],
                lightning: seq![Transition { level: 1, value: 10 }],
                fireball: seq![Transition { level: 1, value: 10 }],
                confuse: seq![Transition { level: 1, value: 10 }],
                sword: seq![Transition { level: 4, value: 5 }],
                shield: seq![Transition { level: 8, value: 15 }],
            }),
    {
        SpawnPolicy {
            max_monsters: one_step(1, 3),
            orc: one_step(1, 80),
            troll: one_step(1, 20),
            max_items: one_step(1, 2),
            heal: one_step(1, 70),
            lightning: one_step(1, 10),
            fireball: one_step(1, 10),
            confuse: one_step(1, 10),
            sword: one_step(4, 5),
            shield: one_step(8, 15),
        }
    }

    /// The monster kind that a roll falls to at the depth `level`; none where
    /// the roll is not below the sum of the weights.
    pub fn monster_for(&self, level: u32, roll: u64) -> (kind: Option<MonsterKind>)
        ensures
            match kind {
                Some(k) => self@.monster_weight(level, k) > 0 && exists|choice: int|
                    falls_to(self@.monster_weights(level), roll as int, choice) && k == monster_of(
                        choice,
                    ),
                None => roll >= weight_sum(self@.monster_weights(level)),
            },
    {
        let mut weights: Vec<u32> = Vec::new();
        weights.push(from_dungeon_level(&self.orc, level));
        weights.push(from_dungeon_level(&self.troll, level));
        assert(weights@ =~= self@.monster_weights(level));
        match pick_weighted(&weights, roll) {
            Some(choice) => {
                let kind = if choice == 0 {
                    MonsterKind::Orc
                } else {
                    MonsterKind::Troll
                };
                assert(falls_to(self@.monster_weights(level), roll as int, choice as int) && kind
                    == monster_of(choice as int));
                proof {
                    lemma_falls_to_weight(self@.monster_weights(level), roll as int, choice as int);
                }
                Some(kind)
            },
            None => None,
        }
    }

    /// The item kind that a roll falls to at the depth `level`; none where
    /// the roll is not below the sum of the weights.
    pub fn loot_for(&self, level: u32, roll: u64) -> (loot: Option<Loot>)
        ensures
            match loot {
                Some(l) => self@.loot_weight(level, l) > 0 && exists|choice: int|
                    falls_to(self@.item_weights(level), roll as int, choice) && l == loot_of(
                        choice,
                    ),
                None => roll >= weight_sum(self@.item_weights(level)),
            },
    {
        let mut weights: Vec<u32> = Vec::new();
        weights.push(from_dungeon_level(&self.heal, level));
        weights.push(from_dungeon_level(&self.lightning, level));
        weights.push(from_dungeon_level(&self.fireball, level));
        weights.push(from_dungeon_level(&self.confuse, level));
        weights.push(from_dungeon_level(&self.sword, level));
        weights.push(from_dungeon_level(&self.shield, level));
        assert(weights@ =~= self@.item_weights(level));
        match pick_weighted(&weights, roll) {
            Some(choice) => {
                let loot = if choice == 0 {
                    Loot::HealingPotion
                } else if choice == 1 {
                    Loot::LightningScroll
                } else if choice == 2 {
                    Loot::FireballScroll
                } else if choice == 3 {
                    Loot::ConfusionScroll
                } else if choice == 4 {
                    Loot::Sword
                } else {
                    Loot::Shield
                };
                assert(falls_to(self@.item_weights(level), roll as int, choice as int) && loot
                    == loot_of(choice as int));
                proof {
                    lemma_falls_to_weight(self@.item_weights(level), roll as int, choice as int);
                }
                Some(loot)
            },
            None => None,
        }
    }
}

/// Puts `object` on the level unless its position is blocked. Returns whether
/// it was put there.
pub fn try_spawn(object: Object, map: &TileGrid, objects: &mut Vec<Object>) -> (placed: bool)
    ensures
        placed == !blocked_at(
            map.deep_view(),
            old(objects).deep_view(),
            object.x as int,
            object.y as int,
        ),
        final(objects).deep_view() == if placed {
            old(objects).deep_view().push(object@)
        } else {
            old(objects).deep_view()
        },
{
    if is_blocked(object.x, object.y, map, objects) {
        false
    } else {
        objects.push(object);
        assert(objects.deep_view() =~= old(objects).deep_view().push(object@));
        true
    }
}

/// Whether `object` is a monster as the policy makes them at the depth
/// `level`: of a kind whose weight is not 0 there.
pub open spec fn is_monster_spawn(policy: SpawnPolicyView, level: u32, object: ObjectView) -> bool {
    exists|kind: MonsterKind|
        object == #[trigger] monster_view(kind, object.x, object.y) && policy.monster_weight(
            level,
            kind,
        ) > 0
}

/// Whether `object` is an item as the policy makes them at the depth
/// `level`: of a kind whose weight is not 0 there.
pub open spec fn is_item_spawn(policy: SpawnPolicyView, level: u32, object: ObjectView) -> bool {
    exists|loot: Loot|
        object == #[trigger] item_view(loot, object.x, object.y) && policy.loot_weight(level, loot)
            > 0
}

/// Whether `object` stands inside `room` on a spot that was free when it
/// arrived, `earlier` being the objects that were there before it.
pub open spec fn well_placed(
    grid: Seq<Seq<Tile>>,
    room: Rect,
    earlier: Seq<ObjectView>,
    object: ObjectView,
) -> bool {
    room.encloses(object.x as int, object.y as int) && !blocked_at(
        grid,
        earlier,
        object.x as int,
        object.y as int,
    )
}

/// Whether `after` is `before` with the stock of `room` at its end: first
/// `monsters` monsters, then items, no more of either than the policy allows
/// at the depth `level`, each of a kind that the policy makes there, and
/// each well placed.
pub open spec fn stock_split(
    policy: SpawnPolicyView,
    level: u32,
    grid: Seq<Seq<Tile>>,
    room: Rect,
    before: Seq<ObjectView>,
    after: Seq<ObjectView>,
    monsters: int,
) -> bool {
    &&& 0 <= monsters <= value_at(policy.max_monsters, level)
    &&& before.len() + monsters <= after.len()
    &&& after.len() - before.len() - monsters <= value_at(policy.max_items, level)
    &&& forall|i: int|
        before.len() <= i < after.len() ==> {
            let o = #[trigger] after[i];
            &&& well_placed(grid, room, after.take(i), o)
            &&& if i < before.len() + monsters {
                is_monster_spawn(policy, level, o)
            } else {
                is_item_spawn(policy, level, o)
            }
        }
}

/// Whether `after` is `before` with the stock of `room` at its end: some
/// monsters, then some items, as [`stock_split`] has it.
pub open spec fn stocked(
    policy: SpawnPolicyView,
    level: u32,
    grid: Seq<Seq<Tile>>,
    room: Rect,
    before: Seq<ObjectView>,
    after: Seq<ObjectView>,
) -> bool {
    &&& before.len() <= after.len()
    &&& after.take(before.len() as int) == before
    &&& exists|monsters: int| #[trigger]
        stock_split(policy, level, grid, room, before, after, monsters)
}

/// One more well-placed newcomer at the end of the stock.
proof fn lemma_stock_grows(
    policy: SpawnPolicyView,
    level: u32,
    grid: Seq<Seq<Tile>>,
    room: Rect,
    before: Seq<ObjectView>,
    prior: Seq<ObjectView>,
    newcomer: ObjectView,
    monsters_before: int,
    monsters_after: int,
)
    requires
        before.len() <= prior.len(),
        prior.take(before.len() as int) == before,
        0 <= monsters_before <= monsters_after <= monsters_before + 1,
        before.len() + monsters_before <= prior.len(),
        monsters_after == monsters_before + 1 ==> prior.len() == before.len() + monsters_before
            && is_monster_spawn(policy, level, newcomer),
        monsters_after == monsters_before ==> is_item_spawn(policy, level, newcomer),
        well_placed(grid, room, prior, newcomer),
        forall|i: int|
            before.len() <= i < prior.len() ==> {
                let o = #[trigger] prior[i];
                &&& well_placed(grid, room, prior.take(i), o)
                &&& if i < before.len() + monsters_before {
                    is_monster_spawn(policy, level, o)
                } else {
                    is_item_spawn(policy, level, o)
                }
            },
    ensures
        prior.push(newcomer).take(before.len() as int) == before,
        forall|i: int|
            before.len() <= i < prior.len() + 1 ==> {
                let o = #[trigger] prior.push(newcomer)[i];
                &&& well_placed(grid, room, prior.push(newcomer).take(i), o)
                &&& if i < before.len() + monsters_after {
                    is_monster_spawn(policy, level, o)
                } else {
                    is_item_spawn(policy, level, o)
                }
            },
{
    let now = prior.push(newcomer);
    assert(now.take(before.len() as int) =~= prior.take(before.len() as int));
    assert forall|i: int| before.len() <= i < prior.len() + 1 implies {
        let o = #[trigger] now[i];
        &&& well_placed(grid, room, now.take(i), o)
        &&& if i < before.len() + monsters_after {
            is_monster_spawn(policy, level, o)
        } else {
            is_item_spawn(policy, level, o)
        }
    } by {
        if i < prior.len() {
            assert(now[i] == prior[i]);
            assert(now.take(i) =~= prior.take(i));
        } else {
            assert(now.take(i) =~= prior);
        }
    }
}

/// Stocks `room` with monsters and items. Their numbers are drawn between 0
/// and the policy's maximum for the depth `level`, their kinds by the
/// policy's weights, their places inside the room. A newcomer whose place is
/// blocked is dropped.
pub fn place_objects(
    room: &Rect,
    map: &TileGrid,
    objects: &mut Vec<Object>,
    level: u32,
    policy: &SpawnPolicy,
)
    ensures
        stocked(
            policy@,
            level,
            map.deep_view(),
            *room,
            old(objects).deep_view(),
            final(objects).deep_view(),
        ),
        !room.has_interior() ==> final(objects).deep_view() == old(objects).deep_view(),
{
    let ghost before = objects.deep_view();
    let ghost grid = map.deep_view();
    assert(before.take(before.len() as int) =~= before);
    if room.x2 as i64 - (room.x1 as i64) < 2 || room.y2 as i64 - (room.y1 as i64) < 2 {
        assert(stock_split(policy@, level, grid, *room, before, before, 0));
        return ;
    }
    let max_monsters = from_dungeon_level(&policy.max_monsters, level);
    let num_monsters = random_range(0, max_monsters as i64 + 1);
    let monster_total: u64 = from_dungeon_level(&policy.orc, level) as u64 + from_dungeon_level(
        &policy.troll,
        level,
    ) as u64;
    let mut n: i64 = 0;
    while n < num_monsters
        invariant
            0 <= n <= num_monsters <= max_monsters,
            room.has_interior(),
            grid == map.deep_view(),
            before.len() <= objects.deep_view().len() <= before.len() + n,
            objects.deep_view().take(before.len() as int) == before,
            forall|i: int|
                before.len() <= i < objects.deep_view().len() ==> {
                    let o = #[trigger] objects.deep_view()[i];
                    &&& well_placed(grid, *room, objects.deep_view().take(i), o)
                    &&& is_monster_spawn(policy@, level, o)
                },
            monster_total <= 0x2_0000_0000,
        decreases num_monsters - n,
    {
        let x = random_range(room.x1 as i64 + 1, room.x2 as i64) as i32;
        let y = random_range(room.y1 as i64 + 1, room.y2 as i64) as i32;
        if monster_total > 0 {
            let roll = random_range(0, monster_total as i64) as u64;
            match policy.monster_for(level, roll) {
                Some(kind) => {
                    let ghost prior = objects.deep_view();
                    let monster = new_monster(kind, x, y);
                    let placed = try_spawn(monster, map, objects);
                    proof {
                        if placed {
                            let count = prior.len() - before.len();
                            assert(is_monster_spawn(policy@, level, monster@));
                            lemma_stock_grows(
                                policy@,
                                level,
                                grid,
                                *room,
                                before,
                                prior,
                                monster@,
                                count,
                                count + 1,
                            );
                        }
                    }
                },
                None => {},
            }
        }
        n += 1;
    }
    let ghost monsters = objects.deep_view().len() - before.len();
    let max_items = from_dungeon_level(&policy.max_items, level);
    let num_items = random_range(0, max_items as i64 + 1);
    let item_total: u64 = from_dungeon_level(&policy.heal, level) as u64 + from_dungeon_level(
        &policy.lightning,
        level,
    ) as u64 + from_dungeon_level(&policy.fireball, level) as u64 + from_dungeon_level(
        &policy.confuse,
        level,
    ) as u64 + from_dungeon_level(&policy.sword, level) as u64 + from_dungeon_level(
        &policy.shield,
        level,
    ) as u64;
    let mut n: i64 = 0;
    while n < num_items
        invariant
            0 <= n <= num_items <= max_items,
            room.has_interior(),
            grid == map.deep_view(),
            0 <= monsters,
            before.len() + monsters <= objects.deep_view().len() <= before.len() + monsters + n,
            objects.deep_view().take(before.len() as int) == before,
            forall|i: int|
                before.len() <= i < objects.deep_view().len() ==> {
                    let o = #[trigger] objects.deep_view()[i];
                    &&& well_placed(grid, *room, objects.deep_view().take(i), o)
                    &&& if i < before.len() + monsters {
                        is_monster_spawn(policy@, level, o)
                    } else {
                        is_item_spawn(policy@, level, o)
                    }
                },
            item_total <= 0x6_0000_0000,
        decreases num_items - n,
    {
        let x = random_range(room.x1 as i64 + 1, room.x2 as i64) as i32;
        let y = random_range(room.y1 as i64 + 1, room.y2 as i64) as i32;
        if item_total > 0 {
            let roll = random_range(0, item_total as i64) as u64;
            match policy.loot_for(level, roll) {
                Some(loot) => {
                    let ghost prior = objects.deep_view();
                    let item = new_item(loot, x, y);
                    let placed = try_spawn(item, map, objects);
                    proof {
                        if placed {
                            assert(is_item_spawn(policy@, level, item@));
                            lemma_stock_grows(
                                policy@,
                                level,
                                grid,
                                *room,
                                before,
                                prior,
                                item@,
                                monsters,
                                monsters,
                            );
                        }
                    }
                },
                None => {},
            }
        }
        n += 1;
    }
    assert(stock_split(policy@, level, grid, *room, before, objects.deep_view(), monsters));
}

} // verus!
