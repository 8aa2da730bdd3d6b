//! The game as plain values: numbers, texts and flags, which a caller can
//! write to a file and read back. What was read is checked on the way in: a
//! value that names a colour, a use or a slot that does not exist, or that
//! holds no player, is no game.

use crate::color::Color;
use crate::game::{Game, GameView};
use crate::object::{
    Ai, Behavior, DeathCallback, Equipment, Fighter, Item, Object, ObjectView, Slot,
};
use crate::tile::Tile;
use vstd::prelude::*;
use vstd::string::*;

verus! {

/// Most hit points, hit points, defense, power, experience, and whether the
/// fighter dies the player's death.
pub type SavedFighter = (i32, i32, i32, i32, i32, bool);

/// Whether the mind is confused, and the count of the confusion.
pub type SavedAi = (bool, i32);

/// The code of the slot, whether the equipment is worn, and what it adds to
/// power, defense and most hit points.
pub type SavedEquipment = (u8, bool, i32, i32, i32);

/// The position, the glyph, the code of the colour, the name, whether the
/// object blocks and lives, its combat figures, its mind, the code of its
/// use, its equipment, and last whether it is always visible and its level.
pub type SavedObject = (
    i32,
    i32,
    char,
    u8,
    String,
    bool,
    bool,
    Option<SavedFighter>,
    Option<SavedAi>,
    Option<u8>,
    Option<SavedEquipment>,
    (bool, i32),
);

/// A [`SavedObject`] as a mathematical value.
pub type SavedObjectView = (
    i32,
    i32,
    char,
    u8,
    Seq<char>,
    bool,
    bool,
    Option<SavedFighter>,
    Option<SavedAi>,
    Option<u8>,
    Option<SavedEquipment>,
    (bool, i32),
);

/// Whether the tile is blocked, blocks the sight, and is explored.
pub type SavedTile = (bool, bool, bool);

/// The tiles, the log with the codes of its colours, the inventory and the
/// depth.
pub type SavedGame = (Vec<Vec<SavedTile>>, Vec<(String, u8)>, Vec<SavedObject>, u32);

/// A [`SavedGame`] as a mathematical value.
pub type SavedGameView = (Seq<Seq<SavedTile>>, Seq<(Seq<char>, u8)>, Seq<SavedObjectView>, u32);

impl Color {
    /// The number that stands for the colour in a saved game.
    pub open spec fn spec_code(self) -> u8 {
        match self {
            Color::Black => 0,
            Color::White => 1,
            Color::LightGrey => 2,
            Color::Red => 3,
            Color::LightRed => 4,
            Color::DarkRed => 5,
            Color::DarkerRed => 6,
            Color::Orange => 7,
            Color::DarkerOrange => 8,
            Color::Yellow => 9,
            Color::LightYellow => 10,
            Color::Green => 11,
            Color::LightGreen => 12,
            Color::DarkGreen => 13,
            Color::DarkerGreen => 14,
            Color::DesaturatedGreen => 15,
            Color::LightCyan => 16,
            Color::Sky => 17,
            Color::LightBlue => 18,
            Color::Violet => 19,
            Color::LightViolet => 20,
            Color::DarkWall => 21,
            Color::LightWall => 22,
            Color::DarkGround => 23,
            Color::LightGround => 24,
        }
    }

    /// The colour that `code` stands for, if it stands for one.
    pub open spec fn of_code(code: u8) -> Option<Color> {
        if code == 0 {
            Some(Color::Black)
        } else if code == 1 {
            Some(Color::White)
        } else if code == 2 {
            Some(Color::LightGrey)
        } else if code == 3 {
            Some(Color::Red)
        } else if code == 4 {
            Some(Color::LightRed)
        } else if code == 5 {
            Some(Color::DarkRed)
        } else if code == 6 {
            Some(Color::DarkerRed)
        } else if code == 7 {
            Some(Color::Orange)
        } else if code == 8 {
            Some(Color::DarkerOrange)
        } else if code == 9 {
            Some(Color::Yellow)
        } else if code == 10 {
            Some(Color::LightYellow)
        } else if code == 11 {
            Some(Color::Green)
        } else if code == 12 {
            Some(Color::LightGreen)
        } else if code == 13 {
            Some(Color::DarkGreen)
        } else if code == 14 {
            Some(Color::DarkerGreen)
        } else if code == 15 {
            Some(Color::DesaturatedGreen)
        } else if code == 16 {
            Some(Color::LightCyan)
        } else if code == 17 {
            Some(Color::Sky)
        } else if code == 18 {
            Some(Color::LightBlue)
        } else if code == 19 {
            Some(Color::Violet)
        } else if code == 20 {
            Some(Color::LightViolet)
        } else if code == 21 {
            Some(Color::DarkWall)
        } else if code == 22 {
            Some(Color::LightWall)
        } else if code == 23 {
            Some(Color::DarkGround)
        } else if code == 24 {
            Some(Color::LightGround)
        } else {
            None
        }
    }

    /// The number that stands for the colour in a saved game.
    pub fn code(self) -> (code: u8)
        ensures
            code == self.spec_code(),
    {
        match self {
            Color::Black => 0,
            Color::White => 1,
            Color::LightGrey => 2,
            Color::Red => 3,
            Color::LightRed => 4,
            Color::DarkRed => 5,
            Color::DarkerRed => 6,
            Color::Orange => 7,
            Color::DarkerOrange => 8,
            Color::Yellow => 9,
            Color::LightYellow => 10,
            Color::Green => 11,
            Color::LightGreen => 12,
            Color::DarkGreen => 13,
            Color::DarkerGreen => 14,
            Color::DesaturatedGreen => 15,
            Color::LightCyan => 16,
            Color::Sky => 17,
            Color::LightBlue => 18,
            Color::Violet => 19,
            Color::LightViolet => 20,
            Color::DarkWall => 21,
            Color::LightWall => 22,
            Color::DarkGround => 23,
            Color::LightGround => 24,
        }
    }

    /// The colour that `code` stands for, if it stands for one.
    pub fn from_code(code: u8) -> (color: Option<Color>)
        ensures
            color == Color::of_code(code),
    {
        if code == 0 {
            Some(Color::Black)
        } else if code == 1 {
            Some(Color::White)
        } else if code == 2 {
            Some(Color::LightGrey)
        } else if code == 3 {
            Some(Color::Red)
        } else if code == 4 {
            Some(Color::LightRed)
        } else if code == 5 {
            Some(Color::DarkRed)
        } else if code == 6 {
            Some(Color::DarkerRed)
        } else if code == 7 {
            Some(Color::Orange)
        } else if code == 8 {
            Some(Color::DarkerOrange)
        } else if code == 9 {
            Some(Color::Yellow)
        } else if code == 10 {
            Some(Color::LightYellow)
        } else if code == 11 {
            Some(Color::Green)
        } else if code == 12 {
            Some(Color::LightGreen)
        } else if code == 13 {
            Some(Color::DarkGreen)
        } else if code == 14 {
            Some(Color::DarkerGreen)
        } else if code == 15 {
            Some(Color::DesaturatedGreen)
        } else if code == 16 {
            Some(Color::LightCyan)
        } else if code == 17 {
            Some(Color::Sky)
        } else if code == 18 {
            Some(Color::LightBlue)
        } else if code == 19 {
            Some(Color::Violet)
        } else if code == 20 {
            Some(Color::LightViolet)
        } else if code == 21 {
            Some(Color::DarkWall)
        } else if code == 22 {
            Some(Color::LightWall)
        } else if code == 23 {
            Some(Color::DarkGround)
        } else if code == 24 {
            Some(Color::LightGround)
        } else {
            None
        }
    }
}

/// The number that stands for a use in a saved game.
pub open spec fn item_code(item: Item) -> u8 {
    match item {
        Item::Heal => 0,
        Item::Lightning => 1,
        Item::Confuse => 2,
        Item::Fireball => 3,
        Item::Equipment => 4,
    }
}

/// The use that `code` stands for, if it stands for one.
pub open spec fn item_of(code: u8) -> Option<Item> {
    if code == 0 {
        Some(Item::Heal)
    } else if code == 1 {
        Some(Item::Lightning)
    } else if code == 2 {
        Some(Item::Confuse)
    } else if code == 3 {
        Some(Item::Fireball)
    } else if code == 4 {
        Some(Item::Equipment)
    } else {
        None
    }
}

/// The number that stands for a slot in a saved game.
pub open spec fn slot_code(slot: Slot) -> u8 {
    match slot {
        Slot::LeftHand => 0,
        Slot::RightHand => 1,
        Slot::Head => 2,
    }
}

/// The slot that `code` stands for, if it stands for one.
pub open spec fn slot_of(code: u8) -> Option<Slot> {
    if code == 0 {
        Some(Slot::LeftHand)
    } else if code == 1 {
        Some(Slot::RightHand)
    } else if code == 2 {
        Some(Slot::Head)
    } else {
        None
    }
}

/// The plain values that stand for a mind.
pub open spec fn saved_ai(ai: Ai) -> SavedAi {
    match ai {
        Ai::Basic => (false, 0i32),
        Ai::Confused { previous_ai, num_turns } => (true, num_turns),
    }
}

/// The mind that the plain values stand for.
pub open spec fn restored_ai(saved: SavedAi) -> Ai {
    if saved.0 {
        Ai::Confused { previous_ai: Behavior::Basic, num_turns: saved.1 }
    } else {
        Ai::Basic
    }
}

/// The plain values that stand for combat figures.
pub open spec fn saved_fighter(f: Fighter) -> SavedFighter {
    (f.max_hp, f.hp, f.defense, f.power, f.xp, f.on_death == DeathCallback::Player)
}

/// The combat figures that the plain values stand for.
pub open spec fn restored_fighter(saved: SavedFighter) -> Fighter {
    Fighter {
        max_hp: saved.0,
        hp: saved.1,
        defense: saved.2,
        power: saved.3,
        xp: saved.4,
        on_death: if saved.5 {
            DeathCallback::Player
        } else {
            DeathCallback::Monster
        },
    }
}

/// The plain values that stand for a piece of equipment.
pub open spec fn saved_equipment(e: Equipment) -> SavedEquipment {
    (slot_code(e.slot), e.equipped, e.power_bonus, e.defense_bonus, e.max_hp_bonus)
}

/// The plain values that stand for an object.
pub open spec fn saved_object(o: ObjectView) -> SavedObjectView {
    (
        o.x,
        o.y,
        o.glyph,
        o.color.spec_code(),
        o.name,
        o.blocks,
        o.alive,
        match o.fighter {
            Some(f) => Some(saved_fighter(f)),
            None => None,
        },
        match o.ai {
            Some(ai) => Some(saved_ai(ai)),
            None => None,
        },
        match o.item {
            Some(item) => Some(item_code(item)),
            None => None,
        },
        match o.equipment {
            Some(e) => Some(saved_equipment(e)),
            None => None,
        },
        (o.always_visible, o.level),
    )
}

/// Whether the plain values stand for an object: the codes of the colour, of
/// the use and of the slot are of those that exist.
pub open spec fn readable_object(saved: SavedObjectView) -> bool {
    &&& Color::of_code(saved.3) is Some
    &&& saved.9 matches Some(code) ==> item_of(code) is Some
    &&& saved.10 matches Some(e) ==> slot_of(e.0) is Some
}

/// The object that the plain values stand for, where they stand for one.
pub open spec fn restored_object(saved: SavedObjectView) -> ObjectView {
    ObjectView {
        x: saved.0,
        y: saved.1,
        glyph: saved.2,
        color: Color::of_code(saved.3)->0,
        name: saved.4,
        blocks: saved.5,
        alive: saved.6,
        fighter: match saved.7 {
            Some(f) => Some(restored_fighter(f)),
            None => None,
        },
        ai: match saved.8 {
            Some(ai) => Some(restored_ai(ai)),
            None => None,
        },
        item: match saved.9 {
            Some(code) => item_of(code),
            None => None,
        },
        equipment: match saved.10 {
            Some(e) => Some(
                Equipment {
                    slot: slot_of(e.0)->0,
                    equipped: e.1,
                    power_bonus: e.2,
                    defense_bonus: e.3,
                    max_hp_bonus: e.4,
                },
            ),
            None => None,
        },
        always_visible: saved.11.0,
        level: saved.11.1,
    }
}

/// The plain values that stand for a tile.
pub open spec fn saved_tile(tile: Tile) -> SavedTile {
    (tile.blocked, tile.block_sight, tile.explored)
}

/// The tile that the plain values stand for.
pub open spec fn restored_tile(saved: SavedTile) -> Tile {
    Tile { blocked: saved.0, block_sight: saved.1, explored: saved.2 }
}

/// The plain values that stand for a game.
pub open spec fn saved_game(game: GameView) -> SavedGameView {
    (
        Seq::new(
            game.map.len(),
            |x: int| Seq::new(game.map[x].len(), |y: int| saved_tile(game.map[x][y])),
        ),
        Seq::new(game.log.len(), |i: int| (game.log[i].0, game.log[i].1.spec_code())),
        Seq::new(game.inventory.len(), |i: int| saved_object(game.inventory[i])),
        game.dungeon_level,
    )
}

/// Whether the plain values stand for a game: every colour in the log and
/// every item of the inventory is readable.
pub open spec fn readable_game(saved: SavedGameView) -> bool {
    &&& forall|i: int| 0 <= i < saved.1.len() ==> Color::of_code((#[trigger] saved.1[i]).1) is Some
    &&& forall|i: int| 0 <= i < saved.2.len() ==> readable_object(#[trigger] saved.2[i])
}

/// The game that the plain values stand for, where they stand for one.
pub open spec fn restored_game(saved: SavedGameView) -> GameView {
    GameView {
        map: Seq::new(
            saved.0.len(),
            |x: int| Seq::new(saved.0[x].len(), |y: int| restored_tile(saved.0[x][y])),
        ),
        log: Seq::new(saved.1.len(), |i: int| (saved.1[i].0, Color::of_code(saved.1[i].1)->0)),
        inventory: Seq::new(saved.2.len(), |i: int| restored_object(saved.2[i])),
        dungeon_level: saved.3,
    }
}

/// The plain values that stand for the objects of a level.
pub open spec fn saved_objects(objects: Seq<ObjectView>) -> Seq<SavedObjectView> {
    Seq::new(objects.len(), |i: int| saved_object(objects[i]))
}

/// Whether the plain values stand for the objects of a level: there is at
/// least one, the player, and every one is readable.
pub open spec fn readable_objects(saved: Seq<SavedObjectView>) -> bool {
    &&& saved.len() > 0
    &&& forall|i: int| 0 <= i < saved.len() ==> readable_object(#[trigger] saved[i])
}

/// The objects that the plain values stand for, where they stand for some.
pub open spec fn restored_objects(saved: Seq<SavedObjectView>) -> Seq<ObjectView> {
    Seq::new(saved.len(), |i: int| restored_object(saved[i]))
}

/// What was saved can be read, and reading it gives back what was saved:
/// every object with its position, looks, name, figures, mind, use and
/// equipment, every tile with its marks, the log, the inventory and the
/// depth.
pub proof fn lemma_saved_is_restored(objects: Seq<ObjectView>, game: GameView)
    ensures
        objects.len() > 0 ==> readable_objects(saved_objects(objects)),
        restored_objects(saved_objects(objects)) == objects,
        readable_game(saved_game(game)),
        restored_game(saved_game(game)) == game,
{
    assert forall|i: int| 0 <= i < objects.len() implies readable_object(
        #[trigger] saved_objects(objects)[i],
    ) && restored_objects(saved_objects(objects))[i] == objects[i] by {
        lemma_object_round_trip(objects[i]);
    }
    assert(restored_objects(saved_objects(objects)) =~= objects);
    let back = restored_game(saved_game(game));
    assert forall|i: int| 0 <= i < game.inventory.len() implies readable_object(
        #[trigger] saved_game(game).2[i],
    ) && back.inventory[i] == game.inventory[i] by {
        lemma_object_round_trip(game.inventory[i]);
    }
    assert(back.map =~~= game.map);
    assert(back.log =~= game.log) by {
        assert forall|i: int| 0 <= i < game.log.len() implies back.log[i] == game.log[i] by {
            lemma_color_round_trip(game.log[i].1);
        }
    }
    assert(back.inventory =~= game.inventory);
    assert forall|i: int| 0 <= i < saved_game(game).1.len() implies Color::of_code(
        (#[trigger] saved_game(game).1[i]).1,
    ) is Some by {
        lemma_color_round_trip(game.log[i].1);
    }
}

/// The code of a colour stands for that colour.
pub proof fn lemma_color_round_trip(color: Color)
    ensures
        Color::of_code(color.spec_code()) == Some(color),
{
}

/// The plain values of an object stand for that object.
pub proof fn lemma_object_round_trip(o: ObjectView)
    ensures
        readable_object(saved_object(o)),
        restored_object(saved_object(o)) == o,
{
    lemma_color_round_trip(o.color);
}

/// The plain values that stand for an object.
pub fn save_object(object: &Object) -> (saved: SavedObject)
    ensures
        saved.deep_view() == saved_object(object@),
{
    (
        object.x,
        object.y,
        object.glyph,
        object.color.code(),
        object.name.clone(),
        object.blocks,
        object.alive,
        match object.fighter {
            Some(f) => Some(
                (
                    f.max_hp,
                    f.hp,
                    f.defense,
                    f.power,
                    f.xp,
                    match f.on_death {
                        DeathCallback::Player => true,
                        DeathCallback::Monster => false,
                    },
                ),
            ),
            None => None,
        },
        match object.ai {
            Some(Ai::Basic) => Some((false, 0)),
            Some(Ai::Confused { num_turns, .. }) => Some((true, num_turns)),
            None => None,
        },
        match object.item {
            Some(Item::Heal) => Some(0),
            Some(Item::Lightning) => Some(1),
            Some(Item::Confuse) => Some(2),
            Some(Item::Fireball) => Some(3),
            Some(Item::Equipment) => Some(4),
            None => None,
        },
        match object.equipment {
            Some(e) => Some(
                (
                    match e.slot {
                        Slot::LeftHand => 0,
                        Slot::RightHand => 1,
                        Slot::Head => 2,
                    },
                    e.equipped,
                    e.power_bonus,
                    e.defense_bonus,
                    e.max_hp_bonus,
                ),
            ),
            None => None,
        },
        (object.always_visible, object.level),
    )
}

/// The object that the plain values stand for; none where they are not
/// readable.
pub fn load_object(saved: &SavedObject) -> (object: Option<Object>)
    ensures
        match object {
            Some(o) => readable_object(saved.deep_view()) && o@ == restored_object(
                saved.deep_view(),
            ),
            None => !readable_object(saved.deep_view()),
        },
{
    let color = match Color::from_code(saved.3) {
        Some(color) => color,
        None => {
            return None;
        },
    };
    let item = match saved.9 {
        Some(code) => {
            if code == 0 {
                Some(Item::Heal)
            } else if code == 1 {
                Some(Item::Lightning)
            } else if code == 2 {
                Some(Item::Confuse)
            } else if code == 3 {
                Some(Item::Fireball)
            } else if code == 4 {
                Some(Item::Equipment)
            } else {
                return None;
            }
        },
        None => None,
    };
    let equipment = match saved.10 {
        Some(e) => {
            let slot = if e.0 == 0 {
                Slot::LeftHand
            } else if e.0 == 1 {
                Slot::RightHand
            } else if e.0 == 2 {
                Slot::Head
            } else {
                return None;
            };
            Some(
                Equipment {
                    slot: slot,
                    equipped: e.1,
                    power_bonus: e.2,
                    defense_bonus: e.3,
                    max_hp_bonus: e.4,
                },
            )
        },
        None => None,
    };
    Some(
        Object {
            x: saved.0,
            y: saved.1,
            glyph: saved.2,
            color: color,
            name: saved.4.clone(),
            blocks: saved.5,
            alive: saved.6,
            fighter: match saved.7 {
                Some(f) => Some(
                    Fighter {
                        max_hp: f.0,
                        hp: f.1,
                        defense: f.2,
                        power: f.3,
                        xp: f.4,
                        on_death: if f.5 {
                            DeathCallback::Player
                        } else {
                            DeathCallback::Monster
                        },
                    },
                ),
                None => None,
            },
            ai: match saved.8 {
                Some(ai) => Some(
                    if ai.0 {
                        Ai::Confused { previous_ai: Behavior::Basic, num_turns: ai.1 }
                    } else {
                        Ai::Basic
                    },
                ),
                None => None,
            },
            item: item,
            equipment: equipment,
            always_visible: saved.11.0,
            level: saved.11.1,
        },
    )
}

fn save_all(objects: &Vec<Object>) -> (saved: Vec<SavedObject>)
    ensures
        saved.deep_view() == saved_objects(objects.deep_view()),
{
    let mut saved: Vec<SavedObject> = Vec::new();
    let mut i: usize = 0;
    while i < objects.len()
        invariant
            i <= objects@.len(),
            saved@.len() == i,
            forall|j: int|
                0 <= j < i ==> (#[trigger] saved@[j]).deep_view() == saved_object(
                    objects.deep_view()[j],
                ),
        decreases objects@.len() - i,
    {
        saved.push(save_object(&objects[i]));
        i += 1;
    }
    assert(saved.deep_view() =~= saved_objects(objects.deep_view()));
    saved
}

fn load_all(saved: &Vec<SavedObject>) -> (objects: Option<Vec<Object>>)
    ensures
        match objects {
            Some(o) => o.deep_view() == restored_objects(saved.deep_view()) && forall|i: int|
                0 <= i < saved@.len() ==> readable_object(#[trigger] saved.deep_view()[i]),
            None => exists|i: int|
                0 <= i < saved@.len() && !readable_object(#[trigger] saved.deep_view()[i]),
        },
{
    let mut objects: Vec<Object> = Vec::new();
    let mut i: usize = 0;
    while i < saved.len()
        invariant
            i <= saved@.len(),
            objects@.len() == i,
            forall|j: int|
                0 <= j < i ==> readable_object(#[trigger] saved.deep_view()[j]) && (
                objects@[j])@ == restored_object(saved.deep_view()[j]),
        decreases saved@.len() - i,
    {
        match load_object(&saved[i]) {
            Some(object) => {
                objects.push(object);
            },
            None => {
                assert(!readable_object(saved.deep_view()[i as int]));
                return None;
            },
        }
        i += 1;
    }
    assert(objects.deep_view() =~= restored_objects(saved.deep_view()));
    Some(objects)
}

/// The plain values that stand for the objects of a level and for the game.
pub fn save_state(objects: &Vec<Object>, game: &Game) -> (saved: (Vec<SavedObject>, SavedGame))
    ensures
        saved.0.deep_view() == saved_objects(objects.deep_view()),
        saved.1.deep_view() == saved_game(game@),
{
    let mut map: Vec<Vec<SavedTile>> = Vec::new();
    let mut x: usize = 0;
    while x < game.map.len()
        invariant
            x <= game.map@.len(),
            map@.len() == x,
            forall|i: int|
                0 <= i < x ==> (#[trigger] map@[i]).deep_view() == Seq::new(
                    game@.map[i].len(),
                    |y: int| saved_tile(game@.map[i][y]),
                ),
        decreases game.map@.len() - x,
    {
        let mut column: Vec<SavedTile> = Vec::new();
        let mut y: usize = 0;
        while y < game.map[x].len()
            invariant
                x < game.map@.len(),
                y <= game.map@[x as int]@.len(),
                column@.len() == y,
                forall|j: int|
                    0 <= j < y ==> #[trigger] column@[j] == saved_tile(game.map@[x as int]@[j]),
            decreases game.map@[x as int]@.len() - y,
        {
            let tile = game.map[x][y];
            column.push((tile.blocked, tile.block_sight, tile.explored));
            y += 1;
        }
        assert(column.deep_view() =~= Seq::new(
            game@.map[x as int].len(),
            |y: int| saved_tile(game@.map[x as int][y]),
        ));
        map.push(column);
        x += 1;
    }
    let mut log: Vec<(String, u8)> = Vec::new();
    let mut i: usize = 0;
    while i < game.log.len()
        invariant
            i <= game.log@.len(),
            log@.len() == i,
            forall|j: int|
                0 <= j < i ==> (#[trigger] log@[j]).deep_view() == (
                    game@.log[j].0,
                    game@.log[j].1.spec_code(),
                ),
        decreases game.log@.len() - i,
    {
        log.push((game.log[i].0.clone(), game.log[i].1.code()));
        i += 1;
    }
    let inventory = save_all(&game.inventory);
    let saved_objects = save_all(objects);
    let saved = (saved_objects, (map, log, inventory, game.dungeon_level));
    assert(saved.1.deep_view().0 =~~= saved_game(game@).0);
    assert(saved.1.deep_view().1 =~= saved_game(game@).1);
    saved
}

/// The objects and the game that the plain values stand for; none where they
/// are not readable.
pub fn load_state(saved: &(Vec<SavedObject>, SavedGame)) -> (state: Option<(Vec<Object>, Game)>)
    ensures
        match state {
            Some(s) => {
                &&& readable_objects(saved.0.deep_view())
                &&& readable_game(saved.1.deep_view())
                &&& s.0.deep_view() == restored_objects(saved.0.deep_view())
                &&& s.1@ == restored_game(saved.1.deep_view())
            },
            None => !readable_objects(saved.0.deep_view()) || !readable_game(saved.1.deep_view()),
        },
{
    if saved.0.len() == 0 {
        return None;
    }
    let objects = match load_all(&saved.0) {
        Some(objects) => objects,
        None => {
            return None;
        },
    };
    let inventory = match load_all(&saved.1.2) {
        Some(inventory) => inventory,
        None => {
            proof {
                let i = choose|i: int|
                    0 <= i < saved.1.2@.len() && !readable_object(
                        #[trigger] saved.1.2.deep_view()[i],
                    );
                assert(!readable_object(saved.1.deep_view().2[i]));
            }
            return None;
        },
    };
    let mut log: Vec<(String, Color)> = Vec::new();
    let mut i: usize = 0;
    while i < saved.1.1.len()
        invariant
            i <= saved.1.1@.len(),
            log@.len() == i,
            forall|j: int|
                0 <= j < i ==> Color::of_code((#[trigger] saved.1.deep_view().1[j]).1) is Some && (
                log@[j]).deep_view() == (
                    saved.1.deep_view().1[j].0,
                    Color::of_code(saved.1.deep_view().1[j].1)->0,
                ),
        decreases saved.1.1@.len() - i,
    {
        match Color::from_code(saved.1.1[i].1) {
            Some(color) => {
                log.push((saved.1.1[i].0.clone(), color));
            },
            None => {
                assert(Color::of_code(saved.1.deep_view().1[i as int].1) is None);
                return None;
            },
        }
        i += 1;
    }
    let mut map: Vec<Vec<Tile>> = Vec::new();
    let mut x: usize = 0;
    while x < saved.1.0.len()
        invariant
            x <= saved.1.0@.len(),
            map@.len() == x,
            forall|i: int|
                0 <= i < x ==> (#[trigger] map@[i]).deep_view() == Seq::new(
                    saved.1.deep_view().0[i].len(),
                    |y: int| restored_tile(saved.1.deep_view().0[i][y]),
                ),
        decreases saved.1.0@.len() - x,
    {
        let mut column: Vec<Tile> = Vec::new();
        let mut y: usize = 0;
        while y < saved.1.0[x].len()
            invariant
                x < saved.1.0@.len(),
                y <= saved.1.0@[x as int]@.len(),
                column@.len() == y,
                forall|j: int|
                    0 <= j < y ==> #[trigger] column@[j] == restored_tile(
                        saved.1.0@[x as int]@[j],
                    ),
            decreases saved.1.0@[x as int]@.len() - y,
        {
            let tile = saved.1.0[x][y];
            column.push(Tile { blocked: tile.0, block_sight: tile.1, explored: tile.2 });
            y += 1;
        }
        assert(column.deep_view() =~= Seq::new(
            saved.1.deep_view().0[x as int].len(),
            |y: int| restored_tile(saved.1.deep_view().0[x as int][y]),
        ));
        map.push(column);
        x += 1;
    }
    let game = Game { map: map, log: log, inventory: inventory, dungeon_level: saved.1.3 };
    assert(game@.map =~~= restored_game(saved.1.deep_view()).map);
    assert(game@.log =~= restored_game(saved.1.deep_view()).log);
    Some((objects, game))
}

/// How deep brackets may nest in a text that is read as a saved game. A
/// saved game nests five deep.
pub const MAX_NESTING: usize = 64;

/// How many bytes a text that is read as a saved game may have.
pub const MAX_TEXT: usize = 0xFFFF_FFFF;

/// What a reader of JSON knows after part of a text: how many brackets are
/// open, how many were open at most, whether it stands inside a string,
/// whether the string's next byte is escaped, whether the last byte was a
/// digit outside of strings, whether a number with an exponent was seen, and
/// whether an object was opened.
pub struct Scan {
    pub depth: int,
    pub deepest: int,
    pub in_string: bool,
    pub escaped: bool,
    pub after_digit: bool,
    pub exponent: bool,
    pub object: bool,
}

/// What the reader knows after one more byte. Inside a string only the
/// closing quote counts, and a backslash takes the next byte out of the
/// count. Outside of strings an opening bracket goes one deeper, a closing
/// one comes back up, an opening brace begins an object, and the letter `e`
/// behind a digit begins an exponent.
pub open spec fn scan_step(scan: Scan, byte: u8) -> Scan {
    if scan.in_string {
        if scan.escaped {
            Scan { escaped: false, ..scan }
        } else if byte == 0x5c {
            Scan { escaped: true, ..scan }
        } else if byte == 0x22 {
            Scan { in_string: false, ..scan }
        } else {
            scan
        }
    } else if byte == 0x22 {
        Scan { in_string: true, after_digit: false, ..scan }
    } else if byte == 0x7b {
        Scan { object: true, after_digit: false, ..scan }
    } else if byte == 0x5b {
        Scan {
            depth: scan.depth + 1,
            deepest: if scan.depth + 1 > scan.deepest {
                scan.depth + 1
            } else {
                scan.deepest
            },
            after_digit: false,
            ..scan
        }
    } else if byte == 0x5d {
        Scan { depth: scan.depth - 1, after_digit: false, ..scan }
    } else if (byte == 0x65 || byte == 0x45) && scan.after_digit {
        Scan { exponent: true, after_digit: false, ..scan }
    } else {
        Scan { after_digit: 0x30 <= byte <= 0x39, ..scan }
    }
}

/// What the reader knows after all of `bytes`.
pub open spec fn scanned(bytes: Seq<u8>) -> Scan
    decreases bytes.len(),
{
    if bytes.len() == 0 {
        Scan {
            depth: 0,
            deepest: 0,
            in_string: false,
            escaped: false,
            after_digit: false,
            exponent: false,
            object: false,
        }
    } else {
        scan_step(scanned(bytes.drop_last()), bytes.last())
    }
}

/// Whether a text is tame enough to be handed to the JSON reader: it is no
/// longer than [`MAX_TEXT`], its brackets nest no deeper than
/// [`MAX_NESTING`], no number in it has an exponent, and it opens no object,
/// which is to say that no brace opens outside of a string. A saved game is
/// arrays, numbers, flags and texts all through, so it is tame, unless it is
/// longer than any file is.
pub open spec fn tame(bytes: Seq<u8>) -> bool {
    &&& bytes.len() <= MAX_TEXT
    &&& scanned(bytes).deepest <= MAX_NESTING
    &&& !scanned(bytes).exponent
    &&& !scanned(bytes).object
}

/// Whether `text` is tame enough to be handed to the JSON reader.
pub fn is_tame(text: &str) -> (b: bool)
    ensures
        b == tame(text.spec_bytes()),
{
    let bytes = text.as_bytes();
    let ghost all = bytes@;
    if bytes.len() > MAX_TEXT {
        return false;
    }
    let mut depth: i128 = 0;
    let mut in_string = false;
    let mut escaped = false;
    let mut after_digit = false;
    let mut i: usize = 0;
    assert(all.take(0) =~= Seq::<u8>::empty());
    while i < bytes.len()
        invariant
            i <= bytes@.len(),
            all == bytes@,
            all == text.spec_bytes(),
            all.len() <= MAX_TEXT,
            -(i as int) <= depth <= i,
            scanned(all.take(i as int)).depth == depth,
            scanned(all.take(i as int)).in_string == in_string,
            scanned(all.take(i as int)).escaped == escaped,
            scanned(all.take(i as int)).after_digit == after_digit,
            scanned(all.take(i as int)).deepest <= MAX_NESTING,
            !scanned(all.take(i as int)).exponent,
            !scanned(all.take(i as int)).object,
        decreases bytes@.len() - i,
    {
        proof {
            assert(all.take(i + 1).drop_last() =~= all.take(i as int));
            assert(all.take(i + 1).last() == bytes@[i as int]);
        }
        let byte = bytes[i];
        if in_string {
            if escaped {
                escaped = false;
            } else if byte == 0x5c {
                escaped = true;
            } else if byte == 0x22 {
                in_string = false;
            }
        } else if byte == 0x22 {
            in_string = true;
            after_digit = false;
        } else if byte == 0x7b {
            proof {
                assert(scanned(all.take(i + 1)).object);
                lemma_scan_keeps(all, i + 1);
            }
            return false;
        } else if byte == 0x5b {
            depth = depth + 1;
            after_digit = false;
            if depth > MAX_NESTING as i128 {
                proof {
                    assert(scanned(all.take(i + 1)).deepest > MAX_NESTING);
                    lemma_scan_keeps(all, i + 1);
                }
                return false;
            }
        } else if byte == 0x5d {
            depth = depth - 1;
            after_digit = false;
        } else if (byte == 0x65 || byte == 0x45) && after_digit {
            proof {
                assert(scanned(all.take(i + 1)).exponent);
                lemma_scan_keeps(all, i + 1);
            }
            return false;
        } else {
            after_digit = 0x30 <= byte && byte <= 0x39;
        }
        i += 1;
    }
    assert(all.take(i as int) =~= all);
    true
}

/// What was found in the beginning of a text is found in the whole of it:
/// the deepest nesting is no less, an exponent stays one, and so does an
/// object.
proof fn lemma_scan_keeps(bytes: Seq<u8>, n: int)
    requires
        0 <= n <= bytes.len(),
    ensures
        scanned(bytes.take(n)).deepest <= scanned(bytes).deepest,
        scanned(bytes.take(n)).exponent ==> scanned(bytes).exponent,
        scanned(bytes.take(n)).object ==> scanned(bytes).object,
    decreases bytes.len() - n,
{
    if n < bytes.len() {
        assert(bytes.take(n + 1).drop_last() =~= bytes.take(n));
        lemma_scan_keeps(bytes, n + 1);
    } else {
        assert(bytes.take(n) =~= bytes);
    }
}

/// The JSON text that the `rustc_serialize` crate writes for the plain
/// values of a game.
pub uninterp spec fn json_text(saved: (Seq<SavedObjectView>, SavedGameView)) -> Seq<char>;

/// The plain values of a game that the `rustc_serialize` crate reads from a
/// text; none where it reads none.
pub uninterp spec fn json_value(text: Seq<char>) -> Option<(Seq<SavedObjectView>, SavedGameView)>;

/// The error of `json::encode` of the `rustc_serialize` crate. It is handed
/// on unread.
#[verifier::external_type_specification]
#[verifier::external_body]
pub struct ExEncoderError(rustc_serialize::json::EncoderError);

/// The error of `json::decode` of the `rustc_serialize` crate. It is handed
/// on unread.
#[verifier::external_type_specification]
#[verifier::external_body]
pub struct ExDecoderError(rustc_serialize::json::DecoderError);

/// Writes the plain values of a game as JSON, with `json::encode` of the
/// `rustc_serialize` crate. Trusted: a text comes back, and it is the one
/// text that the crate writes for these values. The crate's encoder gives
/// up in two cases only: when its sink fails, and when it is to write the
/// key of a map that is neither text nor number. The sink here is a
/// `String`, which never fails, and these values hold tuples, vectors,
/// options, numbers, flags, characters and texts, but no map.
#[verifier::external_body]
fn encode_json(saved: &(Vec<SavedObject>, SavedGame)) -> (r: Result<
    String,
    rustc_serialize::json::EncoderError,
>)
    ensures
        r is Ok,
        r matches Ok(text) ==> text@ == json_text(saved.deep_view()),
{
    rustc_serialize::json::encode(saved)
}

/// Reads the plain values of a game from JSON, with `json::decode` of the
/// `rustc_serialize` crate. Trusted: what comes back depends on the text
/// alone. The crate reads nested brackets by calling itself, adds up the
/// digits of an exponent in a machine word, counts the entries of an array
/// in 32 bits, and keeps the keys of the objects it is in by 16-bit offsets
/// into one buffer, so the text must be [`tame`].
#[verifier::external_body]
fn decode_json(text: &str) -> (r: Result<
    (Vec<SavedObject>, SavedGame),
    rustc_serialize::json::DecoderError,
>)
    requires
        tame(text.spec_bytes()),
    ensures
        match r {
            Ok(saved) => json_value(text@) == Some(saved.deep_view()),
            Err(_) => json_value(text@) is None,
        },
{
    rustc_serialize::json::decode(text)
}

/// Why a game could not be written as text.
#[derive(Clone, Copy, Debug, PartialEq, Eq, Structural)]
pub enum SaveError {
    /// The encoder gave up. It never does on the plain values of a game.
    Encoding,
}

/// Why a text could not be read as a game.
#[derive(Clone, Copy, Debug, PartialEq, Eq, Structural)]
pub enum LoadError {
    /// The text was refused unread, for it is not [`tame`].
    Refused,
    /// The text is not the JSON of the plain values of a game.
    Syntax,
    /// The plain values name a colour, a use or a slot that does not exist,
    /// or hold no player.
    Unreadable,
}

/// The game as JSON text. Every game has one.
pub fn save_text(objects: &Vec<Object>, game: &Game) -> (r: Result<String, SaveError>)
    ensures
        r matches Ok(text) && text@ == json_text(
            (saved_objects(objects.deep_view()), saved_game(game@)),
        ),
{
    let saved = save_state(objects, game);
    match encode_json(&saved) {
        Ok(text) => Ok(text),
        Err(_) => Err(SaveError::Encoding),
    }
}

/// What reading `text` as a game comes to, given what the JSON reader makes
/// of the text.
pub open spec fn text_read(text: &str) -> Result<(Seq<ObjectView>, GameView), LoadError> {
    if !tame(text.spec_bytes()) {
        Err(LoadError::Refused)
    } else {
        match json_value(text@) {
            None => Err(LoadError::Syntax),
            Some(saved) => if readable_objects(saved.0) && readable_game(saved.1) {
                Ok((restored_objects(saved.0), restored_game(saved.1)))
            } else {
                Err(LoadError::Unreadable)
            },
        }
    }
}

/// A game comes back from its text as it was, provided that the JSON reader
/// reads from the text the values that the JSON writer wrote into it, and
/// that the text is tame. What the two do with each other is theirs to
/// keep; the rest is proved here.
pub proof fn lemma_text_round_trip(objects: Seq<ObjectView>, game: GameView, text: &str)
    requires
        objects.len() > 0,
        text@ == json_text((saved_objects(objects), saved_game(game))),
        json_value(text@) == Some((saved_objects(objects), saved_game(game))),
        tame(text.spec_bytes()),
    ensures
        text_read(text) == Ok::<_, LoadError>((objects, game)),
{
    lemma_saved_is_restored(objects, game);
}

/// Reads a game from JSON text.
pub fn load_text(text: &str) -> (r: Result<(Vec<Object>, Game), LoadError>)
    ensures
        match r {
            Ok(state) => text_read(text) == Ok::<_, LoadError>((state.0.deep_view(), state.1@)),
            Err(e) => text_read(text) == Err::<(Seq<ObjectView>, GameView), _>(e),
        },
{
    if !is_tame(text) {
        return Err(LoadError::Refused);
    }
    match decode_json(text) {
        Ok(saved) => match load_state(&saved) {
            Some(state) => Ok(state),
            None => Err(LoadError::Unreadable),
        },
        Err(_) => Err(LoadError::Syntax),
    }
}

} // verus!
