//! Everything that stands on a level: the player, monsters, items, stairs.

use crate::color::Color;
use crate::geometry::{dist_sq, distance_between, Distance};
use vstd::prelude::*;
use vstd::string::*;

verus! {

/// The slot of the object list that holds the player.
pub const PLAYER: usize = 0;

/// What happens to a fighter whose hit points are used up.
#[derive(Clone, Copy, Debug, PartialEq, Eq, Structural)]
pub enum DeathCallback {
    Player,
    Monster,
}

/// The combat figures of an object. For the player `xp` is the experience
/// gathered so far; for a monster it is the experience its death awards.
#[derive(Clone, Copy, Debug, PartialEq, Eq, Structural)]
pub struct Fighter {
    pub max_hp: i32,
    pub hp: i32,
    pub defense: i32,
    pub power: i32,
    pub xp: i32,
    pub on_death: DeathCallback,
}

/// What a monster does while its mind is clear.
#[derive(Clone, Copy, Debug, PartialEq, Eq, Structural)]
pub enum Behavior {
    Basic,
}

/// How a monster acts when its turn comes. Confusion remembers the behaviour
/// to return to; it holds no second confusion, so it cannot nest.
#[derive(Clone, Copy, Debug, PartialEq, Eq, Structural)]
pub enum Ai {
    Basic,
    Confused { previous_ai: Behavior, num_turns: i32 },
}

impl Behavior {
    /// The state of a monster that follows this behaviour.
    pub open spec fn as_ai(self) -> Ai {
        match self {
            Behavior::Basic => Ai::Basic,
        }
    }

    /// The state of a monster that follows this behaviour.
    pub fn resume(self) -> (ai: Ai)
        ensures
            ai == self.as_ai(),
    {
        match self {
            Behavior::Basic => Ai::Basic,
        }
    }
}

impl Ai {
    /// The behaviour that the monster follows, or will return to once its
    /// confusion has passed.
    pub open spec fn clear_minded(self) -> Behavior {
        match self {
            Ai::Basic => Behavior::Basic,
            Ai::Confused { previous_ai, .. } => previous_ai,
        }
    }

    /// The behaviour that the monster follows, or will return to once its
    /// confusion has passed.
    pub fn underlying(self) -> (b: Behavior)
        ensures
            b == self.clear_minded(),
    {
        match self {
            Ai::Basic => Behavior::Basic,
            Ai::Confused { previous_ai, .. } => previous_ai,
        }
    }
}

/// What using an item does.
#[derive(Clone, Copy, Debug, PartialEq, Eq, Structural)]
pub enum Item {
    Heal,
    Lightning,
    Confuse,
    Fireball,
    /// Something to wear or wield: using it puts it on or takes it off.
    Equipment,
}

/// Where a piece of equipment is worn.
#[derive(Clone, Copy, Debug, PartialEq, Eq, Structural)]
pub enum Slot {
    LeftHand,
    RightHand,
    Head,
}

/// What a piece of equipment adds to its wearer while `equipped`.
#[derive(Clone, Copy, Debug, PartialEq, Eq, Structural)]
pub struct Equipment {
    pub slot: Slot,
    pub equipped: bool,
    pub power_bonus: i32,
    pub defense_bonus: i32,
    pub max_hp_bonus: i32,
}

/// An object of the game: the player, a monster, an item, the stairs.
#[derive(Clone, Debug)]
pub struct Object {
    pub x: i32,
    pub y: i32,
    pub glyph: char,
    pub color: Color,
    pub name: String,
    pub blocks: bool,
    pub alive: bool,
    pub fighter: Option<Fighter>,
    pub ai: Option<Ai>,
    pub item: Option<Item>,
    pub equipment: Option<Equipment>,
    pub always_visible: bool,
    pub level: i32,
}

/// An [`Object`] as a mathematical value: the name is a sequence of
/// characters, every other field is itself.
pub struct ObjectView {
    pub x: i32,
    pub y: i32,
    pub glyph: char,
    pub color: Color,
    pub name: Seq<char>,
    pub blocks: bool,
    pub alive: bool,
    pub fighter: Option<Fighter>,
    pub ai: Option<Ai>,
    pub item: Option<Item>,
    pub equipment: Option<Equipment>,
    pub always_visible: bool,
    pub level: i32,
}

impl View for Object {
    type V = ObjectView;

    open spec fn view(&self) -> ObjectView {
        ObjectView {
            x: self.x,
            y: self.y,
            glyph: self.glyph,
            color: self.color,
            name: self.name@,
            blocks: self.blocks,
            alive: self.alive,
            fighter: self.fighter,
            ai: self.ai,
            item: self.item,
            equipment: self.equipment,
            always_visible: self.always_visible,
            level: self.level,
        }
    }
}

impl DeepView for Object {
    type V = ObjectView;

    open spec fn deep_view(&self) -> ObjectView {
        self@
    }
}

impl ObjectView {
    /// A plain object: not alive, without combat figures, behaviour, use or
    /// equipment, shown only while in sight, of level 1.
    pub open spec fn plain(
        x: i32,
        y: i32,
        glyph: char,
        name: Seq<char>,
        color: Color,
        blocks: bool,
    ) -> ObjectView {
        ObjectView {
            x,
            y,
            glyph,
            color,
            name,
            blocks,
            alive: false,
            fighter: None,
            ai: None,
            item: None,
            equipment: None,
            always_visible: false,
            level: 1,
        }
    }

    /// Whether the object stands at `(x, y)`.
    pub open spec fn is_at(self, x: int, y: int) -> bool {
        self.x == x && self.y == y
    }

    /// Whether this is the player: the fighter that dies the player's death.
    pub open spec fn is_player(self) -> bool {
        self.fighter matches Some(f) && f.on_death == DeathCallback::Player
    }
}

impl Object {
    /// A plain object: see [`ObjectView::plain`].
    pub fn new(x: i32, y: i32, glyph: char, name: &str, color: Color, blocks: bool) -> (o: Self)
        ensures
            o@ == ObjectView::plain(x, y, glyph, name@, color, blocks),
    {
        Object {
            x: x,
            y: y,
            glyph: glyph,
            color: color,
            name: String::from_str(name),
            blocks: blocks,
            alive: false,
            fighter: None,
            ai: None,
            item: None,
            equipment: None,
            always_visible: false,
            level: 1,
        }
    }

    /// Where the object stands.
    pub fn pos(&self) -> (p: (i32, i32))
        ensures
            p == (self.x, self.y),
    {
        (self.x, self.y)
    }

    /// Puts the object at `(x, y)`, whatever is there.
    pub fn set_pos(&mut self, x: i32, y: i32)
        ensures
            *final(self) == (Object { x, y, ..*old(self) }),
    {
        self.x = x;
        self.y = y;
    }

    /// The distance to another object.
    pub fn distance_to(&self, other: &Object) -> (d: Distance)
        ensures
            d.squared == dist_sq(self.x as int, self.y as int, other.x as int, other.y as int),
    {
        distance_between(self.x, self.y, other.x, other.y)
    }

    /// The distance to the position `(x, y)`.
    pub fn distance(&self, x: i32, y: i32) -> (d: Distance)
        ensures
            d.squared == dist_sq(self.x as int, self.y as int, x as int, y as int),
    {
        distance_between(self.x, self.y, x, y)
    }

    /// Whether this is the player: the fighter that dies the player's death.
    pub fn is_player(&self) -> (b: bool)
        ensures
            b == self@.is_player(),
    {
        match self.fighter {
            Some(f) => match f.on_death {
                DeathCallback::Player => true,
                DeathCallback::Monster => false,
            },
            None => false,
        }
    }
}

} // verus!
