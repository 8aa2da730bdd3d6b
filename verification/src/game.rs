//! The state that belongs to a game rather than to one object: the level,
//! the message log, the inventory and the depth reached.

use crate::color::Color;
use crate::object::{Object, ObjectView};
use crate::tile::{Tile, TileGrid};
use vstd::prelude::*;

verus! {

/// The message log: texts with their colours, oldest first.
pub type Messages = Vec<(String, Color)>;

/// The state of a game, apart from the objects on the level.
#[derive(Clone, Debug)]
pub struct Game {
    pub map: TileGrid,
    pub log: Messages,
    pub inventory: Vec<Object>,
    pub dungeon_level: u32,
}

/// A [`Game`] as a mathematical value.
pub struct GameView {
    pub map: Seq<Seq<Tile>>,
    pub log: Seq<(Seq<char>, Color)>,
    pub inventory: Seq<ObjectView>,
    pub dungeon_level: u32,
}

impl View for Game {
    type V = GameView;

    open spec fn view(&self) -> GameView {
        GameView {
            map: self.map.deep_view(),
            log: self.log.deep_view(),
            inventory: self.inventory.deep_view(),
            dungeon_level: self.dungeon_level,
        }
    }
}

impl GameView {
    /// The game with `entries` added at the end of its log.
    pub open spec fn logged(self, entries: Seq<(Seq<char>, Color)>) -> GameView {
        GameView { log: self.log + entries, ..self }
    }
}

/// Adds a message at the end of the log.
pub fn add_message(log: &mut Messages, message: String, color: Color)
    ensures
        final(log).deep_view() == old(log).deep_view().push((message@, color)),
{
    log.push((message, color));
    assert(log.deep_view() =~= old(log).deep_view().push((message@, color)));
}

} // verus!
