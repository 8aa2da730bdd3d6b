//! The decisions behind the menus and behind aiming: which entry a key
//! chooses, what the inventory menu lists, and what a click on the level
//! means while the player aims an item.

use crate::items::{in_range, within_range, Target};
use crate::messages::{join4, slot_name, slot_text};
use crate::movement::{find_at, first_at, Wanted};
use crate::object::{Object, ObjectView, PLAYER};
use crate::tile::{is_in_fov, visible_at, SightGrid};
use vstd::prelude::*;
use vstd::string::*;

verus! {

/// How many entries a menu holds at most: one for each letter.
pub const MENU_CAPACITY: usize = 26;

/// The entry that the character `c` chooses in a menu whose entries are
/// lettered from `a` on: the place of the letter in the alphabet, whether it
/// is typed small or large. Nothing else chooses an entry.
pub open spec fn letter_index(c: char) -> Option<int> {
    if 'a' <= c <= 'z' {
        Some(c as int - 'a' as int)
    } else if 'A' <= c <= 'Z' {
        Some(c as int - 'A' as int)
    } else {
        None
    }
}

/// The entry that the key typing `printable` chooses in a menu of
/// `option_count` entries; none where the key is no letter or the menu has
/// no entry for it.
pub fn menu_choice(printable: char, option_count: usize) -> (choice: Option<usize>)
    requires
        option_count <= MENU_CAPACITY,
    ensures
        choice == match letter_index(printable) {
            Some(i) => if i < option_count {
                Some(i as usize)
            } else {
                None
            },
            None => None::<usize>,
        },
{
    let code = printable as u32;
    let index = if 'a' as u32 <= code && code <= 'z' as u32 {
        (code - 'a' as u32) as usize
    } else if 'A' as u32 <= code && code <= 'Z' as u32 {
        (code - 'A' as u32) as usize
    } else {
        return None;
    };
    if index < option_count {
        Some(index)
    } else {
        None
    }
}

/// The letter of the menu entry `index`.
pub fn menu_letter(index: usize) -> (letter: char)
    requires
        index < MENU_CAPACITY,
    ensures
        letter_index(letter) == Some(index as int),
        'a' <= letter <= 'z',
{
    ('a' as u8 + index as u8) as char
}

/// How the inventory menu lists an item: by its name, and a piece of
/// equipment that is worn with the slot behind it.
pub open spec fn item_label(item: ObjectView) -> Seq<char> {
    match item.equipment {
        Some(e) => if e.equipped {
            item.name + " (on "@ + slot_text(e.slot) + ")"@
        } else {
            item.name
        },
        None => item.name,
    }
}

/// What the inventory menu lists: the items in their order, or a single
/// line that says that there are none.
pub open spec fn inventory_labels(inventory: Seq<ObjectView>) -> Seq<Seq<char>> {
    if inventory.len() == 0 {
        seq!["Inventory is empty."@]
    } else {
        Seq::new(inventory.len(), |i: int| item_label(inventory[i]))
    }
}

/// What the inventory menu lists.
pub fn inventory_options(inventory: &Vec<Object>) -> (options: Vec<String>)
    ensures
        options.deep_view() == inventory_labels(inventory.deep_view()),
{
    let mut options: Vec<String> = Vec::new();
    if inventory.len() == 0 {
        options.push(String::from_str("Inventory is empty."));
        assert(options.deep_view() =~= inventory_labels(inventory.deep_view()));
        return options;
    }
    let mut i: usize = 0;
    while i < inventory.len()
        invariant
            i <= inventory@.len(),
            options@.len() == i,
            forall|j: int|
                0 <= j < i ==> (#[trigger] options@[j])@ == item_label(inventory.deep_view()[j]),
        decreases inventory@.len() - i,
    {
        let item = &inventory[i];
        let label = match item.equipment {
            Some(e) => if e.equipped {
                join4(item.name.as_str(), " (on ", slot_name(e.slot), ")")
            } else {
                item.name.clone()
            },
            None => item.name.clone(),
        };
        options.push(label);
        i += 1;
    }
    assert(options.deep_view() =~= inventory_labels(inventory.deep_view()));
    options
}

/// The item that the key typing `printable` chooses in the inventory menu;
/// none where the inventory is empty, the key is no letter, or no item goes
/// by the letter.
pub fn inventory_choice(printable: char, inventory: &Vec<Object>) -> (choice: Option<usize>)
    requires
        inventory@.len() <= MENU_CAPACITY,
    ensures
        choice == match letter_index(printable) {
            Some(i) => if i < inventory@.len() {
                Some(i as usize)
            } else {
                None
            },
            None => None::<usize>,
        },
{
    if inventory.len() > 0 {
        menu_choice(printable, inventory.len())
    } else {
        None
    }
}

/// What the mouse tells while the player aims: the position it points at,
/// and which buttons were pressed.
#[derive(Clone, Copy, Debug, PartialEq, Eq, Structural)]
pub struct Mouse {
    pub cx: i32,
    pub cy: i32,
    pub lbutton_pressed: bool,
    pub rbutton_pressed: bool,
}

/// Where the aiming stands after one more look at mouse and keys.
#[derive(Clone, Copy, Debug, PartialEq, Eq, Structural)]
pub enum TargetStep {
    /// The player has chosen this target.
    Chosen(Target),
    /// The player has given up: the item is not used.
    Cancelled,
    /// Nothing is decided yet: look again.
    Pending,
}

/// Whether a click chooses the position that the mouse points at: the left
/// button was pressed over a position in sight and in range.
pub open spec fn clicks_tile(
    mouse: Mouse,
    objects: Seq<ObjectView>,
    sight: Seq<Seq<bool>>,
    max_range: Option<i32>,
) -> bool {
    mouse.lbutton_pressed && visible_at(sight, mouse.cx as int, mouse.cy as int) && in_range(
        objects,
        mouse.cx as int,
        mouse.cy as int,
        max_range,
    )
}

fn tile_clicked(
    mouse: Mouse,
    objects: &Vec<Object>,
    sight: &SightGrid,
    max_range: Option<i32>,
) -> (b: bool)
    requires
        PLAYER < objects@.len(),
    ensures
        b == clicks_tile(mouse, objects.deep_view(), sight.deep_view(), max_range),
{
    mouse.lbutton_pressed && is_in_fov(sight, mouse.cx, mouse.cy) && within_range(
        objects,
        mouse.cx,
        mouse.cy,
        max_range,
    )
}

/// One round of aiming at a position. A left click on a position in sight
/// and in range chooses it. Failing that, a right click or the escape key
/// gives up. Failing that too, the aiming goes on.
pub fn target_tile(
    mouse: Mouse,
    escape: bool,
    objects: &Vec<Object>,
    sight: &SightGrid,
    max_range: Option<i32>,
) -> (step: TargetStep)
    requires
        PLAYER < objects@.len(),
    ensures
        step == if clicks_tile(mouse, objects.deep_view(), sight.deep_view(), max_range) {
            TargetStep::Chosen(Target::Tile(mouse.cx, mouse.cy))
        } else if mouse.rbutton_pressed || escape {
            TargetStep::Cancelled
        } else {
            TargetStep::Pending
        },
{
    if tile_clicked(mouse, objects, sight, max_range) {
        TargetStep::Chosen(Target::Tile(mouse.cx, mouse.cy))
    } else if mouse.rbutton_pressed || escape {
        TargetStep::Cancelled
    } else {
        TargetStep::Pending
    }
}

/// One round of aiming at a monster. A left click on a position in sight and
/// in range chooses the first fighter that stands there, the player aside;
/// with none there the aiming goes on. Without such a click, a right click
/// or the escape key gives up.
pub fn target_monster(
    mouse: Mouse,
    escape: bool,
    objects: &Vec<Object>,
    sight: &SightGrid,
    max_range: Option<i32>,
) -> (step: TargetStep)
    requires
        PLAYER < objects@.len(),
    ensures
        step == if clicks_tile(mouse, objects.deep_view(), sight.deep_view(), max_range) {
            match first_at(
                objects.deep_view(),
                mouse.cx as int,
                mouse.cy as int,
                Wanted::Fighter,
            ) {
                Some(id) => TargetStep::Chosen(Target::Monster(id as usize)),
                None => TargetStep::Pending,
            }
        } else if mouse.rbutton_pressed || escape {
            TargetStep::Cancelled
        } else {
            TargetStep::Pending
        },
{
    if tile_clicked(mouse, objects, sight, max_range) {
        match find_at(mouse.cx, mouse.cy, objects, Wanted::Fighter) {
            Some(id) => TargetStep::Chosen(Target::Monster(id)),
            None => TargetStep::Pending,
        }
    } else if mouse.rbutton_pressed || escape {
        TargetStep::Cancelled
    } else {
        TargetStep::Pending
    }
}

} // verus!
