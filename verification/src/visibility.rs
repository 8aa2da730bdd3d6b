//! What the player gets to see: which tiles are remembered, how tiles are
//! coloured, and which objects are drawn, in which order.
//!
//! The scan that finds the positions in sight is not done here. Its result
//! comes in as a [`SightGrid`].

use crate::color::Color;
use crate::object::{Object, ObjectView, PLAYER};
use crate::tile::{
    explored_kept, get_tile, in_grid, is_in_fov, same_shape, tile_at, visible_at, SightGrid, Tile,
    TileGrid,
};
use vstd::prelude::*;
use vstd::string::*;

verus! {

/// How far the player sees.
pub const TORCH_RADIUS: i32 = 10;

/// Whether the sight grid is out of date: it is computed anew only when the
/// player stands elsewhere than at `previous`, its position when the grid was
/// computed last.
pub fn fov_needs_recompute(previous: (i32, i32), objects: &Vec<Object>) -> (b: bool)
    requires
        objects@.len() > PLAYER,
    ensures
        b == (previous != (objects@[PLAYER as int].x, objects@[PLAYER as int].y)),
{
    previous.0 != objects[PLAYER].x || previous.1 != objects[PLAYER].y
}

/// `grid` with every tile in sight marked as explored.
pub open spec fn revealed(grid: Seq<Seq<Tile>>, sight: Seq<Seq<bool>>) -> Seq<Seq<Tile>> {
    Seq::new(
        grid.len(),
        |x: int|
            Seq::new(
                grid[x].len(),
                |y: int|
                    if visible_at(sight, x, y) {
                        Tile { explored: true, ..grid[x][y] }
                    } else {
                        grid[x][y]
                    },
            ),
    )
}

/// Marks every tile in sight as explored. No mark is ever taken away.
pub fn mark_explored(map: &mut TileGrid, sight: &SightGrid)
    ensures
        final(map).deep_view() == revealed(old(map).deep_view(), sight.deep_view()),
        explored_kept(old(map).deep_view(), final(map).deep_view()),
{
    let ghost before = map.deep_view();
    let ghost seen = sight.deep_view();
    let columns = map.len();
    let mut x: usize = 0;
    while x < columns
        invariant
            columns == map@.len(),
            x <= columns,
            seen == sight.deep_view(),
            same_shape(before, map.deep_view()),
            forall|px: int, py: int|
                in_grid(before, px, py) ==> #[trigger] map.deep_view()[px][py] == if px < x
                    && visible_at(seen, px, py) {
                    Tile { explored: true, ..before[px][py] }
                } else {
                    before[px][py]
                },
        decreases columns - x,
    {
        let rows = map[x].len();
        let mut y: usize = 0;
        while y < rows
            invariant
                columns == map@.len(),
                x < columns,
                rows == map@[x as int]@.len(),
                y <= rows,
                seen == sight.deep_view(),
                same_shape(before, map.deep_view()),
                forall|px: int, py: int|
                    in_grid(before, px, py) ==> #[trigger] map.deep_view()[px][py] == if (px < x
                        || (px == x && py < y)) && visible_at(seen, px, py) {
                        Tile { explored: true, ..before[px][py] }
                    } else {
                        before[px][py]
                    },
            decreases rows - y,
        {
            if in_sight(sight, x, y) {
                let ghost prior = map.deep_view();
                let tile = map[x][y];
                map[x][y] = Tile {
                    blocked: tile.blocked,
                    block_sight: tile.block_sight,
                    explored: true,
                };
                assert(map.deep_view() =~~= prior.update(
                    x as int,
                    prior[x as int].update(
                        y as int,
                        Tile { explored: true, ..prior[x as int][y as int] },
                    ),
                ));
            }
            y += 1;
        }
        x += 1;
    }
    assert(map.deep_view() =~~= revealed(before, seen));
    assert forall|px: int, py: int|
        in_grid(before, px, py) && (#[trigger] tile_at(before, px, py)).explored implies tile_at(
        map.deep_view(),
        px,
        py,
    ).explored by {
        assert(map.deep_view()[px][py].explored);
    }
}

fn in_sight(sight: &SightGrid, x: usize, y: usize) -> (b: bool)
    ensures
        b == visible_at(sight.deep_view(), x as int, y as int),
{
    x < sight.len() && y < sight[x].len() && sight[x][y]
}

/// The colour in which a tile is painted: none before it is explored; after
/// that the lit colour of its kind while it is in sight and the dark one
/// while it is not.
pub open spec fn background(tile: Tile, visible: bool) -> Option<Color> {
    if !tile.explored {
        None
    } else if visible {
        Some(
            if tile.block_sight {
                Color::LightWall
            } else {
                Color::LightGround
            },
        )
    } else {
        Some(
            if tile.block_sight {
                Color::DarkWall
            } else {
                Color::DarkGround
            },
        )
    }
}

/// Whether `color` is one of the two that show a tile in sight.
pub open spec fn is_lit(color: Option<Color>) -> bool {
    color == Some(Color::LightWall) || color == Some(Color::LightGround)
}

/// The colour in which a tile is painted.
pub fn tile_color(tile: Tile, visible: bool) -> (color: Option<Color>)
    ensures
        color == background(tile, visible),
        is_lit(color) ==> tile.explored && visible,
{
    if !tile.explored {
        None
    } else if visible {
        if tile.block_sight {
            Some(Color::LightWall)
        } else {
            Some(Color::LightGround)
        }
    } else {
        if tile.block_sight {
            Some(Color::DarkWall)
        } else {
            Some(Color::DarkGround)
        }
    }
}

/// The colour in which the tile at `(x, y)` is painted. The caller marks
/// what is in sight as explored first, with [`mark_explored`]; a tile that
/// is not explored is not painted, in sight or not.
pub fn paint_tile(map: &TileGrid, sight: &SightGrid, x: i32, y: i32) -> (color: Option<Color>)
    ensures
        color == background(
            tile_at(map.deep_view(), x as int, y as int),
            visible_at(sight.deep_view(), x as int, y as int),
        ),
{
    tile_color(get_tile(map, x, y), is_in_fov(sight, x, y))
}

/// What goes onto the display at one position: a character, and the colour
/// to set before it is put there, if one is to be set.
#[derive(Clone, Copy, Debug, PartialEq, Eq, Structural)]
pub struct Cell {
    pub x: i32,
    pub y: i32,
    pub glyph: char,
    pub color: Option<Color>,
}

impl Object {
    /// What drawing the object puts onto the display: its character at its
    /// position, in its colour.
    pub fn draw(&self) -> (cell: Cell)
        ensures
            cell == (Cell { x: self.x, y: self.y, glyph: self.glyph, color: Some(self.color) }),
    {
        Cell { x: self.x, y: self.y, glyph: self.glyph, color: Some(self.color) }
    }

    /// What erasing the object puts onto the display: a blank at its
    /// position, whatever the colour.
    pub fn clear(&self) -> (cell: Cell)
        ensures
            cell == (Cell { x: self.x, y: self.y, glyph: ' ', color: None }),
    {
        Cell { x: self.x, y: self.y, glyph: ' ', color: None }
    }
}

/// Whether an object is drawn: while it is in sight, or, for one that is
/// always visible, once its tile has been explored.
pub open spec fn drawn(object: ObjectView, grid: Seq<Seq<Tile>>, sight: Seq<Seq<bool>>) -> bool {
    visible_at(sight, object.x as int, object.y as int) || (object.always_visible && tile_at(
        grid,
        object.x as int,
        object.y as int,
    ).explored)
}

/// The slots of the objects that are drawn and that block movement
/// (`blocking`) or do not, in rising order.
pub open spec fn drawn_slots(
    objects: Seq<ObjectView>,
    grid: Seq<Seq<Tile>>,
    sight: Seq<Seq<bool>>,
    blocking: bool,
) -> Seq<usize>
    decreases objects.len(),
{
    if objects.len() == 0 {
        seq![]
    } else {
        let rest = drawn_slots(objects.drop_last(), grid, sight, blocking);
        if drawn(objects.last(), grid, sight) && objects.last().blocks == blocking {
            rest.push((objects.len() - 1) as usize)
        } else {
            rest
        }
    }
}

/// The slots of the objects to draw, in drawing order: what does not block
/// movement first, so that an item never covers the monster that stands on
/// it; within each group in slot order.
pub open spec fn draw_order(
    objects: Seq<ObjectView>,
    grid: Seq<Seq<Tile>>,
    sight: Seq<Seq<bool>>,
) -> Seq<usize> {
    drawn_slots(objects, grid, sight, false) + drawn_slots(objects, grid, sight, true)
}

fn slots_to_draw(
    objects: &Vec<Object>,
    map: &TileGrid,
    sight: &SightGrid,
    blocking: bool,
    order: &mut Vec<usize>,
)
    ensures
        final(order)@ == old(order)@ + drawn_slots(
            objects.deep_view(),
            map.deep_view(),
            sight.deep_view(),
            blocking,
        ),
{
    let ghost all = objects.deep_view();
    let mut i: usize = 0;
    assert(all.take(0) =~= Seq::<ObjectView>::empty());
    assert(order@ + Seq::<usize>::empty() =~= order@);
    while i < objects.len()
        invariant
            i <= objects@.len(),
            all == objects.deep_view(),
            order@ == old(order)@ + drawn_slots(
                all.take(i as int),
                map.deep_view(),
                sight.deep_view(),
                blocking,
            ),
        decreases objects@.len() - i,
    {
        let object = &objects[i];
        let shown = is_in_fov(sight, object.x, object.y) || (object.always_visible && get_tile(
            map,
            object.x,
            object.y,
        ).explored);
        proof {
            assert(all.take(i + 1).drop_last() =~= all.take(i as int));
            assert(all.take(i + 1).last() == objects@[i as int]@);
        }
        if shown && object.blocks == blocking {
            order.push(i);
            assert(order@ =~= old(order)@ + drawn_slots(
                all.take(i as int),
                map.deep_view(),
                sight.deep_view(),
                blocking,
            ).push(i));
        }
        i += 1;
    }
    assert(all.take(i as int) =~= all);
}

/// The slots of the objects to draw, in drawing order.
pub fn render_order(objects: &Vec<Object>, map: &TileGrid, sight: &SightGrid) -> (order: Vec<usize>)
    ensures
        order@ == draw_order(objects.deep_view(), map.deep_view(), sight.deep_view()),
{
    let mut order: Vec<usize> = Vec::new();
    slots_to_draw(objects, map, sight, false, &mut order);
    slots_to_draw(objects, map, sight, true, &mut order);
    assert(order@ =~= draw_order(objects.deep_view(), map.deep_view(), sight.deep_view()));
    order
}

/// The names of the objects that stand at `(x, y)`, in slot order, with
/// `", "` between one and the next.
pub open spec fn listed(objects: Seq<ObjectView>, x: int, y: int) -> Seq<char>
    decreases objects.len(),
{
    if objects.len() == 0 {
        Seq::empty()
    } else {
        let rest = listed(objects.drop_last(), x, y);
        if !objects.last().is_at(x, y) {
            rest
        } else if stands_at(objects.drop_last(), x, y) {
            rest + ", "@ + objects.last().name
        } else {
            objects.last().name
        }
    }
}

/// Whether one of `objects` stands at `(x, y)`.
pub open spec fn stands_at(objects: Seq<ObjectView>, x: int, y: int) -> bool {
    exists|i: int| 0 <= i < objects.len() && (#[trigger] objects[i]).is_at(x, y)
}

/// The names of the objects at `(x, y)` for the player to read: those that
/// stand there, in slot order, with `", "` between them, if the position is
/// in sight, and nothing if it is not.
pub fn names_at(x: i32, y: i32, objects: &Vec<Object>, sight: &SightGrid) -> (names: String)
    ensures
        names@ == if visible_at(sight.deep_view(), x as int, y as int) {
            listed(objects.deep_view(), x as int, y as int)
        } else {
            Seq::empty()
        },
{
    let mut names = String::new();
    if !is_in_fov(sight, x, y) {
        return names;
    }
    let ghost all = objects.deep_view();
    let mut found = false;
    let mut i: usize = 0;
    assert(all.take(0) =~= Seq::<ObjectView>::empty());
    while i < objects.len()
        invariant
            i <= objects@.len(),
            all == objects.deep_view(),
            names@ == listed(all.take(i as int), x as int, y as int),
            found == stands_at(all.take(i as int), x as int, y as int),
        decreases objects@.len() - i,
    {
        proof {
            assert(all.take(i + 1).drop_last() =~= all.take(i as int));
            assert(all.take(i + 1).last() == objects@[i as int]@);
        }
        if objects[i].x == x && objects[i].y == y {
            if found {
                names.append(", ");
                names.append(objects[i].name.as_str());
            } else {
                names = objects[i].name.clone();
            }
            assert(all.take(i + 1)[i as int].is_at(x as int, y as int));
            found = true;
        } else {
            proof {
                if stands_at(all.take(i + 1), x as int, y as int) {
                    let j = choose|j: int|
                        0 <= j < all.take(i + 1).len() && (#[trigger] all.take(i + 1)[j]).is_at(
                            x as int,
                            y as int,
                        );
                    assert(all.take(i as int)[j].is_at(x as int, y as int));
                }
                if stands_at(all.take(i as int), x as int, y as int) {
                    let j = choose|j: int|
                        0 <= j < all.take(i as int).len() && (#[trigger] all.take(
                            i as int,
                        )[j]).is_at(x as int, y as int);
                    assert(all.take(i + 1)[j].is_at(x as int, y as int));
                }
            }
        }
        i += 1;
    }
    assert(all.take(i as int) =~= all);
    names
}

/// Where the newest messages go in a panel of `rows` rows, given the height
/// of each message in rows, oldest first. The newest message sits at the
/// bottom, each older one above the one after it. The first message that no
/// longer fits ends the list: it and everything older is left out. Each
/// entry is the number of a message and the row where it begins; the newest
/// comes first.
pub open spec fn message_rows(heights: Seq<u32>, rows: int) -> Seq<(usize, i64)>
    decreases heights.len(),
{
    if heights.len() == 0 {
        seq![]
    } else {
        let row = rows - heights.last();
        if row < 0 {
            seq![]
        } else {
            seq![((heights.len() - 1) as usize, row as i64)] + message_rows(
                heights.drop_last(),
                row,
            )
        }
    }
}

/// Where the newest messages go in a panel of `rows` rows.
pub fn layout_messages(heights: &Vec<u32>, rows: i32) -> (placed: Vec<(usize, i64)>)
    ensures
        placed@ == message_rows(heights@, rows as int),
{
    let mut placed: Vec<(usize, i64)> = Vec::new();
    let mut y: i64 = rows as i64;
    let mut i: usize = heights.len();
    assert(heights@.take(i as int) =~= heights@);
    assert(placed@ + message_rows(heights@, rows as int) =~= message_rows(heights@, rows as int));
    while i > 0
        invariant
            i <= heights@.len(),
            i32::MIN <= y <= i32::MAX,
            message_rows(heights@, rows as int) == placed@ + message_rows(
                heights@.take(i as int),
                y as int,
            ),
        decreases i,
    {
        proof {
            assert(heights@.take(i as int).last() == heights@[i - 1]);
            assert(heights@.take(i as int).drop_last() =~= heights@.take(i - 1));
        }
        let row = y - heights[i - 1] as i64;
        if row < 0 {
            assert(placed@ + Seq::<(usize, i64)>::empty() =~= placed@);
            return placed;
        }
        let ghost prior = placed@;
        placed.push((i - 1, row));
        assert(prior + (seq![((i - 1) as usize, row)] + message_rows(
            heights@.take(i - 1),
            row as int,
        )) =~= placed@ + message_rows(heights@.take(i - 1), row as int));
        y = row;
        i -= 1;
    }
    assert(placed@ + Seq::<(usize, i64)>::empty() =~= placed@);
    placed
}

} // verus!
