//! Laying out a level: rooms that do not touch, joined by corridors.

use crate::geometry::Rect;
use crate::object::{Object, ObjectView};
use crate::random::{random_bool, random_range};
use crate::spawn::{
    is_item_spawn, is_monster_spawn, new_stairs, place_objects, stairs_view, stock_split, stocked,
    well_placed, SpawnPolicy, SpawnPolicyView,
};
use crate::tile::{in_grid, new_grid, rectangular, same_shape, solid_grid, tile_at, Tile, TileGrid};
use vstd::math::{max, min};
use vstd::prelude::*;

verus! {

/// Whether `(x, y)` lies in the box from `(xa, ya)` to `(xb, yb)`, borders
/// included.
pub open spec fn in_box(xa: int, xb: int, ya: int, yb: int, x: int, y: int) -> bool {
    xa <= x <= xb && ya <= y <= yb
}

/// `grid` with open floor in the box from `(xa, ya)` to `(xb, yb)`.
pub open spec fn carved(grid: Seq<Seq<Tile>>, xa: int, xb: int, ya: int, yb: int) -> Seq<
    Seq<Tile>,
> {
    Seq::new(
        grid.len(),
        |x: int|
            Seq::new(
                grid[x].len(),
                |y: int|
                    if in_box(xa, xb, ya, yb, x, y) {
                        Tile::floor()
                    } else {
                        grid[x][y]
                    },
            ),
    )
}

/// Turns every tile in the box from `(xa, ya)` to `(xb, yb)`, borders
/// included, into open floor. The part of the box outside the grid is
/// ignored.
pub fn carve_box(map: &mut TileGrid, xa: i64, xb: i64, ya: i64, yb: i64)
    ensures
        final(map).deep_view() == carved(
            old(map).deep_view(),
            xa as int,
            xb as int,
            ya as int,
            yb as int,
        ),
{
    let ghost before = map.deep_view();
    let columns = map.len();
    let mut x: usize = 0;
    while x < columns
        invariant
            columns == map@.len(),
            x <= columns,
            same_shape(before, map.deep_view()),
            forall|px: int, py: int|
                in_grid(before, px, py) ==> #[trigger] map.deep_view()[px][py] == if px < x
                    && in_box(xa as int, xb as int, ya as int, yb as int, px, py) {
                    Tile::floor()
                } else {
                    before[px][py]
                },
        decreases columns - x,
    {
        if xa as i128 <= x as i128 && x as i128 <= xb as i128 {
            let rows = map[x].len();
            let mut y: usize = 0;
            while y < rows
                invariant
                    columns == map@.len(),
                    x < columns,
                    rows == map@[x as int]@.len(),
                    y <= rows,
                    xa <= x <= xb,
                    same_shape(before, map.deep_view()),
                    forall|px: int, py: int|
                        in_grid(before, px, py) ==> #[trigger] map.deep_view()[px][py] == if (px
                            < x || (px == x && py < y)) && in_box(
                            xa as int,
                            xb as int,
                            ya as int,
                            yb as int,
                            px,
                            py,
                        ) {
                            Tile::floor()
                        } else {
                            before[px][py]
                        },
                decreases rows - y,
            {
                if ya as i128 <= y as i128 && y as i128 <= yb as i128 {
                    let ghost prior = map.deep_view();
                    map[x][y] = Tile::empty();
                    assert(map.deep_view() =~~= prior.update(
                        x as int,
                        prior[x as int].update(y as int, Tile::floor()),
                    ));
                }
                y += 1;
            }
        }
        x += 1;
    }
    assert(map.deep_view() =~~= carved(before, xa as int, xb as int, ya as int, yb as int));
}

/// Digs out the inside of `room`, leaving its borders as walls.
pub fn create_room(room: &Rect, map: &mut TileGrid)
    ensures
        final(map).deep_view() == carved(
            old(map).deep_view(),
            room.x1 + 1,
            room.x2 - 1,
            room.y1 + 1,
            room.y2 - 1,
        ),
{
    carve_box(
        map,
        room.x1 as i64 + 1,
        room.x2 as i64 - 1,
        room.y1 as i64 + 1,
        room.y2 as i64 - 1,
    );
}

/// Digs a corridor along the row `y`, from column `x1` to column `x2`, both
/// included.
pub fn create_h_tunnel(x1: i32, x2: i32, y: i32, map: &mut TileGrid)
    ensures
        final(map).deep_view() == carved(
            old(map).deep_view(),
            min(x1 as int, x2 as int),
            max(x1 as int, x2 as int),
            y as int,
            y as int,
        ),
{
    let low = if x1 <= x2 {
        x1
    } else {
        x2
    };
    let high = if x1 <= x2 {
        x2
    } else {
        x1
    };
    carve_box(map, low as i64, high as i64, y as i64, y as i64);
}

/// Digs a corridor along the column `x`, from row `y1` to row `y2`, both
/// included.
pub fn create_v_tunnel(y1: i32, y2: i32, x: i32, map: &mut TileGrid)
    ensures
        final(map).deep_view() == carved(
            old(map).deep_view(),
            x as int,
            x as int,
            min(y1 as int, y2 as int),
            max(y1 as int, y2 as int),
        ),
{
    let low = if y1 <= y2 {
        y1
    } else {
        y2
    };
    let high = if y1 <= y2 {
        y2
    } else {
        y1
    };
    carve_box(map, x as i64, x as i64, low as i64, high as i64);
}

/// Whether `(x, y)` lies on the corridor between two room centres. The
/// corridor has two legs. It either leaves `from` along its row and arrives
/// at `to` along its column (`horizontal_first`), or the other way round.
pub open spec fn on_corridor(
    from: (int, int),
    to: (int, int),
    horizontal_first: bool,
    x: int,
    y: int,
) -> bool {
    if horizontal_first {
        in_box(min(from.0, to.0), max(from.0, to.0), from.1, from.1, x, y) || in_box(
            to.0,
            to.0,
            min(from.1, to.1),
            max(from.1, to.1),
            x,
            y,
        )
    } else {
        in_box(from.0, from.0, min(from.1, to.1), max(from.1, to.1), x, y) || in_box(
            min(from.0, to.0),
            max(from.0, to.0),
            to.1,
            to.1,
            x,
            y,
        )
    }
}

/// `grid` with the corridor between two room centres dug out.
pub open spec fn with_corridor(
    grid: Seq<Seq<Tile>>,
    from: (int, int),
    to: (int, int),
    horizontal_first: bool,
) -> Seq<Seq<Tile>> {
    if horizontal_first {
        carved(
            carved(grid, min(from.0, to.0), max(from.0, to.0), from.1, from.1),
            to.0,
            to.0,
            min(from.1, to.1),
            max(from.1, to.1),
        )
    } else {
        carved(
            carved(grid, from.0, from.0, min(from.1, to.1), max(from.1, to.1)),
            min(from.0, to.0),
            max(from.0, to.0),
            to.1,
            to.1,
        )
    }
}

/// Whether `(x, y)` was dug out for one of `rooms` or for the corridor that
/// leads to a room from the one before it. `bends[i]` tells which way the
/// corridor to `rooms[i]` bends.
pub open spec fn dug(rooms: Seq<Rect>, bends: Seq<bool>, x: int, y: int) -> bool
    decreases rooms.len(),
{
    if rooms.len() == 0 {
        false
    } else {
        ||| dug(rooms.drop_last(), bends.drop_last(), x, y)
        ||| rooms.last().encloses(x, y)
        ||| (rooms.len() >= 2 && on_corridor(
            rooms[rooms.len() - 2].spec_center(),
            rooms.last().spec_center(),
            bends.last(),
            x,
            y,
        ))
    }
}

/// A level under construction, as a mathematical value.
pub struct LayoutView {
    pub width: int,
    pub height: int,
    pub map: Seq<Seq<Tile>>,
    pub rooms: Seq<Rect>,
    pub bends: Seq<bool>,
}

impl LayoutView {
    /// What holds of every layout: the grid has the layout's size, every room
    /// fits in it, no two rooms share a point, and a tile is open floor if it
    /// was dug out for a room or a corridor, and solid rock if not.
    pub open spec fn wf(self) -> bool {
        &&& 0 <= self.width
        &&& 0 <= self.height
        &&& rectangular(self.map, self.width, self.height)
        &&& self.bends.len() == self.rooms.len()
        &&& forall|i: int|
            0 <= i < self.rooms.len() ==> (#[trigger] self.rooms[i]).fits(self.width, self.height)
                && self.rooms[i].has_interior()
        &&& forall|i: int, j: int|
            0 <= i < j < self.rooms.len() ==> !(#[trigger] self.rooms[i]).overlaps(
                #[trigger] self.rooms[j],
            )
        &&& forall|x: int, y: int|
            0 <= x < self.width && 0 <= y < self.height ==> #[trigger] self.map[x][y] == if dug(
                self.rooms,
                self.bends,
                x,
                y,
            ) {
                Tile::floor()
            } else {
                Tile::rock()
            }
    }

    /// Whether `room` can be added: it has an inside, fits in the grid and
    /// shares no point with a room that is there already, borders included.
    pub open spec fn accepts(self, room: Rect) -> bool {
        &&& room.has_interior()
        &&& room.fits(self.width, self.height)
        &&& forall|i: int| 0 <= i < self.rooms.len() ==> !room.overlaps(#[trigger] self.rooms[i])
    }

    /// The layout with `room` dug out and joined to the room added before it.
    pub open spec fn with_room(self, room: Rect, horizontal_first: bool) -> LayoutView {
        let opened = carved(self.map, room.x1 + 1, room.x2 - 1, room.y1 + 1, room.y2 - 1);
        LayoutView {
            map: if self.rooms.len() == 0 {
                opened
            } else {
                with_corridor(
                    opened,
                    self.rooms.last().spec_center(),
                    room.spec_center(),
                    horizontal_first,
                )
            },
            rooms: self.rooms.push(room),
            bends: self.bends.push(horizontal_first),
            ..self
        }
    }
}

/// Adding an acceptable room to a well-formed layout leaves it well formed.
pub proof fn lemma_with_room_wf(layout: LayoutView, room: Rect, horizontal_first: bool)
    requires
        layout.wf(),
        layout.accepts(room),
    ensures
        layout.with_room(room, horizontal_first).wf(),
{
    let after = layout.with_room(room, horizontal_first);
    assert(after.rooms.drop_last() =~= layout.rooms);
    assert(after.bends.drop_last() =~= layout.bends);
    assert forall|x: int, y: int|
        0 <= x < after.width && 0 <= y < after.height implies #[trigger] after.map[x][y] == if dug(
        after.rooms,
        after.bends,
        x,
        y,
    ) {
        Tile::floor()
    } else {
        Tile::rock()
    } by {
        assert(layout.map[x][y] == if dug(layout.rooms, layout.bends, x, y) {
            Tile::floor()
        } else {
            Tile::rock()
        });
        assert(layout.map[x].len() == layout.height);
    }
}

/// A point inside a room was dug out.
proof fn lemma_dug_room(rooms: Seq<Rect>, bends: Seq<bool>, i: int, x: int, y: int)
    requires
        0 <= i < rooms.len(),
        rooms[i].encloses(x, y),
    ensures
        dug(rooms, bends, x, y),
    decreases rooms.len(),
{
    if i < rooms.len() - 1 {
        lemma_dug_room(rooms.drop_last(), bends.drop_last(), i, x, y);
    }
}

/// A point on the corridor that leads to a room was dug out.
proof fn lemma_dug_corridor(rooms: Seq<Rect>, bends: Seq<bool>, i: int, x: int, y: int)
    requires
        1 <= i < rooms.len(),
        bends.len() == rooms.len(),
        on_corridor(rooms[i - 1].spec_center(), rooms[i].spec_center(), bends[i], x, y),
    ensures
        dug(rooms, bends, x, y),
    decreases rooms.len(),
{
    if i < rooms.len() - 1 {
        lemma_dug_corridor(rooms.drop_last(), bends.drop_last(), i, x, y);
    }
}

/// What every layout guarantees. No two rooms share a point, borders
/// included. The inside of every room is open floor. The corridor from the
/// centre of each room to the centre of the next is open floor from end to
/// end, and both ends lie inside their rooms.
pub proof fn lemma_layout_sound(layout: LayoutView)
    requires
        layout.wf(),
    ensures
        forall|i: int, j: int|
            0 <= i < j < layout.rooms.len() ==> !(#[trigger] layout.rooms[i]).overlaps(
                #[trigger] layout.rooms[j],
            ),
        forall|i: int, x: int, y: int|
            0 <= i < layout.rooms.len() && (#[trigger] layout.rooms[i]).encloses(x, y)
                ==> #[trigger] tile_at(layout.map, x, y) == Tile::floor(),
        forall|i: int, x: int, y: int|
            1 <= i < layout.rooms.len() && #[trigger] on_corridor(
                layout.rooms[i - 1].spec_center(),
                layout.rooms[i].spec_center(),
                layout.bends[i],
                x,
                y,
            ) ==> tile_at(layout.map, x, y) == Tile::floor(),
        forall|i: int|
            0 <= i < layout.rooms.len() ==> (#[trigger] layout.rooms[i]).encloses(
                layout.rooms[i].spec_center().0,
                layout.rooms[i].spec_center().1,
            ),
{
    assert forall|i: int, x: int, y: int|
        0 <= i < layout.rooms.len() && (#[trigger] layout.rooms[i]).encloses(
            x,
            y,
        ) implies #[trigger] tile_at(layout.map, x, y) == Tile::floor() by {
        lemma_dug_room(layout.rooms, layout.bends, i, x, y);
        assert(layout.rooms[i].fits(layout.width, layout.height));
        assert(layout.map[x].len() == layout.height);
        assert(layout.map[x][y] == Tile::floor());
    }
    assert forall|i: int, x: int, y: int|
        1 <= i < layout.rooms.len() && #[trigger] on_corridor(
            layout.rooms[i - 1].spec_center(),
            layout.rooms[i].spec_center(),
            layout.bends[i],
            x,
            y,
        ) implies tile_at(layout.map, x, y) == Tile::floor() by {
        lemma_dug_corridor(layout.rooms, layout.bends, i, x, y);
        assert(layout.rooms[i].fits(layout.width, layout.height));
        assert(layout.rooms[i - 1].fits(layout.width, layout.height));
        assert(layout.rooms[i].has_interior());
        assert(layout.rooms[i - 1].has_interior());
        assert(0 <= x < layout.width && 0 <= y < layout.height);
        assert(layout.map[x].len() == layout.height);
        assert(layout.map[x][y] == Tile::floor());
    }
    assert forall|i: int| 0 <= i < layout.rooms.len() implies (#[trigger] layout.rooms[i]).encloses(
        layout.rooms[i].spec_center().0,
        layout.rooms[i].spec_center().1,
    ) by {
        assert(layout.rooms[i].fits(layout.width, layout.height));
        assert(layout.rooms[i].has_interior());
    }
}

/// A level under construction: a grid of rock with the rooms and corridors
/// dug so far. Every value of this type is well formed.
pub struct Layout {
    width: usize,
    height: usize,
    map: TileGrid,
    rooms: Vec<Rect>,
    bends: Vec<bool>,
}

impl View for Layout {
    type V = LayoutView;

    closed spec fn view(&self) -> LayoutView {
        LayoutView {
            width: self.width as int,
            height: self.height as int,
            map: self.map.deep_view(),
            rooms: self.rooms@,
            bends: self.bends@,
        }
    }
}

impl Layout {
    #[verifier::type_invariant]
    spec fn inv(self) -> bool {
        self@.wf()
    }

    /// A grid of `width` by `height` tiles of solid rock, without rooms.
    pub fn new(width: usize, height: usize) -> (layout: Layout)
        ensures
            layout@ == (LayoutView {
                width: width as int,
                height: height as int,
                map: solid_grid(width as int, height as int),
                rooms: Seq::empty(),
                bends: Seq::empty(),
            }),
            layout@.wf(),
    {
        Layout { width, height, map: new_grid(width, height), rooms: Vec::new(), bends: Vec::new() }
    }

    /// The rooms added so far, in their order.
    pub fn rooms(&self) -> (rooms: &Vec<Rect>)
        ensures
            rooms@ == self@.rooms,
    {
        &self.rooms
    }

    /// The grid as it stands.
    pub fn map(&self) -> (map: &TileGrid)
        ensures
            map.deep_view() == self@.map,
    {
        &self.map
    }

    /// Gives up the layout for its grid.
    pub fn into_map(self) -> (map: TileGrid)
        ensures
            map.deep_view() == self@.map,
    {
        self.map
    }

    /// Where the player starts: the centre of the first room.
    pub fn start(&self) -> (p: Option<(i32, i32)>)
        ensures
            match p {
                Some(c) => self@.rooms.len() > 0 && (c.0 as int, c.1 as int)
                    == self@.rooms[0].spec_center(),
                None => self@.rooms.len() == 0,
            },
    {
        if self.rooms.len() > 0 {
            Some(self.rooms[0].center())
        } else {
            None
        }
    }

    /// Where the stairs down go: the centre of the room added last.
    pub fn stairs(&self) -> (p: Option<(i32, i32)>)
        ensures
            match p {
                Some(c) => self@.rooms.len() > 0 && (c.0 as int, c.1 as int)
                    == self@.rooms.last().spec_center(),
                None => self@.rooms.len() == 0,
            },
    {
        if self.rooms.len() > 0 {
            Some(self.rooms[self.rooms.len() - 1].center())
        } else {
            None
        }
    }

    /// Whether `room` can be added to the layout.
    pub fn accepts(&self, room: &Rect) -> (b: bool)
        ensures
            b == self@.accepts(*room),
    {
        if room.x2 as i64 - (room.x1 as i64) < 2 || room.y2 as i64 - (room.y1 as i64) < 2 {
            return false;
        }
        if room.x1 < 0 || room.y1 < 0 || room.x2 as i128 >= self.width as i128 || room.y2 as i128
            >= self.height as i128 {
            return false;
        }
        let mut i: usize = 0;
        while i < self.rooms.len()
            invariant
                i <= self.rooms@.len(),
                forall|j: int| 0 <= j < i ==> !room.overlaps(#[trigger] self.rooms@[j]),
            decreases self.rooms@.len() - i,
        {
            if room.intersects_with(&self.rooms[i]) {
                assert(room.overlaps(self@.rooms[i as int]));
                return false;
            }
            i += 1;
        }
        true
    }

    /// Adds `room` if the layout accepts it: digs it out and joins it to the
    /// room added before it by a corridor between the two centres, which
    /// runs along the row first where `horizontal_first` holds and along the
    /// column first where not. Returns the layout and whether the room was
    /// added; a room that is not accepted changes nothing.
    pub fn add_room(self, room: Rect, horizontal_first: bool) -> (r: (Layout, bool))
        ensures
            r.1 == self@.accepts(room),
            r.0@ == if r.1 {
                self@.with_room(room, horizontal_first)
            } else {
                self@
            },
            r.0@.wf(),
    {
        proof {
            use_type_invariant(&self);
        }
        if !self.accepts(&room) {
            return (self, false);
        }
        let ghost before = self@;
        let Layout { width, height, mut map, mut rooms, mut bends } = self;
        create_room(&room, &mut map);
        if rooms.len() > 0 {
            let (prev_x, prev_y) = rooms[rooms.len() - 1].center();
            let (new_x, new_y) = room.center();
            if horizontal_first {
                create_h_tunnel(prev_x, new_x, prev_y, &mut map);
                create_v_tunnel(prev_y, new_y, new_x, &mut map);
            } else {
                create_v_tunnel(prev_y, new_y, prev_x, &mut map);
                create_h_tunnel(prev_x, new_x, new_y, &mut map);
            }
        }
        rooms.push(room);
        bends.push(horizontal_first);
        proof {
            lemma_with_room_wf(before, room, horizontal_first);
        }
        (Layout { width, height, map, rooms, bends }, true)
    }
}

/// The width of the level grid of the game.
pub const MAP_WIDTH: usize = 80;

/// The height of the level grid of the game.
pub const MAP_HEIGHT: usize = 43;

/// The largest width or height drawn for a room.
pub const ROOM_MAX_SIZE: i32 = 10;

/// The smallest width or height drawn for a room.
pub const ROOM_MIN_SIZE: i32 = 6;

/// How many rooms the generator draws for one level; those that do not fit
/// or that meet an earlier room are dropped.
pub const MAX_ROOMS: i32 = 30;

/// Why a level could not be generated.
#[derive(Clone, Copy, Debug, PartialEq, Eq, Structural)]
pub enum MapError {
    /// Not one of the rooms drawn could be placed, so there is nowhere to put
    /// the player or the stairs.
    NoRooms,
}

/// A room that is offered to a layout, with the way that the corridor to it
/// is to bend.
#[derive(Clone, Copy, Debug, PartialEq, Eq, Structural)]
pub struct Candidate {
    pub room: Rect,
    pub horizontal_first: bool,
}

/// A grid of `width` by `height` tiles of solid rock, without rooms.
pub open spec fn bare_layout(width: int, height: int) -> LayoutView {
    LayoutView {
        width,
        height,
        map: solid_grid(width, height),
        rooms: Seq::empty(),
        bends: Seq::empty(),
    }
}

/// The layout after `candidates` were offered to it one after the other:
/// each has been added if the layout accepted it when its turn came, and
/// dropped if not.
pub open spec fn laid_out(layout: LayoutView, candidates: Seq<Candidate>) -> LayoutView
    decreases candidates.len(),
{
    if candidates.len() == 0 {
        layout
    } else {
        let earlier = laid_out(layout, candidates.drop_last());
        if earlier.accepts(candidates.last().room) {
            earlier.with_room(candidates.last().room, candidates.last().horizontal_first)
        } else {
            earlier
        }
    }
}

/// Lays out a level of `width` by `height` tiles from the rooms offered. No
/// more candidates are looked at than the generator draws for a level;
/// those beyond are ignored. Fails if not one of them could be placed.
pub fn lay_out(width: usize, height: usize, candidates: &Vec<Candidate>) -> (r: Result<
    Layout,
    MapError,
>)
    ensures
        ({
            let tried = candidates@.take(min(candidates@.len() as int, MAX_ROOMS as int));
            let plan = laid_out(bare_layout(width as int, height as int), tried);
            match r {
                Ok(layout) => layout@ == plan && plan.rooms.len() > 0 && plan.wf(),
                Err(e) => e == MapError::NoRooms && plan.rooms.len() == 0,
            }
        }),
{
    let mut layout = Layout::new(width, height);
    let budget: usize = if candidates.len() < MAX_ROOMS as usize {
        candidates.len()
    } else {
        MAX_ROOMS as usize
    };
    let ghost tried = candidates@.take(budget as int);
    let mut i: usize = 0;
    assert(tried.take(0) =~= Seq::<Candidate>::empty());
    while i < budget
        invariant
            i <= budget <= candidates@.len(),
            tried == candidates@.take(budget as int),
            layout@.wf(),
            layout@ == laid_out(bare_layout(width as int, height as int), tried.take(i as int)),
        decreases budget - i,
    {
        proof {
            assert(tried.take(i + 1).drop_last() =~= tried.take(i as int));
            assert(tried.take(i + 1).last() == candidates@[i as int]);
        }
        let candidate = candidates[i];
        let (next, _) = layout.add_room(candidate.room, candidate.horizontal_first);
        layout = next;
        i += 1;
    }
    assert(tried.take(budget as int) =~= tried);
    if layout.rooms().len() > 0 {
        Ok(layout)
    } else {
        Err(MapError::NoRooms)
    }
}

/// Whether `after` is `before` with the stock of the rooms of `layout` at
/// its end, room by room in the order of the rooms: the stock of room `r`
/// begins at `cuts[r]` and ends before `cuts[r + 1]`.
pub open spec fn room_by_room(
    policy: SpawnPolicyView,
    level: u32,
    layout: LayoutView,
    before: Seq<ObjectView>,
    after: Seq<ObjectView>,
    cuts: Seq<int>,
) -> bool {
    &&& cuts.len() == layout.rooms.len() + 1
    &&& cuts[0] == before.len()
    &&& cuts.last() == after.len()
    &&& before.len() <= after.len()
    &&& after.take(before.len() as int) == before
    &&& forall|r: int|
        0 <= r < layout.rooms.len() ==> #[trigger] room_stocked(
            policy,
            level,
            layout,
            before,
            after,
            cuts,
            r,
        )
}

/// Whether the objects from `cuts[r]` up to `cuts[r + 1]` are the stock of
/// the room `r` of `layout`.
pub open spec fn room_stocked(
    policy: SpawnPolicyView,
    level: u32,
    layout: LayoutView,
    before: Seq<ObjectView>,
    after: Seq<ObjectView>,
    cuts: Seq<int>,
    r: int,
) -> bool {
    &&& before.len() <= cuts[r] <= cuts[r + 1] <= after.len()
    &&& stocked(
        policy,
        level,
        layout.map,
        layout.rooms[r],
        after.take(cuts[r]),
        after.take(cuts[r + 1]),
    )
}

/// Whether `after` is `before` with the population of the level `layout` at
/// its end: the stock of each room in turn, as the policy allows it at the
/// depth `level`, and last of all the stairs down in the centre of the last
/// room.
pub open spec fn populated(
    policy: SpawnPolicyView,
    level: u32,
    layout: LayoutView,
    before: Seq<ObjectView>,
    after: Seq<ObjectView>,
) -> bool {
    &&& layout.rooms.len() > 0
    &&& before.len() < after.len()
    &&& (after.last().x as int, after.last().y as int) == layout.rooms.last().spec_center()
    &&& after.last() == stairs_view(after.last().x, after.last().y)
    &&& exists|cuts: Seq<int>| #[trigger]
        room_by_room(policy, level, layout, before, after.drop_last(), cuts)
}

/// The stock of a room does not depend on the tiles outside the room.
proof fn lemma_stocked_elsewhere(
    policy: SpawnPolicyView,
    level: u32,
    old_grid: Seq<Seq<Tile>>,
    new_grid: Seq<Seq<Tile>>,
    room: Rect,
    before: Seq<ObjectView>,
    after: Seq<ObjectView>,
)
    requires
        stocked(policy, level, old_grid, room, before, after),
        forall|x: int, y: int|
            room.encloses(x, y) ==> #[trigger] tile_at(new_grid, x, y) == tile_at(old_grid, x, y),
    ensures
        stocked(policy, level, new_grid, room, before, after),
{
    let monsters = choose|monsters: int| #[trigger]
        stock_split(policy, level, old_grid, room, before, after, monsters);
    assert forall|i: int| before.len() <= i < after.len() implies {
        let o = #[trigger] after[i];
        &&& well_placed(new_grid, room, after.take(i), o)
        &&& if i < before.len() + monsters {
            is_monster_spawn(policy, level, o)
        } else {
            is_item_spawn(policy, level, o)
        }
    } by {
        let o = after[i];
        assert(well_placed(old_grid, room, after.take(i), o));
        assert(tile_at(new_grid, o.x as int, o.y as int) == tile_at(
            old_grid,
            o.x as int,
            o.y as int,
        ));
    }
    assert(stock_split(policy, level, new_grid, room, before, after, monsters));
}

/// Generates a level of `width` by `height` tiles for the depth `level` and
/// adds its population to `objects`.
///
/// A fixed number of rooms is drawn, each of a random size and at a random
/// place where it fits. A room that meets an earlier one is dropped. Every
/// other room is dug out, joined to the room before it by a corridor that
/// bends one way or the other by the toss of a coin, and stocked with
/// monsters and items by `policy`. The stairs down go into the last room.
///
/// The layout that comes of it is the one that [`lay_out`] makes of the
/// rooms drawn, whichever they were.
///
/// Fails, leaving `objects` as they were, if no room could be placed. That
/// cannot happen on a grid that is wider and higher than the largest room,
/// and always happens on one that is too narrow or too low for the smallest.
pub fn make_map(
    objects: &mut Vec<Object>,
    width: usize,
    height: usize,
    level: u32,
    policy: &SpawnPolicy,
) -> (r: Result<Layout, MapError>)
    ensures
        match r {
            Ok(layout) => {
                &&& layout@.wf()
                &&& layout@.width == width
                &&& layout@.height == height
                &&& 1 <= layout@.rooms.len() <= MAX_ROOMS
                &&& forall|i: int|
                    0 <= i < layout@.rooms.len() ==> drawn_size(#[trigger] layout@.rooms[i])
                &&& populated(
                    policy@,
                    level,
                    layout@,
                    old(objects).deep_view(),
                    final(objects).deep_view(),
                )
            },
            Err(e) => e == MapError::NoRooms && final(objects).deep_view() == old(
                objects,
            ).deep_view(),
        },
        exists|candidates: Seq<Candidate>| #[trigger]
            drawn_candidates(candidates) && match r {
                Ok(layout) => layout@ == laid_out(
                    bare_layout(width as int, height as int),
                    candidates,
                ),
                Err(_) => laid_out(
                    bare_layout(width as int, height as int),
                    candidates,
                ).rooms.len() == 0,
            },
        width > ROOM_MAX_SIZE && height > ROOM_MAX_SIZE ==> r is Ok,
        width <= ROOM_MIN_SIZE || height <= ROOM_MIN_SIZE ==> r is Err,
{
    let ghost before = objects.deep_view();
    let wide: i64 = if width > i32::MAX as usize {
        i32::MAX as i64
    } else {
        width as i64
    };
    let high: i64 = if height > i32::MAX as usize {
        i32::MAX as i64
    } else {
        height as i64
    };
    let mut layout = Layout::new(width, height);
    let ghost mut cuts: Seq<int> = seq![before.len() as int];
    let ghost mut offered: Seq<Candidate> = Seq::empty();
    let ghost bare = bare_layout(width as int, height as int);
    assert(before.take(before.len() as int) =~= before);
    let mut attempt: i32 = 0;
    while attempt < MAX_ROOMS
        invariant
            0 <= attempt <= MAX_ROOMS,
            wide == if width > i32::MAX { i32::MAX as int } else { width as int },
            high == if height > i32::MAX { i32::MAX as int } else { height as int },
            layout@.wf(),
            layout@.width == width,
            layout@.height == height,
            layout@.rooms.len() <= attempt,
            bare == bare_layout(width as int, height as int),
            offered.len() == attempt,
            forall|i: int| 0 <= i < offered.len() ==> drawn_size((#[trigger] offered[i]).room),
            layout@ == laid_out(bare, offered),
            forall|i: int| 0 <= i < layout@.rooms.len() ==> drawn_size(#[trigger] layout@.rooms[i]),
            room_by_room(policy@, level, layout@, before, objects.deep_view(), cuts),
            layout@.rooms.len() == 0 ==> objects.deep_view() == before,
            width > ROOM_MAX_SIZE && height > ROOM_MAX_SIZE && attempt > 0 ==> layout@.rooms.len()
                > 0,
            width <= ROOM_MIN_SIZE || height <= ROOM_MIN_SIZE ==> layout@.rooms.len() == 0,
        decreases MAX_ROOMS - attempt,
    {
        let w = random_range(ROOM_MIN_SIZE as i64, ROOM_MAX_SIZE as i64 + 1);
        let h = random_range(ROOM_MIN_SIZE as i64, ROOM_MAX_SIZE as i64 + 1);
        if wide - w > 0 && high - h > 0 {
            let x = random_range(0, wide - w);
            let y = random_range(0, high - h);
            let new_room = Rect::new(x as i32, y as i32, w as i32, h as i32);
            let horizontal_first = random_bool();
            let ghost plan_before = layout@;
            let (next, accepted) = layout.add_room(new_room, horizontal_first);
            layout = next;
            proof {
                let longer = offered.push(Candidate { room: new_room, horizontal_first });
                assert(longer.drop_last() =~= offered);
                offered = longer;
            }
            if accepted {
                let ghost prior = objects.deep_view();
                place_objects(&new_room, layout.map(), objects, level, policy);
                proof {
                    let now = objects.deep_view();
                    let plan = layout@;
                    let longer = cuts.push(now.len() as int);
                    lemma_layout_sound(plan_before);
                    lemma_layout_sound(plan);
                    assert(now.take(prior.len() as int) == prior);
                    assert(now.take(before.len() as int) =~= now.take(prior.len() as int).take(
                        before.len() as int,
                    ));
                    assert forall|r: int| 0 <= r < plan.rooms.len() implies #[trigger] room_stocked(
                        policy@,
                        level,
                        plan,
                        before,
                        now,
                        longer,
                        r,
                    ) by {
                        if r < plan_before.rooms.len() {
                            let room = plan_before.rooms[r];
                            assert(plan.rooms[r] == room);
                            assert(room_stocked(
                                policy@,
                                level,
                                plan_before,
                                before,
                                prior,
                                cuts,
                                r,
                            ));
                            assert(now.take(cuts[r]) =~= prior.take(cuts[r]));
                            assert(now.take(cuts[r + 1]) =~= prior.take(cuts[r + 1]));
                            assert forall|x: int, y: int|
                                room.encloses(x, y) implies #[trigger] tile_at(plan.map, x, y)
                                == tile_at(plan_before.map, x, y) by {
                                assert(tile_at(plan.map, x, y) == Tile::floor());
                                assert(tile_at(plan_before.map, x, y) == Tile::floor());
                            }
                            lemma_stocked_elsewhere(
                                policy@,
                                level,
                                plan_before.map,
                                plan.map,
                                room,
                                prior.take(cuts[r]),
                                prior.take(cuts[r + 1]),
                            );
                        } else {
                            assert(plan.rooms[r] == new_room);
                            assert(now.take(longer[r]) =~= prior);
                            assert(now.take(longer[r + 1]) =~= now);
                        }
                    }
                    cuts = longer;
                }
            }
        } else {
            proof {
                // a room of this size has no place on the grid, wherever it is put
                let nowhere = Rect { x1: 0, y1: 0, x2: w as i32, y2: h as i32 };
                let longer = offered.push(Candidate { room: nowhere, horizontal_first: false });
                assert(longer.drop_last() =~= offered);
                assert(!layout@.accepts(nowhere));
                offered = longer;
            }
        }
        attempt += 1;
    }
    assert(drawn_candidates(offered));
    match layout.stairs() {
        Some((stairs_x, stairs_y)) => {
            let ghost prior = objects.deep_view();
            objects.push(new_stairs(stairs_x, stairs_y));
            proof {
                let now = objects.deep_view();
                assert(now.drop_last() =~= prior);
                assert(room_by_room(policy@, level, layout@, before, now.drop_last(), cuts));
            }
            Ok(layout)
        },
        None => Err(MapError::NoRooms),
    }
}

/// Whether `candidates` are rooms as the generator draws them for one
/// level: as many as it draws, each of a size that it draws.
pub open spec fn drawn_candidates(candidates: Seq<Candidate>) -> bool {
    &&& candidates.len() == MAX_ROOMS
    &&& forall|i: int| 0 <= i < candidates.len() ==> drawn_size((#[trigger] candidates[i]).room)
}

/// Whether `room` has a size that the generator draws: no side shorter than
/// the smallest and none longer than the largest.
pub open spec fn drawn_size(room: Rect) -> bool {
    &&& ROOM_MIN_SIZE <= room.x2 - room.x1 <= ROOM_MAX_SIZE
    &&& ROOM_MIN_SIZE <= room.y2 - room.y1 <= ROOM_MAX_SIZE
}

} // verus!
