//! The tile grid of a level and the grid of what is in sight.
//!
//! A grid is a vector of columns: `grid[x][y]`. Nothing is asked of its
//! shape: a position outside the grid reads as unexplored rock, and a
//! position outside a sight grid is out of sight.

use vstd::prelude::*;

verus! {

/// One cell of a level.
#[derive(Clone, Copy, Debug, PartialEq, Eq, Structural)]
pub struct Tile {
    pub blocked: bool,
    pub block_sight: bool,
    pub explored: bool,
}

impl DeepView for Tile {
    type V = Tile;

    open spec fn deep_view(&self) -> Tile {
        *self
    }
}

impl Tile {
    /// Open floor that nobody has seen yet.
    pub open spec fn floor() -> Tile {
        Tile { blocked: false, block_sight: false, explored: false }
    }

    /// Solid rock that nobody has seen yet.
    pub open spec fn rock() -> Tile {
        Tile { blocked: true, block_sight: true, explored: false }
    }

    /// Open floor that nobody has seen yet.
    pub fn empty() -> (t: Self)
        ensures
            t == Tile::floor(),
    {
        Tile { blocked: false, block_sight: false, explored: false }
    }

    /// Solid rock that nobody has seen yet.
    pub fn wall() -> (t: Self)
        ensures
            t == Tile::rock(),
    {
        Tile { blocked: true, block_sight: true, explored: false }
    }
}

/// The tiles of a level, column by column.
pub type TileGrid = Vec<Vec<Tile>>;

/// Which positions are in sight, column by column.
pub type SightGrid = Vec<Vec<bool>>;

/// Whether `(x, y)` lies inside `grid`.
pub open spec fn in_grid<T>(grid: Seq<Seq<T>>, x: int, y: int) -> bool {
    0 <= x < grid.len() && 0 <= y < grid[x].len()
}

/// The tile at `(x, y)`; unexplored rock outside the grid.
pub open spec fn tile_at(grid: Seq<Seq<Tile>>, x: int, y: int) -> Tile {
    if in_grid(grid, x, y) {
        grid[x][y]
    } else {
        Tile::rock()
    }
}

/// Whether `(x, y)` is in sight; nothing outside the grid is.
pub open spec fn visible_at(sight: Seq<Seq<bool>>, x: int, y: int) -> bool {
    in_grid(sight, x, y) && sight[x][y]
}

/// Whether `grid` has `width` columns of `height` tiles each.
pub open spec fn rectangular<T>(grid: Seq<Seq<T>>, width: int, height: int) -> bool {
    &&& grid.len() == width
    &&& forall|x: int| 0 <= x < width ==> (#[trigger] grid[x]).len() == height
}

/// Whether two grids have the same shape.
pub open spec fn same_shape(a: Seq<Seq<Tile>>, b: Seq<Seq<Tile>>) -> bool {
    &&& a.len() == b.len()
    &&& forall|x: int| 0 <= x < a.len() ==> (#[trigger] a[x]).len() == b[x].len()
}

/// A grid of `width` by `height` tiles of solid, unexplored rock.
pub open spec fn solid_grid(width: int, height: int) -> Seq<Seq<Tile>> {
    Seq::new(width as nat, |x: int| Seq::new(height as nat, |y: int| Tile::rock()))
}

/// What `after` keeps of `before`: the shape, and the mark of every tile that
/// was explored.
pub open spec fn explored_kept(before: Seq<Seq<Tile>>, after: Seq<Seq<Tile>>) -> bool {
    &&& same_shape(before, after)
    &&& forall|x: int, y: int|
        in_grid(before, x, y) && (#[trigger] tile_at(before, x, y)).explored ==> tile_at(
            after,
            x,
            y,
        ).explored
}

/// Keeping explored marks composes: what holds from one state to the next holds
/// over any number of steps.
pub proof fn lemma_explored_kept_chain(
    a: Seq<Seq<Tile>>,
    b: Seq<Seq<Tile>>,
    c: Seq<Seq<Tile>>,
)
    requires
        explored_kept(a, b),
        explored_kept(b, c),
    ensures
        explored_kept(a, c),
        explored_kept(a, a),
{
    assert forall|x: int, y: int|
        in_grid(a, x, y) && (#[trigger] tile_at(a, x, y)).explored implies tile_at(
        c,
        x,
        y,
    ).explored by {
        assert(a[x].len() == b[x].len());
        assert(tile_at(b, x, y).explored);
    }
    assert forall|x: int| 0 <= x < a.len() implies (#[trigger] a[x]).len() == c[x].len() by {
        assert(a[x].len() == b[x].len());
    }
}

/// Builds a grid of `width` by `height` tiles of solid rock.
pub fn new_grid(width: usize, height: usize) -> (map: TileGrid)
    ensures
        map.deep_view() == solid_grid(width as int, height as int),
{
    let mut map: Vec<Vec<Tile>> = Vec::new();
    let mut x: usize = 0;
    while x < width
        invariant
            x <= width,
            map@.len() == x,
            forall|i: int| 0 <= i < x ==> (#[trigger] map@[i]).deep_view() == Seq::new(
                height as nat,
                |y: int| Tile::rock(),
            ),
        decreases width - x,
    {
        let mut column: Vec<Tile> = Vec::new();
        let mut y: usize = 0;
        while y < height
            invariant
                y <= height,
                column@.len() == y,
                forall|j: int| 0 <= j < y ==> #[trigger] column@[j] == Tile::rock(),
            decreases height - y,
        {
            column.push(Tile::wall());
            y += 1;
        }
        assert(column.deep_view() =~= Seq::new(height as nat, |y: int| Tile::rock()));
        map.push(column);
        x += 1;
    }
    assert(map.deep_view() =~= solid_grid(width as int, height as int));
    map
}

/// The tile at `(x, y)`; unexplored rock outside the grid.
pub fn get_tile(map: &TileGrid, x: i32, y: i32) -> (t: Tile)
    ensures
        t == tile_at(map.deep_view(), x as int, y as int),
{
    if x < 0 || y < 0 {
        return Tile::wall();
    }
    let ux = x as usize;
    let uy = y as usize;
    if ux >= map.len() {
        return Tile::wall();
    }
    if uy >= map[ux].len() {
        return Tile::wall();
    }
    map[ux][uy]
}

/// Whether `(x, y)` is in sight; nothing outside the grid is.
pub fn is_in_fov(sight: &SightGrid, x: i32, y: i32) -> (b: bool)
    ensures
        b == visible_at(sight.deep_view(), x as int, y as int),
{
    if x < 0 || y < 0 {
        return false;
    }
    let ux = x as usize;
    let uy = y as usize;
    if ux >= sight.len() {
        return false;
    }
    if uy >= sight[ux].len() {
        return false;
    }
    sight[ux][uy]
}

} // verus!
