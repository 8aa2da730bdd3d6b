//! What blocks a position, and moving objects about.

use crate::geometry::{clamp_i32, saturate};
use crate::object::{Object, ObjectView, PLAYER};
use crate::tile::{get_tile, tile_at, Tile, TileGrid};
use vstd::prelude::*;

verus! {

/// Whether one of `objects` that blocks movement stands at `(x, y)`.
pub open spec fn occupied(objects: Seq<ObjectView>, x: int, y: int) -> bool {
    exists|i: int|
        0 <= i < objects.len() && (#[trigger] objects[i]).blocks && objects[i].is_at(x, y)
}

/// Whether nothing can step onto `(x, y)`: the ground is blocked there, which
/// it is everywhere outside the grid, or a blocking object stands there.
pub open spec fn blocked_at(
    grid: Seq<Seq<Tile>>,
    objects: Seq<ObjectView>,
    x: int,
    y: int,
) -> bool {
    tile_at(grid, x, y).blocked || occupied(objects, x, y)
}

/// The objects after the one in slot `id` tried to move by `(dx, dy)`: it
/// has moved if its goal was free, else nothing has changed.
pub open spec fn moved(
    grid: Seq<Seq<Tile>>,
    objects: Seq<ObjectView>,
    id: int,
    dx: int,
    dy: int,
) -> Seq<ObjectView> {
    let x = clamp_i32(objects[id].x + dx);
    let y = clamp_i32(objects[id].y + dy);
    if blocked_at(grid, objects, x as int, y as int) {
        objects
    } else {
        objects.update(id, ObjectView { x, y, ..objects[id] })
    }
}

/// What to look for at a position.
#[derive(Clone, Copy, Debug, PartialEq, Eq, Structural)]
pub enum Wanted {
    /// Something that fights.
    Fighter,
    /// Something that can be picked up and used.
    Item,
}

/// Whether `object`, in slot `id`, is what is looked for at `(x, y)`: it is
/// not in the player's slot, it stands there, and it is of the wanted kind.
pub open spec fn is_wanted(object: ObjectView, id: int, x: int, y: int, wanted: Wanted) -> bool {
    &&& id != PLAYER
    &&& object.is_at(x, y)
    &&& match wanted {
        Wanted::Fighter => object.fighter is Some,
        Wanted::Item => object.item is Some,
    }
}

/// The first slot, the player's left out, whose object stands at `(x, y)`
/// and is of the wanted kind.
pub open spec fn first_at(objects: Seq<ObjectView>, x: int, y: int, wanted: Wanted) -> Option<int>
    decreases objects.len(),
{
    if objects.len() == 0 {
        None
    } else {
        match first_at(objects.drop_last(), x, y, wanted) {
            Some(i) => Some(i),
            None => if is_wanted(objects.last(), objects.len() - 1, x, y, wanted) {
                Some(objects.len() - 1)
            } else {
                None
            },
        }
    }
}

/// What [`first_at`] finds: the first slot that holds what is wanted, or
/// that no slot does.
pub proof fn lemma_first_at(objects: Seq<ObjectView>, x: int, y: int, wanted: Wanted)
    ensures
        match first_at(objects, x, y, wanted) {
            Some(i) => 0 <= i < objects.len() && is_wanted(objects[i], i, x, y, wanted) && forall|
                j: int,
            |
                0 <= j < i ==> !is_wanted(#[trigger] objects[j], j, x, y, wanted),
            None => forall|j: int|
                0 <= j < objects.len() ==> !is_wanted(#[trigger] objects[j], j, x, y, wanted),
        },
    decreases objects.len(),
{
    if objects.len() > 0 {
        lemma_first_at(objects.drop_last(), x, y, wanted);
        match first_at(objects.drop_last(), x, y, wanted) {
            Some(i) => {
                assert(objects.drop_last()[i] == objects[i]);
                assert forall|j: int| 0 <= j < i implies !is_wanted(
                    #[trigger] objects[j],
                    j,
                    x,
                    y,
                    wanted,
                ) by {
                    assert(objects.drop_last()[j] == objects[j]);
                }
            },
            None => {
                assert forall|j: int| 0 <= j < objects.len() - 1 implies !is_wanted(
                    #[trigger] objects[j],
                    j,
                    x,
                    y,
                    wanted,
                ) by {
                    assert(objects.drop_last()[j] == objects[j]);
                }
            },
        }
    }
}

/// What is found among the first `n` objects is found at the same place
/// among all of them.
proof fn lemma_first_at_prefix(objects: Seq<ObjectView>, n: int, x: int, y: int, wanted: Wanted)
    requires
        0 <= n <= objects.len(),
        first_at(objects.take(n), x, y, wanted) is Some,
    ensures
        first_at(objects, x, y, wanted) == first_at(objects.take(n), x, y, wanted),
    decreases objects.len() - n,
{
    if n < objects.len() {
        assert(objects.take(n + 1).drop_last() =~= objects.take(n));
        lemma_first_at_prefix(objects, n + 1, x, y, wanted);
    } else {
        assert(objects.take(n) =~= objects);
    }
}

/// The first slot, the player's left out, whose object stands at `(x, y)`
/// and is of the wanted kind.
pub fn find_at(x: i32, y: i32, objects: &Vec<Object>, wanted: Wanted) -> (found: Option<usize>)
    ensures
        match found {
            Some(i) => first_at(objects.deep_view(), x as int, y as int, wanted) == Some(i as int),
            None => first_at(objects.deep_view(), x as int, y as int, wanted) is None,
        },
{
    let ghost all = objects.deep_view();
    let mut i: usize = 0;
    assert(all.take(0) =~= Seq::<ObjectView>::empty());
    while i < objects.len()
        invariant
            i <= objects@.len(),
            all == objects.deep_view(),
            first_at(all.take(i as int), x as int, y as int, wanted) is None,
        decreases objects@.len() - i,
    {
        proof {
            assert(all.take(i + 1).drop_last() =~= all.take(i as int));
            assert(all.take(i + 1).last() == objects@[i as int]@);
        }
        let kind = match wanted {
            Wanted::Fighter => objects[i].fighter.is_some(),
            Wanted::Item => objects[i].item.is_some(),
        };
        if i != PLAYER && objects[i].x == x && objects[i].y == y && kind {
            proof {
                lemma_first_at_prefix(all, i + 1, x as int, y as int, wanted);
            }
            return Some(i);
        }
        i += 1;
    }
    assert(all.take(i as int) =~= all);
    None
}

/// Whether nothing can step onto `(x, y)`.
pub fn is_blocked(x: i32, y: i32, map: &TileGrid, objects: &Vec<Object>) -> (b: bool)
    ensures
        b == blocked_at(map.deep_view(), objects.deep_view(), x as int, y as int),
{
    if get_tile(map, x, y).blocked {
        return true;
    }
    let mut i: usize = 0;
    while i < objects.len()
        invariant
            i <= objects@.len(),
            forall|j: int|
                0 <= j < i ==> !((#[trigger] objects.deep_view()[j]).blocks
                    && objects.deep_view()[j].is_at(x as int, y as int)),
        decreases objects@.len() - i,
    {
        if objects[i].blocks && objects[i].x == x && objects[i].y == y {
            assert(objects.deep_view()[i as int].blocks);
            return true;
        }
        i += 1;
    }
    false
}

/// Moves the object in slot `id` by `(dx, dy)`, unless its goal is blocked.
pub fn move_by(id: usize, dx: i32, dy: i32, map: &TileGrid, objects: &mut Vec<Object>)
    requires
        id < old(objects)@.len(),
    ensures
        final(objects).deep_view() == moved(
            map.deep_view(),
            old(objects).deep_view(),
            id as int,
            dx as int,
            dy as int,
        ),
{
    let x = saturate(objects[id].x as i128 + dx as i128);
    let y = saturate(objects[id].y as i128 + dy as i128);
    if !is_blocked(x, y, map, objects) {
        objects[id].set_pos(x, y);
        assert(objects.deep_view() =~= moved(
            map.deep_view(),
            old(objects).deep_view(),
            id as int,
            dx as int,
            dy as int,
        ));
    }
}

} // verus!
