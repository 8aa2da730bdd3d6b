use roguelike::color::Color;
use roguelike::object::Object;
use roguelike::spawn::{new_item, new_monster, new_player, new_stairs, Loot, MonsterKind};
use roguelike::tile::{get_tile, new_grid, SightGrid, Tile, TileGrid};
use roguelike::visibility::{
    fov_needs_recompute, layout_messages, mark_explored, names_at, paint_tile, render_order,
    tile_color, Cell, TORCH_RADIUS,
};

fn small_map() -> TileGrid {
    let mut map = new_grid(4, 3);
    map[1][1] = Tile::empty();
    map[2][1] = Tile::empty();
    map
}

fn sight_of(seen: &[(usize, usize)]) -> SightGrid {
    let mut sight = vec![vec![false; 3]; 4];
    for &(x, y) in seen {
        sight[x][y] = true;
    }
    sight
}

#[test]
fn an_object_is_drawn_as_its_character_in_its_colour() {
    let orc = new_monster(MonsterKind::Orc, 3, 4);
    assert_eq!(
        orc.draw(),
        Cell { x: 3, y: 4, glyph: 'o', color: Some(Color::DesaturatedGreen) }
    );
    assert_eq!(orc.clear(), Cell { x: 3, y: 4, glyph: ' ', color: None });
}

#[test]
fn the_torch_reaches_ten_tiles() {
    assert_eq!(TORCH_RADIUS, 10);
}

#[test]
fn sight_is_found_anew_only_after_the_player_has_moved() {
    let mut objects = vec![new_player(5, 5), new_monster(MonsterKind::Orc, 1, 1)];
    assert!(fov_needs_recompute((-1, -1), &objects));
    assert!(!fov_needs_recompute((5, 5), &objects));
    objects[1].set_pos(2, 2);
    assert!(!fov_needs_recompute((5, 5), &objects));
    objects[0].set_pos(5, 6);
    assert!(fov_needs_recompute((5, 5), &objects));
    objects[0].set_pos(6, 5);
    assert!(fov_needs_recompute((5, 5), &objects));
}

#[test]
fn what_is_in_sight_becomes_explored() {
    let mut map = small_map();
    mark_explored(&mut map, &sight_of(&[(1, 1), (0, 0), (3, 2)]));
    for x in 0..4 {
        for y in 0..3 {
            let seen = [(1, 1), (0, 0), (3, 2)].contains(&(x, y));
            let tile = get_tile(&map, x, y);
            assert_eq!(tile.explored, seen);
            let floor = (x, y) == (1, 1) || (x, y) == (2, 1);
            assert_eq!(tile.blocked, !floor);
            assert_eq!(tile.block_sight, !floor);
        }
    }
}

#[test]
fn what_was_explored_stays_explored() {
    let mut map = small_map();
    mark_explored(&mut map, &sight_of(&[(1, 1), (2, 1)]));
    mark_explored(&mut map, &sight_of(&[(0, 0)]));
    mark_explored(&mut map, &sight_of(&[]));
    mark_explored(&mut map, &Vec::new());
    assert!(get_tile(&map, 1, 1).explored);
    assert!(get_tile(&map, 2, 1).explored);
    assert!(get_tile(&map, 0, 0).explored);
    assert!(!get_tile(&map, 3, 2).explored);
}

#[test]
fn a_sight_grid_of_another_shape_is_read_where_it_is_defined() {
    let mut map = small_map();
    let sight: SightGrid = vec![vec![true], vec![], vec![false, true, true, true, true]];
    mark_explored(&mut map, &sight);
    let explored: Vec<(i32, i32)> = (0..4)
        .flat_map(|x| (0..3).map(move |y| (x, y)))
        .filter(|&(x, y)| get_tile(&map, x, y).explored)
        .collect();
    assert_eq!(explored, vec![(0, 0), (2, 1), (2, 2)]);
}

#[test]
fn tiles_are_painted_by_kind_and_sight() {
    let wall = Tile { blocked: true, block_sight: true, explored: true };
    let ground = Tile { blocked: false, block_sight: false, explored: true };
    assert_eq!(tile_color(wall, false), Some(Color::DarkWall));
    assert_eq!(tile_color(ground, false), Some(Color::DarkGround));
    assert_eq!(tile_color(wall, true), Some(Color::LightWall));
    assert_eq!(tile_color(ground, true), Some(Color::LightGround));
    // the colour goes by what blocks the sight, not by what blocks the way
    let window = Tile { blocked: true, block_sight: false, explored: true };
    assert_eq!(tile_color(window, true), Some(Color::LightGround));
}

#[test]
fn unexplored_tiles_are_not_painted() {
    for visible in [false, true] {
        assert_eq!(tile_color(Tile::wall(), visible), None);
        assert_eq!(tile_color(Tile::empty(), visible), None);
    }
}

#[test]
fn painting_follows_the_grids() {
    let mut map = small_map();
    let sight = sight_of(&[(1, 1), (1, 0)]);
    assert_eq!(paint_tile(&map, &sight, 1, 1), None);
    mark_explored(&mut map, &sight);
    assert_eq!(paint_tile(&map, &sight, 1, 1), Some(Color::LightGround));
    assert_eq!(paint_tile(&map, &sight, 1, 0), Some(Color::LightWall));
    assert_eq!(paint_tile(&map, &sight, 2, 1), None);
    let later = sight_of(&[(2, 1)]);
    mark_explored(&mut map, &later);
    assert_eq!(paint_tile(&map, &later, 1, 1), Some(Color::DarkGround));
    assert_eq!(paint_tile(&map, &later, 1, 0), Some(Color::DarkWall));
    assert_eq!(paint_tile(&map, &later, 2, 1), Some(Color::LightGround));
    // outside the grid
    assert_eq!(paint_tile(&map, &later, 9, 9), None);
    assert_eq!(paint_tile(&map, &later, -1, 0), None);
}

#[test]
fn what_blocks_is_drawn_after_what_does_not() {
    let map = small_map();
    let sight = sight_of(&[(1, 1), (2, 1)]);
    let objects = vec![
        new_player(1, 1),
        new_item(Loot::Sword, 2, 1),
        new_monster(MonsterKind::Orc, 2, 1),
        new_item(Loot::Shield, 1, 1),
        new_monster(MonsterKind::Troll, 3, 1),
        new_item(Loot::HealingPotion, 0, 0),
    ];
    assert_eq!(render_order(&objects, &map, &sight), vec![1, 3, 0, 2]);
    assert_eq!(render_order(&objects, &map, &sight_of(&[])), Vec::<usize>::new());
    assert_eq!(render_order(&Vec::new(), &map, &sight), Vec::<usize>::new());
}

#[test]
fn the_stairs_stay_on_display_once_explored() {
    let mut map = small_map();
    let objects = vec![new_player(1, 1), new_stairs(2, 1), new_item(Loot::Sword, 2, 1)];
    // not yet seen
    assert_eq!(render_order(&objects, &map, &sight_of(&[(1, 1)])), vec![0]);
    // in sight
    let sight = sight_of(&[(1, 1), (2, 1)]);
    mark_explored(&mut map, &sight);
    assert_eq!(render_order(&objects, &map, &sight), vec![1, 2, 0]);
    // out of sight again: the stairs are remembered, the sword is not
    assert_eq!(render_order(&objects, &map, &sight_of(&[(1, 1)])), vec![1, 0]);
    assert_eq!(render_order(&objects, &map, &sight_of(&[])), vec![1]);
}

#[test]
fn names_are_listed_for_a_position_in_sight() {
    let sight = sight_of(&[(1, 1), (2, 1)]);
    let objects = vec![
        new_player(1, 1),
        new_item(Loot::Sword, 2, 1),
        new_monster(MonsterKind::Orc, 2, 1),
        new_item(Loot::Shield, 1, 1),
        new_stairs(2, 1),
        new_monster(MonsterKind::Troll, 3, 1),
    ];
    assert_eq!(names_at(2, 1, &objects, &sight), "sword, orc, stairs");
    assert_eq!(names_at(1, 1, &objects, &sight), "player, shield");
    assert_eq!(names_at(0, 0, &objects, &sight), "");
    // out of sight
    assert_eq!(names_at(3, 1, &objects, &sight), "");
    assert_eq!(names_at(7, 7, &objects, &sight), "");
}

#[test]
fn an_object_without_a_name_still_gets_its_comma() {
    let sight = sight_of(&[(1, 1)]);
    let objects = vec![
        Object::new(1, 1, 'a', "", Color::White, false),
        Object::new(1, 1, 'b', "", Color::White, false),
        Object::new(1, 1, 'c', "c", Color::White, false),
    ];
    assert_eq!(names_at(1, 1, &objects, &sight), ", , c");
}

#[test]
fn the_newest_messages_fill_the_panel_from_the_bottom() {
    // six rows; the heights are given oldest first
    assert_eq!(layout_messages(&vec![1, 1, 1], 6), vec![(2, 5), (1, 4), (0, 3)]);
    assert_eq!(layout_messages(&vec![1, 2, 3], 6), vec![(2, 3), (1, 1), (0, 0)]);
    assert_eq!(layout_messages(&vec![9, 1, 2, 2, 2], 6), vec![(4, 4), (3, 2), (2, 0)]);
    assert_eq!(layout_messages(&vec![1, 1, 1, 1, 1, 1, 1, 1], 6).len(), 6);
    assert_eq!(layout_messages(&Vec::new(), 6), Vec::new());
}

#[test]
fn a_message_that_does_not_fit_ends_the_list() {
    // the tall message does not fit, and the short one before it is cut off with it
    assert_eq!(layout_messages(&vec![1, 5, 2], 6), vec![(2, 4)]);
    assert_eq!(layout_messages(&vec![1, 7], 6), Vec::new());
    assert_eq!(layout_messages(&vec![1, 6], 6), vec![(1, 0)]);
    assert_eq!(layout_messages(&vec![1], 0), Vec::new());
    assert_eq!(layout_messages(&vec![0, 0], 0), vec![(1, 0), (0, 0)]);
    assert_eq!(layout_messages(&vec![1], -3), Vec::new());
    assert_eq!(layout_messages(&vec![u32::MAX, 1], i32::MAX), vec![(1, i32::MAX as i64 - 1)]);
}
