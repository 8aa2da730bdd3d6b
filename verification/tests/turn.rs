use roguelike::color::Color;
use roguelike::game::Game;
use roguelike::geometry::Rect;
use roguelike::mapgen::{create_room, MAP_HEIGHT, MAP_WIDTH};
use roguelike::object::Object;
use roguelike::spawn::{new_item, new_monster, new_player, new_stairs, Loot, MonsterKind, SpawnPolicy};
use roguelike::tile::{get_tile, new_grid, SightGrid, Tile};
use roguelike::turn::{
    drop_selected, handle_command, handle_keys, level_up, level_up_due, monsters_answer,
    new_game, next_level, phase_after, player_health, player_move_or_attack, player_on_stairs,
    read_key, Command, FollowUp, Key, KeyCode, Phase, PlayerAction, StatChoice, LEVEL_UP_BASE,
    LEVEL_UP_FACTOR,
};

fn hall() -> Game {
    let mut map = new_grid(20, 20);
    create_room(&Rect::new(0, 0, 19, 19), &mut map);
    Game { map, log: Vec::new(), inventory: Vec::new(), dungeon_level: 1 }
}

fn all_in_sight() -> SightGrid {
    vec![vec![true; 20]; 20]
}

fn texts(game: &Game) -> Vec<(&str, Color)> {
    game.log.iter().map(|(text, color)| (text.as_str(), *color)).collect()
}

fn snapshot(objects: &Vec<Object>, game: &Game) -> String {
    format!("{:?} {:?}", objects, game)
}

fn key(code: KeyCode) -> Key {
    Key { code, printable: '\0', alt: false }
}

fn typed(printable: char) -> Key {
    Key { code: KeyCode::Char, printable, alt: false }
}

fn set_xp(objects: &mut Vec<Object>, xp: i32) {
    let mut fighter = objects[0].fighter.unwrap();
    fighter.xp = xp;
    objects[0].fighter = Some(fighter);
}

#[test]
fn keys_stand_for_commands() {
    assert_eq!(read_key(key(KeyCode::Up), true), Command::Move { dx: 0, dy: -1 });
    assert_eq!(read_key(key(KeyCode::Down), true), Command::Move { dx: 0, dy: 1 });
    assert_eq!(read_key(key(KeyCode::Left), true), Command::Move { dx: -1, dy: 0 });
    assert_eq!(read_key(key(KeyCode::Right), true), Command::Move { dx: 1, dy: 0 });
    assert_eq!(read_key(typed('g'), true), Command::PickUp);
    assert_eq!(read_key(typed('i'), true), Command::OpenInventory);
    assert_eq!(read_key(typed('d'), true), Command::OpenDropMenu);
    assert_eq!(read_key(typed('>'), true), Command::Descend);
    assert_eq!(read_key(typed('c'), true), Command::ShowCharacter);
    assert_eq!(read_key(typed('q'), true), Command::Quit);
    assert_eq!(read_key(key(KeyCode::Escape), true), Command::Quit);
    assert_eq!(read_key(typed('x'), true), Command::Nothing);
    assert_eq!(read_key(key(KeyCode::Other), true), Command::Nothing);
    assert_eq!(read_key(key(KeyCode::Enter), true), Command::Nothing);
    let alt_enter = Key { code: KeyCode::Enter, printable: '\r', alt: true };
    assert_eq!(read_key(alt_enter, true), Command::ToggleFullscreen);
}

#[test]
fn the_dead_can_only_leave_and_switch_the_display() {
    for k in [
        key(KeyCode::Up),
        key(KeyCode::Down),
        key(KeyCode::Left),
        key(KeyCode::Right),
        typed('g'),
        typed('i'),
        typed('d'),
        typed('>'),
        typed('c'),
        typed('x'),
    ] {
        assert_eq!(read_key(k, false), Command::Nothing);
    }
    assert_eq!(read_key(typed('q'), false), Command::Quit);
    assert_eq!(read_key(key(KeyCode::Escape), false), Command::Quit);
    let alt_enter = Key { code: KeyCode::Enter, printable: '\r', alt: true };
    assert_eq!(read_key(alt_enter, false), Command::ToggleFullscreen);
}

#[test]
fn the_printable_counts_whatever_the_code() {
    let odd = Key { code: KeyCode::Other, printable: 'g', alt: false };
    assert_eq!(read_key(odd, true), Command::PickUp);
    // but a q quits only as a character key
    let odd = Key { code: KeyCode::Other, printable: 'q', alt: false };
    assert_eq!(read_key(odd, true), Command::Nothing);
    // an arrow key wins over what it prints
    let odd = Key { code: KeyCode::Up, printable: 'g', alt: false };
    assert_eq!(read_key(odd, true), Command::Move { dx: 0, dy: -1 });
}

#[test]
fn a_step_onto_free_floor_moves_the_player() {
    let mut game = hall();
    let mut objects = vec![new_player(5, 5), new_item(Loot::Sword, 6, 5)];
    player_move_or_attack(1, 0, &mut objects, &mut game);
    assert_eq!(objects[0].pos(), (6, 5));
    player_move_or_attack(0, -1, &mut objects, &mut game);
    assert_eq!(objects[0].pos(), (6, 4));
    assert!(game.log.is_empty());
}

#[test]
fn a_step_into_the_wall_moves_nothing() {
    let mut game = hall();
    let mut objects = vec![new_player(1, 1)];
    player_move_or_attack(-1, 0, &mut objects, &mut game);
    player_move_or_attack(0, -1, &mut objects, &mut game);
    assert_eq!(objects[0].pos(), (1, 1));
}

#[test]
fn a_step_onto_a_fighter_is_a_blow() {
    let mut game = hall();
    let mut objects = vec![new_player(5, 5), new_monster(MonsterKind::Troll, 5, 6)];
    player_move_or_attack(0, 1, &mut objects, &mut game);
    assert_eq!(objects[0].pos(), (5, 5));
    assert_eq!(objects[1].fighter.unwrap().hp, 12);
    assert_eq!(texts(&game), vec![("player attacks troll for 4 hit points.", Color::Red)]);
}

#[test]
fn the_player_walks_over_remains() {
    let mut game = hall();
    let mut objects = vec![new_player(5, 5), new_monster(MonsterKind::Orc, 5, 6)];
    player_move_or_attack(0, 1, &mut objects, &mut game);
    player_move_or_attack(0, 1, &mut objects, &mut game);
    assert_eq!(objects[1].name, "remains of orc");
    assert_eq!(objects[0].pos(), (5, 5));
    assert_eq!(objects[0].fighter.unwrap().xp, 35);
    player_move_or_attack(0, 1, &mut objects, &mut game);
    assert_eq!(objects[0].pos(), (5, 6));
    assert_eq!(game.log.len(), 3);
}

#[test]
fn a_step_by_nothing_strikes_nobody() {
    let mut game = hall();
    let mut objects = vec![new_player(5, 5), new_monster(MonsterKind::Orc, 6, 5)];
    let before = snapshot(&objects, &game);
    player_move_or_attack(0, 0, &mut objects, &mut game);
    assert_eq!(snapshot(&objects, &game), before);
}

#[test]
fn moving_costs_a_turn() {
    let policy = SpawnPolicy::standard();
    let mut game = hall();
    let mut objects = vec![new_player(5, 5)];
    let response = handle_keys(key(KeyCode::Right), &mut objects, &mut game, &policy);
    assert_eq!(response, (PlayerAction::TookTurn, FollowUp::Nothing));
    assert_eq!(objects[0].pos(), (6, 5));
    // even against the wall
    objects[0].set_pos(18, 5);
    let response = handle_keys(key(KeyCode::Right), &mut objects, &mut game, &policy);
    assert_eq!(response, (PlayerAction::TookTurn, FollowUp::Nothing));
    assert_eq!(objects[0].pos(), (18, 5));
}

#[test]
fn picking_up_costs_a_turn() {
    let policy = SpawnPolicy::standard();
    let mut game = hall();
    let mut objects = vec![
        new_player(5, 5),
        new_monster(MonsterKind::Orc, 9, 9),
        new_item(Loot::HealingPotion, 4, 5),
        new_item(Loot::LightningScroll, 5, 5),
        new_item(Loot::Sword, 5, 5),
    ];
    let response = handle_keys(typed('g'), &mut objects, &mut game, &policy);
    assert_eq!(response, (PlayerAction::TookTurn, FollowUp::Nothing));
    assert_eq!(game.inventory.len(), 1);
    assert_eq!(game.inventory[0].name, "scroll of lightning bolt");
    let names: Vec<&str> = objects.iter().map(|o| o.name.as_str()).collect();
    assert_eq!(names, vec!["player", "orc", "healing potion", "sword"]);
    let response = handle_keys(typed('g'), &mut objects, &mut game, &policy);
    assert_eq!(response, (PlayerAction::TookTurn, FollowUp::Nothing));
    assert_eq!(game.inventory.len(), 2);
    // nothing left to pick up: the turn is spent all the same
    let before = snapshot(&objects, &game);
    let response = handle_keys(typed('g'), &mut objects, &mut game, &policy);
    assert_eq!(response, (PlayerAction::TookTurn, FollowUp::Nothing));
    assert_eq!(snapshot(&objects, &game), before);
}

#[test]
fn menus_and_screens_cost_no_turn() {
    let policy = SpawnPolicy::standard();
    let mut game = hall();
    let mut objects = vec![new_player(5, 5), new_monster(MonsterKind::Orc, 6, 5)];
    let before = snapshot(&objects, &game);
    let cases = [
        (typed('i'), FollowUp::ChooseItemToUse),
        (typed('d'), FollowUp::ChooseItemToDrop),
        (typed('c'), FollowUp::ShowCharacterScreen),
        (typed('>'), FollowUp::Nothing),
        (typed('z'), FollowUp::Nothing),
        (Key { code: KeyCode::Enter, printable: '\r', alt: true }, FollowUp::ToggleFullscreen),
    ];
    for (k, follow_up) in cases {
        let response = handle_keys(k, &mut objects, &mut game, &policy);
        assert_eq!(response, (PlayerAction::DidntTakeTurn, follow_up));
        assert_eq!(snapshot(&objects, &game), before);
    }
}

#[test]
fn leaving_ends_the_game() {
    let policy = SpawnPolicy::standard();
    let mut game = hall();
    let mut objects = vec![new_player(5, 5)];
    let before = snapshot(&objects, &game);
    for k in [typed('q'), key(KeyCode::Escape)] {
        let response = handle_keys(k, &mut objects, &mut game, &policy);
        assert_eq!(response, (PlayerAction::Exit, FollowUp::Nothing));
    }
    assert_eq!(snapshot(&objects, &game), before);
}

#[test]
fn the_dead_player_does_not_move() {
    let policy = SpawnPolicy::standard();
    let mut game = hall();
    let mut objects = vec![new_player(5, 5)];
    objects[0].take_damage(100, &mut game);
    let before = snapshot(&objects, &game);
    let response = handle_keys(key(KeyCode::Up), &mut objects, &mut game, &policy);
    assert_eq!(response, (PlayerAction::DidntTakeTurn, FollowUp::Nothing));
    assert_eq!(snapshot(&objects, &game), before);
}

#[test]
fn commands_can_be_given_directly() {
    let policy = SpawnPolicy::standard();
    let mut game = hall();
    let mut objects = vec![new_player(5, 5)];
    let response =
        handle_command(Command::Move { dx: 1, dy: 1 }, &mut objects, &mut game, &policy);
    assert_eq!(response, (PlayerAction::TookTurn, FollowUp::Nothing));
    assert_eq!(objects[0].pos(), (6, 6));
}

#[test]
fn the_stairs_are_where_an_object_of_that_name_is() {
    let mut objects = vec![new_player(5, 5), new_stairs(5, 6), new_item(Loot::Sword, 5, 5)];
    assert!(!player_on_stairs(&objects));
    objects[0].set_pos(5, 6);
    assert!(player_on_stairs(&objects));
    objects[1].name = String::from("stair");
    assert!(!player_on_stairs(&objects));
}

#[test]
fn a_dropped_item_costs_a_turn() {
    let mut game = hall();
    game.inventory.push(new_item(Loot::Sword, 0, 0));
    let mut objects = vec![new_player(5, 5)];
    let before = snapshot(&objects, &game);
    assert_eq!(drop_selected(None, &mut objects, &mut game), PlayerAction::DidntTakeTurn);
    assert_eq!(drop_selected(Some(1), &mut objects, &mut game), PlayerAction::DidntTakeTurn);
    assert_eq!(snapshot(&objects, &game), before);
    assert_eq!(drop_selected(Some(0), &mut objects, &mut game), PlayerAction::TookTurn);
    assert!(game.inventory.is_empty());
    assert_eq!(objects[1].name, "sword");
    assert_eq!(objects[1].pos(), (5, 5));
}

#[test]
fn the_monsters_answer_only_a_turn_of_the_living() {
    assert_eq!(phase_after(PlayerAction::TookTurn, true), Phase::ResolvingAi);
    assert_eq!(phase_after(PlayerAction::TookTurn, false), Phase::AwaitingInput);
    assert_eq!(phase_after(PlayerAction::DidntTakeTurn, true), Phase::AwaitingInput);
    assert_eq!(phase_after(PlayerAction::DidntTakeTurn, false), Phase::AwaitingInput);
    assert_eq!(phase_after(PlayerAction::Exit, true), Phase::Stopped);
    assert_eq!(phase_after(PlayerAction::Exit, false), Phase::Stopped);
    let sight = all_in_sight();
    for action in [PlayerAction::DidntTakeTurn, PlayerAction::Exit] {
        let mut game = hall();
        let mut objects = vec![new_player(5, 5), new_monster(MonsterKind::Orc, 6, 5)];
        let before = snapshot(&objects, &game);
        assert!(!monsters_answer(action, &mut objects, &sight, &mut game));
        assert_eq!(snapshot(&objects, &game), before);
    }
    let mut game = hall();
    let mut objects = vec![new_player(5, 5), new_monster(MonsterKind::Orc, 6, 5)];
    assert!(monsters_answer(PlayerAction::TookTurn, &mut objects, &sight, &mut game));
    assert_eq!(objects[0].fighter.unwrap().hp, 29);
    assert_eq!(texts(&game), vec![("orc attacks player for 1 hit points.", Color::Red)]);
    objects[0].take_damage(100, &mut game);
    let before = snapshot(&objects, &game);
    assert!(!monsters_answer(PlayerAction::TookTurn, &mut objects, &sight, &mut game));
    assert_eq!(snapshot(&objects, &game), before);
}

#[test]
fn the_health_bar_shows_hit_points_and_their_maximum() {
    let mut game = hall();
    let mut objects = vec![new_player(5, 5)];
    objects[0].take_damage(7, &mut game);
    assert_eq!(player_health(&objects, &game), (23, 30));
    let mut helmet = new_item(Loot::Shield, 0, 0);
    let mut equipment = helmet.equipment.unwrap();
    equipment.max_hp_bonus = 5;
    equipment.equipped = true;
    helmet.equipment = Some(equipment);
    game.inventory.push(helmet);
    assert_eq!(player_health(&objects, &game), (23, 35));
    objects[0].fighter = None;
    assert_eq!(player_health(&objects, &game), (0, 0));
}

#[test]
fn the_first_level_up_takes_350_experience() {
    assert_eq!((LEVEL_UP_BASE, LEVEL_UP_FACTOR), (200, 150));
    let mut game = hall();
    let mut objects = vec![new_player(5, 5)];
    set_xp(&mut objects, 349);
    assert!(!level_up_due(&objects));
    let before = snapshot(&objects, &game);
    assert!(!level_up(&mut objects, &mut game, StatChoice::Strength));
    assert_eq!(snapshot(&objects, &game), before);
    set_xp(&mut objects, 350);
    assert!(level_up_due(&objects));
    assert!(level_up(&mut objects, &mut game, StatChoice::Strength));
    assert_eq!(objects[0].level, 2);
    let fighter = objects[0].fighter.unwrap();
    assert_eq!((fighter.xp, fighter.power, fighter.defense), (0, 6, 2));
    assert_eq!((fighter.hp, fighter.max_hp), (30, 30));
    assert_eq!(
        texts(&game),
        vec![("Your battle skills grow stronger! You reached level 2!", Color::Yellow)]
    );
}

#[test]
fn each_choice_raises_its_figure() {
    let mut game = hall();
    let mut objects = vec![new_player(5, 5)];
    objects[0].take_damage(10, &mut game);
    set_xp(&mut objects, 400);
    assert!(level_up(&mut objects, &mut game, StatChoice::Constitution));
    let fighter = objects[0].fighter.unwrap();
    assert_eq!((fighter.hp, fighter.max_hp, fighter.xp), (40, 50, 50));
    set_xp(&mut objects, 500);
    assert!(level_up(&mut objects, &mut game, StatChoice::Agility));
    let fighter = objects[0].fighter.unwrap();
    assert_eq!((fighter.defense, fighter.power, fighter.xp), (3, 5, 0));
    assert_eq!(objects[0].level, 3);
}

#[test]
fn one_large_award_is_worth_several_levels() {
    let mut game = hall();
    let mut objects = vec![new_player(5, 5)];
    // 350 for level 2, 500 for level 3, 650 for level 4, and 100 to spare
    set_xp(&mut objects, 1600);
    let mut risen = 0;
    while level_up_due(&objects) {
        assert!(level_up(&mut objects, &mut game, StatChoice::Strength));
        risen += 1;
    }
    assert_eq!(risen, 3);
    assert_eq!(objects[0].level, 4);
    assert_eq!(objects[0].fighter.unwrap().xp, 100);
    assert_eq!(objects[0].fighter.unwrap().power, 8);
    assert_eq!(
        texts(&game),
        vec![
            ("Your battle skills grow stronger! You reached level 2!", Color::Yellow),
            ("Your battle skills grow stronger! You reached level 3!", Color::Yellow),
            ("Your battle skills grow stronger! You reached level 4!", Color::Yellow),
        ]
    );
}

#[test]
fn what_does_not_fight_does_not_rise() {
    let mut game = hall();
    let mut objects = vec![new_item(Loot::Sword, 5, 5)];
    assert!(!level_up_due(&objects));
    assert!(!level_up(&mut objects, &mut game, StatChoice::Strength));
    assert_eq!(objects[0].level, 1);
}

fn check_fresh_level(objects: &Vec<Object>, game: &Game) {
    assert_eq!(game.map.len(), MAP_WIDTH);
    assert!(game.map.iter().all(|column| column.len() == MAP_HEIGHT));
    assert!(game.map.iter().all(|column| column.iter().all(|tile| !tile.explored)));
    let player = &objects[0];
    assert_eq!(player.name, "player");
    assert_eq!(get_tile(&game.map, player.x, player.y), Tile::empty());
    let stairs = &objects[objects.len() - 1];
    assert_eq!(stairs.name, "stairs");
    assert_eq!(get_tile(&game.map, stairs.x, stairs.y), Tile::empty());
    assert_eq!(objects.iter().filter(|o| o.name == "stairs").count(), 1);
    assert_eq!(objects.iter().filter(|o| o.name == "player").count(), 1);
    for object in &objects[1..objects.len() - 1] {
        assert!(object.fighter.is_some() != object.item.is_some());
        assert!(!get_tile(&game.map, object.x, object.y).blocked);
    }
}

#[test]
fn a_new_game_begins_on_the_first_level() {
    let policy = SpawnPolicy::standard();
    for _ in 0..10 {
        let (objects, game) = new_game(&policy);
        check_fresh_level(&objects, &game);
        assert_eq!(format!("{:?}", objects[0]), format!("{:?}", new_player(objects[0].x, objects[0].y)));
        assert_eq!(game.dungeon_level, 1);
        assert!(game.inventory.is_empty());
        assert_eq!(
            texts(&game),
            vec![(
                "Welcome stranger! Prepare to perish in the Tombs of the Ancient Kings.",
                Color::Red
            )]
        );
    }
}

#[test]
fn going_down_rests_the_player_and_makes_a_new_level() {
    let policy = SpawnPolicy::standard();
    let (mut objects, mut game) = new_game(&policy);
    objects[0].take_damage(20, &mut game);
    set_xp(&mut objects, 77);
    game.inventory.push(new_item(Loot::HealingPotion, 0, 0));
    mark_some_explored(&mut game);
    let log_length = game.log.len();
    next_level(&mut objects, &mut game, &policy);
    check_fresh_level(&objects, &game);
    assert_eq!(game.dungeon_level, 2);
    assert_eq!(game.inventory.len(), 1);
    let fighter = objects[0].fighter.unwrap();
    // half of 30 on top of the 10 that were left
    assert_eq!((fighter.hp, fighter.max_hp, fighter.xp), (25, 30, 77));
    assert_eq!(
        texts(&game)[log_length..],
        [
            ("You take a moment to rest, and recover your strength.", Color::Violet),
            (
                "After a rare moment of peace, you descend deeper into the heart of the dungeon...",
                Color::Red
            ),
        ]
    );
}

fn mark_some_explored(game: &mut Game) {
    for column in game.map.iter_mut() {
        for tile in column.iter_mut() {
            tile.explored = true;
        }
    }
}

#[test]
fn the_rest_does_not_heal_beyond_the_maximum() {
    let policy = SpawnPolicy::standard();
    let (mut objects, mut game) = new_game(&policy);
    objects[0].take_damage(5, &mut game);
    next_level(&mut objects, &mut game, &policy);
    assert_eq!(objects[0].fighter.unwrap().hp, 30);
    game.dungeon_level = u32::MAX;
    next_level(&mut objects, &mut game, &policy);
    assert_eq!(game.dungeon_level, u32::MAX);
}

#[test]
fn the_stairs_lead_down() {
    let policy = SpawnPolicy::standard();
    let (mut objects, mut game) = new_game(&policy);
    // off the stairs the key does nothing
    let last = objects.len() - 1;
    let (x, y) = objects[last].pos();
    objects[0].set_pos(x, y + 1);
    let before = snapshot(&objects, &game);
    let response = handle_keys(typed('>'), &mut objects, &mut game, &policy);
    assert_eq!(response, (PlayerAction::DidntTakeTurn, FollowUp::Nothing));
    assert_eq!(snapshot(&objects, &game), before);
    let mut depth = game.dungeon_level;
    for _ in 0..5 {
        let last = objects.len() - 1;
        let (x, y) = objects[last].pos();
        objects[0].set_pos(x, y);
        let response = handle_keys(typed('>'), &mut objects, &mut game, &policy);
        assert_eq!(response, (PlayerAction::DidntTakeTurn, FollowUp::LevelChanged));
        depth += 1;
        assert_eq!(game.dungeon_level, depth);
        check_fresh_level(&objects, &game);
    }
}
