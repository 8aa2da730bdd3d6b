use roguelike::color::Color;
use roguelike::game::Game;
use roguelike::geometry::Rect;
use roguelike::inventory::UseResult;
use roguelike::items::{
    begin_use, cast_confuse, cast_fireball, cast_heal, cast_lightning, closest_monster,
    targeting_of, use_item, Target, Targeting, CONFUSE_NUM_TURNS, CONFUSE_RANGE,
    FIREBALL_DAMAGE, FIREBALL_RADIUS, HEAL_AMOUNT, LIGHTNING_DAMAGE, LIGHTNING_RANGE,
};
use roguelike::mapgen::create_room;
use roguelike::object::{Ai, Behavior, Item, Object};
use roguelike::spawn::{new_item, new_monster, new_player, Loot, MonsterKind};
use roguelike::tile::{new_grid, SightGrid};

fn hall() -> Game {
    let mut map = new_grid(30, 30);
    create_room(&Rect::new(0, 0, 29, 29), &mut map);
    Game { map, log: Vec::new(), inventory: Vec::new(), dungeon_level: 1 }
}

fn all_in_sight() -> SightGrid {
    vec![vec![true; 30]; 30]
}

fn texts(game: &Game) -> Vec<(&str, Color)> {
    game.log.iter().map(|(text, color)| (text.as_str(), *color)).collect()
}

fn hurt_player(objects: &mut Vec<Object>, hp: i32) {
    let mut fighter = objects[0].fighter.unwrap();
    fighter.hp = hp;
    objects[0].fighter = Some(fighter);
}

fn snapshot(objects: &Vec<Object>, game: &Game) -> String {
    format!("{:?} {:?} {:?} {}", objects, game.inventory, game.map, game.dungeon_level)
}

#[test]
fn the_constants_of_the_items() {
    assert_eq!(HEAL_AMOUNT, 4);
    assert_eq!((LIGHTNING_DAMAGE, LIGHTNING_RANGE), (20, 5));
    assert_eq!((CONFUSE_RANGE, CONFUSE_NUM_TURNS), (8, 10));
    assert_eq!((FIREBALL_RADIUS, FIREBALL_DAMAGE), (3, 12));
}

#[test]
fn a_potion_gives_hit_points_back() {
    let mut game = hall();
    let mut objects = vec![new_player(5, 5)];
    hurt_player(&mut objects, 10);
    assert_eq!(cast_heal(&mut objects, &mut game), UseResult::UsedUp);
    assert_eq!(objects[0].fighter.unwrap().hp, 14);
    assert_eq!(texts(&game), vec![("Your wounds start to feel better!", Color::LightViolet)]);
}

#[test]
fn a_potion_does_not_heal_beyond_the_maximum() {
    let mut game = hall();
    let mut objects = vec![new_player(5, 5)];
    hurt_player(&mut objects, 28);
    assert_eq!(cast_heal(&mut objects, &mut game), UseResult::UsedUp);
    assert_eq!(objects[0].fighter.unwrap().hp, 30);
}

#[test]
fn a_potion_is_not_wasted_at_full_health() {
    let mut game = hall();
    let mut objects = vec![new_player(5, 5)];
    assert_eq!(cast_heal(&mut objects, &mut game), UseResult::Cancelled);
    assert_eq!(objects[0].fighter.unwrap().hp, 30);
    assert_eq!(texts(&game), vec![("You are already at full health.", Color::Red)]);
}

#[test]
fn the_nearest_enemy_in_reach_and_sight_is_found() {
    let mut sight = all_in_sight();
    let mut objects = vec![
        new_player(10, 10),
        new_monster(MonsterKind::Orc, 14, 10),
        new_monster(MonsterKind::Troll, 10, 7),
        new_monster(MonsterKind::Orc, 12, 10),
        new_item(Loot::Sword, 10, 11),
    ];
    assert_eq!(closest_monster(5, &objects, &sight), Some(3));
    sight[12][10] = false;
    assert_eq!(closest_monster(5, &objects, &sight), Some(2));
    // the remains of a monster are no enemy
    let mut game = hall();
    objects[2].take_damage(100, &mut game);
    assert_eq!(closest_monster(5, &objects, &sight), Some(1));
    assert_eq!(closest_monster(3, &objects, &sight), None);
}

#[test]
fn of_two_enemies_equally_near_the_first_is_found() {
    let sight = all_in_sight();
    let objects = vec![
        new_player(10, 10),
        new_monster(MonsterKind::Orc, 10, 13),
        new_monster(MonsterKind::Troll, 13, 10),
        new_monster(MonsterKind::Troll, 7, 10),
    ];
    assert_eq!(closest_monster(5, &objects, &sight), Some(1));
}

#[test]
fn the_reach_ends_at_the_range() {
    let sight = all_in_sight();
    // 5 tiles off along a row, along a column, and along a slope of 3 to 4
    for (x, y) in [(15, 10), (10, 5), (13, 14), (6, 7)] {
        let objects = vec![new_player(10, 10), new_monster(MonsterKind::Orc, x, y)];
        assert_eq!(closest_monster(5, &objects, &sight), Some(1));
    }
    // 5.1, 5.39 and 5.83 tiles off, and exactly 6
    for (x, y) in [(15, 11), (15, 12), (15, 13), (16, 10)] {
        let objects = vec![new_player(10, 10), new_monster(MonsterKind::Orc, x, y)];
        assert_eq!(closest_monster(5, &objects, &sight), None);
    }
    let objects = vec![new_player(0, 0), new_monster(MonsterKind::Orc, 5, 2)];
    assert_eq!(closest_monster(5, &objects, &sight), None);
    assert_eq!(closest_monster(6, &objects, &sight), Some(1));
    let objects = vec![new_player(10, 10), new_monster(MonsterKind::Orc, 10, 10)];
    assert_eq!(closest_monster(0, &objects, &sight), Some(1));
    assert_eq!(closest_monster(-1, &objects, &sight), None);
    assert_eq!(closest_monster(i32::MIN, &objects, &sight), None);
    assert_eq!(closest_monster(i32::MAX, &objects, &sight), Some(1));
    assert_eq!(closest_monster(5, &Vec::new(), &sight), None);
}

#[test]
fn lightning_strikes_the_nearest_enemy() {
    let mut game = hall();
    let mut objects = vec![
        new_player(10, 10),
        new_monster(MonsterKind::Troll, 14, 10),
        new_monster(MonsterKind::Troll, 12, 10),
    ];
    let mut strong = objects[2].fighter.unwrap();
    strong.hp = 25;
    objects[2].fighter = Some(strong);
    assert_eq!(cast_lightning(&mut objects, &mut game, &all_in_sight()), UseResult::UsedUp);
    assert_eq!(objects[2].fighter.unwrap().hp, 5);
    assert_eq!(objects[1].fighter.unwrap().hp, 16);
    assert_eq!(objects[0].fighter.unwrap().xp, 0);
    assert_eq!(
        texts(&game),
        vec![(
            "A lightning bolt strikes the troll with a loud thunder! The damage is 20 hit points.",
            Color::LightBlue
        )]
    );
}

#[test]
fn lightning_that_kills_earns_experience() {
    let mut game = hall();
    let mut objects = vec![new_player(10, 10), new_monster(MonsterKind::Orc, 12, 10)];
    assert_eq!(cast_lightning(&mut objects, &mut game, &all_in_sight()), UseResult::UsedUp);
    assert_eq!(objects[1].name, "remains of orc");
    assert_eq!(objects[0].fighter.unwrap().xp, 35);
    assert_eq!(
        texts(&game),
        vec![
            (
                "A lightning bolt strikes the orc with a loud thunder! The damage is 20 hit points.",
                Color::LightBlue
            ),
            ("orc is dead!", Color::Red),
        ]
    );
}

#[test]
fn lightning_does_not_strike_beyond_its_range() {
    let mut game = hall();
    // 5.39 tiles off
    let mut objects = vec![new_player(10, 10), new_monster(MonsterKind::Orc, 15, 12)];
    let before = snapshot(&objects, &game);
    assert_eq!(cast_lightning(&mut objects, &mut game, &all_in_sight()), UseResult::Cancelled);
    assert_eq!(snapshot(&objects, &game), before);
    objects[1].set_pos(14, 13);
    assert_eq!(cast_lightning(&mut objects, &mut game, &all_in_sight()), UseResult::UsedUp);
    assert_eq!(objects[1].name, "remains of orc");
}

#[test]
fn lightning_without_an_enemy_in_reach_is_cancelled() {
    let mut game = hall();
    let mut objects = vec![new_player(10, 10), new_monster(MonsterKind::Orc, 20, 20)];
    let before = snapshot(&objects, &game);
    assert_eq!(cast_lightning(&mut objects, &mut game, &all_in_sight()), UseResult::Cancelled);
    assert_eq!(snapshot(&objects, &game), before);
    assert_eq!(texts(&game), vec![("No enemy is close enough to strike.", Color::Red)]);
}

#[test]
fn confusion_clouds_the_mind_of_the_target() {
    let mut game = hall();
    let mut objects = vec![new_player(10, 10), new_monster(MonsterKind::Orc, 12, 10)];
    let result = cast_confuse(&mut objects, &mut game, &all_in_sight(), Some(Target::Monster(1)));
    assert_eq!(result, UseResult::UsedUp);
    assert_eq!(
        objects[1].ai,
        Some(Ai::Confused { previous_ai: Behavior::Basic, num_turns: 10 })
    );
    assert_eq!(objects[1].fighter.unwrap().hp, 10);
    assert_eq!(
        texts(&game),
        vec![(
            "The eyes of orc look vacant, as he starts to stumble around!",
            Color::LightGreen
        )]
    );
}

#[test]
fn confusion_on_the_confused_starts_the_count_anew() {
    let mut game = hall();
    let mut objects = vec![new_player(10, 10), new_monster(MonsterKind::Orc, 12, 10)];
    objects[1].ai = Some(Ai::Confused { previous_ai: Behavior::Basic, num_turns: 3 });
    cast_confuse(&mut objects, &mut game, &all_in_sight(), Some(Target::Monster(1)));
    assert_eq!(
        objects[1].ai,
        Some(Ai::Confused { previous_ai: Behavior::Basic, num_turns: 10 })
    );
}

#[test]
fn confusion_gives_a_mindless_fighter_a_mind_to_return_to() {
    let mut game = hall();
    let mut objects = vec![new_player(10, 10), new_monster(MonsterKind::Orc, 12, 10)];
    objects[1].ai = None;
    cast_confuse(&mut objects, &mut game, &all_in_sight(), Some(Target::Monster(1)));
    assert_eq!(
        objects[1].ai,
        Some(Ai::Confused { previous_ai: Behavior::Basic, num_turns: 10 })
    );
}

#[test]
fn confusion_without_a_proper_target_is_cancelled() {
    let targets = [
        None,
        Some(Target::Tile(12, 10)),
        // the player
        Some(Target::Monster(0)),
        // an item
        Some(Target::Monster(2)),
        // nothing
        Some(Target::Monster(3)),
        Some(Target::Monster(usize::MAX)),
    ];
    for target in targets {
        let mut game = hall();
        let mut objects = vec![
            new_player(10, 10),
            new_monster(MonsterKind::Orc, 12, 10),
            new_item(Loot::Sword, 11, 10),
        ];
        let before = snapshot(&objects, &game);
        assert_eq!(cast_confuse(&mut objects, &mut game, &all_in_sight(), target), UseResult::Cancelled);
        assert_eq!(snapshot(&objects, &game), before);
        assert_eq!(texts(&game), vec![("No enemy is close enough to strike.", Color::Red)]);
    }
}

#[test]
fn confusion_does_not_reach_beyond_its_range_or_out_of_sight() {
    // 8 tiles off, 8.06 tiles off, and near but out of sight
    for (x, y, dark, result) in [
        (18, 10, false, UseResult::UsedUp),
        (18, 11, false, UseResult::Cancelled),
        (19, 10, false, UseResult::Cancelled),
        (12, 10, true, UseResult::Cancelled),
    ] {
        let mut game = hall();
        let mut sight = all_in_sight();
        if dark {
            sight[x as usize][y as usize] = false;
        }
        let mut objects = vec![new_player(10, 10), new_monster(MonsterKind::Orc, x, y)];
        let before = snapshot(&objects, &game);
        assert_eq!(
            cast_confuse(&mut objects, &mut game, &sight, Some(Target::Monster(1))),
            result
        );
        assert_eq!(snapshot(&objects, &game) == before, result == UseResult::Cancelled);
    }
}

#[test]
fn a_fireball_does_not_go_off_out_of_sight() {
    let mut game = hall();
    let mut sight = all_in_sight();
    sight[10][10] = false;
    let mut objects = vec![new_player(10, 13), new_monster(MonsterKind::Orc, 10, 10)];
    let before = snapshot(&objects, &game);
    for target in [Target::Tile(10, 10), Target::Tile(40, 40), Target::Tile(-1, 3)] {
        assert_eq!(
            cast_fireball(&mut objects, &mut game, &sight, Some(target)),
            UseResult::Cancelled
        );
        assert_eq!(snapshot(&objects, &game), before);
        assert!(game.log.is_empty());
    }
    // however far, as long as it is in sight
    assert_eq!(
        cast_fireball(&mut objects, &mut game, &sight, Some(Target::Tile(28, 28))),
        UseResult::UsedUp
    );
    assert_eq!(objects[1].fighter.unwrap().hp, 10);
}

#[test]
fn a_fireball_burns_every_fighter_within_its_radius() {
    let mut game = hall();
    let mut objects = vec![
        new_player(10, 13),
        new_monster(MonsterKind::Orc, 10, 10),
        new_monster(MonsterKind::Troll, 13, 10),
        new_monster(MonsterKind::Troll, 12, 12),
        new_monster(MonsterKind::Orc, 14, 10),
        new_monster(MonsterKind::Orc, 13, 11),
        new_item(Loot::Sword, 10, 10),
    ];
    let result = cast_fireball(&mut objects, &mut game, &all_in_sight(), Some(Target::Tile(10, 10)));
    assert_eq!(result, UseResult::UsedUp);
    // the player stands 3 tiles off and burns
    assert_eq!(objects[0].fighter.unwrap().hp, 18);
    assert_eq!(objects[0].fighter.unwrap().xp, 35);
    assert_eq!(objects[1].name, "remains of orc");
    assert_eq!(objects[2].fighter.unwrap().hp, 4);
    assert_eq!(objects[3].fighter.unwrap().hp, 4);
    // 4 tiles off, and 3.16 tiles off
    assert_eq!(objects[4].fighter.unwrap().hp, 10);
    assert_eq!(objects[5].fighter.unwrap().hp, 10);
    assert_eq!(objects[6].name, "sword");
    assert_eq!(
        texts(&game),
        vec![
            ("The fireball explodes, burning everything within 3 tiles!", Color::Orange),
            ("The player gets burned for 12 hit points.", Color::Orange),
            ("The orc gets burned for 12 hit points.", Color::Orange),
            ("orc is dead!", Color::Red),
            ("The troll gets burned for 12 hit points.", Color::Orange),
            ("The troll gets burned for 12 hit points.", Color::Orange),
        ]
    );
}

#[test]
fn a_fireball_awards_the_experience_in_one_sum() {
    let mut game = hall();
    let mut objects = vec![
        new_player(20, 20),
        new_monster(MonsterKind::Orc, 10, 10),
        new_monster(MonsterKind::Orc, 11, 10),
        new_monster(MonsterKind::Troll, 9, 10),
    ];
    let mut weak = objects[3].fighter.unwrap();
    weak.hp = 12;
    objects[3].fighter = Some(weak);
    cast_fireball(&mut objects, &mut game, &all_in_sight(), Some(Target::Tile(10, 10)));
    assert_eq!(objects[0].fighter.unwrap().xp, 35 + 35 + 100);
    assert_eq!(objects[0].fighter.unwrap().hp, 30);
    assert!(objects[1..].iter().all(|o| !o.alive && o.fighter.is_none()));
}

#[test]
fn a_fireball_can_kill_the_player() {
    let mut game = hall();
    let mut objects = vec![new_player(10, 10), new_monster(MonsterKind::Orc, 11, 10)];
    hurt_player(&mut objects, 12);
    cast_fireball(&mut objects, &mut game, &all_in_sight(), Some(Target::Tile(10, 10)));
    assert!(!objects[0].alive);
    assert_eq!(objects[0].fighter.unwrap().hp, 0);
    // the player's own death awards nothing; the orc's does
    assert_eq!(objects[0].fighter.unwrap().xp, 35);
    assert_eq!(
        texts(&game),
        vec![
            ("The fireball explodes, burning everything within 3 tiles!", Color::Orange),
            ("The player gets burned for 12 hit points.", Color::Orange),
            ("You died!", Color::Red),
            ("The orc gets burned for 12 hit points.", Color::Orange),
            ("orc is dead!", Color::Red),
        ]
    );
}

#[test]
fn a_fireball_without_a_position_is_cancelled() {
    for target in [None, Some(Target::Monster(1))] {
        let mut game = hall();
        let mut objects = vec![new_player(10, 10), new_monster(MonsterKind::Orc, 11, 10)];
        let before = snapshot(&objects, &game);
        assert_eq!(cast_fireball(&mut objects, &mut game, &all_in_sight(), target), UseResult::Cancelled);
        assert_eq!(snapshot(&objects, &game), before);
        assert!(game.log.is_empty());
    }
}

#[test]
fn what_an_item_is_aimed_at() {
    assert_eq!(targeting_of(Item::Heal), Targeting::Nothing);
    assert_eq!(targeting_of(Item::Lightning), Targeting::Nothing);
    assert_eq!(targeting_of(Item::Equipment), Targeting::Nothing);
    assert_eq!(targeting_of(Item::Confuse), Targeting::Monster { max_range: 8 });
    assert_eq!(targeting_of(Item::Fireball), Targeting::Tile);
}

#[test]
fn beginning_a_use_tells_how_to_aim() {
    let mut game = hall();
    game.inventory.push(new_item(Loot::HealingPotion, 0, 0));
    game.inventory.push(new_item(Loot::ConfusionScroll, 0, 0));
    game.inventory.push(new_item(Loot::FireballScroll, 0, 0));
    game.inventory.push(new_item(Loot::LightningScroll, 0, 0));
    game.inventory.push(new_monster(MonsterKind::Orc, 0, 0));
    assert_eq!(begin_use(0, &mut game), Targeting::Nothing);
    assert_eq!(begin_use(3, &mut game), Targeting::Nothing);
    assert_eq!(begin_use(4, &mut game), Targeting::Nothing);
    assert!(game.log.is_empty());
    assert_eq!(begin_use(1, &mut game), Targeting::Monster { max_range: 8 });
    assert_eq!(begin_use(2, &mut game), Targeting::Tile);
    assert_eq!(
        texts(&game),
        vec![
            ("Left-click an enemy to confuse it, or right-click to cancel.", Color::LightCyan),
            (
                "Left-click a target tile for the fireball, or right-click to cancel.",
                Color::LightCyan
            ),
        ]
    );
    assert_eq!(game.inventory.len(), 5);
}

#[test]
fn an_item_that_is_used_up_leaves_the_inventory() {
    let mut game = hall();
    game.inventory.push(new_item(Loot::Sword, 0, 0));
    game.inventory.push(new_item(Loot::HealingPotion, 0, 0));
    game.inventory.push(new_item(Loot::Shield, 0, 0));
    let mut objects = vec![new_player(5, 5)];
    hurt_player(&mut objects, 3);
    let result = use_item(1, None, &mut objects, &mut game, &all_in_sight());
    assert_eq!(result, UseResult::UsedUp);
    assert_eq!(objects[0].fighter.unwrap().hp, 7);
    let names: Vec<&str> = game.inventory.iter().map(|o| o.name.as_str()).collect();
    assert_eq!(names, vec!["sword", "shield"]);
    assert_eq!(texts(&game), vec![("Your wounds start to feel better!", Color::LightViolet)]);
}

#[test]
fn a_cancelled_use_changes_nothing_but_the_log() {
    let mut game = hall();
    game.inventory.push(new_item(Loot::HealingPotion, 0, 0));
    game.inventory.push(new_item(Loot::LightningScroll, 0, 0));
    game.inventory.push(new_item(Loot::ConfusionScroll, 0, 0));
    game.inventory.push(new_item(Loot::FireballScroll, 0, 0));
    let mut objects = vec![new_player(5, 5), new_monster(MonsterKind::Orc, 25, 25)];
    let before = snapshot(&objects, &game);
    for id in 0..4 {
        let result = use_item(id, None, &mut objects, &mut game, &all_in_sight());
        assert_eq!(result, UseResult::Cancelled);
        assert_eq!(snapshot(&objects, &game), before);
    }
    assert_eq!(
        texts(&game),
        vec![
            ("You are already at full health.", Color::Red),
            ("Cancelled", Color::White),
            ("No enemy is close enough to strike.", Color::Red),
            ("Cancelled", Color::White),
            ("No enemy is close enough to strike.", Color::Red),
            ("Cancelled", Color::White),
            ("Cancelled", Color::White),
        ]
    );
}

#[test]
fn using_a_scroll_at_its_target() {
    let mut game = hall();
    game.inventory.push(new_item(Loot::ConfusionScroll, 0, 0));
    game.inventory.push(new_item(Loot::FireballScroll, 0, 0));
    let mut objects = vec![new_player(5, 5), new_monster(MonsterKind::Troll, 8, 5)];
    let sight = all_in_sight();
    let result = use_item(0, Some(Target::Monster(1)), &mut objects, &mut game, &sight);
    assert_eq!(result, UseResult::UsedUp);
    assert!(matches!(objects[1].ai, Some(Ai::Confused { .. })));
    assert_eq!(game.inventory.len(), 1);
    let result = use_item(0, Some(Target::Tile(9, 5)), &mut objects, &mut game, &sight);
    assert_eq!(result, UseResult::UsedUp);
    assert_eq!(objects[1].fighter.unwrap().hp, 4);
    assert_eq!(objects[0].fighter.unwrap().hp, 30);
    assert!(game.inventory.is_empty());
}

#[test]
fn using_equipment_keeps_it() {
    let mut game = hall();
    game.inventory.push(new_item(Loot::Sword, 0, 0));
    let mut objects = vec![new_player(5, 5)];
    let sight = all_in_sight();
    assert_eq!(use_item(0, None, &mut objects, &mut game, &sight), UseResult::UsedAndKept);
    assert_eq!(game.inventory.len(), 1);
    assert!(game.inventory[0].equipment.unwrap().equipped);
    assert_eq!(objects[0].power(&game), 8);
    assert_eq!(use_item(0, None, &mut objects, &mut game, &sight), UseResult::UsedAndKept);
    assert!(!game.inventory[0].equipment.unwrap().equipped);
    assert_eq!(objects[0].power(&game), 5);
    assert_eq!(
        texts(&game),
        vec![
            ("Equipped sword on right hand.", Color::LightGreen),
            ("Dequipped sword from right hand.", Color::LightYellow),
        ]
    );
}

#[test]
fn what_has_no_use_cannot_be_used() {
    let mut game = hall();
    game.inventory.push(new_monster(MonsterKind::Orc, 0, 0));
    let mut objects = vec![new_player(5, 5)];
    let before = snapshot(&objects, &game);
    let result = use_item(0, None, &mut objects, &mut game, &all_in_sight());
    assert_eq!(result, UseResult::Cancelled);
    assert_eq!(snapshot(&objects, &game), before);
    assert_eq!(texts(&game), vec![("The orc cannot be used.", Color::White)]);
}

#[test]
fn an_item_marked_as_equipment_without_being_any_is_kept() {
    let mut game = hall();
    let mut odd = new_item(Loot::HealingPotion, 0, 0);
    odd.item = Some(Item::Equipment);
    game.inventory.push(odd);
    let mut objects = vec![new_player(5, 5)];
    let result = use_item(0, None, &mut objects, &mut game, &all_in_sight());
    assert_eq!(result, UseResult::Cancelled);
    assert_eq!(game.inventory.len(), 1);
    assert_eq!(texts(&game), vec![("Cancelled", Color::White)]);
}
