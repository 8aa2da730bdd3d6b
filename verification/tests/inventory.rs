use roguelike::color::Color;
use roguelike::game::Game;
use roguelike::inventory::{
    drop_item, get_equipped_in_slot, pick_item_up, toggle_equipment, UseResult,
    INVENTORY_CAPACITY,
};
use roguelike::object::{Object, Slot};
use roguelike::spawn::{new_item, new_monster, new_player, Loot, MonsterKind};

fn empty_game() -> Game {
    Game { map: Vec::new(), log: Vec::new(), inventory: Vec::new(), dungeon_level: 1 }
}

fn texts(game: &Game) -> Vec<(&str, Color)> {
    game.log.iter().map(|(text, color)| (text.as_str(), *color)).collect()
}

fn is_worn(item: &Object) -> bool {
    item.equipment.map_or(false, |e| e.equipped)
}

fn at_most_one_per_slot(inventory: &Vec<Object>) -> bool {
    [Slot::LeftHand, Slot::RightHand, Slot::Head].iter().all(|slot| {
        inventory
            .iter()
            .filter(|item| item.equipment.map_or(false, |e| e.equipped && e.slot == *slot))
            .count()
            <= 1
    })
}

fn helmet() -> Object {
    let mut helmet = new_item(Loot::Shield, 0, 0);
    helmet.name = String::from("helmet");
    let mut equipment = helmet.equipment.unwrap();
    equipment.slot = Slot::Head;
    helmet.equipment = Some(equipment);
    helmet
}

#[test]
fn picking_up_moves_the_item_into_the_inventory() {
    let mut game = empty_game();
    let mut objects = vec![
        new_player(3, 3),
        new_item(Loot::HealingPotion, 3, 3),
        new_monster(MonsterKind::Orc, 5, 5),
        new_item(Loot::FireballScroll, 7, 7),
    ];
    pick_item_up(1, &mut objects, &mut game);
    // the last object takes the slot of the one that left
    let names: Vec<&str> = objects.iter().map(|o| o.name.as_str()).collect();
    assert_eq!(names, vec!["player", "scroll of fireball", "orc"]);
    assert_eq!(game.inventory.len(), 1);
    assert_eq!(game.inventory[0].name, "healing potion");
    assert_eq!(game.inventory[0].pos(), (3, 3));
    assert_eq!(texts(&game), vec![("You picked up a healing potion!", Color::Green)]);
}

#[test]
fn picking_up_the_last_object_shortens_the_list() {
    let mut game = empty_game();
    let mut objects = vec![new_player(3, 3), new_item(Loot::HealingPotion, 3, 3)];
    pick_item_up(1, &mut objects, &mut game);
    assert_eq!(objects.len(), 1);
    assert_eq!(objects[0].name, "player");
}

#[test]
fn a_full_inventory_takes_nothing_more() {
    let mut game = empty_game();
    for _ in 0..INVENTORY_CAPACITY {
        game.inventory.push(new_item(Loot::HealingPotion, 0, 0));
    }
    let mut objects = vec![new_player(3, 3), new_item(Loot::Sword, 3, 3)];
    pick_item_up(1, &mut objects, &mut game);
    assert_eq!(objects.len(), 2);
    assert_eq!(objects[1].name, "sword");
    assert_eq!(game.inventory.len(), 26);
    assert_eq!(
        texts(&game),
        vec![("Your inventory is full, cannot pick up sword.", Color::Red)]
    );
}

#[test]
fn the_last_free_place_can_still_be_filled() {
    let mut game = empty_game();
    for _ in 0..INVENTORY_CAPACITY - 1 {
        game.inventory.push(new_item(Loot::HealingPotion, 0, 0));
    }
    let mut objects = vec![new_player(3, 3), new_item(Loot::ConfusionScroll, 3, 3)];
    pick_item_up(1, &mut objects, &mut game);
    assert_eq!(objects.len(), 1);
    assert_eq!(game.inventory.len(), 26);
    assert_eq!(game.inventory[25].name, "scroll of confusion");
}

#[test]
fn equipment_is_put_on_when_its_slot_is_free() {
    let mut game = empty_game();
    let mut objects = vec![new_player(3, 3), new_item(Loot::Sword, 3, 3)];
    pick_item_up(1, &mut objects, &mut game);
    assert!(is_worn(&game.inventory[0]));
    assert_eq!(
        texts(&game),
        vec![
            ("You picked up a sword!", Color::Green),
            ("Equipped sword on right hand.", Color::LightGreen),
        ]
    );
}

#[test]
fn equipment_is_not_put_on_when_its_slot_is_taken() {
    let mut game = empty_game();
    let mut objects = vec![
        new_player(3, 3),
        new_item(Loot::Sword, 3, 3),
        new_item(Loot::Sword, 3, 3),
        new_item(Loot::Shield, 3, 3),
    ];
    pick_item_up(1, &mut objects, &mut game);
    // the shield has moved into slot 1, the second sword is in slot 2
    pick_item_up(2, &mut objects, &mut game);
    pick_item_up(1, &mut objects, &mut game);
    let worn: Vec<(&str, bool)> =
        game.inventory.iter().map(|i| (i.name.as_str(), is_worn(i))).collect();
    assert_eq!(worn, vec![("sword", true), ("sword", false), ("shield", true)]);
    assert_eq!(
        texts(&game),
        vec![
            ("You picked up a sword!", Color::Green),
            ("Equipped sword on right hand.", Color::LightGreen),
            ("You picked up a sword!", Color::Green),
            ("You picked up a shield!", Color::Green),
            ("Equipped shield on left hand.", Color::LightGreen),
        ]
    );
}

#[test]
fn an_item_that_lay_there_marked_as_worn_is_not_worn_twice() {
    let mut game = empty_game();
    let mut first = new_item(Loot::Sword, 3, 3);
    let mut second = new_item(Loot::Sword, 3, 3);
    for item in [&mut first, &mut second] {
        let mut equipment = item.equipment.unwrap();
        equipment.equipped = true;
        item.equipment = Some(equipment);
    }
    let mut objects = vec![new_player(3, 3), first, second];
    pick_item_up(1, &mut objects, &mut game);
    pick_item_up(1, &mut objects, &mut game);
    assert!(is_worn(&game.inventory[0]));
    assert!(!is_worn(&game.inventory[1]));
    assert!(at_most_one_per_slot(&game.inventory));
}

#[test]
fn the_item_worn_in_a_slot_is_found() {
    let mut game = empty_game();
    game.inventory.push(new_item(Loot::HealingPotion, 0, 0));
    game.inventory.push(new_item(Loot::Sword, 0, 0));
    game.inventory.push(new_item(Loot::Shield, 0, 0));
    assert_eq!(get_equipped_in_slot(Slot::RightHand, &game.inventory), None);
    toggle_equipment(2, &mut game);
    assert_eq!(get_equipped_in_slot(Slot::LeftHand, &game.inventory), Some(2));
    assert_eq!(get_equipped_in_slot(Slot::RightHand, &game.inventory), None);
    assert_eq!(get_equipped_in_slot(Slot::Head, &game.inventory), None);
}

#[test]
fn using_equipment_puts_it_on_and_takes_it_off() {
    let mut game = empty_game();
    game.inventory.push(new_item(Loot::Sword, 0, 0));
    assert_eq!(toggle_equipment(0, &mut game), UseResult::UsedAndKept);
    assert!(is_worn(&game.inventory[0]));
    assert_eq!(toggle_equipment(0, &mut game), UseResult::UsedAndKept);
    assert!(!is_worn(&game.inventory[0]));
    assert_eq!(game.inventory.len(), 1);
    assert_eq!(
        texts(&game),
        vec![
            ("Equipped sword on right hand.", Color::LightGreen),
            ("Dequipped sword from right hand.", Color::LightYellow),
        ]
    );
}

#[test]
fn putting_on_takes_off_what_was_worn_in_the_slot() {
    let mut game = empty_game();
    let mut axe = new_item(Loot::Sword, 0, 0);
    axe.name = String::from("axe");
    game.inventory.push(new_item(Loot::Sword, 0, 0));
    game.inventory.push(new_item(Loot::Shield, 0, 0));
    game.inventory.push(axe);
    toggle_equipment(0, &mut game);
    toggle_equipment(1, &mut game);
    game.log.clear();
    assert_eq!(toggle_equipment(2, &mut game), UseResult::UsedAndKept);
    let worn: Vec<(&str, bool)> =
        game.inventory.iter().map(|i| (i.name.as_str(), is_worn(i))).collect();
    assert_eq!(worn, vec![("sword", false), ("shield", true), ("axe", true)]);
    assert_eq!(
        texts(&game),
        vec![
            ("Dequipped sword from right hand.", Color::LightYellow),
            ("Equipped axe on right hand.", Color::LightGreen),
        ]
    );
}

#[test]
fn what_is_no_equipment_cannot_be_put_on() {
    let mut game = empty_game();
    game.inventory.push(new_item(Loot::HealingPotion, 0, 0));
    assert_eq!(toggle_equipment(0, &mut game), UseResult::Cancelled);
    assert!(game.log.is_empty());
    let mut potion = new_item(Loot::HealingPotion, 0, 0);
    potion.equip(&mut game.log);
    potion.dequip(&mut game.log);
    assert_eq!(potion.equipment, None);
    assert_eq!(
        texts(&game),
        vec![
            ("Can't equip healing potion because it's not an Equipment.", Color::Red),
            ("Can't dequip healing potion because it's not an Equipment.", Color::Red),
        ]
    );
}

#[test]
fn putting_on_twice_is_said_once() {
    let mut log = Vec::new();
    let mut shield = new_item(Loot::Shield, 0, 0);
    shield.dequip(&mut log);
    assert!(log.is_empty());
    shield.equip(&mut log);
    shield.equip(&mut log);
    assert!(is_worn(&shield));
    assert_eq!(log.len(), 1);
    assert_eq!(log[0], (String::from("Equipped shield on left hand."), Color::LightGreen));
    shield.dequip(&mut log);
    shield.dequip(&mut log);
    assert!(!is_worn(&shield));
    assert_eq!(log.len(), 2);
    assert_eq!(log[1], (String::from("Dequipped shield from left hand."), Color::LightYellow));
    let mut hat = helmet();
    hat.equip(&mut log);
    assert_eq!(log[2], (String::from("Equipped helmet on head."), Color::LightGreen));
}

#[test]
fn dropping_puts_the_item_at_the_players_feet() {
    let mut game = empty_game();
    game.inventory.push(new_item(Loot::HealingPotion, 1, 1));
    game.inventory.push(new_item(Loot::FireballScroll, 2, 2));
    game.inventory.push(new_item(Loot::ConfusionScroll, 3, 3));
    let mut objects = vec![new_player(8, 9), new_monster(MonsterKind::Orc, 5, 5)];
    drop_item(1, &mut objects, &mut game);
    let names: Vec<&str> = game.inventory.iter().map(|o| o.name.as_str()).collect();
    assert_eq!(names, vec!["healing potion", "scroll of confusion"]);
    assert_eq!(objects.len(), 3);
    assert_eq!(objects[2].name, "scroll of fireball");
    assert_eq!(objects[2].pos(), (8, 9));
    assert_eq!(texts(&game), vec![("You dropped a scroll of fireball.", Color::Yellow)]);
}

#[test]
fn dropping_takes_worn_equipment_off_first() {
    let mut game = empty_game();
    let mut objects = vec![new_player(8, 9), new_item(Loot::Sword, 8, 9)];
    pick_item_up(1, &mut objects, &mut game);
    game.log.clear();
    drop_item(0, &mut objects, &mut game);
    assert!(game.inventory.is_empty());
    assert_eq!(objects[1].name, "sword");
    assert!(!is_worn(&objects[1]));
    assert_eq!(
        texts(&game),
        vec![
            ("Dequipped sword from right hand.", Color::LightYellow),
            ("You dropped a sword.", Color::Yellow),
        ]
    );
}

#[test]
fn dropping_equipment_that_is_not_worn_says_so_once() {
    let mut game = empty_game();
    game.inventory.push(new_item(Loot::Shield, 0, 0));
    let mut objects = vec![new_player(8, 9)];
    drop_item(0, &mut objects, &mut game);
    assert_eq!(texts(&game), vec![("You dropped a shield.", Color::Yellow)]);
}

#[test]
fn no_slot_ever_holds_two_worn_items() {
    let mut game = empty_game();
    let mut axe = new_item(Loot::Sword, 4, 4);
    axe.name = String::from("axe");
    let mut objects = vec![
        new_player(4, 4),
        new_item(Loot::Sword, 4, 4),
        new_item(Loot::Shield, 4, 4),
        axe,
        helmet(),
        new_item(Loot::Shield, 4, 4),
        new_item(Loot::HealingPotion, 4, 4),
    ];
    while objects.len() > 1 {
        pick_item_up(1, &mut objects, &mut game);
        assert!(at_most_one_per_slot(&game.inventory));
    }
    assert_eq!(game.inventory.len(), 6);
    // put everything on and off in turn, several times over
    for round in 0..4 {
        for id in 0..game.inventory.len() {
            toggle_equipment((id * 5 + round) % 6, &mut game);
            assert!(at_most_one_per_slot(&game.inventory));
        }
    }
    // drop, pick up again, toggle
    for _ in 0..3 {
        drop_item(0, &mut objects, &mut game);
        assert!(at_most_one_per_slot(&game.inventory));
        toggle_equipment(1, &mut game);
        assert!(at_most_one_per_slot(&game.inventory));
        pick_item_up(1, &mut objects, &mut game);
        assert!(at_most_one_per_slot(&game.inventory));
        toggle_equipment(5, &mut game);
        assert!(at_most_one_per_slot(&game.inventory));
    }
    assert_eq!(game.inventory.len(), 6);
}
