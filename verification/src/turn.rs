//! The course of a game: its beginning, what a key press leads to, the
//! monsters' answer, growing stronger, and going down.

use crate::ai::{after_turns, all_stumbles, mut_two, take_monster_turns};
use crate::color::Color;
use crate::combat::{attack_log, attacked, attacker_after, Stat};
use crate::game::{add_message, Game, GameView};
use crate::geometry::{clamp_i32, half, saturate};
use crate::inventory::{
    drop_item, drop_log, dropped, pick_item_up, stow_log, stowed, without, INVENTORY_CAPACITY,
};
use crate::mapgen::{make_map, populated, LayoutView, MAP_HEIGHT, MAP_WIDTH};
use crate::messages::{inventory_full_text, join_number, level_up_text};
use crate::movement::{find_at, first_at, lemma_first_at, move_by, moved, Wanted};
use crate::object::{Fighter, Object, ObjectView, PLAYER};
use crate::spawn::{new_player, player_view, SpawnPolicy, SpawnPolicyView};
use crate::tile::SightGrid;
use vstd::pervasive::unreached;
use vstd::prelude::*;

verus! {

/// What a key press came to.
#[derive(Clone, Copy, Debug, PartialEq, Eq, Structural)]
pub enum PlayerAction {
    /// The player acted, and the monsters answer.
    TookTurn,
    /// Nothing that costs a turn happened.
    DidntTakeTurn,
    /// The player leaves the game.
    Exit,
}

/// The keys that the game tells apart.
#[derive(Clone, Copy, Debug, PartialEq, Eq, Structural)]
pub enum KeyCode {
    Enter,
    Escape,
    Up,
    Down,
    Left,
    Right,
    /// A key that types the character in [`Key::printable`].
    Char,
    /// Any other key.
    Other,
}

/// A key press.
#[derive(Clone, Copy, Debug, PartialEq, Eq, Structural)]
pub struct Key {
    pub code: KeyCode,
    pub printable: char,
    pub alt: bool,
}

/// What the player asks for.
#[derive(Clone, Copy, Debug, PartialEq, Eq, Structural)]
pub enum Command {
    ToggleFullscreen,
    Quit,
    /// Step by `(dx, dy)`, or strike what stands there.
    Move { dx: i32, dy: i32 },
    PickUp,
    OpenInventory,
    OpenDropMenu,
    Descend,
    ShowCharacter,
    /// Nothing that the game knows of.
    Nothing,
}

/// What is left for the caller to do after a command: the game does not
/// draw, open menus or scan for what is in sight.
#[derive(Clone, Copy, Debug, PartialEq, Eq, Structural)]
pub enum FollowUp {
    Nothing,
    ToggleFullscreen,
    /// Let the player choose an item of the inventory and use it.
    ChooseItemToUse,
    /// Let the player choose an item of the inventory and hand the choice to
    /// [`drop_selected`].
    ChooseItemToDrop,
    ShowCharacterScreen,
    /// The level is a new one: what is in sight has to be found anew.
    LevelChanged,
}

/// The command that a key press stands for. A dead player can still leave
/// the game and switch the display, and nothing else.
pub open spec fn command_of(key: Key, player_alive: bool) -> Command {
    if key.code == KeyCode::Enter && key.alt {
        Command::ToggleFullscreen
    } else if key.code == KeyCode::Escape {
        Command::Quit
    } else if key.code == KeyCode::Char && key.printable == 'q' {
        Command::Quit
    } else if !player_alive {
        Command::Nothing
    } else if key.code == KeyCode::Up {
        Command::Move { dx: 0, dy: -1i32 }
    } else if key.code == KeyCode::Down {
        Command::Move { dx: 0, dy: 1 }
    } else if key.code == KeyCode::Left {
        Command::Move { dx: -1i32, dy: 0 }
    } else if key.code == KeyCode::Right {
        Command::Move { dx: 1, dy: 0 }
    } else if key.printable == 'g' {
        Command::PickUp
    } else if key.printable == 'i' {
        Command::OpenInventory
    } else if key.printable == 'd' {
        Command::OpenDropMenu
    } else if key.printable == '>' {
        Command::Descend
    } else if key.printable == 'c' {
        Command::ShowCharacter
    } else {
        Command::Nothing
    }
}

/// The command that a key press stands for.
pub fn read_key(key: Key, player_alive: bool) -> (command: Command)
    ensures
        command == command_of(key, player_alive),
{
    match (key.code, player_alive) {
        (KeyCode::Enter, _) if key.alt => Command::ToggleFullscreen,
        (KeyCode::Escape, _) => Command::Quit,
        (KeyCode::Char, _) if key.printable == 'q' => Command::Quit,
        (_, false) => Command::Nothing,
        (KeyCode::Up, true) => Command::Move { dx: 0, dy: -1 },
        (KeyCode::Down, true) => Command::Move { dx: 0, dy: 1 },
        (KeyCode::Left, true) => Command::Move { dx: -1, dy: 0 },
        (KeyCode::Right, true) => Command::Move { dx: 1, dy: 0 },
        (_, true) => {
            if key.printable == 'g' {
                Command::PickUp
            } else if key.printable == 'i' {
                Command::OpenInventory
            } else if key.printable == 'd' {
                Command::OpenDropMenu
            } else if key.printable == '>' {
                Command::Descend
            } else if key.printable == 'c' {
                Command::ShowCharacter
            } else {
                Command::Nothing
            }
        },
    }
}

/// Where the player's step by `(dx, dy)` leads.
pub open spec fn goal(objects: Seq<ObjectView>, dx: int, dy: int) -> (i32, i32) {
    (
        clamp_i32(objects[PLAYER as int].x + dx),
        clamp_i32(objects[PLAYER as int].y + dy),
    )
}

/// The objects after the player stepped by `(dx, dy)`: a fighter that stands
/// at the goal has been struck, else the player has moved there if nothing
/// blocked the way.
pub open spec fn step_objects(
    objects: Seq<ObjectView>,
    game: GameView,
    dx: int,
    dy: int,
) -> Seq<ObjectView> {
    let (x, y) = goal(objects, dx, dy);
    let player = objects[PLAYER as int];
    match first_at(objects, x as int, y as int, Wanted::Fighter) {
        Some(t) => objects.update(t, attacked(player, objects[t], game.inventory)).update(
            PLAYER as int,
            attacker_after(player, objects[t], game.inventory),
        ),
        None => moved(game.map, objects, PLAYER as int, dx, dy),
    }
}

/// What the player's step by `(dx, dy)` writes to the log.
pub open spec fn step_log(objects: Seq<ObjectView>, game: GameView, dx: int, dy: int) -> Seq<
    (Seq<char>, Color),
> {
    let (x, y) = goal(objects, dx, dy);
    match first_at(objects, x as int, y as int, Wanted::Fighter) {
        Some(t) => attack_log(objects[PLAYER as int], objects[t], game.inventory),
        None => seq![],
    }
}

/// The player steps by `(dx, dy)`, or strikes the fighter that stands
/// there.
pub fn player_move_or_attack(dx: i32, dy: i32, objects: &mut Vec<Object>, game: &mut Game)
    requires
        PLAYER < old(objects)@.len(),
    ensures
        final(objects).deep_view() == step_objects(
            old(objects).deep_view(),
            old(game)@,
            dx as int,
            dy as int,
        ),
        final(game)@ == old(game)@.logged(
            step_log(old(objects).deep_view(), old(game)@, dx as int, dy as int),
        ),
{
    let ghost before = objects.deep_view();
    let x = saturate(objects[PLAYER].x as i128 + dx as i128);
    let y = saturate(objects[PLAYER].y as i128 + dy as i128);
    match find_at(x, y, objects, Wanted::Fighter) {
        Some(target_id) => {
            proof {
                lemma_first_at(before, x as int, y as int, Wanted::Fighter);
            }
            let (player, target) = mut_two(PLAYER, target_id, objects.as_mut_slice());
            player.attack(target, game);
            assert(objects.deep_view() =~= step_objects(before, old(game)@, dx as int, dy as int));
        },
        None => {
            move_by(PLAYER, dx, dy, &game.map, objects);
            assert(game@.log + Seq::<(Seq<char>, Color)>::empty() =~= game@.log);
        },
    }
}

/// The experience that the first level-up takes.
pub const LEVEL_UP_BASE: i32 = 200;

/// How much more experience each further level-up takes.
pub const LEVEL_UP_FACTOR: i32 = 150;

/// What the player trains on reaching a new level.
#[derive(Clone, Copy, Debug, PartialEq, Eq, Structural)]
pub enum StatChoice {
    /// 20 more hit points, at once and for good.
    Constitution,
    /// 1 more power.
    Strength,
    /// 1 more defense.
    Agility,
}

/// The experience that it takes to rise above `level`.
pub open spec fn level_up_xp(level: int) -> int {
    LEVEL_UP_BASE + level * LEVEL_UP_FACTOR
}

/// The fighter with the chosen figure raised.
pub open spec fn trained(fighter: Fighter, choice: StatChoice) -> Fighter {
    match choice {
        StatChoice::Constitution => Fighter {
            max_hp: clamp_i32(fighter.max_hp + 20),
            hp: clamp_i32(fighter.hp + 20),
            ..fighter
        },
        StatChoice::Strength => Fighter { power: clamp_i32(fighter.power + 1), ..fighter },
        StatChoice::Agility => Fighter { defense: clamp_i32(fighter.defense + 1), ..fighter },
    }
}

impl ObjectView {
    /// Whether the object has the experience to rise a level.
    pub open spec fn level_up_due(self) -> bool {
        self.fighter matches Some(f) && f.xp >= level_up_xp(self.level as int)
    }

    /// The object one level up: the experience that the level took is spent
    /// and the chosen figure is raised.
    pub open spec fn leveled_up(self, choice: StatChoice) -> ObjectView {
        match self.fighter {
            Some(f) => ObjectView {
                level: clamp_i32(self.level + 1),
                fighter: Some(
                    trained(
                        Fighter { xp: clamp_i32(f.xp - level_up_xp(self.level as int)), ..f },
                        choice,
                    ),
                ),
                ..self
            },
            None => self,
        }
    }
}

/// Whether the player has the experience to rise a level. While this holds
/// the caller asks the player what to train and calls [`level_up`]: one
/// large award can be worth several levels.
pub fn level_up_due(objects: &Vec<Object>) -> (due: bool)
    requires
        PLAYER < objects@.len(),
    ensures
        due == objects.deep_view()[PLAYER as int].level_up_due(),
{
    match objects[PLAYER].fighter {
        Some(f) => f.xp as i64 >= LEVEL_UP_BASE as i64 + objects[PLAYER].level as i64
            * LEVEL_UP_FACTOR as i64,
        None => false,
    }
}

/// Raises the player one level if the experience is there, and returns
/// whether it was. Nothing changes if it was not.
pub fn level_up(objects: &mut Vec<Object>, game: &mut Game, choice: StatChoice) -> (risen: bool)
    requires
        PLAYER < old(objects)@.len(),
    ensures
        risen == old(objects).deep_view()[PLAYER as int].level_up_due(),
        final(objects).deep_view() == if risen {
            old(objects).deep_view().update(
                PLAYER as int,
                old(objects).deep_view()[PLAYER as int].leveled_up(choice),
            )
        } else {
            old(objects).deep_view()
        },
        final(game)@ == old(game)@.logged(
            if risen {
                seq![
                    (
                        level_up_text(clamp_i32(old(objects)@[PLAYER as int].level + 1) as int),
                        Color::Yellow,
                    ),
                ]
            } else {
                seq![]
            },
        ),
{
    let ghost before = objects.deep_view();
    let fighter = match objects[PLAYER].fighter {
        Some(f) => f,
        None => {
            assert(game@.log + Seq::<(Seq<char>, Color)>::empty() =~= game@.log);
            return false;
        },
    };
    let level = objects[PLAYER].level;
    let needed: i64 = LEVEL_UP_BASE as i64 + level as i64 * LEVEL_UP_FACTOR as i64;
    if (fighter.xp as i64) < needed {
        assert(game@.log + Seq::<(Seq<char>, Color)>::empty() =~= game@.log);
        return false;
    }
    let new_level = saturate(level as i128 + 1);
    add_message(
        &mut game.log,
        join_number("Your battle skills grow stronger! You reached level ", new_level, "!"),
        Color::Yellow,
    );
    let xp = saturate(fighter.xp as i128 - needed as i128);
    let raised = match choice {
        StatChoice::Constitution => Fighter {
            max_hp: saturate(fighter.max_hp as i128 + 20),
            hp: saturate(fighter.hp as i128 + 20),
            defense: fighter.defense,
            power: fighter.power,
            xp: xp,
            on_death: fighter.on_death,
        },
        StatChoice::Strength => Fighter {
            max_hp: fighter.max_hp,
            hp: fighter.hp,
            defense: fighter.defense,
            power: saturate(fighter.power as i128 + 1),
            xp: xp,
            on_death: fighter.on_death,
        },
        StatChoice::Agility => Fighter {
            max_hp: fighter.max_hp,
            hp: fighter.hp,
            defense: saturate(fighter.defense as i128 + 1),
            power: fighter.power,
            xp: xp,
            on_death: fighter.on_death,
        },
    };
    objects[PLAYER].level = new_level;
    objects[PLAYER].fighter = Some(raised);
    assert(objects.deep_view() =~= before.update(
        PLAYER as int,
        before[PLAYER as int].leveled_up(choice),
    ));
    assert(game@.log =~= old(game)@.log + seq![
        (level_up_text(clamp_i32(old(objects)@[PLAYER as int].level + 1) as int), Color::Yellow),
    ]);
    true
}

/// Whether a game has just begun on the level laid out as `layout`: the
/// player stands in the middle of the first room, the level's population
/// follows in the object list, the log bids welcome, the inventory is empty
/// and the depth is 1.
pub open spec fn begun(
    policy: SpawnPolicyView,
    layout: LayoutView,
    objects: Seq<ObjectView>,
    game: GameView,
) -> bool {
    &&& layout.wf()
    &&& layout.width == MAP_WIDTH
    &&& layout.height == MAP_HEIGHT
    &&& populated(policy, 1, layout, seq![], objects.drop_first())
    &&& objects.len() > 0
    &&& (objects[0].x as int, objects[0].y as int) == layout.rooms[0].spec_center()
    &&& objects[0] == player_view(objects[0].x, objects[0].y)
    &&& game == (GameView {
        map: layout.map,
        log: seq![
            (
                "Welcome stranger! Prepare to perish in the Tombs of the Ancient Kings."@,
                Color::Red,
            ),
        ],
        inventory: seq![],
        dungeon_level: 1,
    })
}

/// Begins a game: generates the first level and puts the player into it.
pub fn new_game(policy: &SpawnPolicy) -> (start: (Vec<Object>, Game))
    ensures
        exists|layout: LayoutView| #[trigger] begun(policy@, layout, start.0.deep_view(), start.1@),
{
    let mut objects: Vec<Object> = Vec::new();
    match make_map(&mut objects, MAP_WIDTH, MAP_HEIGHT, 1, policy) {
        Ok(layout) => {
            let ghost plan = layout@;
            let ghost spawned = objects.deep_view();
            let (player_x, player_y) = match layout.start() {
                Some(p) => p,
                None => (0, 0),
            };
            let player = new_player(player_x, player_y);
            objects.insert(0, player);
            let mut game = Game {
                map: layout.into_map(),
                log: Vec::new(),
                inventory: Vec::new(),
                dungeon_level: 1,
            };
            add_message(
                &mut game.log,
                String::from_str(
                    "Welcome stranger! Prepare to perish in the Tombs of the Ancient Kings.",
                ),
                Color::Red,
            );
            proof {
                assert(objects.deep_view().drop_first() =~= spawned);
                assert(objects.deep_view()[0] == player_view(player_x, player_y));
                assert(game@.log =~= seq![
                    (
                        "Welcome stranger! Prepare to perish in the Tombs of the Ancient Kings."@,
                        Color::Red,
                    ),
                ]);
                assert(game@.inventory =~= Seq::<ObjectView>::empty());
            }
            let start = (objects, game);
            assert(begun(policy@, plan, start.0.deep_view(), start.1@));
            start
        },
        Err(_) => unreached(),
    }
}

/// What the log says of a descent.
pub open spec fn descent_text() -> Seq<char> {
    "After a rare moment of peace, you descend deeper into the heart of the dungeon..."@
}

/// The player after the rest before a descent: half of the most hit points
/// it can have are given back.
pub open spec fn rested(player: ObjectView, inventory: Seq<ObjectView>) -> ObjectView {
    let max_hp = player.effective(Stat::MaxHp, inventory);
    player.healed(half(max_hp as int), max_hp as int)
}

/// Whether the game has gone one level down, onto the level laid out as
/// `layout`. The player has rested and stands in the middle of the first
/// room. Of the old level's objects nothing but the player is left; the new
/// level's population follows it in the object list. The log tells of the
/// rest and of the descent, and the depth is one more.
pub open spec fn descended(
    policy: SpawnPolicyView,
    layout: LayoutView,
    objects: Seq<ObjectView>,
    game: GameView,
    objects_after: Seq<ObjectView>,
    game_after: GameView,
) -> bool {
    let player = rested(objects[PLAYER as int], game.inventory);
    &&& layout.wf()
    &&& layout.width == MAP_WIDTH
    &&& layout.height == MAP_HEIGHT
    &&& populated(
        policy,
        if game.dungeon_level < u32::MAX {
            (game.dungeon_level + 1) as u32
        } else {
            game.dungeon_level
        },
        layout,
        seq![player],
        objects_after.update(PLAYER as int, player),
    )
    &&& objects_after.len() > 0
    &&& (objects_after[0].x as int, objects_after[0].y as int) == layout.rooms[0].spec_center()
    &&& objects_after[0] == (ObjectView { x: objects_after[0].x, y: objects_after[0].y, ..player })
    &&& game_after == (GameView {
        map: layout.map,
        dungeon_level: if game.dungeon_level < u32::MAX {
            (game.dungeon_level + 1) as u32
        } else {
            game.dungeon_level
        },
        ..game.logged(
            seq![
                ("You take a moment to rest, and recover your strength."@, Color::Violet),
                (descent_text(), Color::Red),
            ],
        )
    })
}

/// Takes the player one level down: a rest, then a new level with a new
/// population.
pub fn next_level(objects: &mut Vec<Object>, game: &mut Game, policy: &SpawnPolicy)
    requires
        PLAYER < old(objects)@.len(),
    ensures
        exists|layout: LayoutView| #[trigger]
            descended(
                policy@,
                layout,
                old(objects).deep_view(),
                old(game)@,
                final(objects).deep_view(),
                final(game)@,
            ),
{
    let ghost before = objects.deep_view();
    let ghost game_before = game@;
    add_message(
        &mut game.log,
        String::from_str("You take a moment to rest, and recover your strength."),
        Color::Violet,
    );
    let heal_hp = objects[PLAYER].max_hp(game) / 2;
    objects[PLAYER].heal(heal_hp, game);
    add_message(
        &mut game.log,
        String::from_str(
            "After a rare moment of peace, you descend deeper into the heart of the dungeon...",
        ),
        Color::Red,
    );
    if game.dungeon_level < u32::MAX {
        game.dungeon_level = game.dungeon_level + 1;
    }
    objects.truncate(1);
    let ghost player = rested(before[PLAYER as int], game_before.inventory);
    assert(objects.deep_view() =~= seq![player]);
    match make_map(objects, MAP_WIDTH, MAP_HEIGHT, game.dungeon_level, policy) {
        Ok(layout) => {
            let ghost plan = layout@;
            let ghost generated = objects.deep_view();
            let (player_x, player_y) = match layout.start() {
                Some(p) => p,
                None => (0, 0),
            };
            game.map = layout.into_map();
            assert(generated.take(1) == seq![player]);
            assert(generated[0] == generated.take(1)[0]);
            objects[PLAYER].set_pos(player_x, player_y);
            proof {
                assert(objects.deep_view().update(PLAYER as int, player) =~= generated);
                assert(game@.log =~= game_before.log + seq![
                    ("You take a moment to rest, and recover your strength."@, Color::Violet),
                    (descent_text(), Color::Red),
                ]);
                assert(descended(policy@, plan, before, game_before, objects.deep_view(), game@));
            }
        },
        Err(_) => {
            assert(false);
        },
    }
}

/// Whether the player stands on the stairs: an object named `stairs` is at
/// the player's position.
pub open spec fn on_stairs(objects: Seq<ObjectView>) -> bool {
    exists|i: int|
        0 <= i < objects.len() && (#[trigger] objects[i]).is_at(
            objects[PLAYER as int].x as int,
            objects[PLAYER as int].y as int,
        ) && objects[i].name == "stairs"@
}

/// Whether the player stands on the stairs.
pub fn player_on_stairs(objects: &Vec<Object>) -> (b: bool)
    requires
        PLAYER < objects@.len(),
    ensures
        b == on_stairs(objects.deep_view()),
{
    let x = objects[PLAYER].x;
    let y = objects[PLAYER].y;
    let stairs = String::from_str("stairs");
    let mut i: usize = 0;
    while i < objects.len()
        invariant
            i <= objects@.len(),
            PLAYER < objects@.len(),
            stairs@ == "stairs"@,
            x == objects@[PLAYER as int].x,
            y == objects@[PLAYER as int].y,
            forall|j: int|
                0 <= j < i ==> !((#[trigger] objects.deep_view()[j]).is_at(x as int, y as int)
                    && objects.deep_view()[j].name == "stairs"@),
        decreases objects@.len() - i,
    {
        if objects[i].x == x && objects[i].y == y && objects[i].name == stairs {
            assert(objects.deep_view()[i as int].is_at(x as int, y as int));
            return true;
        }
        i += 1;
    }
    false
}

/// Carries out a command.
pub fn handle_command(
    command: Command,
    objects: &mut Vec<Object>,
    game: &mut Game,
    policy: &SpawnPolicy,
) -> (response: (PlayerAction, FollowUp))
    requires
        PLAYER < old(objects)@.len(),
    ensures
        handled(
            policy@,
            command,
            old(objects).deep_view(),
            old(game)@,
            final(objects).deep_view(),
            final(game)@,
            response,
        ),
{
    match command {
        Command::ToggleFullscreen => (PlayerAction::DidntTakeTurn, FollowUp::ToggleFullscreen),
        Command::Quit => (PlayerAction::Exit, FollowUp::Nothing),
        Command::Move { dx, dy } => {
            player_move_or_attack(dx, dy, objects, game);
            (PlayerAction::TookTurn, FollowUp::Nothing)
        },
        Command::PickUp => {
            let item_id = find_at(objects[PLAYER].x, objects[PLAYER].y, objects, Wanted::Item);
            match item_id {
                Some(item_id) => {
                    proof {
                        lemma_first_at(
                            old(objects).deep_view(),
                            old(objects)@[PLAYER as int].x as int,
                            old(objects)@[PLAYER as int].y as int,
                            Wanted::Item,
                        );
                    }
                    pick_item_up(item_id, objects, game);
                },
                None => {},
            }
            (PlayerAction::TookTurn, FollowUp::Nothing)
        },
        Command::OpenInventory => (PlayerAction::DidntTakeTurn, FollowUp::ChooseItemToUse),
        Command::OpenDropMenu => (PlayerAction::DidntTakeTurn, FollowUp::ChooseItemToDrop),
        Command::Descend => {
            if player_on_stairs(objects) {
                next_level(objects, game, policy);
                (PlayerAction::DidntTakeTurn, FollowUp::LevelChanged)
            } else {
                (PlayerAction::DidntTakeTurn, FollowUp::Nothing)
            }
        },
        Command::ShowCharacter => (PlayerAction::DidntTakeTurn, FollowUp::ShowCharacterScreen),
        Command::Nothing => (PlayerAction::DidntTakeTurn, FollowUp::Nothing),
    }
}

/// Whether nothing has changed.
pub open spec fn unchanged(
    objects: &Vec<Object>,
    game: &Game,
    objects_after: &Vec<Object>,
    game_after: &Game,
) -> bool {
    objects_after.deep_view() == objects.deep_view() && game_after@ == game@
}

/// Whether the player has picked up what lies at its feet: the first item
/// at the player's position, if there is one and the inventory has room for
/// it. With the inventory full the item stays and the log says so; with no
/// item there nothing happens.
pub open spec fn picked_up(
    objects: Seq<ObjectView>,
    game: GameView,
    objects_after: Seq<ObjectView>,
    game_after: GameView,
) -> bool {
    match first_at(
        objects,
        objects[PLAYER as int].x as int,
        objects[PLAYER as int].y as int,
        Wanted::Item,
    ) {
        Some(id) => if game.inventory.len() >= INVENTORY_CAPACITY {
            objects_after == objects && game_after == game.logged(
                seq![(inventory_full_text(objects[id].name), Color::Red)],
            )
        } else {
            objects_after == without(objects, id) && game_after == (GameView {
                inventory: game.inventory.push(stowed(game.inventory, objects[id])),
                ..game.logged(stow_log(game.inventory, objects[id]))
            })
        },
        None => objects_after == objects && game_after == game,
    }
}

/// Carries out the command that a key press stands for.
pub fn handle_keys(
    key: Key,
    objects: &mut Vec<Object>,
    game: &mut Game,
    policy: &SpawnPolicy,
) -> (response: (PlayerAction, FollowUp))
    requires
        PLAYER < old(objects)@.len(),
    ensures
        handled(
            policy@,
            command_of(key, old(objects)@[PLAYER as int].alive),
            old(objects).deep_view(),
            old(game)@,
            final(objects).deep_view(),
            final(game)@,
            response,
        ),
{
    let player_alive = objects[PLAYER].alive;
    handle_command(read_key(key, player_alive), objects, game, policy)
}

/// Whether `command` led from one state to the other with `response`.
///
/// A step or a blow and picking up cost a turn, whether or not anything
/// came of them. Opening a menu, the character screen, switching the
/// display and going down the stairs cost none, and only going down the
/// stairs changes anything. What only the caller can do is handed back as
/// the follow-up.
pub open spec fn handled(
    policy: SpawnPolicyView,
    command: Command,
    objects: Seq<ObjectView>,
    game: GameView,
    objects_after: Seq<ObjectView>,
    game_after: GameView,
    response: (PlayerAction, FollowUp),
) -> bool {
    let same = objects_after == objects && game_after == game;
    match command {
        Command::ToggleFullscreen => response == (
            PlayerAction::DidntTakeTurn,
            FollowUp::ToggleFullscreen,
        ) && same,
        Command::Quit => response == (PlayerAction::Exit, FollowUp::Nothing) && same,
        Command::Move { dx, dy } => {
            &&& response == (PlayerAction::TookTurn, FollowUp::Nothing)
            &&& objects_after == step_objects(objects, game, dx as int, dy as int)
            &&& game_after == game.logged(step_log(objects, game, dx as int, dy as int))
        },
        Command::PickUp => response == (PlayerAction::TookTurn, FollowUp::Nothing) && picked_up(
            objects,
            game,
            objects_after,
            game_after,
        ),
        Command::OpenInventory => response == (
            PlayerAction::DidntTakeTurn,
            FollowUp::ChooseItemToUse,
        ) && same,
        Command::OpenDropMenu => response == (
            PlayerAction::DidntTakeTurn,
            FollowUp::ChooseItemToDrop,
        ) && same,
        Command::Descend => if on_stairs(objects) {
            &&& response == (PlayerAction::DidntTakeTurn, FollowUp::LevelChanged)
            &&& exists|layout: LayoutView| #[trigger]
                descended(policy, layout, objects, game, objects_after, game_after)
        } else {
            response == (PlayerAction::DidntTakeTurn, FollowUp::Nothing) && same
        },
        Command::ShowCharacter => response == (
            PlayerAction::DidntTakeTurn,
            FollowUp::ShowCharacterScreen,
        ) && same,
        Command::Nothing => response == (PlayerAction::DidntTakeTurn, FollowUp::Nothing) && same,
    }
}

/// Drops the item that the player chose from the drop menu. A drop costs a
/// turn; no choice, or one that names no item, costs none and changes
/// nothing.
pub fn drop_selected(
    selection: Option<usize>,
    objects: &mut Vec<Object>,
    game: &mut Game,
) -> (action: PlayerAction)
    requires
        PLAYER < old(objects)@.len(),
    ensures
        match selection {
            Some(id) if id < old(game)@.inventory.len() => {
                &&& action == PlayerAction::TookTurn
                &&& final(objects).deep_view() == old(objects).deep_view().push(
                    dropped(
                        old(game)@.inventory[id as int],
                        old(objects)@[PLAYER as int].x,
                        old(objects)@[PLAYER as int].y,
                    ),
                )
                &&& final(game)@ == (GameView {
                    inventory: old(game)@.inventory.remove(id as int),
                    ..old(game)@.logged(drop_log(old(game)@.inventory[id as int]))
                })
            },
            _ => action == PlayerAction::DidntTakeTurn && unchanged(
                old(objects),
                old(game),
                final(objects),
                final(game),
            ),
        },
{
    match selection {
        Some(id) => {
            if id < game.inventory.len() {
                drop_item(id, objects, game);
                PlayerAction::TookTurn
            } else {
                PlayerAction::DidntTakeTurn
            }
        },
        None => PlayerAction::DidntTakeTurn,
    }
}

/// Where a frame stands.
#[derive(Clone, Copy, Debug, PartialEq, Eq, Structural)]
pub enum Phase {
    /// The game waits for the next key.
    AwaitingInput,
    /// The monsters take their turns, then the game waits for the next key.
    ResolvingAi,
    /// The game is over for now: the caller saves it and leaves.
    Stopped,
}

/// What follows the player's action. The monsters move only after an action
/// that cost a turn, and only while the player lives. Leaving ends the frame
/// at once.
pub fn phase_after(action: PlayerAction, player_alive: bool) -> (phase: Phase)
    ensures
        phase == match action {
            PlayerAction::Exit => Phase::Stopped,
            PlayerAction::TookTurn => if player_alive {
                Phase::ResolvingAi
            } else {
                Phase::AwaitingInput
            },
            PlayerAction::DidntTakeTurn => Phase::AwaitingInput,
        },
{
    match action {
        PlayerAction::Exit => Phase::Stopped,
        PlayerAction::TookTurn => if player_alive {
            Phase::ResolvingAi
        } else {
            Phase::AwaitingInput
        },
        PlayerAction::DidntTakeTurn => Phase::AwaitingInput,
    }
}

/// The player's hit points and the most it can have, for the health bar;
/// both 0 for a player that does not fight.
pub fn player_health(objects: &Vec<Object>, game: &Game) -> (health: (i32, i32))
    requires
        PLAYER < objects@.len(),
    ensures
        health == match objects@[PLAYER as int].fighter {
            Some(f) => (
                f.hp,
                objects.deep_view()[PLAYER as int].effective(Stat::MaxHp, game@.inventory),
            ),
            None => (0i32, 0i32),
        },
{
    match objects[PLAYER].fighter {
        Some(f) => (f.hp, objects[PLAYER].max_hp(game)),
        None => (0, 0),
    }
}

/// What the monsters do after the player's action: they take their turns if
/// the action cost a turn and the player is alive, and stand still
/// otherwise. Returns whether they took their turns.
pub fn monsters_answer(
    action: PlayerAction,
    objects: &mut Vec<Object>,
    sight: &SightGrid,
    game: &mut Game,
) -> (ran: bool)
    requires
        PLAYER < old(objects)@.len(),
    ensures
        ran == (action == PlayerAction::TookTurn && old(objects)@[PLAYER as int].alive),
        !ran ==> unchanged(old(objects), old(game), final(objects), final(game)),
        ran ==> exists|steps: Seq<(int, int)>|
            steps.len() == old(objects)@.len() && all_stumbles(steps) && (
                final(objects).deep_view(),
                final(game)@,
            ) == #[trigger] after_turns(
                old(objects).deep_view(),
                old(game)@,
                sight.deep_view(),
                steps,
            ),
{
    let took_turn = match action {
        PlayerAction::TookTurn => true,
        _ => false,
    };
    if took_turn && objects[PLAYER].alive {
        take_monster_turns(objects, sight, game);
        true
    } else {
        false
    }
}

} // verus!
