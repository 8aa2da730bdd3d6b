//! Fighting: effective figures, damage, death and healing.

use crate::color::Color;
use crate::game::{add_message, Game};
use crate::geometry::{clamp_i32, saturate};
use crate::messages::{
    dead_text, hit_message, hit_text, join2, join4, no_effect_text, remains_text,
};
use crate::object::{DeathCallback, Fighter, Object, ObjectView};
use vstd::prelude::*;

verus! {

/// One of the figures that equipment can raise.
#[derive(Clone, Copy, Debug, PartialEq, Eq, Structural)]
pub enum Stat {
    Power,
    Defense,
    MaxHp,
}

/// What the equipped items of `inventory` add to `stat`, all together.
pub open spec fn total_bonus(inventory: Seq<ObjectView>, stat: Stat) -> int
    decreases inventory.len(),
{
    if inventory.len() == 0 {
        0
    } else {
        total_bonus(inventory.drop_last(), stat) + inventory.last().bonus(stat)
    }
}

impl ObjectView {
    /// What this item adds to `stat`: its bonus while it is equipped, else
    /// nothing.
    pub open spec fn bonus(self, stat: Stat) -> int {
        match self.equipment {
            Some(e) => if e.equipped {
                match stat {
                    Stat::Power => e.power_bonus as int,
                    Stat::Defense => e.defense_bonus as int,
                    Stat::MaxHp => e.max_hp_bonus as int,
                }
            } else {
                0
            },
            None => 0,
        }
    }

    /// The object's own figure for `stat`; 0 for what does not fight.
    pub open spec fn base(self, stat: Stat) -> int {
        match self.fighter {
            Some(f) => match stat {
                Stat::Power => f.power as int,
                Stat::Defense => f.defense as int,
                Stat::MaxHp => f.max_hp as int,
            },
            None => 0,
        }
    }

    /// The figure that counts in play: the object's own, and for the player
    /// the bonuses of everything equipped in `inventory` on top. Held to the
    /// range of `i32`.
    pub open spec fn effective(self, stat: Stat, inventory: Seq<ObjectView>) -> i32 {
        clamp_i32(
            self.base(stat) + if self.is_player() {
                total_bonus(inventory, stat)
            } else {
                0
            },
        )
    }

    /// The object once `damage` is taken off its hit points, before anyone
    /// looks whether it died. Only a living fighter is hurt, and only by a
    /// positive amount.
    pub open spec fn hurt(self, damage: int) -> ObjectView {
        match self.fighter {
            Some(f) => if self.alive && damage > 0 {
                ObjectView { fighter: Some(Fighter { hp: clamp_i32(f.hp - damage), ..f }), ..self }
            } else {
                self
            },
            None => self,
        }
    }

    /// Whether a living fighter has no hit points left.
    pub open spec fn spent(self) -> bool {
        self.alive && (self.fighter matches Some(f) && f.hp <= 0)
    }

    /// What death in the manner `how` leaves of the object. The player turns
    /// into a corpse in looks only. A monster turns into remains that block
    /// nobody, fight no more and act no more.
    pub open spec fn slain(self, how: DeathCallback) -> ObjectView {
        match how {
            DeathCallback::Player => ObjectView { glyph: '%', color: Color::DarkRed, ..self },
            DeathCallback::Monster => ObjectView {
                glyph: '%',
                color: Color::DarkRed,
                blocks: false,
                fighter: None,
                ai: None,
                name: remains_text(self.name),
                ..self
            },
        }
    }

    /// The message that tells of the object's death in the manner `how`.
    pub open spec fn death_notice(self, how: DeathCallback) -> (Seq<char>, Color) {
        match how {
            DeathCallback::Player => ("You died!"@, Color::Red),
            DeathCallback::Monster => (dead_text(self.name), Color::Red),
        }
    }

    /// The object after it took `damage`: hurt, and dead if that used up its
    /// hit points. What is not alive stays as it is.
    pub open spec fn after_damage(self, damage: int) -> ObjectView {
        let hurt = self.hurt(damage);
        if hurt.spent() {
            ObjectView { alive: false, ..hurt }.slain(hurt.fighter->0.on_death)
        } else {
            hurt
        }
    }

    /// What taking `damage` writes to the log: the death notice if the object
    /// dies of it, else nothing.
    pub open spec fn damage_log(self, damage: int) -> Seq<(Seq<char>, Color)> {
        let hurt = self.hurt(damage);
        if hurt.spent() {
            seq![hurt.death_notice(hurt.fighter->0.on_death)]
        } else {
            seq![]
        }
    }

    /// The experience that whoever dealt `damage` earns: that of a monster
    /// that dies of it, else none.
    pub open spec fn damage_award(self, damage: int) -> Option<i32> {
        let hurt = self.hurt(damage);
        if hurt.spent() && hurt.fighter->0.on_death == DeathCallback::Monster {
            Some(hurt.fighter->0.xp)
        } else {
            None
        }
    }

    /// The object with `xp` added to its experience, if it fights.
    pub open spec fn gained(self, xp: int) -> ObjectView {
        match self.fighter {
            Some(f) => ObjectView {
                fighter: Some(Fighter { xp: clamp_i32(f.xp + xp), ..f }),
                ..self
            },
            None => self,
        }
    }

    /// The object with `award` added to its experience, if it fights.
    pub open spec fn rewarded(self, award: Option<i32>) -> ObjectView {
        match award {
            Some(xp) => self.gained(xp as int),
            None => self,
        }
    }

    /// The object with `amount` added to its hit points, up to `max_hp` at
    /// most.
    pub open spec fn healed(self, amount: int, max_hp: int) -> ObjectView {
        match self.fighter {
            Some(f) => {
                let raised = clamp_i32(f.hp + amount);
                let hp = if raised > max_hp {
                    max_hp as i32
                } else {
                    raised
                };
                ObjectView { fighter: Some(Fighter { hp, ..f }), ..self }
            },
            None => self,
        }
    }
}

/// The damage of a blow: the attacker's effective power less the target's
/// effective defense.
pub open spec fn blow(attacker: ObjectView, target: ObjectView, inventory: Seq<ObjectView>) -> i32 {
    clamp_i32(
        attacker.effective(Stat::Power, inventory) - target.effective(Stat::Defense, inventory),
    )
}

/// The target after the attacker's blow.
pub open spec fn attacked(
    attacker: ObjectView,
    target: ObjectView,
    inventory: Seq<ObjectView>,
) -> ObjectView {
    let damage = blow(attacker, target, inventory);
    if damage > 0 {
        target.after_damage(damage as int)
    } else {
        target
    }
}

/// The attacker after its blow: richer by the experience of a monster it
/// killed.
pub open spec fn attacker_after(
    attacker: ObjectView,
    target: ObjectView,
    inventory: Seq<ObjectView>,
) -> ObjectView {
    let damage = blow(attacker, target, inventory);
    if damage > 0 {
        attacker.rewarded(target.damage_award(damage as int))
    } else {
        attacker
    }
}

/// What a blow writes to the log: the blow itself, then the death it caused,
/// if any.
pub open spec fn attack_log(
    attacker: ObjectView,
    target: ObjectView,
    inventory: Seq<ObjectView>,
) -> Seq<(Seq<char>, Color)> {
    let damage = blow(attacker, target, inventory);
    if damage > 0 {
        seq![(hit_text(attacker.name, target.name, damage as int), Color::Red)]
            + target.damage_log(damage as int)
    } else {
        seq![(no_effect_text(attacker.name, target.name), Color::Red)]
    }
}

fn equipped_bonus(inventory: &Vec<Object>, stat: Stat) -> (sum: i128)
    ensures
        sum == total_bonus(inventory.deep_view(), stat),
{
    let ghost items = inventory.deep_view();
    let mut sum: i128 = 0;
    let mut i: usize = 0;
    while i < inventory.len()
        invariant
            i <= inventory@.len(),
            items == inventory.deep_view(),
            sum == total_bonus(items.take(i as int), stat),
            -0x8000_0000 * i <= sum <= 0x8000_0000 * i,
        decreases inventory@.len() - i,
    {
        let bonus: i32 = match inventory[i].equipment {
            Some(e) => if e.equipped {
                match stat {
                    Stat::Power => e.power_bonus,
                    Stat::Defense => e.defense_bonus,
                    Stat::MaxHp => e.max_hp_bonus,
                }
            } else {
                0
            },
            None => 0,
        };
        proof {
            assert(items.take(i + 1).drop_last() =~= items.take(i as int));
            assert(items.take(i + 1).last() == inventory@[i as int]@);
        }
        sum = sum + bonus as i128;
        i += 1;
    }
    proof {
        assert(items.take(i as int) =~= items);
    }
    sum
}

impl DeathCallback {
    /// Carries out the death of `object` in this manner and tells of it in
    /// the log.
    pub fn callback(self, object: &mut Object, game: &mut Game)
        ensures
            final(object)@ == old(object)@.slain(self),
            final(game)@ == old(game)@.logged(seq![old(object)@.death_notice(self)]),
    {
        match self {
            DeathCallback::Player => player_death(object, game),
            DeathCallback::Monster => monster_death(object, game),
        }
    }
}

fn player_death(player: &mut Object, game: &mut Game)
    ensures
        final(player)@ == old(player)@.slain(DeathCallback::Player),
        final(game)@ == old(game)@.logged(seq![old(player)@.death_notice(DeathCallback::Player)]),
{
    add_message(&mut game.log, String::from_str("You died!"), Color::Red);
    player.glyph = '%';
    player.color = Color::DarkRed;
    assert(game@.log =~= old(game)@.log + seq![
        old(player)@.death_notice(DeathCallback::Player),
    ]);
}

fn monster_death(monster: &mut Object, game: &mut Game)
    ensures
        final(monster)@ == old(monster)@.slain(DeathCallback::Monster),
        final(game)@ == old(game)@.logged(
            seq![old(monster)@.death_notice(DeathCallback::Monster)],
        ),
{
    add_message(&mut game.log, join2(monster.name.as_str(), " is dead!"), Color::Red);
    monster.glyph = '%';
    monster.color = Color::DarkRed;
    monster.blocks = false;
    monster.fighter = None;
    monster.ai = None;
    monster.name = join2("remains of ", monster.name.as_str());
    assert(game@.log =~= old(game)@.log + seq![
        old(monster)@.death_notice(DeathCallback::Monster),
    ]);
}

impl Object {
    fn stat(&self, stat: Stat, game: &Game) -> (value: i32)
        ensures
            value == self@.effective(stat, game@.inventory),
    {
        let base: i32 = match self.fighter {
            Some(f) => match stat {
                Stat::Power => f.power,
                Stat::Defense => f.defense,
                Stat::MaxHp => f.max_hp,
            },
            None => 0,
        };
        if self.is_player() {
            let bonus = equipped_bonus(&game.inventory, stat);
            if bonus > 0x1_0000_0000 {
                i32::MAX
            } else if bonus < -0x1_0000_0000 {
                i32::MIN
            } else {
                saturate(base as i128 + bonus)
            }
        } else {
            base
        }
    }

    /// The power that counts in play.
    pub fn power(&self, game: &Game) -> (value: i32)
        ensures
            value == self@.effective(Stat::Power, game@.inventory),
    {
        self.stat(Stat::Power, game)
    }

    /// The defense that counts in play.
    pub fn defense(&self, game: &Game) -> (value: i32)
        ensures
            value == self@.effective(Stat::Defense, game@.inventory),
    {
        self.stat(Stat::Defense, game)
    }

    /// The most hit points the object can have.
    pub fn max_hp(&self, game: &Game) -> (value: i32)
        ensures
            value == self@.effective(Stat::MaxHp, game@.inventory),
    {
        self.stat(Stat::MaxHp, game)
    }

    /// Takes `damage` off the hit points of a living fighter. If none are
    /// left the object dies, once and for all: what is not alive ignores
    /// damage. Returns the experience that the death of a monster awards.
    pub fn take_damage(&mut self, damage: i32, game: &mut Game) -> (award: Option<i32>)
        ensures
            final(self)@ == old(self)@.after_damage(damage as int),
            final(game)@ == old(game)@.logged(old(self)@.damage_log(damage as int)),
            award == old(self)@.damage_award(damage as int),
    {
        if !self.alive {
            assert(game@.log + Seq::<(Seq<char>, Color)>::empty() =~= game@.log);
            return None;
        }
        match self.fighter {
            None => {
                assert(game@.log + Seq::<(Seq<char>, Color)>::empty() =~= game@.log);
                None
            },
            Some(f) => {
                let hp: i32 = if damage > 0 {
                    saturate(f.hp as i128 - damage as i128)
                } else {
                    f.hp
                };
                self.fighter = Some(
                    Fighter {
                        max_hp: f.max_hp,
                        hp: hp,
                        defense: f.defense,
                        power: f.power,
                        xp: f.xp,
                        on_death: f.on_death,
                    },
                );
                if hp <= 0 {
                    self.alive = false;
                    f.on_death.callback(self, game);
                    match f.on_death {
                        DeathCallback::Monster => Some(f.xp),
                        DeathCallback::Player => None,
                    }
                } else {
                    assert(game@.log + Seq::<(Seq<char>, Color)>::empty() =~= game@.log);
                    None
                }
            },
        }
    }

    /// Strikes `target`. The damage is this object's effective power less
    /// the target's effective defense. A positive damage is dealt and
    /// logged, and the experience of a monster that dies of it goes to the
    /// attacker; otherwise the log says that the blow had no effect.
    pub fn attack(&mut self, target: &mut Object, game: &mut Game)
        ensures
            final(target)@ == attacked(old(self)@, old(target)@, old(game)@.inventory),
            final(self)@ == attacker_after(old(self)@, old(target)@, old(game)@.inventory),
            final(game)@ == old(game)@.logged(
                attack_log(old(self)@, old(target)@, old(game)@.inventory),
            ),
    {
        let damage = saturate(self.power(game) as i128 - target.defense(game) as i128);
        if damage > 0 {
            add_message(
                &mut game.log,
                hit_message(self.name.as_str(), target.name.as_str(), damage),
                Color::Red,
            );
            let award = target.take_damage(damage, game);
            self.gain_experience(award);
            assert(game@.log =~= old(game)@.log + attack_log(
                old(self)@,
                old(target)@,
                old(game)@.inventory,
            ));
        } else {
            add_message(
                &mut game.log,
                join4(
                    self.name.as_str(),
                    " attacks ",
                    target.name.as_str(),
                    " but it has no effect!",
                ),
                Color::Red,
            );
            assert(game@.log =~= old(game)@.log + attack_log(
                old(self)@,
                old(target)@,
                old(game)@.inventory,
            ));
        }
    }

    /// Adds an award to the experience of a fighter.
    pub fn gain_experience(&mut self, award: Option<i32>)
        ensures
            final(self)@ == old(self)@.rewarded(award),
    {
        match award {
            Some(xp) => self.add_experience(xp as i128),
            None => {},
        }
    }

    /// Adds `xp` to the experience of a fighter.
    pub fn add_experience(&mut self, xp: i128)
        ensures
            final(self)@ == old(self)@.gained(xp as int),
    {
        match self.fighter {
            Some(f) => {
                let total: i32 = if xp > 0x1_0000_0000 {
                    i32::MAX
                } else if xp < -0x1_0000_0000 {
                    i32::MIN
                } else {
                    saturate(f.xp as i128 + xp)
                };
                self.fighter = Some(
                    Fighter {
                        max_hp: f.max_hp,
                        hp: f.hp,
                        defense: f.defense,
                        power: f.power,
                        xp: total,
                        on_death: f.on_death,
                    },
                );
            },
            None => {},
        }
    }

    /// Gives a fighter `amount` hit points back, up to its effective maximum.
    pub fn heal(&mut self, amount: i32, game: &Game)
        ensures
            final(self)@ == old(self)@.healed(
                amount as int,
                old(self)@.effective(Stat::MaxHp, game@.inventory) as int,
            ),
    {
        let max_hp = self.max_hp(game);
        match self.fighter {
            Some(f) => {
                let raised = saturate(f.hp as i128 + amount as i128);
                self.fighter = Some(
                    Fighter {
                        max_hp: f.max_hp,
                        hp: if raised > max_hp {
                            max_hp
                        } else {
                            raised
                        },
                        defense: f.defense,
                        power: f.power,
                        xp: f.xp,
                        on_death: f.on_death,
                    },
                );
            },
            None => {},
        }
    }
}

} // verus!
