//! The player: a position, a facing, an inventory with one item in hand,
//! and health that is briefly immune after each hit.
use vstd::prelude::*;
use crate::entities::{ahead, step_x, step_y, Direction, EntityKind};
use crate::game::{available, block_at, find_chunk, first_hit, Game, Notice};
use crate::chunk::chunk_of;
use crate::inventory::{share, total, Inventory};
use crate::items::ItemKind;

verus! {

pub const PLAYER_LIFE: u8 = 100;
/// Ticks the player ignores damage after a hit, and after spawning.
pub const PLAYER_IMMUNITY: u8 = 20;

pub struct Player {
    pub x: i64,
    pub y: i64,
    pub looking: Direction,
    pub moving: bool,
    pub inventory: Inventory,
    pub using: usize,
    pub life: u8,
    pub max_life: u8,
    pub immunity: u8,
}

impl Player {
    pub open spec fn wf(&self) -> bool {
        &&& self.inventory.wf()
        &&& self.life <= self.max_life
    }

    /// The cell the player faces.
    pub open spec fn facing(&self) -> (i64, i64) {
        (step_x(self.x, self.looking), step_y(self.y, self.looking))
    }

    /// The item in hand.
    pub open spec fn in_hand(&self) -> ItemKind {
        self.inventory@[self.using as int]
    }

    /// The player after being hit for `amount`: nothing while immune, else
    /// life drops (not below zero) and immunity starts.
    pub open spec fn hurt_by(&self, amount: u8) -> Player {
        if self.immunity == 0 {
            Player {
                life: if self.life >= amount { (self.life - amount) as u8 } else { 0 },
                immunity: PLAYER_IMMUNITY,
                ..*self
            }
        } else {
            *self
        }
    }

    /// A player at `(x, y)`, facing up, with a bare hand, full life and a
    /// short immunity.
    pub fn new(x: i64, y: i64) -> (r: Self)
        ensures
            r.wf(),
            r.x == x,
            r.y == y,
            r.looking == Direction::Up,
            !r.moving,
            r.using == 0,
            r.inventory@ == seq![ItemKind::Hand(crate::items::Hand { quantity: 1 })],
            r.life == PLAYER_LIFE,
            r.max_life == PLAYER_LIFE,
            r.immunity == PLAYER_IMMUNITY,
    {
        Player {
            x,
            y,
            looking: Direction::Up,
            moving: false,
            inventory: Inventory::new_player(),
            using: 0,
            life: PLAYER_LIFE,
            max_life: PLAYER_LIFE,
            immunity: PLAYER_IMMUNITY,
        }
    }

    pub fn inventory(&mut self) -> (r: &mut Inventory)
        ensures
            *r == old(self).inventory,
            final(self).inventory == *final(r),
            final(self).x == old(self).x,
            final(self).y == old(self).y,
            final(self).looking == old(self).looking,
            final(self).using == old(self).using,
            final(self).life == old(self).life,
            final(self).max_life == old(self).max_life,
            final(self).immunity == old(self).immunity,
            final(self).moving == old(self).moving,
    {
        &mut self.inventory
    }

    pub fn using(&self) -> (r: usize)
        ensures
            r == self.using,
    {
        self.using
    }

    /// Takes the stack at `idx` in hand.
    pub fn set_using(&mut self, idx: usize)
        ensures
            *final(self) == (Player { using: idx, ..*old(self) }),
    {
        self.using = idx;
    }

    pub fn look(&mut self, direction: Direction)
        ensures
            *final(self) == (Player { looking: direction, ..*old(self) }),
    {
        self.looking = direction;
    }

    pub fn moving(&mut self, moving: bool)
        ensures
            *final(self) == (Player { moving, ..*old(self) }),
    {
        self.moving = moving;
    }

    pub fn is_moving(&self) -> (r: bool)
        ensures
            r == self.moving,
    {
        self.moving
    }

    /// An arrow key: the player turns to `direction`, and walks on unless
    /// `hold` (turning on the spot) is set.
    pub fn on_arrow(&mut self, direction: Direction, hold: bool)
        ensures
            *final(self) == (Player { looking: direction, moving: !hold, ..*old(self) }),
    {
        self.look(direction);
        self.moving(!hold);
    }

    pub fn x(&self) -> (r: i64)
        ensures
            r == self.x,
    {
        self.x
    }

    pub fn y(&self) -> (r: i64)
        ensures
            r == self.y,
    {
        self.y
    }

    pub fn looking(&self) -> (r: Direction)
        ensures
            r == self.looking,
    {
        self.looking
    }

    pub fn life(&self) -> (r: u8)
        ensures
            r == self.life,
    {
        self.life
    }

    pub fn max_life(&self) -> (r: u8)
        ensures
            r == self.max_life,
    {
        self.max_life
    }

    pub fn is_dead(&self) -> (r: bool)
        ensures
            r == (self.life == 0),
    {
        self.life == 0
    }

    /// Puts `item` into the inventory.
    pub fn pick_up(&mut self, item: ItemKind)
        requires
            old(self).wf(),
            item.qty() >= 0,
        ensures
            final(self).wf(),
            forall|k: int| #[trigger] total(final(self).inventory@, k) == total(old(self).inventory@, k) + share(item, k),
    {
        self.inventory.add(item);
    }

    /// Steps onto the cell ahead if it is free.
    pub fn step(&mut self, game: &Game)
        requires
            game.wf(),
        ensures
            *final(self) == if available(*game, old(self).facing().0, old(self).facing().1) {
                Player { x: old(self).facing().0, y: old(self).facing().1, ..*old(self) }
            } else {
                *old(self)
            },
    {
        let (x, y) = ahead(self.x, self.y, self.looking);
        if game.is_available(x, y) {
            self.x = x;
            self.y = y;
        }
    }

    /// Advances the player one tick: a step if the player is walking, and
    /// immunity wears off.
    pub fn on_tick(&mut self, game: &Game)
        requires
            game.wf(),
        ensures
            final(self).x == if old(self).moving && available(*game, old(self).facing().0, old(self).facing().1) {
                old(self).facing().0
            } else {
                old(self).x
            },
            final(self).y == if old(self).moving && available(*game, old(self).facing().0, old(self).facing().1) {
                old(self).facing().1
            } else {
                old(self).y
            },
            final(self).immunity == if old(self).immunity > 0 { (old(self).immunity - 1) as u8 } else { 0 },
            final(self).life == old(self).life,
            final(self).max_life == old(self).max_life,
            final(self).inventory == old(self).inventory,
            final(self).looking == old(self).looking,
            final(self).using == old(self).using,
            final(self).moving == old(self).moving,
    {
        if self.moving {
            self.step(game);
        }
        if self.immunity > 0 {
            self.immunity = self.immunity - 1;
        }
    }

    /// Heals `amount`, up to full life.
    pub fn heal(&mut self, amount: u8)
        ensures
            *final(self) == (Player {
                life: if old(self).life as int + amount as int > old(self).max_life as int {
                    old(self).max_life
                } else {
                    (old(self).life + amount) as u8
                },
                ..*old(self)
            }),
    {
        let sum: u16 = self.life as u16 + amount as u16;
        if sum > self.max_life as u16 {
            self.life = self.max_life;
        } else {
            self.life = sum as u8;
        }
    }

    /// Hits the player for `amount`; nothing while the player is immune.
    pub fn hurt(&mut self, amount: u8)
        ensures
            *final(self) == old(self).hurt_by(amount),
    {
        if self.immunity == 0 {
            self.life = self.life.saturating_sub(amount);
            self.immunity = PLAYER_IMMUNITY;
        }
    }

    /// The action key. With a block ahead, the item in hand harvests it if
    /// the block accepts that tool: the yield goes into the inventory and a
    /// block with no life left is removed. With an entity ahead instead, the
    /// item in hand hits it. With neither, the item is used, and what it puts
    /// into the world is returned.
    pub fn on_space(&mut self, game: &mut Game) -> (r: Option<EntityKind>)
        requires
            old(self).wf(),
            old(game).wf(),
            old(self).using < old(self).inventory@.len(),
        ensures
            final(self).wf(),
            final(game).wf(),
            final(self).x == old(self).x,
            final(self).y == old(self).y,
            final(self).using == old(self).using,
            final(self).life == old(self).life,
            final(self).max_life == old(self).max_life,
            final(self).immunity == old(self).immunity,
            final(self).looking == old(self).looking,
            final(self).moving == old(self).moving,
            final(self).inventory@.len() >= old(self).inventory@.len(),
            forall|j: int| 0 <= j < old(self).inventory@.len() ==> (#[trigger] final(self).inventory@[j]).kind()
                == old(self).inventory@[j].kind(),
            final(game).unused_chunks == old(game).unused_chunks,
            final(game).offset == old(game).offset,
            ({
                let (fx, fy) = old(self).facing();
                let item = old(self).in_hand();
                match block_at(old(game).loaded_chunks@, fx as int, fy as int) {
                    Some(b) => {
                        &&& r is None
                        &&& final(game).entities == old(game).entities
                        &&& if b.accepts(item) {
                            &&& forall|k: int| #[trigger] total(final(self).inventory@, k)
                                == total(old(self).inventory@, k) + share(b.yield_of(), k)
                            &&& block_at(final(game).loaded_chunks@, fx as int, fy as int) == if b.collected().spec_life() == 0 {
                                None
                            } else {
                                Some(b.collected())
                            }
                            &&& forall|x2: int, y2: int| (x2 != fx || y2 != fy) ==> #[trigger] block_at(final(game).loaded_chunks@, x2, y2)
                                == block_at(old(game).loaded_chunks@, x2, y2)
                            &&& final(game).message == Some(Notice::Collected(b.yield_of()))
                        } else {
                            &&& final(self).inventory == old(self).inventory
                            &&& final(game).loaded_chunks == old(game).loaded_chunks
                            &&& final(game).message == Some(Notice::Incompatible)
                        }
                    },
                    None => {
                        &&& final(self).inventory == old(self).inventory
                        &&& final(game).loaded_chunks == old(game).loaded_chunks
                        &&& match first_hit(old(game).entities@, -1, fx, fy) {
                            Some(id) => {
                                &&& r is None
                                &&& final(game).entities@ == old(game).entities@.update(id, old(game).entities@[id].hurt_by(item.spec_damage()))
                                &&& final(game).message == Some(Notice::Dealt(item.spec_damage()))
                            },
                            None => {
                                &&& r == item.used_at(fx, fy, old(self).looking)
                                &&& final(game).entities == old(game).entities
                            },
                        }
                    },
                }
            }),
            r matches Some(e) ==> e.wf(),
    {
        let (x, y) = ahead(self.x, self.y, self.looking);
        let item = *self.inventory.get(self.using);
        match game.get_block(x, y) {
            Some(block) => {
                if block.is_compatible_tool(item) {
                    let mut harvested = block;
                    let gained = harvested.collect();
                    self.inventory.add(gained);
                    proof {
                        assert(find_chunk(game.loaded_chunks@, chunk_of(x as int), chunk_of(y as int)) is Some);
                    }
                    if harvested.is_destroyed() {
                        game.destroy_block(x, y);
                    } else {
                        game.put_block(x, y, Some(harvested));
                    }
                    game.set_message(Notice::Collected(gained));
                } else {
                    game.set_message(Notice::Incompatible);
                }
                None
            },
            None => {
                match game.get_entity_id(x, y) {
                    Some(id) => {
                        let damage = item.damage();
                        game.entities[id].hurt(damage);
                        game.set_message(Notice::Dealt(damage));
                        None
                    },
                    None => item.utilize((x, y, self.looking)),
                }
            },
        }
    }
}

/// A player who was hit cannot be hit again until the immunity wears off:
/// of two hits in a row, only the first can change the player's life.
pub proof fn lemma_player_immunity(p: Player, a: u8, b: u8)
    ensures
        p.hurt_by(a).hurt_by(b).life == p.hurt_by(a).life,
        p.immunity == 0 ==> p.hurt_by(a).life == if p.life >= a { p.life - a } else { 0 },
{
}

} // verus!
