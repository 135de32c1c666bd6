//! Entities: the actors of the world. Each tick an entity decides on an
//! action from the state of the world and the player; the world applies it,
//! then advances the entity's own clock.
use vstd::prelude::*;
use crate::chunk::Chunk;
use crate::game::{available, available_in, first_hit, Game};
use crate::player::Player;
use crate::random::{between, chance};

verus! {

#[derive(Clone, Copy, Debug, PartialEq, Eq, Structural)]
pub enum Direction {
    Up,
    Down,
    Left,
    Right,
}

/// `x` after a step in direction `d`; the world ends at the integer range.
pub open spec fn step_x(x: i64, d: Direction) -> i64 {
    match d {
        Direction::Left => if x > i64::MIN { (x - 1) as i64 } else { x },
        Direction::Right => if x < i64::MAX { (x + 1) as i64 } else { x },
        _ => x,
    }
}

/// `y` after a step in direction `d`; up is towards larger `y`.
pub open spec fn step_y(y: i64, d: Direction) -> i64 {
    match d {
        Direction::Down => if y > i64::MIN { (y - 1) as i64 } else { y },
        Direction::Up => if y < i64::MAX { (y + 1) as i64 } else { y },
        _ => y,
    }
}

/// The cell one step from `(x, y)` in direction `d`.
pub fn ahead(x: i64, y: i64, d: Direction) -> (r: (i64, i64))
    ensures
        r == (step_x(x, d), step_y(y, d)),
{
    match d {
        Direction::Up => (x, if y < i64::MAX { y + 1 } else { y }),
        Direction::Down => (x, if y > i64::MIN { y - 1 } else { y }),
        Direction::Left => (if x > i64::MIN { x - 1 } else { x }, y),
        Direction::Right => (if x < i64::MAX { x + 1 } else { x }, y),
    }
}

pub open spec fn sat_sub(a: u8, b: u8) -> u8 {
    if a >= b { (a - b) as u8 } else { 0 }
}

pub open spec fn abs_diff(a: i64, b: i64) -> int {
    if a >= b { a - b } else { b - a }
}

/// An arrow flies straight on, hitting whatever shares its cell.
#[derive(Clone, Copy, Debug, PartialEq, Eq, Structural)]
pub struct Arrow {
    pub x: i64,
    pub y: i64,
    pub looking: Direction,
    pub life: u8,
    pub damage: u8,
}

/// A bullet flies straight on until its life runs out.
#[derive(Clone, Copy, Debug, PartialEq, Eq, Structural)]
pub struct Bullet {
    pub x: i64,
    pub y: i64,
    pub looking: Direction,
    pub life: u8,
    pub damage: u8,
}

/// A flying stone; it goes straight on until its life runs out.
#[derive(Clone, Copy, Debug, PartialEq, Eq, Structural)]
pub struct OnyxStone {
    pub x: i64,
    pub y: i64,
    pub looking: Direction,
    pub life: u8,
    pub damage: u8,
}

/// The sweep of a melee weapon; it lasts a few ticks on one cell.
#[derive(Clone, Copy, Debug, PartialEq, Eq, Structural)]
pub struct Swing {
    pub x: i64,
    pub y: i64,
    pub looking: Direction,
    pub life: u8,
    pub damage: u8,
}

/// A flame: it lives one tick and may spread to its neighbours first.
#[derive(Clone, Copy, Debug, PartialEq, Eq, Structural)]
pub struct Fire {
    pub x: i64,
    pub y: i64,
    pub looking: Direction,
    pub life: u8,
    pub max_life: u8,
    pub damage: u8,
}

/// A hostile creature that hunts the player and bites when next to them.
#[derive(Clone, Copy, Debug, PartialEq, Eq, Structural)]
pub struct Crawler {
    pub x: i64,
    pub y: i64,
    pub looking: Direction,
    pub life: u8,
    pub damage: u8,
    pub frame: u8,
    pub immunity: u8,
    pub until_next_step: u8,
}

pub const ARROW_LIFE: u8 = 50;
pub const BULLET_LIFE: u8 = 20;
pub const BULLET_DAMAGE: u8 = 10;
pub const ONYX_LIFE: u8 = 20;
pub const ONYX_DAMAGE: u8 = 10;
pub const SWING_LIFE: u8 = 3;
pub const FIRE_LIFE: u8 = 10;
pub const FIRE_DAMAGE: u8 = 5;
/// A fire spreads sideways only with a life above this.
pub const FIRE_SIDE_THRESHOLD: u8 = 6;
/// Life a fire loses when it spreads sideways.
pub const FIRE_SIDE_COST: u8 = 5;
pub const CRAWLER_LIFE: u8 = 5;
pub const CRAWLER_DAMAGE: u8 = 8;
/// Ticks a crawler waits between steps.
pub const CRAWLER_PACE: u8 = 10;
/// Ticks a crawler ignores damage after it was hurt.
pub const CRAWLER_IMMUNITY: u8 = 10;
/// A crawler hunts the player when closer than this on both axes.
pub const CRAWLER_AGGRO: i64 = 10;
/// Frames of a crawler's animation cycle.
pub const CRAWLER_FRAMES: u8 = 20;

impl Arrow {
    pub open spec fn spec_new(x: i64, y: i64, direction: Direction, damage: u8) -> Self {
        Arrow { x, y, looking: direction, life: ARROW_LIFE, damage }
    }

    pub fn new(x: i64, y: i64, direction: Direction, damage: u8) -> (r: Self)
        ensures
            r == Self::spec_new(x, y, direction, damage),
    {
        Arrow { x, y, looking: direction, life: ARROW_LIFE, damage }
    }
}

impl Bullet {
    pub open spec fn spec_new(x: i64, y: i64, direction: Direction) -> Self {
        Bullet { x, y, looking: direction, life: BULLET_LIFE, damage: BULLET_DAMAGE }
    }

    pub fn new(x: i64, y: i64, direction: Direction) -> (r: Self)
        ensures
            r == Self::spec_new(x, y, direction),
    {
        Bullet { x, y, looking: direction, life: BULLET_LIFE, damage: BULLET_DAMAGE }
    }
}

impl OnyxStone {
    pub fn new(x: i64, y: i64, direction: Direction) -> (r: Self)
        ensures
            r == (OnyxStone { x, y, looking: direction, life: ONYX_LIFE, damage: ONYX_DAMAGE }),
    {
        OnyxStone { x, y, looking: direction, life: ONYX_LIFE, damage: ONYX_DAMAGE }
    }
}

impl Swing {
    pub open spec fn spec_new(x: i64, y: i64, direction: Direction, damage: u8) -> Self {
        Swing { x, y, looking: direction, life: SWING_LIFE, damage }
    }

    pub fn new(x: i64, y: i64, direction: Direction, damage: u8) -> (r: Self)
        ensures
            r == Self::spec_new(x, y, direction, damage),
    {
        Swing { x, y, looking: direction, life: SWING_LIFE, damage }
    }
}

impl Crawler {
    pub open spec fn spec_new(x: i64, y: i64) -> Self {
        Crawler {
            x,
            y,
            looking: Direction::Up,
            life: CRAWLER_LIFE,
            damage: CRAWLER_DAMAGE,
            frame: 0,
            immunity: 0,
            until_next_step: CRAWLER_PACE,
        }
    }

    pub fn new(x: i64, y: i64) -> (r: Self)
        ensures
            r == Self::spec_new(x, y),
    {
        Crawler {
            x,
            y,
            looking: Direction::Up,
            life: CRAWLER_LIFE,
            damage: CRAWLER_DAMAGE,
            frame: 0,
            immunity: 0,
            until_next_step: CRAWLER_PACE,
        }
    }

    /// The crawler after being hit for `amount`: nothing while it is
    /// immune, else its life drops (not below zero) and it turns immune.
    pub open spec fn hurt_by(&self, amount: u8) -> Crawler {
        if self.immunity == 0 {
            Crawler { life: sat_sub(self.life, amount), immunity: CRAWLER_IMMUNITY, ..*self }
        } else {
            *self
        }
    }

    /// Whether the player stands right next to the crawler, on one axis.
    pub open spec fn touches(&self, px: i64, py: i64) -> bool {
        let dx = abs_diff(self.x, px);
        let dy = abs_diff(self.y, py);
        (dx == 1 && dy == 0) || (dx == 0 && dy == 1)
    }

    /// Where the crawler wants to step: towards the player along the axis
    /// with the larger distance when the player is within reach, else in the
    /// direction that `roll` picks.
    pub open spec fn target(&self, px: i64, py: i64, roll: int) -> (i64, i64) {
        let dx = abs_diff(self.x, px);
        let dy = abs_diff(self.y, py);
        if dx < CRAWLER_AGGRO && dy < CRAWLER_AGGRO {
            if dx > dy {
                if self.x > px {
                    (step_x(self.x, Direction::Left), self.y)
                } else {
                    (step_x(self.x, Direction::Right), self.y)
                }
            } else {
                if self.y > py {
                    (self.x, step_y(self.y, Direction::Down))
                } else {
                    (self.x, step_y(self.y, Direction::Up))
                }
            }
        } else if roll == 0 {
            (step_x(self.x, Direction::Right), self.y)
        } else if roll == 1 {
            (step_x(self.x, Direction::Left), self.y)
        } else if roll == 2 {
            (self.x, step_y(self.y, Direction::Up))
        } else {
            (self.x, step_y(self.y, Direction::Down))
        }
    }

    /// The crawler's action, for the random direction `roll`.
    pub open spec fn plan(&self, px: i64, py: i64, ents: Seq<EntityKind>, chunks: Seq<Chunk>, roll: int) -> Action {
        if self.touches(px, py) {
            Action::Nothing
        } else if self.until_next_step > 0 {
            Action::Move(self.x, self.y)
        } else {
            let (x, y) = self.target(px, py, roll);
            if available_in(ents, chunks, x, y) && (px != x || py != y) {
                Action::Move(x, y)
            } else {
                Action::Nothing
            }
        }
    }

    /// Decides the crawler's action, with `roll` in `0..4` as the direction
    /// of a random step. A player right next to it is bitten, and the
    /// crawler does nothing else.
    pub fn act(&self, player: &mut Player, game: &Game, roll: i64) -> (r: Action)
        requires
            0 <= roll < 4,
            game.wf(),
        ensures
            r == self.plan(old(player).x, old(player).y, game.entities@, game.loaded_chunks@, roll as int),
            *final(player) == if self.touches(old(player).x, old(player).y) {
                old(player).hurt_by(self.damage)
            } else {
                *old(player)
            },
    {
        let px = player.x;
        let py = player.y;
        let dx: i128 = if self.x >= px { self.x as i128 - px as i128 } else { px as i128 - self.x as i128 };
        let dy: i128 = if self.y >= py { self.y as i128 - py as i128 } else { py as i128 - self.y as i128 };
        if (dx == 1 && dy == 0) || (dx == 0 && dy == 1) {
            player.hurt(self.damage);
            return Action::Nothing;
        }
        if self.until_next_step > 0 {
            return Action::Move(self.x, self.y);
        }
        let (x, y) = if dx < CRAWLER_AGGRO as i128 && dy < CRAWLER_AGGRO as i128 {
            if dx > dy {
                if self.x > px {
                    ahead(self.x, self.y, Direction::Left)
                } else {
                    ahead(self.x, self.y, Direction::Right)
                }
            } else {
                if self.y > py {
                    ahead(self.x, self.y, Direction::Down)
                } else {
                    ahead(self.x, self.y, Direction::Up)
                }
            }
        } else if roll == 0 {
            ahead(self.x, self.y, Direction::Right)
        } else if roll == 1 {
            ahead(self.x, self.y, Direction::Left)
        } else if roll == 2 {
            ahead(self.x, self.y, Direction::Up)
        } else {
            ahead(self.x, self.y, Direction::Down)
        };
        if game.is_available(x, y) && (px != x || py != y) {
            Action::Move(x, y)
        } else {
            Action::Nothing
        }
    }
}

/// A snake glides half a cell per move. Its position is kept in half
/// cells: the snake at `(x, y)` stands on cell `(floor(x / 2), floor(y / 2))`.
#[derive(Clone, Copy, Debug, PartialEq, Eq, Structural)]
pub struct Snake {
    pub x: i64,
    pub y: i64,
    pub looking: Direction,
    pub life: u8,
    pub damage: u8,
    pub frame: u8,
    pub immunity: u8,
}

pub const SNAKE_LIFE: u8 = 3;

/// The cell that half-cell coordinate `h` lies in.
pub open spec fn half_to_cell(h: i64) -> int {
    h / 2
}

/// The cell of half-cell coordinate `h`.
pub fn cell_of_half(h: i64) -> (r: i64)
    ensures
        r as int == half_to_cell(h),
{
    match h.checked_div_euclid(2) {
        Some(c) => c,
        None => 0,
    }
}

impl Snake {
    /// A snake on cell `(x, y)`, at the cell's lower corner.
    pub fn new(x: i64, y: i64, direction: Direction, damage: u8) -> (r: Self)
        requires
            i64::MIN / 2 <= x <= i64::MAX / 2,
            i64::MIN / 2 <= y <= i64::MAX / 2,
        ensures
            r == (Snake { x: (2 * x) as i64, y: (2 * y) as i64, looking: direction, life: SNAKE_LIFE, damage, frame: 0, immunity: 0 }),
            half_to_cell(r.x) == x,
            half_to_cell(r.y) == y,
    {
        Snake { x: 2 * x, y: 2 * y, looking: direction, life: SNAKE_LIFE, damage, frame: 0, immunity: 0 }
    }

    /// Where the snake glides towards a player on cell `(px, py)`: half a
    /// cell along the axis with the larger distance in cells, towards the
    /// player.
    pub open spec fn glide(&self, px: i64, py: i64) -> (i64, i64) {
        let dx = half_to_cell(self.x) - px;
        let dy = half_to_cell(self.y) - py;
        let adx = if dx >= 0 { dx } else { -dx };
        let ady = if dy >= 0 { dy } else { -dy };
        if adx > ady {
            if dx >= 0 {
                (step_x(self.x, Direction::Left), self.y)
            } else {
                (step_x(self.x, Direction::Right), self.y)
            }
        } else if dy >= 0 {
            (self.x, step_y(self.y, Direction::Down))
        } else {
            (self.x, step_y(self.y, Direction::Up))
        }
    }

    /// The snake's action: a player on its cell is bitten and the snake
    /// stays; else it glides (`Move` in half cells) if it stays on its own
    /// cell or the cell it glides into is free.
    /// Whether the snake lies on cell `(px, py)`.
    pub open spec fn on_cell(&self, px: i64, py: i64) -> bool {
        half_to_cell(self.x) == px && half_to_cell(self.y) == py
    }

    pub open spec fn plan(&self, px: i64, py: i64, ents: Seq<EntityKind>, chunks: Seq<Chunk>) -> Action {
        if self.on_cell(px, py) {
            Action::Nothing
        } else {
            let (x, y) = self.glide(px, py);
            if (half_to_cell(x) == half_to_cell(self.x) && half_to_cell(y) == half_to_cell(self.y))
                || available_in(ents, chunks, half_to_cell(x) as i64, half_to_cell(y) as i64) {
                Action::Move(x, y)
            } else {
                Action::Nothing
            }
        }
    }

    /// Decides the snake's action; see `plan`.
    pub fn on_action(&self, player: &mut Player, game: &Game) -> (r: Action)
        requires
            game.wf(),
        ensures
            r == self.plan(old(player).x, old(player).y, game.entities@, game.loaded_chunks@),
            *final(player) == if self.on_cell(old(player).x, old(player).y) {
                old(player).hurt_by(self.damage)
            } else {
                *old(player)
            },
    {
        let cx = cell_of_half(self.x);
        let cy = cell_of_half(self.y);
        let px = player.x;
        let py = player.y;
        if cx == px && cy == py {
            player.hurt(self.damage);
            return Action::Nothing;
        }
        let dx: i128 = cx as i128 - px as i128;
        let dy: i128 = cy as i128 - py as i128;
        let adx: i128 = if dx >= 0 { dx } else { -dx };
        let ady: i128 = if dy >= 0 { dy } else { -dy };
        let (x, y) = if adx > ady {
            if dx >= 0 {
                ahead(self.x, self.y, Direction::Left)
            } else {
                ahead(self.x, self.y, Direction::Right)
            }
        } else if dy >= 0 {
            ahead(self.x, self.y, Direction::Down)
        } else {
            ahead(self.x, self.y, Direction::Up)
        };
        if (cell_of_half(x) == cx && cell_of_half(y) == cy) || game.is_available(cell_of_half(x), cell_of_half(y)) {
            Action::Move(x, y)
        } else {
            Action::Nothing
        }
    }

    /// Moves one whole cell ahead if the cell there is free.
    pub fn step(&mut self, game: &Game)
        requires
            game.wf(),
        ensures
            ({
                let (hx, hy) = ahead_twice(old(self).x, old(self).y, old(self).looking);
                *final(self) == if available(*game, half_to_cell(hx) as i64, half_to_cell(hy) as i64) {
                    Snake { x: hx, y: hy, ..*old(self) }
                } else {
                    *old(self)
                }
            }),
    {
        let (x1, y1) = ahead(self.x, self.y, self.looking);
        let (x, y) = ahead(x1, y1, self.looking);
        if game.is_available(cell_of_half(x), cell_of_half(y)) {
            self.x = x;
            self.y = y;
        }
    }

    pub fn go(&mut self, x: i64, y: i64)
        ensures
            *final(self) == (Snake { x, y, ..*old(self) }),
    {
        self.x = x;
        self.y = y;
    }

    pub fn is_dead(&self) -> (r: bool)
        ensures
            r == (self.life == 0),
    {
        self.life == 0
    }
}

/// Two half-cell steps in direction `d`: one whole cell.
pub open spec fn ahead_twice(x: i64, y: i64, d: Direction) -> (i64, i64) {
    (step_x(step_x(x, d), d), step_y(step_y(y, d), d))
}

/// The fire that spreads to `(x, y)` from `f` with `life`.
pub open spec fn spark(f: Fire, x: i64, y: i64, life: u8) -> EntityKind {
    EntityKind::Fire(Fire { x, y, looking: f.looking, life, max_life: FIRE_LIFE, damage: FIRE_DAMAGE })
}

/// The two cells beside a fire, across its direction.
pub open spec fn flanks(f: Fire) -> ((i64, i64), (i64, i64)) {
    match f.looking {
        Direction::Up | Direction::Down => (
            (step_x(f.x, Direction::Left), f.y),
            (step_x(f.x, Direction::Right), f.y),
        ),
        _ => ((f.x, step_y(f.y, Direction::Down)), (f.x, step_y(f.y, Direction::Up))),
    }
}

/// The fires that `f` spawns: ahead of it with one life less when `forward`,
/// and on each flank with `FIRE_SIDE_COST` less when that flank's flag is set.
pub open spec fn fire_spread(f: Fire, forward: bool, side_a: bool, side_b: bool) -> Seq<EntityKind> {
    let (a, b) = flanks(f);
    let s0 = if forward {
        seq![spark(f, step_x(f.x, f.looking), step_y(f.y, f.looking), sat_sub(f.life, 1))]
    } else {
        Seq::empty()
    };
    let s1 = if side_a { s0.push(spark(f, a.0, a.1, sat_sub(f.life, FIRE_SIDE_COST))) } else { s0 };
    if side_b { s1.push(spark(f, b.0, b.1, sat_sub(f.life, FIRE_SIDE_COST))) } else { s1 }
}

impl Fire {
    pub open spec fn wf(&self) -> bool {
        0 < self.max_life && self.life <= self.max_life
    }

    pub fn new(x: i64, y: i64, direction: Direction) -> (r: Self)
        ensures
            r == (Fire { x, y, looking: direction, life: FIRE_LIFE, max_life: FIRE_LIFE, damage: FIRE_DAMAGE }),
            r.wf(),
    {
        Fire { x, y, looking: direction, life: FIRE_LIFE, max_life: FIRE_LIFE, damage: FIRE_DAMAGE }
    }

    /// A fire that spread to `(x, y)` with `life` left.
    pub fn spreaded(x: i64, y: i64, direction: Direction, life: u8) -> (r: EntityKind)
        requires
            life <= FIRE_LIFE,
        ensures
            r == (EntityKind::Fire(Fire { x, y, looking: direction, life, max_life: FIRE_LIFE, damage: FIRE_DAMAGE })),
            r.wf(),
    {
        EntityKind::Fire(Fire { x, y, looking: direction, life, max_life: FIRE_LIFE, damage: FIRE_DAMAGE })
    }

    /// The fires this one spawns for the given outcomes of its three draws.
    pub fn spread(&self, forward: bool, side_a: bool, side_b: bool) -> (r: Vec<EntityKind>)
        requires
            self.wf(),
            self.max_life <= FIRE_LIFE,
        ensures
            r@ == fire_spread(*self, forward, side_a, side_b),
            forall|i: int| 0 <= i < r@.len() ==> (#[trigger] r@[i]).wf(),
    {
        let mut fire: Vec<EntityKind> = Vec::new();
        if forward {
            let (x, y) = ahead(self.x, self.y, self.looking);
            fire.push(Fire::spreaded(x, y, self.looking, self.life.saturating_sub(1)));
        }
        let (a, b) = match self.looking {
            Direction::Up | Direction::Down => (
                ahead(self.x, self.y, Direction::Left),
                ahead(self.x, self.y, Direction::Right),
            ),
            _ => (ahead(self.x, self.y, Direction::Down), ahead(self.x, self.y, Direction::Up)),
        };
        if side_a {
            fire.push(Fire::spreaded(a.0, a.1, self.looking, self.life.saturating_sub(FIRE_SIDE_COST)));
        }
        if side_b {
            fire.push(Fire::spreaded(b.0, b.1, self.looking, self.life.saturating_sub(FIRE_SIDE_COST)));
        }
        fire
    }

    /// Spreads the fire: ahead with probability `life / max_life`, and to
    /// each flank with probability `max(life - FIRE_SIDE_THRESHOLD, 0) /
    /// max_life`.
    /// The numerators of the odds of spreading, both over `max_life`: ahead
    /// `life`, to each flank `max(life - FIRE_SIDE_THRESHOLD, 0)`.
    pub fn spread_odds(&self) -> (r: (u32, u32))
        ensures
            r.0 == self.life as u32,
            r.1 == if self.life >= FIRE_SIDE_THRESHOLD { (self.life - FIRE_SIDE_THRESHOLD) as u32 } else { 0 },
    {
        let side: u32 = if self.life >= FIRE_SIDE_THRESHOLD { (self.life - FIRE_SIDE_THRESHOLD) as u32 } else { 0 };
        (self.life as u32, side)
    }

    pub fn on_action(&self) -> (r: Action)
        requires
            self.wf(),
            self.max_life <= FIRE_LIFE,
        ensures
            r matches Action::Spawn(v) && exists|forward: bool, side_a: bool, side_b: bool| {
                &&& v@ == fire_spread(*self, forward, side_a, side_b)
                &&& self.life == self.max_life ==> forward
                &&& self.life == 0 ==> !forward
                &&& self.life <= FIRE_SIDE_THRESHOLD ==> !side_a && !side_b
            },
            r matches Action::Spawn(v) && forall|i: int| 0 <= i < v@.len() ==> (#[trigger] v@[i]).wf(),
    {
        let (ahead_odds, side) = self.spread_odds();
        let forward = chance(ahead_odds, self.max_life as u32);
        let side_a = chance(side, self.max_life as u32);
        let side_b = chance(side, self.max_life as u32);
        Action::Spawn(self.spread(forward, side_a, side_b))
    }
}

/// An entity of the world.
#[derive(Clone, Copy, Debug, PartialEq, Eq, Structural)]
pub enum EntityKind {
    OnyxStone(OnyxStone),
    Fire(Fire),
    Swing(Swing),
    Crawler(Crawler),
    Arrow(Arrow),
    Bullet(Bullet),
    Snake(Snake),
}

/// What an entity wants to do this tick.
pub enum Action {
    Move(i64, i64),
    Attack(usize, u8),
    Spawn(Vec<EntityKind>),
    Nothing,
}

/// The attack of a weapon at `(x, y)` on the first other entity there.
pub open spec fn strike(ents: Seq<EntityKind>, me: int, x: i64, y: i64, damage: u8) -> Action {
    match first_hit(ents, me, x, y) {
        Some(id) => Action::Attack(id as usize, damage),
        None => Action::Nothing,
    }
}

/// Whether `a` is a decision that entity `e`, at index `me` among `ents`,
/// may take with the player on `(px, py)` and `chunks` loaded: a crawler's
/// plan for some random direction, a weapon's strike, a fire's spread for
/// some outcome of its draws (certain ahead at full life, never sideways at
/// a life of `FIRE_SIDE_THRESHOLD` or less, never ahead with no life), and
/// nothing for the others.
pub open spec fn decision_ok(
    e: EntityKind,
    me: int,
    ents: Seq<EntityKind>,
    chunks: Seq<Chunk>,
    px: i64,
    py: i64,
    a: Action,
) -> bool {
    match e {
        EntityKind::Crawler(c) => exists|roll: int| 0 <= roll < 4 && a == c.plan(px, py, ents, chunks, roll),
        EntityKind::Snake(s) => a == s.plan(px, py, ents, chunks),
        EntityKind::Swing(s) => a == strike(ents, me, s.x, s.y, s.damage),
        EntityKind::Arrow(w) => a == strike(ents, me, w.x, w.y, w.damage),
        EntityKind::Fire(f) => a matches Action::Spawn(v) && exists|forward: bool, side_a: bool, side_b: bool| {
            &&& v@ == fire_spread(f, forward, side_a, side_b)
            &&& f.life == f.max_life ==> forward
            &&& f.life == 0 ==> !forward
            &&& f.life <= FIRE_SIDE_THRESHOLD ==> !side_a && !side_b
        },
        _ => a is Nothing,
    }
}

impl EntityKind {
    pub open spec fn wf(&self) -> bool {
        match self {
            EntityKind::Fire(f) => f.wf() && f.max_life <= FIRE_LIFE,
            _ => true,
        }
    }

    pub open spec fn spec_x(&self) -> i64 {
        match self {
            EntityKind::OnyxStone(e) => e.x,
            EntityKind::Fire(e) => e.x,
            EntityKind::Swing(e) => e.x,
            EntityKind::Crawler(e) => e.x,
            EntityKind::Arrow(e) => e.x,
            EntityKind::Bullet(e) => e.x,
            EntityKind::Snake(e) => half_to_cell(e.x) as i64,
        }
    }

    pub open spec fn spec_y(&self) -> i64 {
        match self {
            EntityKind::OnyxStone(e) => e.y,
            EntityKind::Fire(e) => e.y,
            EntityKind::Swing(e) => e.y,
            EntityKind::Crawler(e) => e.y,
            EntityKind::Arrow(e) => e.y,
            EntityKind::Bullet(e) => e.y,
            EntityKind::Snake(e) => half_to_cell(e.y) as i64,
        }
    }

    pub open spec fn spec_looking(&self) -> Direction {
        match self {
            EntityKind::OnyxStone(e) => e.looking,
            EntityKind::Fire(e) => e.looking,
            EntityKind::Swing(e) => e.looking,
            EntityKind::Crawler(e) => e.looking,
            EntityKind::Arrow(e) => e.looking,
            EntityKind::Bullet(e) => e.looking,
            EntityKind::Snake(e) => e.looking,
        }
    }

    pub open spec fn spec_life(&self) -> u8 {
        match self {
            EntityKind::OnyxStone(e) => e.life,
            EntityKind::Fire(e) => e.life,
            EntityKind::Swing(e) => e.life,
            EntityKind::Crawler(e) => e.life,
            EntityKind::Arrow(e) => e.life,
            EntityKind::Bullet(e) => e.life,
            EntityKind::Snake(e) => e.life,
        }
    }

    pub open spec fn spec_damage(&self) -> u8 {
        match self {
            EntityKind::OnyxStone(e) => e.damage,
            EntityKind::Fire(e) => e.damage,
            EntityKind::Swing(e) => e.damage,
            EntityKind::Crawler(e) => e.damage,
            EntityKind::Arrow(e) => e.damage,
            EntityKind::Bullet(e) => e.damage,
            EntityKind::Snake(e) => e.damage,
        }
    }

    pub open spec fn spec_dead(&self) -> bool {
        self.spec_life() == 0
    }

    /// Whether the entity takes up cell `(x, y)`. Fire takes up no cell.
    pub open spec fn collides(&self, x: i64, y: i64) -> bool {
        !(self is Fire) && self.spec_x() == x && self.spec_y() == y
    }

    /// The entity after its own clock advances one tick.
    pub open spec fn ticked(&self) -> EntityKind {
        match self {
            EntityKind::OnyxStone(e) => EntityKind::OnyxStone(OnyxStone {
                x: step_x(e.x, e.looking),
                y: step_y(e.y, e.looking),
                life: sat_sub(e.life, 1),
                ..*e
            }),
            EntityKind::Arrow(e) => EntityKind::Arrow(Arrow {
                x: step_x(e.x, e.looking),
                y: step_y(e.y, e.looking),
                life: sat_sub(e.life, 1),
                ..*e
            }),
            EntityKind::Bullet(e) => EntityKind::Bullet(Bullet {
                x: step_x(e.x, e.looking),
                y: step_y(e.y, e.looking),
                life: sat_sub(e.life, 1),
                ..*e
            }),
            EntityKind::Swing(e) => EntityKind::Swing(Swing { life: sat_sub(e.life, 1), ..*e }),
            EntityKind::Fire(e) => EntityKind::Fire(Fire { life: 0, ..*e }),
            EntityKind::Crawler(e) => EntityKind::Crawler(Crawler {
                frame: ((e.frame + 1) % (CRAWLER_FRAMES as int)) as u8,
                immunity: sat_sub(e.immunity, 1),
                ..*e
            }),
            EntityKind::Snake(_) => *self,
        }
    }

    /// The entity after it is told to go to `(x, y)`. A crawler only goes
    /// once its wait between steps is over, and counts the wait down
    /// otherwise.
    pub open spec fn moved(&self, x: i64, y: i64) -> EntityKind {
        match self {
            EntityKind::OnyxStone(e) => EntityKind::OnyxStone(OnyxStone { x, y, ..*e }),
            EntityKind::Arrow(e) => EntityKind::Arrow(Arrow { x, y, ..*e }),
            EntityKind::Bullet(e) => EntityKind::Bullet(Bullet { x, y, ..*e }),
            EntityKind::Swing(e) => EntityKind::Swing(Swing { x, y, ..*e }),
            EntityKind::Fire(e) => EntityKind::Fire(Fire { x, y, ..*e }),
            EntityKind::Snake(e) => EntityKind::Snake(Snake { x, y, ..*e }),
            EntityKind::Crawler(e) => if e.until_next_step > 0 {
                EntityKind::Crawler(Crawler { until_next_step: (e.until_next_step - 1) as u8, ..*e })
            } else {
                EntityKind::Crawler(Crawler { x, y, until_next_step: CRAWLER_PACE, ..*e })
            },
        }
    }

    /// The entity after it is hit for `amount`; only crawlers take damage.
    pub open spec fn hurt_by(&self, amount: u8) -> EntityKind {
        match self {
            EntityKind::Crawler(e) => EntityKind::Crawler(e.hurt_by(amount)),
            _ => *self,
        }
    }

    pub fn x(&self) -> (r: i64)
        ensures
            r == self.spec_x(),
    {
        match self {
            EntityKind::OnyxStone(e) => e.x,
            EntityKind::Fire(e) => e.x,
            EntityKind::Swing(e) => e.x,
            EntityKind::Crawler(e) => e.x,
            EntityKind::Arrow(e) => e.x,
            EntityKind::Bullet(e) => e.x,
            EntityKind::Snake(e) => cell_of_half(e.x),
        }
    }

    pub fn y(&self) -> (r: i64)
        ensures
            r == self.spec_y(),
    {
        match self {
            EntityKind::OnyxStone(e) => e.y,
            EntityKind::Fire(e) => e.y,
            EntityKind::Swing(e) => e.y,
            EntityKind::Crawler(e) => e.y,
            EntityKind::Arrow(e) => e.y,
            EntityKind::Bullet(e) => e.y,
            EntityKind::Snake(e) => cell_of_half(e.y),
        }
    }

    pub fn looking(&self) -> (r: Direction)
        ensures
            r == self.spec_looking(),
    {
        match self {
            EntityKind::OnyxStone(e) => e.looking,
            EntityKind::Fire(e) => e.looking,
            EntityKind::Swing(e) => e.looking,
            EntityKind::Crawler(e) => e.looking,
            EntityKind::Arrow(e) => e.looking,
            EntityKind::Bullet(e) => e.looking,
            EntityKind::Snake(e) => e.looking,
        }
    }

    /// The cell the entity faces, and its direction.
    pub fn looking_at(&self) -> (r: (i64, i64, Direction))
        ensures
            r == (step_x(self.spec_x(), self.spec_looking()), step_y(self.spec_y(), self.spec_looking()), self.spec_looking()),
    {
        let d = self.looking();
        let (x, y) = ahead(self.x(), self.y(), d);
        (x, y, d)
    }

    pub fn life(&self) -> (r: u8)
        ensures
            r == self.spec_life(),
    {
        match self {
            EntityKind::OnyxStone(e) => e.life,
            EntityKind::Fire(e) => e.life,
            EntityKind::Swing(e) => e.life,
            EntityKind::Crawler(e) => e.life,
            EntityKind::Arrow(e) => e.life,
            EntityKind::Bullet(e) => e.life,
            EntityKind::Snake(e) => e.life,
        }
    }

    pub fn is_dead(&self) -> (r: bool)
        ensures
            r == self.spec_dead(),
    {
        self.life() == 0
    }

    pub fn collide(&self, x: i64, y: i64) -> (r: bool)
        ensures
            r == self.collides(x, y),
    {
        match self {
            EntityKind::Fire(_) => false,
            _ => self.x() == x && self.y() == y,
        }
    }

    /// Every entity here harms what it touches.
    pub fn is_harmful(&self) -> (r: bool)
        ensures
            r,
    {
        true
    }

    pub fn damage(&self) -> (r: u8)
        ensures
            r == self.spec_damage(),
    {
        match self {
            EntityKind::OnyxStone(e) => e.damage,
            EntityKind::Fire(e) => e.damage,
            EntityKind::Swing(e) => e.damage,
            EntityKind::Crawler(e) => e.damage,
            EntityKind::Arrow(e) => e.damage,
            EntityKind::Bullet(e) => e.damage,
            EntityKind::Snake(e) => e.damage,
        }
    }

    /// A plain identifier of the entity's kind, for the presentation layer.
    pub fn name(&self) -> (r: &'static str)
        ensures
            r@ == match self {
                EntityKind::OnyxStone(_) => "onyx stone"@,
                EntityKind::Fire(_) => "fire"@,
                EntityKind::Swing(_) => "swing"@,
                EntityKind::Crawler(_) => "crawler"@,
                EntityKind::Arrow(_) => "arrow"@,
                EntityKind::Bullet(_) => "bullet"@,
                EntityKind::Snake(_) => "snake"@,
            },
    {
        match self {
            EntityKind::OnyxStone(_) => "onyx stone",
            EntityKind::Fire(_) => "fire",
            EntityKind::Swing(_) => "swing",
            EntityKind::Crawler(_) => "crawler",
            EntityKind::Arrow(_) => "arrow",
            EntityKind::Bullet(_) => "bullet",
            EntityKind::Snake(_) => "snake",
        }
    }

    /// Advances the entity's own clock: projectiles fly one cell on and
    /// wear out, a swing wears out, a fire burns out, a crawler animates and
    /// its immunity wears off.
    pub fn on_tick(&mut self)
        requires
            old(self).wf(),
        ensures
            *final(self) == old(self).ticked(),
            final(self).wf(),
    {
        match self {
            EntityKind::OnyxStone(e) => {
                let (x, y) = ahead(e.x, e.y, e.looking);
                e.x = x;
                e.y = y;
                e.life = e.life.saturating_sub(1);
            },
            EntityKind::Arrow(e) => {
                let (x, y) = ahead(e.x, e.y, e.looking);
                e.x = x;
                e.y = y;
                e.life = e.life.saturating_sub(1);
            },
            EntityKind::Bullet(e) => {
                let (x, y) = ahead(e.x, e.y, e.looking);
                e.x = x;
                e.y = y;
                e.life = e.life.saturating_sub(1);
            },
            EntityKind::Swing(e) => {
                e.life = e.life.saturating_sub(1);
            },
            EntityKind::Fire(e) => {
                e.life = 0;
            },
            EntityKind::Crawler(e) => {
                e.frame = ((e.frame as u16 + 1) % (CRAWLER_FRAMES as u16)) as u8;
                e.immunity = e.immunity.saturating_sub(1);
            },
            EntityKind::Snake(_) => {},
        }
    }

    pub fn go(&mut self, x: i64, y: i64)
        ensures
            *final(self) == old(self).moved(x, y),
            old(self).wf() ==> final(self).wf(),
    {
        match self {
            EntityKind::OnyxStone(e) => {
                e.x = x;
                e.y = y;
            },
            EntityKind::Arrow(e) => {
                e.x = x;
                e.y = y;
            },
            EntityKind::Bullet(e) => {
                e.x = x;
                e.y = y;
            },
            EntityKind::Swing(e) => {
                e.x = x;
                e.y = y;
            },
            EntityKind::Fire(e) => {
                e.x = x;
                e.y = y;
            },
            EntityKind::Snake(e) => {
                e.x = x;
                e.y = y;
            },
            EntityKind::Crawler(e) => {
                if e.until_next_step > 0 {
                    e.until_next_step = e.until_next_step - 1;
                } else {
                    e.x = x;
                    e.y = y;
                    e.until_next_step = CRAWLER_PACE;
                }
            },
        }
    }

    /// Hits the entity for `amount`. Only crawlers take damage, and not
    /// while they are immune.
    pub fn hurt(&mut self, amount: u8)
        ensures
            *final(self) == old(self).hurt_by(amount),
            old(self).wf() ==> final(self).wf(),
    {
        match self {
            EntityKind::Crawler(e) => {
                if e.immunity == 0 {
                    e.life = e.life.saturating_sub(amount);
                    e.immunity = CRAWLER_IMMUNITY;
                }
            },
            _ => {},
        }
    }

    /// Decides what the entity at index `me` of the world's list does this
    /// tick. Weapons attack the first other entity on their cell, fire
    /// spreads, a crawler or a snake bites or moves, other projectiles do
    /// nothing.
    pub fn on_action(&self, me: usize, player: &mut Player, game: &Game) -> (r: Action)
        requires
            self.wf(),
            game.wf(),
        ensures
            r matches Action::Attack(id, _) ==> id < game.entities@.len(),
            r matches Action::Spawn(v) ==> forall|i: int| 0 <= i < v@.len() ==> (#[trigger] v@[i]).wf(),
            decision_ok(*self, me as int, game.entities@, game.loaded_chunks@, old(player).x, old(player).y, r),
            *final(player) == match self {
                EntityKind::Crawler(c) => if c.touches(old(player).x, old(player).y) {
                    old(player).hurt_by(c.damage)
                } else {
                    *old(player)
                },
                EntityKind::Snake(s) => if s.on_cell(old(player).x, old(player).y) {
                    old(player).hurt_by(s.damage)
                } else {
                    *old(player)
                },
                _ => *old(player),
            },
    {
        match self {
            EntityKind::Crawler(c) => {
                let roll = between(0, 3);
                c.act(player, game, roll)
            },
            EntityKind::Swing(s) => game.strike_at(me, s.x, s.y, s.damage),
            EntityKind::Arrow(a) => game.strike_at(me, a.x, a.y, a.damage),
            EntityKind::Fire(f) => f.on_action(),
            EntityKind::Snake(s) => s.on_action(player, game),
            _ => Action::Nothing,
        }
    }
}

/// A crawler that was hit cannot be hit again until its immunity wears off:
/// of two hits in a row, only the first can change its life.
pub proof fn lemma_crawler_immunity(c: Crawler, a: u8, b: u8)
    ensures
        c.hurt_by(a).hurt_by(b).life == c.hurt_by(a).life,
        c.immunity == 0 ==> c.hurt_by(a).life == sat_sub(c.life, a),
{
}

} // verus!
