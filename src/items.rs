//! Items: stackable resources and tools. Each kind has a fixed largest stack
//! size; a stack's quantity stays within `0..=max_quantity`.
use vstd::prelude::*;
use crate::entities::{Arrow, Bullet, Direction, EntityKind, Fire, Swing, FIRE_DAMAGE, FIRE_LIFE};

verus! {

/// Largest stack of a tool (axe, pickaxe, bow, hand, dragon soul, onyx
/// heart), of gold and of grass.
pub const TOOL_STACK: i8 = 1;
/// Largest stack of sticks, wood, coal and iron.
pub const LARGE_STACK: i8 = 20;
/// Largest stack of stone.
pub const SMALL_STACK: i8 = 10;

#[derive(Clone, Copy, Debug, PartialEq, Eq, Structural)]
pub struct OnyxHeart {
    pub quantity: i8,
}

#[derive(Clone, Copy, Debug, PartialEq, Eq, Structural)]
pub struct DragonSoul {
    pub quantity: i8,
}

#[derive(Clone, Copy, Debug, PartialEq, Eq, Structural)]
pub struct Wood {
    pub quantity: i8,
}

#[derive(Clone, Copy, Debug, PartialEq, Eq, Structural)]
pub struct Gold {
    pub quantity: i8,
}

#[derive(Clone, Copy, Debug, PartialEq, Eq, Structural)]
pub struct Iron {
    pub quantity: i8,
}

#[derive(Clone, Copy, Debug, PartialEq, Eq, Structural)]
pub struct Stone {
    pub quantity: i8,
}

#[derive(Clone, Copy, Debug, PartialEq, Eq, Structural)]
pub struct Coal {
    pub quantity: i8,
}

#[derive(Clone, Copy, Debug, PartialEq, Eq, Structural)]
pub struct Grass {
    pub quantity: i8,
}

#[derive(Clone, Copy, Debug, PartialEq, Eq, Structural)]
pub struct Stick {
    pub quantity: i8,
}

#[derive(Clone, Copy, Debug, PartialEq, Eq, Structural)]
pub struct Pickaxe {
    pub quantity: i8,
}

#[derive(Clone, Copy, Debug, PartialEq, Eq, Structural)]
pub struct Axe {
    pub quantity: i8,
}

#[derive(Clone, Copy, Debug, PartialEq, Eq, Structural)]
pub struct Hand {
    pub quantity: i8,
}

#[derive(Clone, Copy, Debug, PartialEq, Eq, Structural)]
pub struct Bow {
    pub quantity: i8,
}

/// A weapon that throws fire; it is not carried in an inventory.
#[derive(Clone, Copy, Debug, PartialEq, Eq, Structural)]
pub struct FlameThrower;

/// A weapon that fires bullets; it is not carried in an inventory.
#[derive(Clone, Copy, Debug, PartialEq, Eq, Structural)]
pub struct Gun;

/// Damage of the sweep of an axe, a pickaxe or a stick.
pub const SWING_DAMAGE: u8 = 10;
/// Damage of an arrow shot from a bow.
pub const ARROW_DAMAGE: u8 = 5;

impl FlameThrower {
    /// Throws a fire at `(x, y)`, burning in `direction`.
    pub fn utilize(&self, x: i64, y: i64, direction: Direction) -> (r: EntityKind)
        ensures
            r == EntityKind::Fire(Fire { x, y, looking: direction, life: FIRE_LIFE, max_life: FIRE_LIFE, damage: FIRE_DAMAGE }),
            r.wf(),
    {
        EntityKind::Fire(Fire::new(x, y, direction))
    }
}

impl Gun {
    /// Fires a bullet from `(x, y)` in `direction`.
    pub fn utilize(&self, x: i64, y: i64, direction: Direction) -> (r: EntityKind)
        ensures
            r == EntityKind::Bullet(Bullet::spec_new(x, y, direction)),
    {
        EntityKind::Bullet(Bullet::new(x, y, direction))
    }
}

impl OnyxHeart {
    pub fn new() -> (r: Self)
        ensures
            r.quantity == 1,
    {
        OnyxHeart { quantity: 1 }
    }
}

impl DragonSoul {
    pub fn new() -> (r: Self)
        ensures
            r.quantity == 1,
    {
        DragonSoul { quantity: 1 }
    }
}

impl Axe {
    pub fn new() -> (r: Self)
        ensures
            r.quantity == 1,
    {
        Axe { quantity: 1 }
    }
}

impl Bow {
    pub fn new() -> (r: Self)
        ensures
            r.quantity == 1,
    {
        Bow { quantity: 1 }
    }
}

impl Pickaxe {
    pub fn new(quantity: i8) -> (r: Self)
        ensures
            r.quantity == quantity,
    {
        Pickaxe { quantity }
    }
}

impl Hand {
    pub fn new(quantity: i8) -> (r: Self)
        ensures
            r.quantity == quantity,
    {
        Hand { quantity }
    }
}

impl Stick {
    pub fn new(quantity: i8) -> (r: Self)
        ensures
            r.quantity == quantity,
    {
        Stick { quantity }
    }
}

impl Stone {
    pub fn new(quantity: i8) -> (r: Self)
        ensures
            r.quantity == quantity,
    {
        Stone { quantity }
    }
}

impl Wood {
    pub fn new(quantity: i8) -> (r: Self)
        ensures
            r.quantity == quantity,
    {
        Wood { quantity }
    }
}

impl Coal {
    pub fn new(quantity: i8) -> (r: Self)
        ensures
            r.quantity == quantity,
    {
        Coal { quantity }
    }
}

impl Gold {
    pub fn new(quantity: i8) -> (r: Self)
        ensures
            r.quantity == quantity,
    {
        Gold { quantity }
    }
}

impl Grass {
    pub fn new(quantity: i8) -> (r: Self)
        ensures
            r.quantity == quantity,
    {
        Grass { quantity }
    }
}

impl Iron {
    pub fn new(quantity: i8) -> (r: Self)
        ensures
            r.quantity == quantity,
    {
        Iron { quantity }
    }
}

/// An item, or a stack of items of one kind.
#[derive(Clone, Copy, Debug, PartialEq, Eq, Structural)]
pub enum ItemKind {
    OH(OnyxHeart),
    DS(DragonSoul),
    Wood(Wood),
    Gold(Gold),
    Iron(Iron),
    Stone(Stone),
    Coal(Coal),
    Grass(Grass),
    Stick(Stick),
    Pickaxe(Pickaxe),
    Axe(Axe),
    Hand(Hand),
    Bow(Bow),
}

/// The stack that `change_quantity(amount)` leaves, and the part of `amount`
/// that it could not take: a stack may not go below zero nor above `max`.
pub open spec fn change_result(q: int, max: int, amount: int) -> (int, int) {
    let p = q + amount;
    if p < 0 {
        (0, p)
    } else if p > max {
        (max, p - max)
    } else {
        (p, 0)
    }
}

impl ItemKind {
    /// The kind of the item: two items are of one kind when their kinds
    /// are equal.
    pub open spec fn kind(&self) -> int {
        match self {
            ItemKind::OH(_) => 0,
            ItemKind::DS(_) => 1,
            ItemKind::Wood(_) => 2,
            ItemKind::Gold(_) => 3,
            ItemKind::Iron(_) => 4,
            ItemKind::Stone(_) => 5,
            ItemKind::Coal(_) => 6,
            ItemKind::Grass(_) => 7,
            ItemKind::Stick(_) => 8,
            ItemKind::Pickaxe(_) => 9,
            ItemKind::Axe(_) => 10,
            ItemKind::Hand(_) => 11,
            ItemKind::Bow(_) => 12,
        }
    }

    pub open spec fn qty(&self) -> int {
        match self {
            ItemKind::OH(i) => i.quantity as int,
            ItemKind::DS(i) => i.quantity as int,
            ItemKind::Wood(i) => i.quantity as int,
            ItemKind::Gold(i) => i.quantity as int,
            ItemKind::Iron(i) => i.quantity as int,
            ItemKind::Stone(i) => i.quantity as int,
            ItemKind::Coal(i) => i.quantity as int,
            ItemKind::Grass(i) => i.quantity as int,
            ItemKind::Stick(i) => i.quantity as int,
            ItemKind::Pickaxe(i) => i.quantity as int,
            ItemKind::Axe(i) => i.quantity as int,
            ItemKind::Hand(i) => i.quantity as int,
            ItemKind::Bow(i) => i.quantity as int,
        }
    }

    /// The largest stack of this kind.
    pub open spec fn max_qty(&self) -> int {
        match self {
            ItemKind::Wood(_) | ItemKind::Iron(_) | ItemKind::Coal(_) | ItemKind::Stick(_) => LARGE_STACK as int,
            ItemKind::Stone(_) => SMALL_STACK as int,
            _ => TOOL_STACK as int,
        }
    }

    /// A stack within its bounds.
    pub open spec fn wf(&self) -> bool {
        0 <= self.qty() <= self.max_qty()
    }

    /// The same item with another quantity.
    pub open spec fn with_qty(&self, q: int) -> ItemKind {
        let q = q as i8;
        match self {
            ItemKind::OH(_) => ItemKind::OH(OnyxHeart { quantity: q }),
            ItemKind::DS(_) => ItemKind::DS(DragonSoul { quantity: q }),
            ItemKind::Wood(_) => ItemKind::Wood(Wood { quantity: q }),
            ItemKind::Gold(_) => ItemKind::Gold(Gold { quantity: q }),
            ItemKind::Iron(_) => ItemKind::Iron(Iron { quantity: q }),
            ItemKind::Stone(_) => ItemKind::Stone(Stone { quantity: q }),
            ItemKind::Coal(_) => ItemKind::Coal(Coal { quantity: q }),
            ItemKind::Grass(_) => ItemKind::Grass(Grass { quantity: q }),
            ItemKind::Stick(_) => ItemKind::Stick(Stick { quantity: q }),
            ItemKind::Pickaxe(_) => ItemKind::Pickaxe(Pickaxe { quantity: q }),
            ItemKind::Axe(_) => ItemKind::Axe(Axe { quantity: q }),
            ItemKind::Hand(_) => ItemKind::Hand(Hand { quantity: q }),
            ItemKind::Bow(_) => ItemKind::Bow(Bow { quantity: q }),
        }
    }

    pub open spec fn spec_damage(&self) -> u8 {
        match self {
            ItemKind::Gold(_) => 0,
            ItemKind::DS(_) | ItemKind::Hand(_) => 1,
            ItemKind::Stone(_) | ItemKind::Stick(_) | ItemKind::Pickaxe(_) | ItemKind::Axe(_)
            | ItemKind::Bow(_) => 2,
            _ => 1,
        }
    }

    pub open spec fn spec_name(&self) -> Seq<char> {
        match self {
            ItemKind::OH(_) => "onyx heart"@,
            ItemKind::DS(_) => "dragon soul"@,
            ItemKind::Wood(_) => "wood"@,
            ItemKind::Gold(_) => "gold"@,
            ItemKind::Iron(_) => "iron"@,
            ItemKind::Stone(_) => "stone"@,
            ItemKind::Coal(_) => "coal"@,
            ItemKind::Grass(_) => "grass"@,
            ItemKind::Stick(_) => "stick"@,
            ItemKind::Pickaxe(_) => "pickaxe"@,
            ItemKind::Axe(_) => "axe"@,
            ItemKind::Hand(_) => "hand"@,
            ItemKind::Bow(_) => "bow"@,
        }
    }

    /// What using the item at `(x, y)`, facing `d`, puts into the world:
    /// an edged tool or a stick sweeps, a bow shoots an arrow, a dragon soul
    /// breathes fire, an onyx heart fires a bullet; resources do nothing.
    pub open spec fn used_at(&self, x: i64, y: i64, d: Direction) -> Option<EntityKind> {
        match self {
            ItemKind::Stick(_) | ItemKind::Pickaxe(_) | ItemKind::Axe(_) => Some(
                EntityKind::Swing(Swing::spec_new(x, y, d, SWING_DAMAGE)),
            ),
            ItemKind::Bow(_) => Some(EntityKind::Arrow(Arrow::spec_new(x, y, d, ARROW_DAMAGE))),
            ItemKind::DS(_) => Some(
                EntityKind::Fire(Fire { x, y, looking: d, life: FIRE_LIFE, max_life: FIRE_LIFE, damage: FIRE_DAMAGE }),
            ),
            ItemKind::OH(_) => Some(EntityKind::Bullet(Bullet::spec_new(x, y, d))),
            _ => None,
        }
    }

    /// Uses the item at the cell `coords` faces; see `used_at`.
    pub fn utilize(&self, coords: (i64, i64, Direction)) -> (r: Option<EntityKind>)
        ensures
            r == self.used_at(coords.0, coords.1, coords.2),
            r matches Some(e) ==> e.wf(),
    {
        let (x, y, d) = coords;
        match self {
            ItemKind::Stick(_) | ItemKind::Pickaxe(_) | ItemKind::Axe(_) => Some(
                EntityKind::Swing(Swing::new(x, y, d, SWING_DAMAGE)),
            ),
            ItemKind::Bow(_) => Some(EntityKind::Arrow(Arrow::new(x, y, d, ARROW_DAMAGE))),
            ItemKind::DS(_) => Some(EntityKind::Fire(Fire::new(x, y, d))),
            ItemKind::OH(_) => Some(EntityKind::Bullet(Bullet::new(x, y, d))),
            _ => None,
        }
    }

    /// The kind of the item, as a number (see `kind`).
    pub fn kind_id(&self) -> (r: u8)
        ensures
            r as int == self.kind(),
    {
        match self {
            ItemKind::OH(_) => 0,
            ItemKind::DS(_) => 1,
            ItemKind::Wood(_) => 2,
            ItemKind::Gold(_) => 3,
            ItemKind::Iron(_) => 4,
            ItemKind::Stone(_) => 5,
            ItemKind::Coal(_) => 6,
            ItemKind::Grass(_) => 7,
            ItemKind::Stick(_) => 8,
            ItemKind::Pickaxe(_) => 9,
            ItemKind::Axe(_) => 10,
            ItemKind::Hand(_) => 11,
            ItemKind::Bow(_) => 12,
        }
    }

    /// The damage the item deals when it is used to hit.
    pub fn damage(&self) -> (r: u8)
        ensures
            r == self.spec_damage(),
    {
        match self {
            ItemKind::Gold(_) => 0,
            ItemKind::DS(_) | ItemKind::Hand(_) => 1,
            ItemKind::Stone(_) | ItemKind::Stick(_) | ItemKind::Pickaxe(_) | ItemKind::Axe(_)
            | ItemKind::Bow(_) => 2,
            _ => 1,
        }
    }

    /// A plain identifier of the kind, for the presentation layer to show.
    pub fn name(&self) -> (r: &'static str)
        ensures
            r@ == self.spec_name(),
    {
        match self {
            ItemKind::OH(_) => "onyx heart",
            ItemKind::DS(_) => "dragon soul",
            ItemKind::Wood(_) => "wood",
            ItemKind::Gold(_) => "gold",
            ItemKind::Iron(_) => "iron",
            ItemKind::Stone(_) => "stone",
            ItemKind::Coal(_) => "coal",
            ItemKind::Grass(_) => "grass",
            ItemKind::Stick(_) => "stick",
            ItemKind::Pickaxe(_) => "pickaxe",
            ItemKind::Axe(_) => "axe",
            ItemKind::Hand(_) => "hand",
            ItemKind::Bow(_) => "bow",
        }
    }

    pub fn quantity(&self) -> (r: i8)
        ensures
            r as int == self.qty(),
    {
        match self {
            ItemKind::OH(i) => i.quantity,
            ItemKind::DS(i) => i.quantity,
            ItemKind::Wood(i) => i.quantity,
            ItemKind::Gold(i) => i.quantity,
            ItemKind::Iron(i) => i.quantity,
            ItemKind::Stone(i) => i.quantity,
            ItemKind::Coal(i) => i.quantity,
            ItemKind::Grass(i) => i.quantity,
            ItemKind::Stick(i) => i.quantity,
            ItemKind::Pickaxe(i) => i.quantity,
            ItemKind::Axe(i) => i.quantity,
            ItemKind::Hand(i) => i.quantity,
            ItemKind::Bow(i) => i.quantity,
        }
    }

    pub fn max_quantity(&self) -> (r: i8)
        ensures
            r as int == self.max_qty(),
    {
        match self {
            ItemKind::Wood(_) | ItemKind::Iron(_) | ItemKind::Coal(_) | ItemKind::Stick(_) => LARGE_STACK,
            ItemKind::Stone(_) => SMALL_STACK,
            _ => TOOL_STACK,
        }
    }

    /// The same item with quantity `q`.
    pub fn with_quantity(&self, q: i8) -> (r: ItemKind)
        ensures
            r == self.with_qty(q as int),
            r.kind() == self.kind(),
            r.qty() == q,
            r.max_qty() == self.max_qty(),
    {
        let mut r = *self;
        r.set_quantity(q);
        r
    }

    fn set_quantity(&mut self, q: i8)
        ensures
            *final(self) == old(self).with_qty(q as int),
    {
        match self {
            ItemKind::OH(i) => i.quantity = q,
            ItemKind::DS(i) => i.quantity = q,
            ItemKind::Wood(i) => i.quantity = q,
            ItemKind::Gold(i) => i.quantity = q,
            ItemKind::Iron(i) => i.quantity = q,
            ItemKind::Stone(i) => i.quantity = q,
            ItemKind::Coal(i) => i.quantity = q,
            ItemKind::Grass(i) => i.quantity = q,
            ItemKind::Stick(i) => i.quantity = q,
            ItemKind::Pickaxe(i) => i.quantity = q,
            ItemKind::Axe(i) => i.quantity = q,
            ItemKind::Hand(i) => i.quantity = q,
            ItemKind::Bow(i) => i.quantity = q,
        }
    }

    /// Adds `amount` (which may be negative) to the stack, clamped to
    /// `0..=max_quantity`, and returns the part of `amount` that did not fit:
    /// negative when the stack ran out, positive when it filled up.
    pub fn change_quantity(&mut self, amount: i8) -> (r: i8)
        requires
            old(self).wf(),
        ensures
            final(self).wf(),
            final(self).kind() == old(self).kind(),
            *final(self) == old(self).with_qty(final(self).qty()),
            final(self).qty() + r == old(self).qty() + amount,
            (final(self).qty(), r as int) == change_result(
                old(self).qty(),
                old(self).max_qty(),
                amount as int,
            ),
    {
        let q = self.quantity();
        let max = self.max_quantity();
        let p: i16 = q as i16 + amount as i16;
        if p < 0 {
            self.set_quantity(0);
            p as i8
        } else if p > max as i16 {
            self.set_quantity(max);
            (p - max as i16) as i8
        } else {
            self.set_quantity(p as i8);
            0
        }
    }
}

} // verus!
