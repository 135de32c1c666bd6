//! Blocks: harvestable objects that stand on a cell of the world. Each has a
//! life counter; harvesting takes one from it and yields an item.
use vstd::prelude::*;
use crate::items::{Coal, Gold, Grass, Iron, ItemKind, Stick, Stone, Wood};
use crate::random::between;

verus! {

#[derive(Clone, Copy, Debug, PartialEq, Eq, Structural)]
pub struct Tree {
    pub life: u32,
}

#[derive(Clone, Copy, Debug, PartialEq, Eq, Structural)]
pub struct GrassTuft {
    pub life: u32,
}

#[derive(Clone, Copy, Debug, PartialEq, Eq, Structural)]
pub struct GoldOre {
    pub life: u32,
}

#[derive(Clone, Copy, Debug, PartialEq, Eq, Structural)]
pub struct IronOre {
    pub life: u32,
}

#[derive(Clone, Copy, Debug, PartialEq, Eq, Structural)]
pub struct CoalOre {
    pub life: u32,
}

/// Rubble: a few loose stones.
#[derive(Clone, Copy, Debug, PartialEq, Eq, Structural)]
pub struct Stones {
    pub life: u32,
}

#[derive(Clone, Copy, Debug, PartialEq, Eq, Structural)]
pub struct Rock {
    pub life: u32,
}

#[derive(Clone, Copy, Debug, PartialEq, Eq, Structural)]
pub struct Sticks {
    pub life: u32,
}

/// Life of a freshly grown tree.
pub const TREE_LIFE: u32 = 10;
/// Life of a fresh rock or ore vein.
pub const ORE_LIFE: u32 = 15;
/// Life of a grass tuft or a heap of sticks.
pub const FRAIL_LIFE: u32 = 1;
/// Rubble starts with a life drawn uniformly from `1..=RUBBLE_MAX_LIFE`.
pub const RUBBLE_MAX_LIFE: u32 = 4;

#[derive(Clone, Copy, Debug, PartialEq, Eq, Structural)]
pub enum BlockKind {
    Tree(Tree),
    Grass(GrassTuft),
    GoldOre(GoldOre),
    IronOre(IronOre),
    CoalOre(CoalOre),
    Stones(Stones),
    Rock(Rock),
    Sticks(Sticks),
}

impl Tree {
    pub fn generate() -> (r: BlockKind)
        ensures
            r == BlockKind::Tree(Tree { life: TREE_LIFE }),
    {
        BlockKind::Tree(Tree { life: TREE_LIFE })
    }
}

impl GrassTuft {
    pub fn generate() -> (r: BlockKind)
        ensures
            r == BlockKind::Grass(GrassTuft { life: FRAIL_LIFE }),
    {
        BlockKind::Grass(GrassTuft { life: FRAIL_LIFE })
    }
}

impl GoldOre {
    pub fn generate() -> (r: BlockKind)
        ensures
            r == BlockKind::GoldOre(GoldOre { life: ORE_LIFE }),
    {
        BlockKind::GoldOre(GoldOre { life: ORE_LIFE })
    }
}

impl IronOre {
    pub fn generate() -> (r: BlockKind)
        ensures
            r == BlockKind::IronOre(IronOre { life: ORE_LIFE }),
    {
        BlockKind::IronOre(IronOre { life: ORE_LIFE })
    }
}

impl CoalOre {
    pub fn generate() -> (r: BlockKind)
        ensures
            r == BlockKind::CoalOre(CoalOre { life: ORE_LIFE }),
    {
        BlockKind::CoalOre(CoalOre { life: ORE_LIFE })
    }
}

impl Rock {
    pub fn generate() -> (r: BlockKind)
        ensures
            r == BlockKind::Rock(Rock { life: ORE_LIFE }),
    {
        BlockKind::Rock(Rock { life: ORE_LIFE })
    }
}

impl Sticks {
    pub fn generate() -> (r: BlockKind)
        ensures
            r == BlockKind::Sticks(Sticks { life: FRAIL_LIFE }),
    {
        BlockKind::Sticks(Sticks { life: FRAIL_LIFE })
    }
}

impl Stones {
    /// A single loose stone.
    pub fn new() -> (r: Self)
        ensures
            r.life == 1,
    {
        Stones { life: 1 }
    }

    /// The range rubble's life is drawn from.
    pub fn life_range() -> (r: (i64, i64))
        ensures
            r == (1i64, RUBBLE_MAX_LIFE as i64),
    {
        (1, RUBBLE_MAX_LIFE as i64)
    }

    /// Rubble with a life drawn uniformly from `life_range`.
    pub fn generate() -> (r: BlockKind)
        ensures
            r matches BlockKind::Stones(s) && 1 <= s.life <= RUBBLE_MAX_LIFE,
    {
        let (lo, hi) = Stones::life_range();
        let life = between(lo, hi);
        BlockKind::Stones(Stones { life: life as u32 })
    }
}

impl BlockKind {
    pub open spec fn spec_life(&self) -> nat {
        match self {
            BlockKind::Tree(b) => b.life as nat,
            BlockKind::Grass(b) => b.life as nat,
            BlockKind::GoldOre(b) => b.life as nat,
            BlockKind::IronOre(b) => b.life as nat,
            BlockKind::CoalOre(b) => b.life as nat,
            BlockKind::Stones(b) => b.life as nat,
            BlockKind::Rock(b) => b.life as nat,
            BlockKind::Sticks(b) => b.life as nat,
        }
    }

    /// The same block with another life.
    pub open spec fn with_life(&self, life: nat) -> BlockKind {
        let life = life as u32;
        match self {
            BlockKind::Tree(_) => BlockKind::Tree(Tree { life }),
            BlockKind::Grass(_) => BlockKind::Grass(GrassTuft { life }),
            BlockKind::GoldOre(_) => BlockKind::GoldOre(GoldOre { life }),
            BlockKind::IronOre(_) => BlockKind::IronOre(IronOre { life }),
            BlockKind::CoalOre(_) => BlockKind::CoalOre(CoalOre { life }),
            BlockKind::Stones(_) => BlockKind::Stones(Stones { life }),
            BlockKind::Rock(_) => BlockKind::Rock(Rock { life }),
            BlockKind::Sticks(_) => BlockKind::Sticks(Sticks { life }),
        }
    }

    /// The block after one harvest: one life less, never below zero.
    pub open spec fn collected(&self) -> BlockKind {
        if self.spec_life() > 0 {
            self.with_life((self.spec_life() - 1) as nat)
        } else {
            *self
        }
    }

    /// The block after `n` harvests.
    pub open spec fn collected_times(&self, n: nat) -> BlockKind
        decreases n,
    {
        if n == 0 {
            *self
        } else {
            self.collected_times((n - 1) as nat).collected()
        }
    }

    /// What one harvest yields.
    pub open spec fn yield_of(&self) -> ItemKind {
        match self {
            BlockKind::Tree(_) => ItemKind::Wood(Wood { quantity: 2 }),
            BlockKind::Grass(_) => ItemKind::Grass(Grass { quantity: 2 }),
            BlockKind::GoldOre(_) => ItemKind::Gold(Gold { quantity: 2 }),
            BlockKind::IronOre(_) => ItemKind::Iron(Iron { quantity: 2 }),
            BlockKind::CoalOre(_) => ItemKind::Coal(Coal { quantity: 2 }),
            BlockKind::Stones(_) => ItemKind::Stone(Stone { quantity: 1 }),
            BlockKind::Rock(_) => ItemKind::Stone(Stone { quantity: 2 }),
            BlockKind::Sticks(_) => ItemKind::Stick(Stick { quantity: 1 }),
        }
    }

    /// Whether `tool` may harvest this block: trees and sticks need an axe,
    /// rock and ores a pickaxe, rubble a pickaxe or the bare hand, and a
    /// grass tuft anything.
    pub open spec fn accepts(&self, tool: ItemKind) -> bool {
        match self {
            BlockKind::Tree(_) | BlockKind::Sticks(_) => tool is Axe,
            BlockKind::Grass(_) => true,
            BlockKind::Stones(_) => tool is Pickaxe || tool is Hand,
            _ => tool is Pickaxe,
        }
    }

    pub fn life(&self) -> (r: u32)
        ensures
            r as nat == self.spec_life(),
    {
        match self {
            BlockKind::Tree(b) => b.life,
            BlockKind::Grass(b) => b.life,
            BlockKind::GoldOre(b) => b.life,
            BlockKind::IronOre(b) => b.life,
            BlockKind::CoalOre(b) => b.life,
            BlockKind::Stones(b) => b.life,
            BlockKind::Rock(b) => b.life,
            BlockKind::Sticks(b) => b.life,
        }
    }

    /// Harvests the block once: its life drops by one (not below zero) and
    /// its yield is returned. Whether the tool in hand may harvest it is for
    /// the caller to check, with `is_compatible_tool`.
    pub fn collect(&mut self) -> (r: ItemKind)
        ensures
            *final(self) == old(self).collected(),
            r == old(self).yield_of(),
            r.qty() > 0,
    {
        match self {
            BlockKind::Tree(b) => {
                b.life = b.life.saturating_sub(1);
                ItemKind::Wood(Wood::new(2))
            },
            BlockKind::Grass(b) => {
                b.life = b.life.saturating_sub(1);
                ItemKind::Grass(Grass::new(2))
            },
            BlockKind::GoldOre(b) => {
                b.life = b.life.saturating_sub(1);
                ItemKind::Gold(Gold::new(2))
            },
            BlockKind::IronOre(b) => {
                b.life = b.life.saturating_sub(1);
                ItemKind::Iron(Iron::new(2))
            },
            BlockKind::CoalOre(b) => {
                b.life = b.life.saturating_sub(1);
                ItemKind::Coal(Coal::new(2))
            },
            BlockKind::Stones(b) => {
                b.life = b.life.saturating_sub(1);
                ItemKind::Stone(Stone::new(1))
            },
            BlockKind::Rock(b) => {
                b.life = b.life.saturating_sub(1);
                ItemKind::Stone(Stone::new(2))
            },
            BlockKind::Sticks(b) => {
                b.life = b.life.saturating_sub(1);
                ItemKind::Stick(Stick::new(1))
            },
        }
    }

    pub fn is_destroyed(&self) -> (r: bool)
        ensures
            r == (self.spec_life() == 0),
    {
        self.life() == 0
    }

    pub fn is_compatible_tool(&self, item: ItemKind) -> (r: bool)
        ensures
            r == self.accepts(item),
    {
        match self {
            BlockKind::Tree(_) | BlockKind::Sticks(_) => matches!(item, ItemKind::Axe(_)),
            BlockKind::Grass(_) => true,
            BlockKind::Stones(_) => matches!(item, ItemKind::Pickaxe(_) | ItemKind::Hand(_)),
            _ => matches!(item, ItemKind::Pickaxe(_)),
        }
    }
}

/// Harvesting takes exactly one life per call and never goes below zero; a
/// block is destroyed exactly once its life is used up, and stays destroyed.
pub proof fn lemma_collect_wears_down(b: BlockKind, n: nat, m: nat)
    requires
        n <= m,
    ensures
        b.collected_times(n).spec_life() == if n <= b.spec_life() {
            b.spec_life() - n
        } else {
            0
        },
        b.collected_times(n + 1).spec_life() == if b.collected_times(n).spec_life() > 0 {
            b.collected_times(n).spec_life() - 1
        } else {
            0
        },
        (b.collected_times(n).spec_life() == 0) <==> n >= b.spec_life(),
        b.collected_times(n).spec_life() == 0 ==> b.collected_times(m).spec_life() == 0,
{
    lemma_collect_times(b, n);
    lemma_collect_times(b, m);
}

proof fn lemma_collect_times(b: BlockKind, n: nat)
    ensures
        b.collected_times(n).spec_life() == if n <= b.spec_life() {
            b.spec_life() - n
        } else {
            0
        },
    decreases n,
{
    if n > 0 {
        lemma_collect_times(b, (n - 1) as nat);
    }
}

} // verus!
