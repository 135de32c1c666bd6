//! The inventory: an ordered list of stacks. Adding merges into stacks of the
//! same kind before opening a new one; crafting checks every ingredient
//! before it takes any.
use vstd::prelude::*;
use crate::items::{Axe, Hand, Iron, ItemKind, Pickaxe, Stick, Stone, Wood};

pub use crate::entities::Direction;

verus! {

#[derive(Clone, Copy, Debug, PartialEq, Eq, Structural)]
pub enum Recipe {
    Axe,
    Pickaxe,
    Boat,
    Armor,
    Sword,
    Bow,
    Arrow,
}

/// What `item` adds to the total of `kind`.
pub open spec fn share(item: ItemKind, kind: int) -> int {
    if item.kind() == kind {
        item.qty()
    } else {
        0
    }
}

/// What `item` could still take in, counted for `kind`.
pub open spec fn free_space(item: ItemKind, kind: int) -> int {
    if item.kind() == kind {
        item.max_qty() - item.qty()
    } else {
        0
    }
}

/// The quantity of `kind` over all of `s`.
pub open spec fn total(s: Seq<ItemKind>, kind: int) -> int
    decreases s.len(),
{
    if s.len() == 0 {
        0
    } else {
        total(s.drop_last(), kind) + share(s.last(), kind)
    }
}

/// How much more of `kind` the stacks of `s` could take in.
pub open spec fn room(s: Seq<ItemKind>, kind: int) -> int
    decreases s.len(),
{
    if s.len() == 0 {
        0
    } else {
        room(s.drop_last(), kind) + free_space(s.last(), kind)
    }
}

pub open spec fn all_wf(s: Seq<ItemKind>) -> bool {
    forall|i: int| 0 <= i < s.len() ==> (#[trigger] s[i]).wf()
}

/// The sum of the amounts of `kind` in a list of `(kind, amount)` needs.
pub open spec fn needed_in(s: Seq<(int, int)>, kind: int) -> int
    decreases s.len(),
{
    if s.len() == 0 {
        0
    } else {
        needed_in(s.drop_last(), kind) + if s.last().0 == kind {
            s.last().1
        } else {
            0
        }
    }
}

pub proof fn lemma_total_update(s: Seq<ItemKind>, i: int, x: ItemKind, kind: int)
    requires
        0 <= i < s.len(),
    ensures
        total(s.update(i, x), kind) == total(s, kind) - share(s[i], kind) + share(x, kind),
        room(s.update(i, x), kind) == room(s, kind) - free_space(s[i], kind) + free_space(x, kind),
    decreases s.len(),
{
    if i == s.len() - 1 {
        assert(s.update(i, x).drop_last() == s.drop_last());
    } else {
        assert(s.update(i, x).drop_last() == s.drop_last().update(i, x));
        lemma_total_update(s.drop_last(), i, x, kind);
    }
}

pub proof fn lemma_total_push(s: Seq<ItemKind>, x: ItemKind, kind: int)
    ensures
        total(s.push(x), kind) == total(s, kind) + share(x, kind),
        room(s.push(x), kind) == room(s, kind) + free_space(x, kind),
{
    assert(s.push(x).drop_last() == s);
}

/// Stacks that hold nothing of `kind` make a total of zero; stacks of `kind`
/// that are all full leave no room.
proof fn lemma_total_zero(s: Seq<ItemKind>, kind: int)
    ensures
        (forall|j: int| 0 <= j < s.len() && (#[trigger] s[j]).kind() == kind ==> s[j].qty() == 0)
            ==> total(s, kind) == 0,
        (forall|j: int| 0 <= j < s.len() && (#[trigger] s[j]).kind() == kind ==> s[j].qty() == s[j].max_qty())
            ==> room(s, kind) == 0,
    decreases s.len(),
{
    if s.len() > 0 {
        lemma_total_zero(s.drop_last(), kind);
        assert(forall|j: int| 0 <= j < s.len() - 1 ==> s.drop_last()[j] == s[j]);
    }
}

proof fn lemma_total_nonneg(s: Seq<ItemKind>, kind: int)
    requires
        all_wf(s),
    ensures
        total(s, kind) >= 0,
        room(s, kind) >= 0,
    decreases s.len(),
{
    if s.len() > 0 {
        assert(all_wf(s.drop_last())) by {
            assert(forall|j: int| 0 <= j < s.len() - 1 ==> s.drop_last()[j] == s[j]);
        }
        lemma_total_nonneg(s.drop_last(), kind);
    }
}

impl Recipe {
    /// The ingredients of the recipe, as `(kind, amount)`.
    pub open spec fn spec_needs(&self) -> Seq<(int, int)> {
        match self {
            Recipe::Pickaxe | Recipe::Axe => seq![(5int, 5int), (8int, 5int)],
            Recipe::Arrow => seq![(5int, 1int), (8int, 1int)],
            Recipe::Armor => seq![(4int, 20int)],
            Recipe::Boat => seq![(2int, 20int)],
            Recipe::Bow => seq![(8int, 20int)],
            Recipe::Sword => seq![(4int, 10int)],
        }
    }

    /// How much of `kind` the recipe takes.
    pub open spec fn needed(&self, kind: int) -> int {
        needed_in(self.spec_needs(), kind)
    }

    /// What the recipe makes.
    pub open spec fn product(&self) -> ItemKind {
        match self {
            Recipe::Pickaxe => ItemKind::Pickaxe(Pickaxe { quantity: 1 }),
            _ => ItemKind::Axe(Axe { quantity: 1 }),
        }
    }

    pub fn get_item(&self) -> (r: ItemKind)
        ensures
            r == self.product(),
            r.wf(),
    {
        match self {
            Recipe::Pickaxe => ItemKind::Pickaxe(Pickaxe::new(1)),
            _ => ItemKind::Axe(Axe::new()),
        }
    }

    pub fn needs(&self) -> (r: Vec<(ItemKind, i8)>)
        ensures
            r@.len() == self.spec_needs().len(),
            forall|i: int| 0 <= i < r@.len() ==> ((#[trigger] r@[i]).0.kind(), r@[i].1 as int) == self.spec_needs()[i],
            forall|i: int| 0 <= i < r@.len() ==> (#[trigger] r@[i]).0.wf() && r@[i].1 > 0,
            forall|i: int, j: int| 0 <= i < j < r@.len() ==> (#[trigger] r@[i]).0.kind() != (#[trigger] r@[j]).0.kind(),
    {
        match self {
            Recipe::Pickaxe | Recipe::Axe => vec![(ItemKind::Stone(Stone::new(1)), 5), (ItemKind::Stick(Stick::new(1)), 5)],
            Recipe::Arrow => vec![(ItemKind::Stone(Stone::new(1)), 1), (ItemKind::Stick(Stick::new(1)), 1)],
            Recipe::Armor => vec![(ItemKind::Iron(Iron::new(1)), 20)],
            Recipe::Boat => vec![(ItemKind::Wood(Wood::new(1)), 20)],
            Recipe::Bow => vec![(ItemKind::Stick(Stick::new(1)), 20)],
            Recipe::Sword => vec![(ItemKind::Iron(Iron::new(1)), 10)],
        }
    }

    /// The recipes a player may choose from.
    pub fn recipes() -> (r: Vec<Recipe>)
        ensures
            r@ == seq![Recipe::Pickaxe, Recipe::Axe, Recipe::Armor, Recipe::Arrow, Recipe::Boat, Recipe::Sword],
    {
        vec![Recipe::Pickaxe, Recipe::Axe, Recipe::Armor, Recipe::Arrow, Recipe::Boat, Recipe::Sword]
    }
}

pub struct Inventory(Vec<ItemKind>);

impl View for Inventory {
    type V = Seq<ItemKind>;

    closed spec fn view(&self) -> Seq<ItemKind> {
        self.0@
    }
}

impl Inventory {
    pub open spec fn wf(&self) -> bool {
        all_wf(self@)
    }

    /// Whether the inventory holds every ingredient of `recipe`.
    pub open spec fn spec_can_craft(&self, recipe: Recipe) -> bool {
        forall|i: int| 0 <= i < recipe.spec_needs().len()
            ==> total(self@, (#[trigger] recipe.spec_needs()[i]).0) >= recipe.spec_needs()[i].1
    }

    /// An empty inventory.
    pub fn new() -> (r: Self)
        ensures
            r@ == Seq::<ItemKind>::empty(),
            r.wf(),
    {
        Inventory(Vec::new())
    }

    /// The inventory a player starts with: a bare hand.
    pub fn new_player() -> (r: Self)
        ensures
            r@ == seq![ItemKind::Hand(Hand { quantity: 1 })],
            r.wf(),
    {
        let r = Inventory(vec![ItemKind::Hand(Hand::new(1))]);
        assert(r@ == seq![ItemKind::Hand(Hand { quantity: 1 })]);
        r
    }

    pub fn len(&self) -> (r: usize)
        ensures
            r == self@.len(),
    {
        self.0.len()
    }

    /// The stack at `index`.
    pub fn get(&self, index: usize) -> (r: &ItemKind)
        requires
            index < self@.len(),
        ensures
            *r == self@[index as int],
    {
        &self.0[index]
    }

    /// Adds `item_to_add`: it fills the stacks of its kind in order, and what
    /// does not fit opens new stacks at the end, each full but the last.
    pub fn add(&mut self, item_to_add: ItemKind)
        requires
            old(self).wf(),
            item_to_add.qty() >= 0,
        ensures
            final(self).wf(),
            forall|k: int| #[trigger] total(final(self)@, k) == total(old(self)@, k) + share(item_to_add, k),
            forall|j: int| 0 <= j < old(self)@.len() ==> (#[trigger] final(self)@[j]).kind() == old(self)@[j].kind(),
            forall|j: int| 0 <= j < old(self)@.len() && old(self)@[j].kind() != item_to_add.kind()
                ==> #[trigger] final(self)@[j] == old(self)@[j],
            forall|j: int| 0 <= j < old(self)@.len() ==> (#[trigger] final(self)@[j]).qty() >= old(self)@[j].qty(),
            old(self)@.len() <= final(self)@.len(),
            (final(self)@.len() == old(self)@.len()) == (room(old(self)@, item_to_add.kind()) >= item_to_add.qty()),
            total(final(self)@.take(old(self)@.len() as int), item_to_add.kind()) == total(old(self)@, item_to_add.kind())
                + if item_to_add.qty() <= room(old(self)@, item_to_add.kind()) {
                item_to_add.qty()
            } else {
                room(old(self)@, item_to_add.kind())
            },
            forall|j: int| old(self)@.len() <= j < final(self)@.len() ==> #[trigger] final(self)@[j] == item_to_add.with_qty(
                final(self)@[j].qty(),
            ) && final(self)@[j].qty() > 0,
            forall|j: int| old(self)@.len() <= j < final(self)@.len() - 1 ==> (#[trigger] final(self)@[j]).qty()
                == item_to_add.max_qty(),
    {
        let kind = item_to_add.kind_id();
        let mut quantity = item_to_add.quantity();
        let ghost q = item_to_add.qty();
        let ghost old_s = self.0@;
        let n = self.0.len();
        let mut i: usize = 0;
        while i < n
            invariant
                n == old_s.len(),
                self.0@.len() == n,
                i <= n,
                kind as int == item_to_add.kind(),
                q == item_to_add.qty(),
                old_s == old(self)@,
                all_wf(self.0@),
                0 <= quantity <= q,
                forall|j: int| i <= j < n ==> self.0@[j] == old_s[j],
                forall|j: int| 0 <= j < n ==> (#[trigger] self.0@[j]).kind() == old_s[j].kind(),
                forall|j: int| 0 <= j < n && old_s[j].kind() != kind ==> #[trigger] self.0@[j] == old_s[j],
                forall|j: int| 0 <= j < n ==> (#[trigger] self.0@[j]).qty() >= old_s[j].qty(),
                forall|k: int| k != kind ==> #[trigger] total(self.0@, k) == total(old_s, k),
                total(self.0@, kind as int) + quantity == total(old_s, kind as int) + q,
                room(self.0@, kind as int) + (q - quantity) == room(old_s, kind as int),
                quantity > 0 ==> forall|j: int| 0 <= j < i && (#[trigger] self.0@[j]).kind() == kind
                    ==> self.0@[j].qty() == self.0@[j].max_qty(),
            decreases n - i,
        {
            if self.0[i].kind_id() == kind {
                let ghost before = self.0@;
                let mut stack = self.0[i];
                quantity = stack.change_quantity(quantity);
                self.0.set(i, stack);
                proof {
                    assert forall|k: int| true implies #[trigger] total(self.0@, k) == total(before, k) - share(before[i as int], k) + share(stack, k)
                        && room(self.0@, k) == room(before, k) - free_space(before[i as int], k) + free_space(stack, k) by {
                        lemma_total_update(before, i as int, stack, k);
                    }
                    lemma_total_update(before, i as int, stack, kind as int);
                    assert(stack.max_qty() == before[i as int].max_qty());
                }
            }
            i += 1;
        }
        let ghost mid = self.0@;
        let ghost left = quantity as int;
        proof {
            lemma_total_nonneg(mid, kind as int);
            lemma_total_zero(mid, kind as int);
            assert(mid.take(n as int) == mid);
        }
        let max = item_to_add.max_quantity();
        while quantity > 0
            invariant
                n == mid.len(),
                n <= self.0@.len(),
                self.0@.take(n as int) == mid,
                kind as int == item_to_add.kind(),
                max as int == item_to_add.max_qty(),
                max >= 1,
                all_wf(self.0@),
                0 <= quantity <= left,
                (self.0@.len() == n) == (quantity == left),
                forall|k: int| k != kind ==> #[trigger] total(self.0@, k) == total(mid, k),
                total(self.0@, kind as int) + quantity == total(mid, kind as int) + left,
                forall|j: int| n <= j < self.0@.len() ==> #[trigger] self.0@[j] == item_to_add.with_qty(self.0@[j].qty())
                    && self.0@[j].qty() > 0,
                forall|j: int| n <= j < self.0@.len() - 1 ==> (#[trigger] self.0@[j]).qty() == max,
                quantity > 0 ==> forall|j: int| n <= j < self.0@.len() ==> (#[trigger] self.0@[j]).qty() == max,
            decreases quantity,
        {
            let part: i8 = if quantity > max { max } else { quantity };
            let fresh = item_to_add.with_quantity(part);
            let ghost before = self.0@;
            self.0.push(fresh);
            quantity = quantity - part;
            proof {
                assert forall|k: int| true implies #[trigger] total(self.0@, k) == total(before, k) + share(fresh, k) by {
                    lemma_total_push(before, fresh, k);
                }
                assert(self.0@.take(n as int) == before.take(n as int));
                assert(fresh == item_to_add.with_qty(fresh.qty()));
                assert forall|j: int| 0 <= j < self.0@.len() implies (#[trigger] self.0@[j]).wf() by {
                    if j < before.len() {
                        assert(self.0@[j] == before[j]);
                    }
                }
                assert forall|j: int| n <= j < self.0@.len() implies #[trigger] self.0@[j] == item_to_add.with_qty(self.0@[j].qty())
                    && self.0@[j].qty() > 0 by {
                    if j < before.len() {
                        assert(self.0@[j] == before[j]);
                    }
                }
                assert forall|j: int| n <= j < self.0@.len() - 1 implies (#[trigger] self.0@[j]).qty() == max by {
                    assert(self.0@[j] == before[j]);
                }
            }
        }
        proof {
            assert(self.0@.take(n as int) == mid);
            assert forall|j: int| 0 <= j < n implies (#[trigger] self.0@[j]) == mid[j] by {
                assert(self.0@.take(n as int)[j] == self.0@[j]);
            }
        }
    }

    /// Takes up to `amount` of `kind` out of the stacks, in order, and
    /// returns what it could not find.
    fn take(&mut self, kind: u8, amount: i8) -> (r: i8)
        requires
            old(self).wf(),
            amount >= 0,
        ensures
            final(self).wf(),
            final(self)@.len() == old(self)@.len(),
            forall|k: int| k != kind ==> #[trigger] total(final(self)@, k) == total(old(self)@, k),
            total(final(self)@, kind as int) == total(old(self)@, kind as int) - (amount - r),
            0 <= r <= amount,
            r > 0 ==> total(final(self)@, kind as int) == 0,
    {
        let mut remaining = amount;
        let ghost old_s = self.0@;
        let n = self.0.len();
        let mut i: usize = 0;
        while i < n
            invariant
                n == old_s.len(),
                self.0@.len() == n,
                i <= n,
                all_wf(self.0@),
                0 <= remaining <= amount,
                forall|k: int| k != kind ==> #[trigger] total(self.0@, k) == total(old_s, k),
                total(self.0@, kind as int) == total(old_s, kind as int) - (amount - remaining),
                remaining > 0 ==> forall|j: int| 0 <= j < i && (#[trigger] self.0@[j]).kind() == kind
                    ==> self.0@[j].qty() == 0,
                forall|j: int| i <= j < n ==> self.0@[j] == old_s[j],
            decreases n - i,
        {
            if self.0[i].kind_id() == kind {
                let ghost before = self.0@;
                let mut stack = self.0[i];
                let left = stack.change_quantity(-remaining);
                remaining = -left;
                self.0.set(i, stack);
                proof {
                    assert forall|k: int| true implies #[trigger] total(self.0@, k) == total(before, k) - share(before[i as int], k) + share(stack, k) by {
                        lemma_total_update(before, i as int, stack, k);
                    }
                }
            }
            i += 1;
        }
        proof {
            lemma_total_zero(self.0@, kind as int);
        }
        remaining
    }

    /// Removes the stacks that hold nothing.
    fn drop_empty(&mut self)
        requires
            old(self).wf(),
        ensures
            final(self).wf(),
            forall|k: int| #[trigger] total(final(self)@, k) == total(old(self)@, k),
            forall|j: int| 0 <= j < final(self)@.len() ==> (#[trigger] final(self)@[j]).qty() > 0,
    {
        let mut kept: Vec<ItemKind> = Vec::new();
        let n = self.0.len();
        let mut i: usize = 0;
        while i < n
            invariant
                n == self.0@.len(),
                i <= n,
                all_wf(self.0@),
                all_wf(kept@),
                forall|k: int| #[trigger] total(kept@, k) == total(self.0@.take(i as int), k),
                forall|j: int| 0 <= j < kept@.len() ==> (#[trigger] kept@[j]).qty() > 0,
            decreases n - i,
        {
            let item = self.0[i];
            let ghost before = kept@;
            proof {
                assert(self.0@.take(i as int + 1).drop_last() == self.0@.take(i as int));
            }
            if item.quantity() > 0 {
                kept.push(item);
                proof {
                    assert forall|k: int| true implies #[trigger] total(kept@, k) == total(before, k) + share(item, k) by {
                        lemma_total_push(before, item, k);
                    }
                }
            }
            i += 1;
        }
        proof {
            assert(self.0@.take(n as int) == self.0@);
        }
        self.0 = kept;
    }

    /// The quantity of the kind of `item_type` over all stacks; a total
    /// beyond `u32::MAX` reads as `u32::MAX`.
    pub fn total_quantity(&self, item_type: &ItemKind) -> (r: u32)
        requires
            self.wf(),
        ensures
            r as int == if total(self@, item_type.kind()) <= u32::MAX {
                total(self@, item_type.kind())
            } else {
                u32::MAX as int
            },
    {
        let kind = item_type.kind_id();
        let mut sum: u32 = 0;
        let n = self.0.len();
        let mut i: usize = 0;
        while i < n
            invariant
                n == self.0@.len(),
                i <= n,
                kind as int == item_type.kind(),
                all_wf(self.0@),
                sum as int == if total(self.0@.take(i as int), kind as int) <= u32::MAX {
                    total(self.0@.take(i as int), kind as int)
                } else {
                    u32::MAX as int
                },
            decreases n - i,
        {
            proof {
                assert(self.0@.take(i as int + 1).drop_last() == self.0@.take(i as int));
                assert(all_wf(self.0@.take(i as int))) by {
                    assert(forall|j: int| 0 <= j < i ==> self.0@.take(i as int)[j] == self.0@[j]);
                }
                lemma_total_nonneg(self.0@.take(i as int), kind as int);
            }
            if self.0[i].kind_id() == kind {
                sum = sum.saturating_add(self.0[i].quantity() as u32);
            }
            i += 1;
        }
        proof {
            assert(self.0@.take(n as int) == self.0@);
        }
        sum
    }

    pub fn can_craft(&self, recipe: &Recipe) -> (r: bool)
        requires
            self.wf(),
        ensures
            r == self.spec_can_craft(*recipe),
    {
        let needs = recipe.needs();
        let mut i: usize = 0;
        while i < needs.len()
            invariant
                self.wf(),
                i <= needs@.len(),
                needs@.len() == recipe.spec_needs().len(),
                forall|m: int| 0 <= m < needs@.len() ==> ((#[trigger] needs@[m]).0.kind(), needs@[m].1 as int) == recipe.spec_needs()[m],
                forall|m: int| 0 <= m < needs@.len() ==> (#[trigger] needs@[m]).1 > 0,
                forall|m: int| 0 <= m < i ==> total(self@, (#[trigger] recipe.spec_needs()[m]).0) >= recipe.spec_needs()[m].1,
            decreases needs@.len() - i,
        {
            let (item, amount) = needs[i];
            if self.total_quantity(&item) < amount as u32 {
                return false;
            }
            i += 1;
        }
        true
    }

    /// Crafts `recipe` if every ingredient is there: takes exactly what the
    /// recipe needs and adds one of its product. Otherwise the inventory is
    /// left as it was.
    pub fn craft(&mut self, recipe: &Recipe) -> (r: String)
        requires
            old(self).wf(),
        ensures
            final(self).wf(),
            old(self).spec_can_craft(*recipe) ==> r@ == "crafting"@ && forall|k: int| #[trigger] total(final(self)@, k)
                == total(old(self)@, k) - recipe.needed(k) + share(recipe.product(), k),
            old(self).spec_can_craft(*recipe) ==> forall|j: int| 0 <= j < final(self)@.len() ==> (#[trigger] final(self)@[j]).qty() > 0,
            !old(self).spec_can_craft(*recipe) ==> r@ == "not enough"@ && final(self)@ == old(self)@,
    {
        if !self.can_craft(recipe) {
            return "not enough".to_owned();
        }
        let ghost old_s = self@;
        let needs = recipe.needs();
        let ghost ns = recipe.spec_needs();
        let mut i: usize = 0;
        while i < needs.len()
            invariant
                self.wf(),
                i <= needs@.len(),
                needs@.len() == ns.len(),
                ns == recipe.spec_needs(),
                forall|m: int| 0 <= m < needs@.len() ==> ((#[trigger] needs@[m]).0.kind(), needs@[m].1 as int) == ns[m],
                forall|m: int| 0 <= m < needs@.len() ==> (#[trigger] needs@[m]).0.wf() && needs@[m].1 > 0,
                forall|a: int, b: int| 0 <= a < b < needs@.len() ==> (#[trigger] needs@[a]).0.kind() != (#[trigger] needs@[b]).0.kind(),
                forall|m: int| 0 <= m < ns.len() ==> total(old_s, (#[trigger] ns[m]).0) >= ns[m].1,
                forall|k: int| #[trigger] total(self@, k) == total(old_s, k) - needed_in(ns.take(i as int), k),
            decreases needs@.len() - i,
        {
            let (item, amount) = needs[i];
            proof {
                assert(ns.take(i as int + 1).drop_last() == ns.take(i as int));
                lemma_needed_absent(ns.take(i as int), ns[i as int].0);
                assert forall|m: int| 0 <= m < i implies ns.take(i as int)[m].0 != ns[i as int].0 by {
                    assert(needs@[m].0.kind() != needs@[i as int].0.kind());
                }
            }
            self.take(item.kind_id(), amount);
            i += 1;
        }
        proof {
            assert(ns.take(needs@.len() as int) == ns);
        }
        self.drop_empty();
        self.add(recipe.get_item());
        "crafting".to_owned()
    }
}

/// A kind that no need names is not needed.
proof fn lemma_needed_absent(s: Seq<(int, int)>, kind: int)
    ensures
        (forall|m: int| 0 <= m < s.len() ==> (#[trigger] s[m]).0 != kind) ==> needed_in(s, kind) == 0,
    decreases s.len(),
{
    if s.len() > 0 {
        assert(forall|m: int| 0 <= m < s.len() - 1 ==> s.drop_last()[m] == s[m]);
        lemma_needed_absent(s.drop_last(), kind);
    }
}

} // verus!
