//! The world: the entities, the chunks loaded around the camera, the chunks
//! kept aside for later, and the camera itself. All lookups by world
//! coordinate go through the loaded chunks; a coordinate whose chunk is not
//! loaded reads as bare grass.
use vstd::prelude::*;
use crate::blocks::BlockKind;
use crate::chunk::{cell_index, cell_of, chunk_coord, chunk_of, flat, Chunk, Terrain, lemma_cell_split};
use crate::entities::{decision_ok, Action, Crawler, EntityKind};
use crate::random::{between, chance};
use crate::items::ItemKind;
use crate::player::Player;

verus! {

/// What the world tells the player, for the presentation layer to show.
#[derive(Clone, Copy, Debug, PartialEq, Eq, Structural)]
pub enum Notice {
    /// A harvest yielded this item.
    Collected(ItemKind),
    /// The tool in hand cannot harvest the block ahead.
    Incompatible,
    /// The player hit an entity for this much.
    Dealt(u8),
    /// The entity at this index was hit for this much.
    Took(usize, u8),
}

/// Ticks a notice stays up.
pub const NOTICE_TICKS: u8 = 20;
/// In one tick in `WILDLIFE_ODDS` a crawler may appear in the window.
pub const WILDLIFE_ODDS: u32 = 50;

/// The camera's new center on one axis: it follows the player only as far
/// as needed to keep them within a third of the half-extent `bound` of it.
pub open spec fn follow(offset: int, pos: int, bound: int) -> int {
    let d = pos - offset;
    let w = bound / 3;
    if d < -w {
        offset + d + w
    } else if d > w {
        offset + d - w
    } else {
        offset
    }
}

/// `ents` after the action `a` of the entity at `i` is applied: it moves,
/// the attacked entity is hit, or the spawned entities are appended.
pub open spec fn apply_action(ents: Seq<EntityKind>, i: int, a: Action) -> Seq<EntityKind> {
    match a {
        Action::Move(x, y) => ents.update(i, ents[i].moved(x, y)),
        Action::Attack(id, d) => if id < ents.len() {
            ents.update(id as int, ents[id as int].hurt_by(d))
        } else {
            ents
        },
        Action::Spawn(v) => ents + v@,
        Action::Nothing => ents,
    }
}

/// The turn of the entity at `i` with decision `a`: nothing if it is dead,
/// else the action is applied and then its clock advances.
pub open spec fn turn(ents: Seq<EntityKind>, i: int, a: Action) -> Seq<EntityKind> {
    if ents[i].spec_dead() {
        ents
    } else {
        let s = apply_action(ents, i, a);
        s.update(i, s[i].ticked())
    }
}

/// `start` after the turns of its first `n` entities, with decisions `acts`.
pub open spec fn turns(start: Seq<EntityKind>, acts: Seq<Action>, n: nat) -> Seq<EntityKind>
    decreases n,
{
    if n == 0 {
        start
    } else {
        turn(turns(start, acts, (n - 1) as nat), n - 1, acts[n - 1])
    }
}

/// Whether each of the first `n` decisions is one that its entity may take
/// in the world as it stands at its turn.
pub open spec fn turns_ok(
    start: Seq<EntityKind>,
    chunks: Seq<Chunk>,
    px: i64,
    py: i64,
    acts: Seq<Action>,
    n: nat,
) -> bool {
    forall|j: nat| j < n ==> {
        let s = #[trigger] turns(start, acts, j);
        !s[j as int].spec_dead() ==> decision_ok(s[j as int], j as int, s, chunks, px, py, acts[j as int])
    }
}

/// The player after the turn of entity `e`: a crawler alive at its turn
/// and right next to the player, or a snake on the player's cell, bites for
/// its damage.
pub open spec fn bite(p: Player, e: EntityKind) -> Player {
    match e {
        EntityKind::Crawler(c) => if !e.spec_dead() && c.touches(p.x, p.y) {
            p.hurt_by(c.damage)
        } else {
            p
        },
        EntityKind::Snake(s) => if !e.spec_dead() && s.on_cell(p.x, p.y) {
            p.hurt_by(s.damage)
        } else {
            p
        },
        _ => p,
    }
}

/// The player after the first `n` turns.
pub open spec fn bitten(p: Player, start: Seq<EntityKind>, acts: Seq<Action>, n: nat) -> Player
    decreases n,
{
    if n == 0 {
        p
    } else {
        bite(bitten(p, start, acts, (n - 1) as nat), turns(start, acts, (n - 1) as nat)[n - 1])
    }
}

proof fn lemma_bitten_prefix(p: Player, start: Seq<EntityKind>, acts: Seq<Action>, a: Action, j: nat)
    requires
        j <= acts.len(),
    ensures
        bitten(p, start, acts.push(a), j) == bitten(p, start, acts, j),
    decreases j,
{
    if j > 0 {
        lemma_bitten_prefix(p, start, acts, a, (j - 1) as nat);
        lemma_turns_prefix(start, acts, a, (j - 1) as nat);
    }
}

/// The entities at the start of the turns: those before, or those before
/// and a fresh crawler on a free grass cell of the window around `offset`.
pub open spec fn wildlife_start(
    ents: Seq<EntityKind>,
    chunks: Seq<Chunk>,
    offset: (i64, i64),
    x_bounds: i64,
    y_bounds: i64,
    start: Seq<EntityKind>,
) -> bool {
    ||| start == ents
    ||| exists|x: i64, y: i64| {
        &&& offset.0 - x_bounds <= x <= offset.0 + x_bounds
        &&& offset.1 - y_bounds <= y <= offset.1 + y_bounds
        &&& tile_at(chunks, x as int, y as int) == Terrain::Grass
        &&& available_in(ents, chunks, x, y)
        &&& start == ents.push(EntityKind::Crawler(Crawler::spec_new(x, y)))
    }
}

/// Turns beyond the first `j` do not change what the first `j` give.
proof fn lemma_turns_prefix(start: Seq<EntityKind>, acts: Seq<Action>, a: Action, j: nat)
    requires
        j <= acts.len(),
    ensures
        turns(start, acts.push(a), j) == turns(start, acts, j),
    decreases j,
{
    if j > 0 {
        lemma_turns_prefix(start, acts, a, (j - 1) as nat);
        assert(acts.push(a)[j - 1] == acts[j - 1]);
    }
}

/// The entities of `s` that are alive, in their order.
pub open spec fn living(s: Seq<EntityKind>) -> Seq<EntityKind>
    decreases s.len(),
{
    if s.len() == 0 {
        s
    } else if s.last().spec_dead() {
        living(s.drop_last())
    } else {
        living(s.drop_last()).push(s.last())
    }
}

/// Every entity of `s` that is alive is among `living(s)`.
pub proof fn lemma_living_keeps(s: Seq<EntityKind>, k: int)
    requires
        0 <= k < s.len(),
        !s[k].spec_dead(),
    ensures
        living(s).contains(s[k]),
    decreases s.len(),
{
    if k == s.len() - 1 {
        assert(living(s)[living(s).len() - 1] == s[k]);
    } else {
        assert(s.drop_last()[k] == s[k]);
        lemma_living_keeps(s.drop_last(), k);
        let m = choose|m: int| 0 <= m < living(s.drop_last()).len() && living(s.drop_last())[m] == s[k];
        if !s.last().spec_dead() {
            assert(living(s)[m] == s[k]);
        }
    }
}

/// Whether chunk `c` lies in the span of chunk coordinates `lo..=hi`.
pub open spec fn in_span(c: Chunk, lo: (int, int), hi: (int, int)) -> bool {
    lo.0 <= c.0 <= hi.0 && lo.1 <= c.1 <= hi.1
}

/// The first and last chunk coordinates of the window the camera shows:
/// every chunk that meets `[offset - bounds, offset + bounds]` on both axes.
pub open spec fn view_span(offset: (i64, i64), x_bounds: i64, y_bounds: i64) -> ((int, int), (int, int)) {
    (
        (chunk_of(offset.0 - x_bounds), chunk_of(offset.1 - y_bounds)),
        (chunk_of(offset.0 + x_bounds), chunk_of(offset.1 + y_bounds)),
    )
}

/// The camera keeps the player within a third of the window's half-extent
/// of its center on each axis, and does not move while the player is
/// already there.
pub proof fn lemma_camera_follow(offset: int, pos: int, bound: int)
    requires
        bound >= 0,
    ensures
        -(bound / 3) <= pos - follow(offset, pos, bound) <= bound / 3,
        (-(bound / 3) <= pos - offset <= bound / 3) ==> follow(offset, pos, bound) == offset,
{
}

pub struct Game {
    pub should_quit: bool,
    pub entities: Vec<EntityKind>,
    pub loaded_chunks: Vec<Chunk>,
    pub unused_chunks: Vec<Chunk>,
    pub offset: (i64, i64),
    pub x_bounds: i64,
    pub y_bounds: i64,
    pub message: Option<Notice>,
    pub message_timer: u8,
}

/// Whether chunk `c` is the chunk at `(cx, cy)`.
pub open spec fn holds_chunk(c: Chunk, cx: int, cy: int) -> bool {
    c.0 == cx && c.1 == cy
}

/// Whether `k` is the first of `chunks` at `(cx, cy)`.
pub open spec fn is_first_chunk(chunks: Seq<Chunk>, k: int, cx: int, cy: int) -> bool {
    &&& 0 <= k < chunks.len()
    &&& holds_chunk(chunks[k], cx, cy)
    &&& forall|j: int| 0 <= j < k ==> !holds_chunk(#[trigger] chunks[j], cx, cy)
}

/// The index of the first of `chunks` at `(cx, cy)`, if any.
pub open spec fn find_chunk(chunks: Seq<Chunk>, cx: int, cy: int) -> Option<int> {
    if exists|k: int| is_first_chunk(chunks, k, cx, cy) {
        Some(choose|k: int| is_first_chunk(chunks, k, cx, cy))
    } else {
        None
    }
}

/// The cell of world coordinate `(x, y)` among `chunks`, if its chunk is
/// there.
pub open spec fn cell_at(chunks: Seq<Chunk>, x: int, y: int) -> Option<(Terrain, Option<BlockKind>)> {
    match find_chunk(chunks, chunk_of(x), chunk_of(y)) {
        Some(k) => Some(chunks[k].2@[flat(cell_of(x), cell_of(y))]),
        None => None,
    }
}

/// The terrain at `(x, y)`: that of its cell when its chunk is loaded,
/// else grass.
pub open spec fn tile_at(chunks: Seq<Chunk>, x: int, y: int) -> Terrain {
    match cell_at(chunks, x, y) {
        Some(c) => c.0,
        None => Terrain::Grass,
    }
}

/// The block at `(x, y)`, when its chunk is loaded.
pub open spec fn block_at(chunks: Seq<Chunk>, x: int, y: int) -> Option<BlockKind> {
    match cell_at(chunks, x, y) {
        Some(c) => c.1,
        None => None,
    }
}

/// Whether `k` is the first entity other than the one at `skip` that takes
/// up `(x, y)`.
pub open spec fn is_first_hit(ents: Seq<EntityKind>, skip: int, k: int, x: i64, y: i64) -> bool {
    &&& 0 <= k < ents.len()
    &&& k != skip
    &&& ents[k].collides(x, y)
    &&& forall|j: int| 0 <= j < k && j != skip ==> !(#[trigger] ents[j]).collides(x, y)
}

/// The first entity other than the one at `skip` that takes up `(x, y)`.
pub open spec fn first_hit(ents: Seq<EntityKind>, skip: int, x: i64, y: i64) -> Option<int> {
    if exists|k: int| is_first_hit(ents, skip, k, x, y) {
        Some(choose|k: int| is_first_hit(ents, skip, k, x, y))
    } else {
        None
    }
}

/// Whether `(x, y)` is free to step on: no entity takes it up, no block
/// stands on it, and it is not water.
pub open spec fn available(g: Game, x: i64, y: i64) -> bool {
    available_in(g.entities@, g.loaded_chunks@, x, y)
}

/// Whether `(x, y)` is free to step on among the entities `ents` and the
/// loaded chunks `chunks`.
pub open spec fn available_in(ents: Seq<EntityKind>, chunks: Seq<Chunk>, x: i64, y: i64) -> bool {
    &&& first_hit(ents, -1, x, y) is None
    &&& block_at(chunks, x as int, y as int) is None
    &&& tile_at(chunks, x as int, y as int) != Terrain::Water
    &&& tile_at(chunks, x as int, y as int) != Terrain::DeepWater
}

pub open spec fn all_chunks_wf(s: Seq<Chunk>) -> bool {
    forall|k: int| 0 <= k < s.len() ==> (#[trigger] s[k]).wf()
}

/// Whether two chunks stand at the same chunk coordinates.
pub open spec fn same_place(a: Chunk, b: Chunk) -> bool {
    a.0 == b.0 && a.1 == b.1
}

/// Whether no two chunks of `s` stand at the same chunk coordinates.
pub open spec fn places_unique(s: Seq<Chunk>) -> bool {
    forall|i: int, j: int| 0 <= i < j < s.len() ==> !same_place(#[trigger] s[i], #[trigger] s[j])
}

/// Whether no chunk of `s` stands where `c` does.
pub open spec fn place_free(s: Seq<Chunk>, c: Chunk) -> bool {
    forall|k: int| 0 <= k < s.len() ==> !same_place(#[trigger] s[k], c)
}

/// Two lists without repeated places, that share no place, make one.
proof fn lemma_unique_concat(a: Seq<Chunk>, b: Seq<Chunk>)
    requires
        places_unique(a),
        places_unique(b),
        forall|k: int| 0 <= k < a.len() ==> place_free(b, #[trigger] a[k]),
    ensures
        places_unique(a + b),
{
    assert forall|i: int, j: int| 0 <= i < j < (a + b).len() implies !same_place(#[trigger] (a + b)[i], #[trigger] (a + b)[j]) by {
        if j < a.len() {
            assert((a + b)[i] == a[i] && (a + b)[j] == a[j]);
        } else if i >= a.len() {
            assert((a + b)[i] == b[i - a.len()] && (a + b)[j] == b[j - a.len()]);
        } else {
            assert((a + b)[i] == a[i] && (a + b)[j] == b[j - a.len()]);
            assert(place_free(b, a[i]));
        }
    }
}

/// A list without repeated places keeps none when it grows by a chunk at a
/// free place.
proof fn lemma_unique_push(s: Seq<Chunk>, c: Chunk)
    requires
        places_unique(s),
        place_free(s, c),
    ensures
        places_unique(s.push(c)),
{
    assert forall|i: int, j: int| 0 <= i < j < s.push(c).len() implies !same_place(#[trigger] s.push(c)[i], #[trigger] s.push(c)[j]) by {
        if j < s.len() {
            assert(s.push(c)[i] == s[i] && s.push(c)[j] == s[j]);
        } else {
            assert(s.push(c)[i] == s[i] && s.push(c)[j] == c);
        }
    }
}

/// In a list without repeated places, looking up a chunk's place finds that
/// chunk.
pub proof fn lemma_find_unique(s: Seq<Chunk>, m: int)
    requires
        places_unique(s),
        0 <= m < s.len(),
    ensures
        find_chunk(s, s[m].0 as int, s[m].1 as int) == Some(m),
{
    assert forall|j: int| 0 <= j < m implies !holds_chunk(#[trigger] s[j], s[m].0 as int, s[m].1 as int) by {
        assert(!same_place(s[j], s[m]));
    }
    assert(is_first_chunk(s, m, s[m].0 as int, s[m].1 as int));
    let k = choose|k: int| is_first_chunk(s, k, s[m].0 as int, s[m].1 as int);
    if k < m {
        assert(holds_chunk(s[k], s[m].0 as int, s[m].1 as int));
    } else if k > m {
        assert(!holds_chunk(s[m], s[m].0 as int, s[m].1 as int));
    }
}

pub open spec fn all_entities_wf(s: Seq<EntityKind>) -> bool {
    forall|k: int| 0 <= k < s.len() ==> (#[trigger] s[k]).wf()
}

/// Two lists of chunks at the same coordinates, in the same order, find the
/// same chunk for every coordinate.
proof fn lemma_same_places(a: Seq<Chunk>, b: Seq<Chunk>, cx: int, cy: int)
    requires
        a.len() == b.len(),
        forall|k: int| 0 <= k < a.len() ==> (#[trigger] a[k]).0 == b[k].0 && a[k].1 == b[k].1,
    ensures
        find_chunk(a, cx, cy) == find_chunk(b, cx, cy),
{
    assert forall|k: int| #[trigger] is_first_chunk(a, k, cx, cy) implies is_first_chunk(b, k, cx, cy) by {
        assert forall|j: int| 0 <= j < k implies !holds_chunk(#[trigger] b[j], cx, cy) by {
            assert(!holds_chunk(a[j], cx, cy));
        }
    }
    assert forall|k: int| #[trigger] is_first_chunk(b, k, cx, cy) implies is_first_chunk(a, k, cx, cy) by {
        assert forall|j: int| 0 <= j < k implies !holds_chunk(#[trigger] a[j], cx, cy) by {
            assert(!holds_chunk(b[j], cx, cy));
        }
    }
    if exists|k: int| is_first_chunk(a, k, cx, cy) {
        let k = choose|k: int| is_first_chunk(a, k, cx, cy);
        let k2 = choose|k: int| is_first_chunk(b, k, cx, cy);
        assert(is_first_chunk(b, k, cx, cy));
        assert(is_first_chunk(b, k2, cx, cy));
        if k2 < k {
            assert(holds_chunk(b[k2], cx, cy));
        } else if k < k2 {
            assert(holds_chunk(b[k], cx, cy));
        }
    }
}

/// The chunk coordinate of world coordinate `x`, for the wider range that a
/// window around the camera can reach.
fn floor_chunk(x: i128) -> (r: i64)
    requires
        i64::MIN as i128 - i64::MAX as i128 <= x <= i64::MAX as i128 + i64::MAX as i128,
    ensures
        r as int == chunk_of(x as int),
{
    let c: i128 = match x.checked_div_euclid(16) {
        Some(c) => c,
        None => 0,
    };
    c as i64
}

impl Game {
    pub open spec fn wf(&self) -> bool {
        &&& all_chunks_wf(self.loaded_chunks@)
        &&& all_chunks_wf(self.unused_chunks@)
        &&& all_entities_wf(self.entities@)
        &&& places_unique(self.loaded_chunks@ + self.unused_chunks@)
        &&& self.x_bounds >= 0
        &&& self.y_bounds >= 0
    }

    /// A world with nothing loaded, the camera at the origin.
    pub fn new() -> (r: Self)
        ensures
            r.wf(),
            r.entities@.len() == 0,
            r.loaded_chunks@.len() == 0,
            r.unused_chunks@.len() == 0,
            r.offset == (0i64, 0i64),
            r.x_bounds == 0,
            r.y_bounds == 0,
            r.message is None,
            !r.should_quit,
    {
        let g = Game {
            should_quit: false,
            entities: Vec::new(),
            loaded_chunks: Vec::new(),
            unused_chunks: Vec::new(),
            offset: (0, 0),
            x_bounds: 0,
            y_bounds: 0,
            message: None,
            message_timer: 0,
        };
        assert(g.loaded_chunks@ + g.unused_chunks@ == Seq::<Chunk>::empty());
        g
    }

    pub fn on_escape(&mut self)
        ensures
            final(self).should_quit,
    {
        self.should_quit = true;
    }

    pub fn entities(&self) -> (r: &Vec<EntityKind>)
        ensures
            r@ == self.entities@,
    {
        &self.entities
    }

    pub fn mut_entities(&mut self) -> (r: &mut Vec<EntityKind>)
        ensures
            *r == old(self).entities,
            final(self).entities == *final(r),
            final(self).loaded_chunks == old(self).loaded_chunks,
            final(self).unused_chunks == old(self).unused_chunks,
            final(self).offset == old(self).offset,
            final(self).x_bounds == old(self).x_bounds,
            final(self).y_bounds == old(self).y_bounds,
            final(self).message == old(self).message,
            final(self).message_timer == old(self).message_timer,
    {
        &mut self.entities
    }

    pub fn loaded_chunks(&self) -> (r: &Vec<Chunk>)
        ensures
            r@ == self.loaded_chunks@,
    {
        &self.loaded_chunks
    }

    pub fn unused_chunks(&self) -> (r: &Vec<Chunk>)
        ensures
            r@ == self.unused_chunks@,
    {
        &self.unused_chunks
    }

    pub fn message(&self) -> (r: Option<Notice>)
        ensures
            r == self.message,
    {
        self.message
    }

    /// Puts up a notice for `NOTICE_TICKS` ticks.
    pub fn set_message(&mut self, notice: Notice)
        ensures
            final(self).message == Some(notice),
            final(self).message_timer == NOTICE_TICKS,
            final(self).entities == old(self).entities,
            final(self).loaded_chunks == old(self).loaded_chunks,
            final(self).unused_chunks == old(self).unused_chunks,
            final(self).offset == old(self).offset,
            final(self).x_bounds == old(self).x_bounds,
            final(self).y_bounds == old(self).y_bounds,
    {
        self.message = Some(notice);
        self.message_timer = NOTICE_TICKS;
    }

    /// Sets the half-extent of the window the camera shows.
    pub fn set_bounds(&mut self, w: i64, h: i64)
        requires
            w >= 0,
            h >= 0,
        ensures
            final(self).x_bounds == w,
            final(self).y_bounds == h,
            final(self).entities == old(self).entities,
            final(self).loaded_chunks == old(self).loaded_chunks,
            final(self).unused_chunks == old(self).unused_chunks,
            final(self).offset == old(self).offset,
    {
        self.x_bounds = w;
        self.y_bounds = h;
    }

    /// Adds an entity to the world.
    pub fn spawn(&mut self, entity: EntityKind)
        ensures
            final(self).entities@ == old(self).entities@.push(entity),
            final(self).loaded_chunks == old(self).loaded_chunks,
            final(self).unused_chunks == old(self).unused_chunks,
            final(self).offset == old(self).offset,
            final(self).x_bounds == old(self).x_bounds,
            final(self).y_bounds == old(self).y_bounds,
    {
        self.entities.push(entity);
    }

    /// Moves the camera after the player at `(px, py)`; see `follow`.
    fn recenter(&mut self, px: i64, py: i64)
        requires
            old(self).x_bounds >= 0,
            old(self).y_bounds >= 0,
        ensures
            final(self).offset.0 == follow(old(self).offset.0 as int, px as int, old(self).x_bounds as int),
            final(self).offset.1 == follow(old(self).offset.1 as int, py as int, old(self).y_bounds as int),
            final(self).entities == old(self).entities,
            final(self).loaded_chunks == old(self).loaded_chunks,
            final(self).unused_chunks == old(self).unused_chunks,
            final(self).x_bounds == old(self).x_bounds,
            final(self).y_bounds == old(self).y_bounds,
            final(self).message == old(self).message,
            final(self).message_timer == old(self).message_timer,
    {
        let x: i128 = px as i128 - self.offset.0 as i128;
        let y: i128 = py as i128 - self.offset.1 as i128;
        let w: i128 = (self.x_bounds / 3) as i128;
        let h: i128 = (self.y_bounds / 3) as i128;
        if x < -w {
            self.offset.0 = (self.offset.0 as i128 + x + w) as i64;
        } else if x > w {
            self.offset.0 = (self.offset.0 as i128 + x - w) as i64;
        }
        if y < -h {
            self.offset.1 = (self.offset.1 as i128 + y + h) as i64;
        } else if y > h {
            self.offset.1 = (self.offset.1 as i128 + y - h) as i64;
        }
    }

    /// Removes the dead entities, keeping the order of the others.
    pub fn remove_dead(&mut self)
        requires
            old(self).wf(),
        ensures
            final(self).wf(),
            final(self).entities@ == living(old(self).entities@),
            forall|i: int| 0 <= i < final(self).entities@.len() ==> !(#[trigger] final(self).entities@[i]).spec_dead(),
            final(self).loaded_chunks == old(self).loaded_chunks,
            final(self).unused_chunks == old(self).unused_chunks,
            final(self).offset == old(self).offset,
            final(self).x_bounds == old(self).x_bounds,
            final(self).y_bounds == old(self).y_bounds,
            final(self).message == old(self).message,
            final(self).message_timer == old(self).message_timer,
    {
        let mut kept: Vec<EntityKind> = Vec::new();
        let n = self.entities.len();
        let mut i: usize = 0;
        while i < n
            invariant
                n == self.entities@.len(),
                i <= n,
                all_entities_wf(self.entities@),
                all_entities_wf(kept@),
                kept@ == living(self.entities@.take(i as int)),
                forall|j: int| 0 <= j < kept@.len() ==> !(#[trigger] kept@[j]).spec_dead(),
            decreases n - i,
        {
            proof {
                assert(self.entities@.take(i as int + 1).drop_last() == self.entities@.take(i as int));
            }
            let e = self.entities[i];
            if !e.is_dead() {
                kept.push(e);
            }
            i += 1;
        }
        proof {
            assert(self.entities@.take(n as int) == self.entities@);
        }
        self.entities = kept;
    }

    /// Puts a fresh crawler on `(x, y)` if that cell is grass and free.
    pub fn spawn_wildlife(&mut self, x: i64, y: i64)
        requires
            old(self).wf(),
        ensures
            final(self).wf(),
            final(self).entities@ == if tile_at(old(self).loaded_chunks@, x as int, y as int) == Terrain::Grass
                && available(*old(self), x, y) {
                old(self).entities@.push(EntityKind::Crawler(Crawler::spec_new(x, y)))
            } else {
                old(self).entities@
            },
            final(self).loaded_chunks == old(self).loaded_chunks,
            final(self).unused_chunks == old(self).unused_chunks,
            final(self).offset == old(self).offset,
            final(self).x_bounds == old(self).x_bounds,
            final(self).y_bounds == old(self).y_bounds,
            final(self).message == old(self).message,
            final(self).message_timer == old(self).message_timer,
    {
        if self.get_tile(x, y) == Terrain::Grass && self.is_available(x, y) {
            self.entities.push(EntityKind::Crawler(Crawler::new(x, y)));
        }
    }

    /// The odds that a crawler may appear in a tick, as (numerator,
    /// denominator).
    pub fn wildlife_odds() -> (r: (u32, u32))
        ensures
            r == (1u32, WILDLIFE_ODDS),
    {
        (1, WILDLIFE_ODDS)
    }

    /// The window in which a crawler may appear: `offset ± bounds` on each
    /// axis, when that fits the integer range.
    pub fn wildlife_window(&self) -> (r: Option<((i64, i64), (i64, i64))>)
        ensures
            match r {
                Some(w) => {
                    &&& w.0.0 == self.offset.0 - self.x_bounds
                    &&& w.0.1 == self.offset.0 + self.x_bounds
                    &&& w.1.0 == self.offset.1 - self.y_bounds
                    &&& w.1.1 == self.offset.1 + self.y_bounds
                },
                None => !{
                    &&& i64::MIN <= self.offset.0 - self.x_bounds <= i64::MAX
                    &&& i64::MIN <= self.offset.0 + self.x_bounds <= i64::MAX
                    &&& i64::MIN <= self.offset.1 - self.y_bounds <= i64::MAX
                    &&& i64::MIN <= self.offset.1 + self.y_bounds <= i64::MAX
                },
            },
    {
        let x0: i128 = self.offset.0 as i128 - self.x_bounds as i128;
        let x1: i128 = self.offset.0 as i128 + self.x_bounds as i128;
        let y0: i128 = self.offset.1 as i128 - self.y_bounds as i128;
        let y1: i128 = self.offset.1 as i128 + self.y_bounds as i128;
        let lo: i128 = i64::MIN as i128;
        let hi: i128 = i64::MAX as i128;
        if lo <= x0 && x0 <= hi && lo <= x1 && x1 <= hi && lo <= y0 && y0 <= hi && lo <= y1 && y1 <= hi {
            let a: i64 = x0 as i64;
            let b: i64 = x1 as i64;
            let c: i64 = y0 as i64;
            let d: i64 = y1 as i64;
            Some(((a, b), (c, d)))
        } else {
            None
        }
    }

    /// Runs one turn for every entity present at the start, in list order:
    /// an entity alive at its turn decides on an action in the world as it
    /// stands then, the action is applied, and the entity's clock advances
    /// (see `turns`). Entities spawned during the run are appended and get no
    /// turn; nothing is removed.
    pub fn tick_entities(&mut self, player: &mut Player)
        requires
            old(self).wf(),
        ensures
            final(self).wf(),
            exists|acts: Seq<Action>| {
                &&& acts.len() == old(self).entities@.len()
                &&& turns_ok(
                    old(self).entities@,
                    old(self).loaded_chunks@,
                    old(player).x,
                    old(player).y,
                    acts,
                    old(self).entities@.len() as nat,
                )
                &&& final(self).entities@ == turns(old(self).entities@, acts, old(self).entities@.len() as nat)
                &&& *final(player) == bitten(*old(player), old(self).entities@, acts, old(self).entities@.len() as nat)
            },
            final(self).offset == old(self).offset,
            final(self).loaded_chunks == old(self).loaded_chunks,
            final(self).unused_chunks == old(self).unused_chunks,
            final(self).x_bounds == old(self).x_bounds,
            final(self).y_bounds == old(self).y_bounds,
            final(player).x == old(player).x,
            final(player).y == old(player).y,
            final(player).inventory == old(player).inventory,
            old(self).message is None || old(self).message_timer == NOTICE_TICKS
                ==> final(self).message is None || final(self).message_timer == NOTICE_TICKS,
    {
        let ghost start = self.entities@;
        let ghost chunks = self.loaded_chunks@;
        let ghost px = player.x;
        let ghost py = player.y;
        let ghost mut acts: Seq<Action> = Seq::empty();
        let ghost p0 = *player;
        let n = self.entities.len();
        let mut i: usize = 0;
        while i < n
            invariant
                self.wf(),
                i <= n,
                n == start.len(),
                n <= self.entities@.len(),
                acts.len() == i,
                self.entities@ == turns(start, acts, i as nat),
                turns_ok(start, chunks, px, py, acts, i as nat),
                *player == bitten(p0, start, acts, i as nat),
                p0 == *old(player),
                chunks == self.loaded_chunks@,
                start == old(self).entities@,
                px == old(player).x,
                py == old(player).y,
                self.offset == old(self).offset,
                self.loaded_chunks == old(self).loaded_chunks,
                self.unused_chunks == old(self).unused_chunks,
                self.x_bounds == old(self).x_bounds,
                self.y_bounds == old(self).y_bounds,
                player.x == old(player).x,
                player.y == old(player).y,
                player.inventory == old(player).inventory,
                old(self).message is None || old(self).message_timer == NOTICE_TICKS
                    ==> self.message is None || self.message_timer == NOTICE_TICKS,
            decreases n - i,
        {
            let ghost before = self.entities@;
            let ghost old_acts = acts;
            if !self.entities[i].is_dead() {
                let action = self.entities[i].on_action(i, player, self);
                let ghost a = action;
                match action {
                    Action::Move(x, y) => self.entities[i].go(x, y),
                    Action::Spawn(mut spawned) => {
                        let ghost sp = spawned@;
                        self.entities.append(&mut spawned);
                        proof {
                            assert(self.entities@ == before + sp);
                            assert forall|k: int| 0 <= k < self.entities@.len() implies (#[trigger] self.entities@[k]).wf() by {
                                if k >= before.len() {
                                    assert(self.entities@[k] == sp[k - before.len()]);
                                }
                            }
                        }
                    },
                    Action::Attack(id, damage) => {
                        self.entities[id].hurt(damage);
                        self.set_message(Notice::Took(id, damage));
                    },
                    Action::Nothing => {},
                }
                proof {
                    assert(self.entities@ == apply_action(before, i as int, a));
                }
                self.entities[i].on_tick();
                proof {
                    acts = old_acts.push(a);
                }
            } else {
                proof {
                    acts = old_acts.push(Action::Nothing);
                }
            }
            proof {
                let a = acts[i as int];
                assert forall|j: nat| j <= i implies #[trigger] turns(start, acts, j) == turns(start, old_acts, j) by {
                    lemma_turns_prefix(start, old_acts, a, j);
                }
                lemma_bitten_prefix(p0, start, old_acts, a, i as nat);
                assert(self.entities@ == turn(before, i as int, a));
                assert(turns(start, acts, (i + 1) as nat) == turn(turns(start, acts, i as nat), i as int, acts[i as int]));
                assert forall|j: nat| j < i + 1 implies ({
                    let s = #[trigger] turns(start, acts, j);
                    !s[j as int].spec_dead() ==> decision_ok(s[j as int], j as int, s, chunks, px, py, acts[j as int])
                }) by {
                    if j < i {
                        assert(acts[j as int] == old_acts[j as int]);
                    }
                }
            }
            i += 1;
        }
        proof {
            assert(acts.len() == start.len());
        }
    }

    /// One tick of the world. The notice ages; the camera follows the
    /// player; one tick in `WILDLIFE_ODDS` a crawler may appear on free
    /// grass at a cell drawn uniformly from the window; then every entity
    /// present gets its turn (see `tick_entities`), and last the dead are
    /// removed.
    pub fn on_tick(&mut self, player: &mut Player)
        requires
            old(self).wf(),
        ensures
            final(self).wf(),
            forall|i: int| 0 <= i < final(self).entities@.len() ==> !(#[trigger] final(self).entities@[i]).spec_dead(),
            final(self).offset.0 == follow(old(self).offset.0 as int, old(player).x as int, old(self).x_bounds as int),
            final(self).offset.1 == follow(old(self).offset.1 as int, old(player).y as int, old(self).y_bounds as int),
            exists|start: Seq<EntityKind>, acts: Seq<Action>| {
                &&& wildlife_start(
                    old(self).entities@,
                    old(self).loaded_chunks@,
                    final(self).offset,
                    old(self).x_bounds,
                    old(self).y_bounds,
                    start,
                )
                &&& acts.len() == start.len()
                &&& turns_ok(start, old(self).loaded_chunks@, old(player).x, old(player).y, acts, start.len() as nat)
                &&& final(self).entities@ == living(turns(start, acts, start.len() as nat))
                &&& *final(player) == bitten(*old(player), start, acts, start.len() as nat)
            },
            final(self).loaded_chunks == old(self).loaded_chunks,
            final(self).unused_chunks == old(self).unused_chunks,
            final(self).x_bounds == old(self).x_bounds,
            final(self).y_bounds == old(self).y_bounds,
            final(player).x == old(player).x,
            final(player).y == old(player).y,
            final(player).inventory == old(player).inventory,
            old(self).message_timer == 1 ==> final(self).message is None || final(self).message_timer == NOTICE_TICKS,
    {
        if self.message_timer > 1 {
            self.message_timer = self.message_timer - 1;
        } else if self.message_timer == 1 {
            self.message = None;
            self.message_timer = 0;
        }
        self.recenter(player.x, player.y);
        let ghost ents0 = self.entities@;
        let (num, den) = Game::wildlife_odds();
        if chance(num, den) {
            match self.wildlife_window() {
                Some(((x0, x1), (y0, y1))) => {
                    let x = between(x0, x1);
                    let y = between(y0, y1);
                    self.spawn_wildlife(x, y);
                },
                None => {},
            }
        }
        let ghost start = self.entities@;
        let ghost p1 = *player;
        proof {
            assert(wildlife_start(ents0, self.loaded_chunks@, self.offset, self.x_bounds, self.y_bounds, start));
        }
        self.tick_entities(player);
        let ghost ticked = self.entities@;
        self.remove_dead();
        proof {
            let acts = choose|acts: Seq<Action>| {
                &&& acts.len() == start.len()
                &&& turns_ok(start, self.loaded_chunks@, old(player).x, old(player).y, acts, start.len() as nat)
                &&& ticked == turns(start, acts, start.len() as nat)
                &&& *player == bitten(p1, start, acts, start.len() as nat)
            };
            assert(wildlife_start(old(self).entities@, old(self).loaded_chunks@, self.offset, old(self).x_bounds, old(self).y_bounds, start)
                && acts.len() == start.len()
                && turns_ok(start, old(self).loaded_chunks@, old(player).x, old(player).y, acts, start.len() as nat)
                && self.entities@ == living(turns(start, acts, start.len() as nat))
                && *player == bitten(*old(player), start, acts, start.len() as nat));
        }
    }

    /// The first and last chunk coordinates of the camera's window; see
    /// `view_span`.
    pub fn span(&self) -> (r: ((i64, i64), (i64, i64)))
        requires
            self.x_bounds >= 0,
            self.y_bounds >= 0,
        ensures
            ((r.0.0 as int, r.0.1 as int), (r.1.0 as int, r.1.1 as int)) == view_span(self.offset, self.x_bounds, self.y_bounds),
            r.0.0 <= r.1.0 < i64::MAX,
            r.0.1 <= r.1.1 < i64::MAX,
    {
        proof {
            vstd::arithmetic::div_mod::lemma_div_is_ordered(self.offset.0 - self.x_bounds, self.offset.0 + self.x_bounds, 16);
            vstd::arithmetic::div_mod::lemma_div_is_ordered(self.offset.1 - self.y_bounds, self.offset.1 + self.y_bounds, 16);
            vstd::arithmetic::div_mod::lemma_div_is_ordered(self.offset.0 + self.x_bounds, 0x1_0000_0000_0000_0000, 16);
            vstd::arithmetic::div_mod::lemma_div_is_ordered(self.offset.1 + self.y_bounds, 0x1_0000_0000_0000_0000, 16);
        }
        let x0: i128 = self.offset.0 as i128 - self.x_bounds as i128;
        let x1: i128 = self.offset.0 as i128 + self.x_bounds as i128;
        let y0: i128 = self.offset.1 as i128 - self.y_bounds as i128;
        let y1: i128 = self.offset.1 as i128 + self.y_bounds as i128;
        (
            (floor_chunk(x0), floor_chunk(y0)),
            (floor_chunk(x1), floor_chunk(y1)),
        )
    }

    /// Whether a loaded chunk stands at chunk coordinates `(c, r)`.
    fn is_loaded(&self, c: i64, r: i64) -> (b: bool)
        ensures
            b == exists|k: int| 0 <= k < self.loaded_chunks@.len() && holds_chunk(#[trigger] self.loaded_chunks@[k], c as int, r as int),
    {
        let n = self.loaded_chunks.len();
        let mut k: usize = 0;
        while k < n
            invariant
                n == self.loaded_chunks@.len(),
                k <= n,
                forall|j: int| 0 <= j < k ==> !holds_chunk(#[trigger] self.loaded_chunks@[j], c as int, r as int),
            decreases n - k,
        {
            if self.loaded_chunks[k].0 == c && self.loaded_chunks[k].1 == r {
                return true;
            }
            k += 1;
        }
        false
    }

    /// Whether a chunk, loaded or kept aside, stands at `(c, r)`.
    fn is_known(&self, c: i64, r: i64) -> (b: bool)
        ensures
            b == ((exists|k: int| 0 <= k < self.loaded_chunks@.len() && holds_chunk(#[trigger] self.loaded_chunks@[k], c as int, r as int))
                || (exists|k: int| 0 <= k < self.unused_chunks@.len() && holds_chunk(#[trigger] self.unused_chunks@[k], c as int, r as int))),
    {
        if self.is_loaded(c, r) {
            return true;
        }
        let n = self.unused_chunks.len();
        let mut k: usize = 0;
        while k < n
            invariant
                n == self.unused_chunks@.len(),
                k <= n,
                forall|j: int| 0 <= j < k ==> !holds_chunk(#[trigger] self.unused_chunks@[j], c as int, r as int),
            decreases n - k,
        {
            if self.unused_chunks[k].0 == c && self.unused_chunks[k].1 == r {
                return true;
            }
            k += 1;
        }
        false
    }

    /// The chunk coordinates in the camera's window where no chunk stands,
    /// loaded or kept aside: the chunks still to be generated.
    pub fn missing_chunks(&self) -> (r: Vec<(i64, i64)>)
        requires
            self.wf(),
        ensures
            forall|m: int| 0 <= m < r@.len() ==> {
                let (c, w) = #[trigger] r@[m];
                let (lo, hi) = view_span(self.offset, self.x_bounds, self.y_bounds);
                &&& lo.0 <= c <= hi.0 && lo.1 <= w <= hi.1
                &&& !self.is_known_spec(c, w)
            },
            forall|c: i64, w: i64| {
                let (lo, hi) = view_span(self.offset, self.x_bounds, self.y_bounds);
                &&& lo.0 <= c <= hi.0 && lo.1 <= w <= hi.1
                &&& !#[trigger] self.is_known_spec(c, w)
            } ==> r@.contains((c, w)),
    {
        let (lo, hi) = self.span();
        let mut r: Vec<(i64, i64)> = Vec::new();
        let mut c = lo.0;
        while c <= hi.0
            invariant
                ((lo.0 as int, lo.1 as int), (hi.0 as int, hi.1 as int)) == view_span(self.offset, self.x_bounds, self.y_bounds),
                lo.0 <= c <= hi.0 + 1,
                hi.0 < i64::MAX,
                lo.1 <= hi.1,
                forall|m: int| 0 <= m < r@.len() ==> {
                    let (a, b) = #[trigger] r@[m];
                    &&& lo.0 <= a <= hi.0 && lo.1 <= b <= hi.1
                    &&& !self.is_known_spec(a, b)
                },
                forall|a: i64, b: i64| lo.0 <= a < c && lo.1 <= b <= hi.1 && !self.is_known_spec(a, b) ==> r@.contains((a, b)),
            decreases hi.0 + 1 - c,
        {
            let mut w = lo.1;
            while w <= hi.1
                invariant
                    ((lo.0 as int, lo.1 as int), (hi.0 as int, hi.1 as int)) == view_span(self.offset, self.x_bounds, self.y_bounds),
                    lo.0 <= c <= hi.0,
                    lo.1 <= w <= hi.1 + 1,
                    hi.1 < i64::MAX,
                    forall|m: int| 0 <= m < r@.len() ==> {
                        let (a, b) = #[trigger] r@[m];
                        &&& lo.0 <= a <= hi.0 && lo.1 <= b <= hi.1
                        &&& !self.is_known_spec(a, b)
                    },
                    forall|a: i64, b: i64| (lo.0 <= a < c && lo.1 <= b <= hi.1 || a == c && lo.1 <= b < w)
                        && !self.is_known_spec(a, b) ==> r@.contains((a, b)),
                decreases hi.1 + 1 - w,
            {
                if !self.is_known(c, w) {
                    let ghost before = r@;
                    r.push((c, w));
                    proof {
                        assert(r@[before.len() as int] == (c, w));
                        assert forall|a: i64, b: i64| before.contains((a, b)) implies r@.contains((a, b)) by {
                            let m = choose|m: int| 0 <= m < before.len() && before[m] == (a, b);
                            assert(r@[m] == (a, b));
                        }
                    }
                }
                w += 1;
            }
            c += 1;
        }
        r
    }

    pub open spec fn is_known_spec(&self, c: i64, w: i64) -> bool {
        (exists|k: int| 0 <= k < self.loaded_chunks@.len() && holds_chunk(#[trigger] self.loaded_chunks@[k], c as int, w as int))
            || (exists|k: int| 0 <= k < self.unused_chunks@.len() && holds_chunk(#[trigger] self.unused_chunks@[k], c as int, w as int))
    }

    /// Streams the chunks after the camera. Every chunk in the window,
    /// loaded or kept aside, is loaded; every loaded chunk outside it is kept
    /// aside, unchanged, for when the camera comes back. A chunk of `fresh`
    /// in the window is loaded where no chunk stood yet; the others are
    /// dropped.
    pub fn update_chunks(&mut self, fresh: Vec<Chunk>)
        requires
            old(self).wf(),
            all_chunks_wf(fresh@),
        ensures
            final(self).wf(),
            ({
                let (lo, hi) = view_span(old(self).offset, old(self).x_bounds, old(self).y_bounds);
                &&& forall|k: int| 0 <= k < final(self).loaded_chunks@.len() ==> in_span(#[trigger] final(self).loaded_chunks@[k], lo, hi)
                &&& forall|k: int| 0 <= k < final(self).unused_chunks@.len() ==> !in_span(#[trigger] final(self).unused_chunks@[k], lo, hi)
                &&& forall|k: int| 0 <= k < old(self).loaded_chunks@.len() ==> if in_span(#[trigger] old(self).loaded_chunks@[k], lo, hi) {
                    final(self).loaded_chunks@.contains(old(self).loaded_chunks@[k])
                } else {
                    final(self).unused_chunks@.contains(old(self).loaded_chunks@[k])
                }
                &&& forall|k: int| 0 <= k < old(self).unused_chunks@.len() ==> if in_span(#[trigger] old(self).unused_chunks@[k], lo, hi) {
                    final(self).loaded_chunks@.contains(old(self).unused_chunks@[k])
                } else {
                    final(self).unused_chunks@.contains(old(self).unused_chunks@[k])
                }
                &&& forall|k: int| 0 <= k < old(self).unused_chunks@.len() && in_span(#[trigger] old(self).unused_chunks@[k], lo, hi)
                    ==> ({
                        let c = old(self).unused_chunks@[k];
                        exists|m: int| find_chunk(final(self).loaded_chunks@, c.0 as int, c.1 as int) == Some(m)
                            && final(self).loaded_chunks@[m] == c
                    })
                &&& forall|k: int| 0 <= k < fresh@.len() && in_span(#[trigger] fresh@[k], lo, hi) ==> exists|m: int|
                    0 <= m < final(self).loaded_chunks@.len() && holds_chunk(#[trigger] final(self).loaded_chunks@[m], fresh@[k].0 as int, fresh@[k].1 as int)
                &&& forall|k: int| 0 <= k < final(self).loaded_chunks@.len() ==> {
                    let c = #[trigger] final(self).loaded_chunks@[k];
                    old(self).loaded_chunks@.contains(c) || old(self).unused_chunks@.contains(c) || fresh@.contains(c)
                }
                &&& forall|k: int| 0 <= k < final(self).unused_chunks@.len() ==> {
                    let c = #[trigger] final(self).unused_chunks@[k];
                    old(self).loaded_chunks@.contains(c) || old(self).unused_chunks@.contains(c)
                }
            }),
            final(self).entities == old(self).entities,
            final(self).offset == old(self).offset,
            final(self).x_bounds == old(self).x_bounds,
            final(self).y_bounds == old(self).y_bounds,
            final(self).message == old(self).message,
            final(self).message_timer == old(self).message_timer,
    {
        let (lo, hi) = self.span();
        let ghost span = view_span(self.offset, self.x_bounds, self.y_bounds);
        let ghost old_loaded = self.loaded_chunks@;
        let ghost old_unused = self.unused_chunks@;
        let mut pool: Vec<Chunk> = Vec::new();
        std::mem::swap(&mut pool, &mut self.loaded_chunks);
        let mut rest: Vec<Chunk> = Vec::new();
        std::mem::swap(&mut rest, &mut self.unused_chunks);
        pool.append(&mut rest);
        let ghost orig = pool@;
        proof {
            assert(orig == old_loaded + old_unused);
            assert forall|k: int| 0 <= k < orig.len() implies (#[trigger] orig[k]).wf() by {
                if k < old_loaded.len() {
                    assert(orig[k] == old_loaded[k]);
                } else {
                    assert(orig[k] == old_unused[k - old_loaded.len()]);
                }
            }
        }
        while pool.len() > 0
            invariant
                span == ((lo.0 as int, lo.1 as int), (hi.0 as int, hi.1 as int)),
                orig == old_loaded + old_unused,
                all_chunks_wf(orig),
                self.entities == old(self).entities,
                self.offset == old(self).offset,
                self.x_bounds == old(self).x_bounds,
                self.y_bounds == old(self).y_bounds,
                self.message == old(self).message,
                self.message_timer == old(self).message_timer,
                self.should_quit == old(self).should_quit,
                old(self).wf(),
                pool@ == orig.take(pool@.len() as int),
                pool@.len() <= orig.len(),
                all_chunks_wf(self.loaded_chunks@),
                all_chunks_wf(self.unused_chunks@),
                forall|k: int| pool@.len() <= k < orig.len() ==> if in_span(#[trigger] orig[k], span.0, span.1) {
                    self.loaded_chunks@.contains(orig[k])
                } else {
                    self.unused_chunks@.contains(orig[k])
                },
                forall|m: int| 0 <= m < self.loaded_chunks@.len() ==> in_span(#[trigger] self.loaded_chunks@[m], span.0, span.1)
                    && orig.contains(self.loaded_chunks@[m]),
                forall|m: int| 0 <= m < self.unused_chunks@.len() ==> !in_span(#[trigger] self.unused_chunks@[m], span.0, span.1)
                    && orig.contains(self.unused_chunks@[m]),
                places_unique(pool@),
                places_unique(self.loaded_chunks@),
                places_unique(self.unused_chunks@),
                forall|k: int| 0 <= k < self.loaded_chunks@.len() ==> place_free(self.unused_chunks@, #[trigger] self.loaded_chunks@[k]),
                forall|k: int| 0 <= k < pool@.len() ==> place_free(self.loaded_chunks@, #[trigger] pool@[k])
                    && place_free(self.unused_chunks@, pool@[k]),
            decreases pool@.len(),
        {
            let ghost p = pool@.len() as int;
            let ghost before_loaded = self.loaded_chunks@;
            let ghost before_unused = self.unused_chunks@;
            match pool.pop() {
                Some(c) => {
                    let ghost before_pool = orig.take(p);
                    proof {
                        assert(c == orig[p - 1]);
                        assert(orig.take(p).take(p - 1) == orig.take(p - 1));
                        assert(place_free(before_loaded, before_pool[p - 1]));
                        assert(place_free(before_unused, before_pool[p - 1]));
                        assert forall|k: int| 0 <= k < p - 1 implies !same_place(#[trigger] pool@[k], c) by {
                            assert(pool@[k] == before_pool[k]);
                            assert(!same_place(before_pool[k], before_pool[p - 1]));
                        }
                        assert forall|k: int| 0 <= k < p - 1 implies place_free(before_loaded, #[trigger] pool@[k])
                            && place_free(before_unused, pool@[k]) by {
                            assert(pool@[k] == before_pool[k]);
                        }
                        assert forall|i: int, j: int| 0 <= i < j < pool@.len() implies !same_place(#[trigger] pool@[i], #[trigger] pool@[j]) by {
                            assert(pool@[i] == before_pool[i] && pool@[j] == before_pool[j]);
                        }
                    }
                    if lo.0 <= c.0 && c.0 <= hi.0 && lo.1 <= c.1 && c.1 <= hi.1 {
                        self.loaded_chunks.push(c);
                        proof {
                            lemma_unique_push(before_loaded, c);
                            assert forall|k: int| 0 <= k < self.loaded_chunks@.len() implies place_free(self.unused_chunks@, #[trigger] self.loaded_chunks@[k]) by {
                                if k < before_loaded.len() {
                                    assert(self.loaded_chunks@[k] == before_loaded[k]);
                                }
                            }
                            assert forall|k: int| 0 <= k < pool@.len() implies place_free(self.loaded_chunks@, #[trigger] pool@[k]) by {
                                assert forall|m: int| 0 <= m < self.loaded_chunks@.len() implies !same_place(#[trigger] self.loaded_chunks@[m], pool@[k]) by {
                                    if m < before_loaded.len() {
                                        assert(self.loaded_chunks@[m] == before_loaded[m]);
                                    }
                                }
                            }
                        }
                    } else {
                        self.unused_chunks.push(c);
                        proof {
                            lemma_unique_push(before_unused, c);
                            assert forall|k: int| 0 <= k < self.loaded_chunks@.len() implies place_free(self.unused_chunks@, #[trigger] self.loaded_chunks@[k]) by {
                                assert forall|m: int| 0 <= m < self.unused_chunks@.len() implies !same_place(#[trigger] self.unused_chunks@[m], self.loaded_chunks@[k]) by {
                                    if m < before_unused.len() {
                                        assert(self.unused_chunks@[m] == before_unused[m]);
                                    }
                                }
                            }
                            assert forall|k: int| 0 <= k < pool@.len() implies place_free(self.unused_chunks@, #[trigger] pool@[k]) by {
                                assert forall|m: int| 0 <= m < self.unused_chunks@.len() implies !same_place(#[trigger] self.unused_chunks@[m], pool@[k]) by {
                                    if m < before_unused.len() {
                                        assert(self.unused_chunks@[m] == before_unused[m]);
                                    }
                                }
                            }
                        }
                    }
                    proof {
                        assert forall|x: Chunk| before_loaded.contains(x) implies self.loaded_chunks@.contains(x) by {
                            let m = choose|m: int| 0 <= m < before_loaded.len() && before_loaded[m] == x;
                            assert(self.loaded_chunks@[m] == x);
                        }
                        assert forall|x: Chunk| before_unused.contains(x) implies self.unused_chunks@.contains(x) by {
                            let m = choose|m: int| 0 <= m < before_unused.len() && before_unused[m] == x;
                            assert(self.unused_chunks@[m] == x);
                        }
                        assert(orig[p - 1] == c);
                        assert(orig.contains(c));
                        if in_span(c, span.0, span.1) {
                            assert(self.loaded_chunks@[self.loaded_chunks@.len() - 1] == c);
                        } else {
                            assert(self.unused_chunks@[self.unused_chunks@.len() - 1] == c);
                        }
                    }
                },
                None => {},
            }
        }
        let mut fresh = fresh;
        let ghost fr = fresh@;
        while fresh.len() > 0
            invariant
                span == ((lo.0 as int, lo.1 as int), (hi.0 as int, hi.1 as int)),
                orig == old_loaded + old_unused,
                all_chunks_wf(fr),
                self.entities == old(self).entities,
                self.offset == old(self).offset,
                self.x_bounds == old(self).x_bounds,
                self.y_bounds == old(self).y_bounds,
                self.message == old(self).message,
                self.message_timer == old(self).message_timer,
                self.should_quit == old(self).should_quit,
                old(self).wf(),
                fresh@ == fr.take(fresh@.len() as int),
                fresh@.len() <= fr.len(),
                all_chunks_wf(self.loaded_chunks@),
                all_chunks_wf(self.unused_chunks@),
                forall|k: int| 0 <= k < orig.len() ==> if in_span(#[trigger] orig[k], span.0, span.1) {
                    self.loaded_chunks@.contains(orig[k])
                } else {
                    self.unused_chunks@.contains(orig[k])
                },
                forall|k: int| fresh@.len() <= k < fr.len() && in_span(#[trigger] fr[k], span.0, span.1) ==> exists|m: int|
                    0 <= m < self.loaded_chunks@.len() && holds_chunk(#[trigger] self.loaded_chunks@[m], fr[k].0 as int, fr[k].1 as int),
                forall|m: int| 0 <= m < self.loaded_chunks@.len() ==> in_span(#[trigger] self.loaded_chunks@[m], span.0, span.1)
                    && (orig.contains(self.loaded_chunks@[m]) || fr.contains(self.loaded_chunks@[m])),
                forall|m: int| 0 <= m < self.unused_chunks@.len() ==> !in_span(#[trigger] self.unused_chunks@[m], span.0, span.1)
                    && orig.contains(self.unused_chunks@[m]),
                places_unique(self.loaded_chunks@),
                places_unique(self.unused_chunks@),
                forall|k: int| 0 <= k < self.loaded_chunks@.len() ==> place_free(self.unused_chunks@, #[trigger] self.loaded_chunks@[k]),
            decreases fresh@.len(),
        {
            let ghost p = fresh@.len() as int;
            let ghost before_loaded = self.loaded_chunks@;
            match fresh.pop() {
                Some(c) => {
                    proof {
                        assert(c == fr[p - 1]);
                        assert(fr.take(p).take(p - 1) == fr.take(p - 1));
                    }
                    if lo.0 <= c.0 && c.0 <= hi.0 && lo.1 <= c.1 && c.1 <= hi.1 && !self.is_loaded(c.0, c.1) {
                        self.loaded_chunks.push(c);
                        proof {
                            assert forall|m: int| 0 <= m < before_loaded.len() implies !same_place(#[trigger] before_loaded[m], c) by {
                                assert(!holds_chunk(before_loaded[m], c.0 as int, c.1 as int));
                            }
                            lemma_unique_push(before_loaded, c);
                            assert forall|k: int| 0 <= k < self.loaded_chunks@.len() implies place_free(self.unused_chunks@, #[trigger] self.loaded_chunks@[k]) by {
                                if k < before_loaded.len() {
                                    assert(self.loaded_chunks@[k] == before_loaded[k]);
                                } else {
                                    assert forall|m: int| 0 <= m < self.unused_chunks@.len() implies !same_place(#[trigger] self.unused_chunks@[m], c) by {
                                        assert(!in_span(self.unused_chunks@[m], span.0, span.1));
                                    }
                                }
                            }
                            assert forall|x: Chunk| before_loaded.contains(x) implies self.loaded_chunks@.contains(x) by {
                                let m = choose|m: int| 0 <= m < before_loaded.len() && before_loaded[m] == x;
                                assert(self.loaded_chunks@[m] == x);
                            }
                            assert(self.loaded_chunks@[before_loaded.len() as int] == c);
                            assert(fr.contains(c));
                            assert forall|k: int| p - 1 <= k < fr.len() && in_span(#[trigger] fr[k], span.0, span.1) implies exists|m: int|
                                0 <= m < self.loaded_chunks@.len() && holds_chunk(#[trigger] self.loaded_chunks@[m], fr[k].0 as int, fr[k].1 as int) by {
                                if k == p - 1 {
                                    assert(holds_chunk(self.loaded_chunks@[before_loaded.len() as int], fr[k].0 as int, fr[k].1 as int));
                                } else {
                                    let m = choose|m: int| 0 <= m < before_loaded.len() && holds_chunk(#[trigger] before_loaded[m], fr[k].0 as int, fr[k].1 as int);
                                    assert(self.loaded_chunks@[m] == before_loaded[m]);
                                }
                            }
                        }
                    }
                },
                None => {},
            }
        }
        proof {
            lemma_unique_concat(self.loaded_chunks@, self.unused_chunks@);
            assert forall|k: int| 0 <= k < old_loaded.len() implies if in_span(#[trigger] old_loaded[k], span.0, span.1) {
                self.loaded_chunks@.contains(old_loaded[k])
            } else {
                self.unused_chunks@.contains(old_loaded[k])
            } by {
                assert(orig[k] == old_loaded[k]);
            }
            assert forall|k: int| 0 <= k < old_unused.len() implies if in_span(#[trigger] old_unused[k], span.0, span.1) {
                self.loaded_chunks@.contains(old_unused[k])
            } else {
                self.unused_chunks@.contains(old_unused[k])
            } by {
                assert(orig[old_loaded.len() + k] == old_unused[k]);
            }
            assert forall|k: int| 0 <= k < old_unused.len() && in_span(#[trigger] old_unused[k], span.0, span.1) implies ({
                let c = old_unused[k];
                exists|m: int| find_chunk(self.loaded_chunks@, c.0 as int, c.1 as int) == Some(m)
                    && self.loaded_chunks@[m] == c
            }) by {
                assert(orig[old_loaded.len() + k] == old_unused[k]);
                let c = old_unused[k];
                assert(self.loaded_chunks@.contains(c));
                let m = choose|m: int| 0 <= m < self.loaded_chunks@.len() && self.loaded_chunks@[m] == c;
                lemma_find_unique(self.loaded_chunks@, m);
            }
            assert forall|x: Chunk| orig.contains(x) implies old_loaded.contains(x) || old_unused.contains(x) by {
                let m = choose|m: int| 0 <= m < orig.len() && orig[m] == x;
                if m < old_loaded.len() {
                    assert(old_loaded[m] == x);
                } else {
                    assert(old_unused[m - old_loaded.len()] == x);
                }
            }
        }
    }

    /// The index among the loaded chunks of the chunk that holds `(x, y)`.
    fn loaded_index(&self, x: i64, y: i64) -> (r: Option<usize>)
        ensures
            r matches Some(k) ==> find_chunk(self.loaded_chunks@, chunk_of(x as int), chunk_of(y as int)) == Some(k as int),
            r is None ==> find_chunk(self.loaded_chunks@, chunk_of(x as int), chunk_of(y as int)) is None,
    {
        let cx = chunk_coord(x);
        let cy = chunk_coord(y);
        let n = self.loaded_chunks.len();
        let mut k: usize = 0;
        while k < n
            invariant
                n == self.loaded_chunks@.len(),
                k <= n,
                cx as int == chunk_of(x as int),
                cy as int == chunk_of(y as int),
                forall|j: int| 0 <= j < k ==> !holds_chunk(#[trigger] self.loaded_chunks@[j], cx as int, cy as int),
            decreases n - k,
        {
            if self.loaded_chunks[k].0 == cx && self.loaded_chunks[k].1 == cy {
                proof {
                    assert(is_first_chunk(self.loaded_chunks@, k as int, cx as int, cy as int));
                    let c = choose|c: int| is_first_chunk(self.loaded_chunks@, c, cx as int, cy as int);
                    assert(c == k);
                }
                return Some(k);
            }
            k += 1;
        }
        None
    }

    /// The index of the first entity other than the one at `skip` that
    /// takes up `(x, y)`.
    fn entity_except(&self, x: i64, y: i64, skip: usize) -> (r: Option<usize>)
        ensures
            r matches Some(k) ==> first_hit(self.entities@, skip as int, x, y) == Some(k as int) && k < self.entities@.len(),
            r is None ==> first_hit(self.entities@, skip as int, x, y) is None,
    {
        let n = self.entities.len();
        let mut k: usize = 0;
        while k < n
            invariant
                n == self.entities@.len(),
                k <= n,
                forall|j: int| 0 <= j < k && j != skip ==> !(#[trigger] self.entities@[j]).collides(x, y),
            decreases n - k,
        {
            if k != skip && self.entities[k].collide(x, y) {
                proof {
                    assert(is_first_hit(self.entities@, skip as int, k as int, x, y));
                    let c = choose|c: int| is_first_hit(self.entities@, skip as int, c, x, y);
                    assert(c == k);
                }
                return Some(k);
            }
            k += 1;
        }
        None
    }

    /// The index of the first entity that takes up `(x, y)`.
    pub fn get_entity_id(&self, x: i64, y: i64) -> (r: Option<usize>)
        ensures
            r matches Some(k) ==> first_hit(self.entities@, -1, x, y) == Some(k as int) && k < self.entities@.len(),
            r is None ==> first_hit(self.entities@, -1, x, y) is None,
    {
        let n = self.entities.len();
        let r = self.entity_except(x, y, n);
        proof {
            assert forall|k: int| #[trigger] is_first_hit(self.entities@, -1, k, x, y) == is_first_hit(self.entities@, n as int, k, x, y) by {}
            if r is None {
                assert(!exists|k: int| #[trigger] is_first_hit(self.entities@, -1, k, x, y));
            } else {
                let k = r->Some_0;
                assert(is_first_hit(self.entities@, -1, k as int, x, y));
            }
        }
        r
    }

    /// The attack of a weapon at index `me`, standing at `(x, y)`, on the
    /// first other entity there.
    pub fn strike_at(&self, me: usize, x: i64, y: i64, damage: u8) -> (r: Action)
        ensures
            r == crate::entities::strike(self.entities@, me as int, x, y, damage),
            r matches Action::Attack(id, _) ==> id < self.entities@.len(),
    {
        match self.entity_except(x, y, me) {
            Some(id) => Action::Attack(id, damage),
            None => Action::Nothing,
        }
    }

    /// The block at `(x, y)`, if its chunk is loaded and a block is there.
    pub fn get_block(&self, x: i64, y: i64) -> (r: Option<BlockKind>)
        requires
            self.wf(),
        ensures
            r == block_at(self.loaded_chunks@, x as int, y as int),
    {
        match self.loaded_index(x, y) {
            Some(k) => self.loaded_chunks[k].cell(cell_index(x), cell_index(y)).1,
            None => None,
        }
    }

    /// The terrain at `(x, y)`; grass where its chunk is not loaded.
    pub fn get_tile(&self, x: i64, y: i64) -> (r: Terrain)
        requires
            self.wf(),
        ensures
            r == tile_at(self.loaded_chunks@, x as int, y as int),
    {
        match self.loaded_index(x, y) {
            Some(k) => self.loaded_chunks[k].cell(cell_index(x), cell_index(y)).0,
            None => Terrain::Grass,
        }
    }

    /// Whether `(x, y)` is free to step on.
    pub fn is_available(&self, x: i64, y: i64) -> (r: bool)
        requires
            self.wf(),
        ensures
            r == available(*self, x, y),
    {
        self.get_entity_id(x, y).is_none() && self.get_block(x, y).is_none() && match self.get_tile(x, y) {
            Terrain::Water => false,
            Terrain::DeepWater => false,
            _ => true,
        }
    }

    /// Puts `block` on `(x, y)`, or clears it; nothing happens where the
    /// chunk is not loaded. Every other cell keeps its block, and every cell
    /// its terrain.
    pub fn put_block(&mut self, x: i64, y: i64, block: Option<BlockKind>)
        requires
            old(self).wf(),
        ensures
            final(self).wf(),
            find_chunk(old(self).loaded_chunks@, chunk_of(x as int), chunk_of(y as int)) is Some
                ==> block_at(final(self).loaded_chunks@, x as int, y as int) == block,
            find_chunk(old(self).loaded_chunks@, chunk_of(x as int), chunk_of(y as int)) is None
                ==> final(self).loaded_chunks@ == old(self).loaded_chunks@,
            forall|x2: int, y2: int| (x2 != x || y2 != y) ==> #[trigger] block_at(final(self).loaded_chunks@, x2, y2)
                == block_at(old(self).loaded_chunks@, x2, y2),
            forall|x2: int, y2: int| #[trigger] tile_at(final(self).loaded_chunks@, x2, y2)
                == tile_at(old(self).loaded_chunks@, x2, y2),
            forall|cx: int, cy: int| #[trigger] find_chunk(final(self).loaded_chunks@, cx, cy)
                == find_chunk(old(self).loaded_chunks@, cx, cy),
            final(self).loaded_chunks@.len() == old(self).loaded_chunks@.len(),
            final(self).entities == old(self).entities,
            final(self).unused_chunks == old(self).unused_chunks,
            final(self).offset == old(self).offset,
            final(self).x_bounds == old(self).x_bounds,
            final(self).y_bounds == old(self).y_bounds,
            final(self).message == old(self).message,
            final(self).message_timer == old(self).message_timer,
    {
        match self.loaded_index(x, y) {
            Some(k) => {
                let ghost before = self.loaded_chunks@;
                let i = cell_index(x);
                let j = cell_index(y);
                self.loaded_chunks[k].set_block(i, j, block);
                proof {
                    let after = self.loaded_chunks@;
                    assert forall|m: int| 0 <= m < after.len() implies (#[trigger] after[m]).0 == before[m].0 && after[m].1 == before[m].1 by {}
                    assert forall|cx: int, cy: int| #[trigger] find_chunk(after, cx, cy) == find_chunk(before, cx, cy) by {
                        lemma_same_places(after, before, cx, cy);
                    }
                    assert forall|x2: int, y2: int| (x2 != x || y2 != y) implies #[trigger] block_at(after, x2, y2)
                        == block_at(before, x2, y2) by {
                        lemma_same_places(after, before, chunk_of(x2), chunk_of(y2));
                        lemma_cell_split(x2, x as int, 0, 0);
                        lemma_cell_split(y2, y as int, 0, 0);
                        lemma_cell_split(x2, x2, 0, 0);
                        lemma_cell_split(y2, y2, 0, 0);
                        if find_chunk(before, chunk_of(x2), chunk_of(y2)) == Some(k as int) {
                            assert(chunk_of(x2) == chunk_of(x as int) && chunk_of(y2) == chunk_of(y as int));
                            assert(flat(cell_of(x2), cell_of(y2)) != flat(i as int, j as int));
                        }
                    }
                    assert forall|x2: int, y2: int| #[trigger] tile_at(after, x2, y2) == tile_at(before, x2, y2) by {
                        lemma_same_places(after, before, chunk_of(x2), chunk_of(y2));
                        lemma_cell_split(x2, x2, 0, 0);
                        lemma_cell_split(y2, y2, 0, 0);
                    }
                    assert(all_chunks_wf(after));
                    let u = self.unused_chunks@;
                    assert forall|i: int, j: int| 0 <= i < j < (after + u).len() implies !same_place(#[trigger] (after + u)[i], #[trigger] (after + u)[j]) by {
                        assert(!same_place((before + u)[i], (before + u)[j]));
                        if i < after.len() {
                            assert((after + u)[i] == after[i] && (before + u)[i] == before[i]);
                        } else {
                            assert((after + u)[i] == (before + u)[i]);
                        }
                        if j < after.len() {
                            assert((after + u)[j] == after[j] && (before + u)[j] == before[j]);
                        } else {
                            assert((after + u)[j] == (before + u)[j]);
                        }
                    }
                }
            },
            None => {},
        }
    }

    /// Clears the block at `(x, y)`.
    pub fn destroy_block(&mut self, x: i64, y: i64)
        requires
            old(self).wf(),
        ensures
            final(self).wf(),
            block_at(final(self).loaded_chunks@, x as int, y as int) is None,
            forall|x2: int, y2: int| (x2 != x || y2 != y) ==> #[trigger] block_at(final(self).loaded_chunks@, x2, y2)
                == block_at(old(self).loaded_chunks@, x2, y2),
            forall|x2: int, y2: int| #[trigger] tile_at(final(self).loaded_chunks@, x2, y2)
                == tile_at(old(self).loaded_chunks@, x2, y2),
            final(self).entities == old(self).entities,
            final(self).unused_chunks == old(self).unused_chunks,
            final(self).offset == old(self).offset,
    {
        self.put_block(x, y, None);
    }
}

} // verus!
