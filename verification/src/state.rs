//! The entity state store: identity-stable records of position, rotation,
//! sprite and entity, with bounds-checked placement, pairwise overlap
//! detection, per-tick integration and two-phase destruction.

use vstd::prelude::*;

use crate::entity::{Effect, Entity, Frac, Input, Rotation, Sprite, Update, Vector, FRAC_DENOM};
use crate::{GameError, X_SCALE, Y_SCALE};

verus! {

/// An integer position in canvas space.
#[derive(Copy, Clone, Debug, PartialEq, Eq, Structural)]
pub struct Position {
    pub x: i32,
    pub y: i32,
}

/// The canvas rectangle every live entity must stay strictly inside.
#[derive(Copy, Clone, Debug, PartialEq, Eq, Structural)]
pub struct Bounds {
    pub width: u16,
    pub height: u16,
}

/// The mutable per-entity record held by the store. The position is unset
/// until the starting position has been resolved; the entity field is cleared
/// (while the record remains) when the entity is destroyed, and the record
/// itself is removed by [`State::prune`] at the end of the tick.
pub struct EntityState<E> {
    pub id: u64,
    pub pos: Option<Position>,
    pub rot: Rotation,
    pub sprite: Sprite,
    pub entity: Option<E>,
}

/// Whether the box of the given scaled sprite extent placed at `(x, y)` lies
/// strictly inside the bounds.
pub open spec fn coords_within(x: int, y: int, sprite: Sprite, b: Bounds) -> bool {
    &&& x > 0
    &&& x + sprite.spec_width() * X_SCALE < b.width
    &&& y > 0
    &&& y + sprite.spec_height() * Y_SCALE < b.height
}

/// The x coordinate a starting fraction resolves to: the fraction of the
/// canvas width, centered by half the sprite's scaled width.
pub open spec fn spec_resolved_x(fx: Frac, sprite: Sprite, b: Bounds) -> int {
    (b.width * fx.num) / (FRAC_DENOM as int) - (sprite.spec_width() * X_SCALE) / 2
}

/// The y coordinate a starting fraction resolves to.
pub open spec fn spec_resolved_y(fy: Frac, sprite: Sprite, b: Bounds) -> int {
    (b.height * fy.num) / (FRAC_DENOM as int) - (sprite.spec_height() * Y_SCALE) / 2
}

impl<E> EntityState<E> {
    /// Whether the record's starting position has been resolved.
    pub open spec fn positioned(self) -> bool {
        self.pos is Some
    }

    /// Whether the record still holds its entity (alive), as opposed to a
    /// destroyed entity awaiting pruning.
    pub open spec fn live(self) -> bool {
        self.entity is Some
    }

    /// The sprite's extent along x, scaled for non-square character cells.
    pub open spec fn extent_x(self) -> int {
        self.sprite.spec_width() * X_SCALE
    }

    /// The sprite's extent along y.
    pub open spec fn extent_y(self) -> int {
        self.sprite.spec_height() * Y_SCALE
    }

    /// Whether the record's box lies strictly inside the bounds.
    pub open spec fn spec_within_bounds(self, b: Bounds) -> bool
        recommends
            self.positioned(),
    {
        coords_within(self.pos.unwrap().x as int, self.pos.unwrap().y as int, self.sprite, b)
    }

    /// The x coordinate a requested step would move this record to: the step
    /// is scaled per axis before it is added.
    pub open spec fn stepped_x(self, step: Vector) -> int
        recommends
            self.positioned(),
    {
        self.pos.unwrap().x + step.x * X_SCALE
    }

    /// The y coordinate a requested step would move this record to.
    pub open spec fn stepped_y(self, step: Vector) -> int
        recommends
            self.positioned(),
    {
        self.pos.unwrap().y + step.y * Y_SCALE
    }

    /// Whether the requested step keeps the record strictly inside bounds.
    pub open spec fn step_within(self, step: Vector, b: Bounds) -> bool
        recommends
            self.positioned(),
    {
        coords_within(self.stepped_x(step), self.stepped_y(step), self.sprite, b)
    }

    /// Whether the records' boxes truly overlap: touching edges do not count.
    pub open spec fn spec_overlaps(self, other: EntityState<E>) -> bool
        recommends
            self.positioned(),
            other.positioned(),
    {
        let a = self.pos.unwrap();
        let b = other.pos.unwrap();
        &&& a.x < b.x + other.extent_x()
        &&& a.x + self.extent_x() > b.x
        &&& a.y < b.y + other.extent_y()
        &&& a.y + self.extent_y() > b.y
    }

    /// Bounds check for this record's box against the canvas rectangle.
    pub fn within_bounds(&self, bounds: Bounds) -> (r: bool)
        requires
            self.positioned(),
        ensures
            r == self.spec_within_bounds(bounds),
    {
        let p = self.pos.unwrap();
        let px = p.x as i64;
        let py = p.y as i64;
        let ex = (self.sprite.width() as i64) * (X_SCALE as i64);
        let ey = (self.sprite.height() as i64) * (Y_SCALE as i64);
        px > 0 && px + ex < bounds.width as i64 && py > 0 && py + ey < bounds.height as i64
    }

    /// Strict axis-aligned bounding-box overlap test between two records.
    pub fn overlaps(&self, other: &EntityState<E>) -> (r: bool)
        requires
            self.positioned(),
            other.positioned(),
        ensures
            r == self.spec_overlaps(*other),
    {
        let a = self.pos.unwrap();
        let b = other.pos.unwrap();
        let ax = a.x as i64;
        let ay = a.y as i64;
        let bx = b.x as i64;
        let by = b.y as i64;
        let a_ex = (self.sprite.width() as i64) * (X_SCALE as i64);
        let a_ey = (self.sprite.height() as i64) * (Y_SCALE as i64);
        let b_ex = (other.sprite.width() as i64) * (X_SCALE as i64);
        let b_ey = (other.sprite.height() as i64) * (Y_SCALE as i64);
        ax < bx + b_ex && ax + a_ex > bx && ay < by + b_ey && ay + a_ey > by
    }
}

/// Overlap is reciprocal: whichever way round a pair of records is tested,
/// the outcome is the same, so collision notification does not depend on the
/// order in which pairs are walked.
pub proof fn lemma_overlaps_symmetric<E>(a: EntityState<E>, b: EntityState<E>)
    requires
        a.positioned(),
        b.positioned(),
    ensures
        a.spec_overlaps(b) == b.spec_overlaps(a),
{
}

/// How one record changes under one entity's update outcome: a move whose
/// target violates the bounds is rolled back while the rotation still
/// applies; a destroyed entity is cleared from its record, which itself
/// stays in place until the store is pruned.
pub open spec fn integrated<E>(
    pre: EntityState<E>,
    post: EntityState<E>,
    u: Update,
    b: Bounds,
) -> bool
    recommends
        pre.positioned(),
{
    &&& post.id == pre.id
    &&& post.sprite == pre.sprite
    &&& match u {
        Update::Noop => post.pos == pre.pos && post.rot == pre.rot && post.live() == pre.live(),
        Update::Action { step, rotate } => {
            &&& post.rot == pre.rot.spec_plus(rotate)
            &&& post.live() == pre.live()
            &&& if pre.step_within(step, b) {
                post.pos == Some(
                    Position { x: pre.stepped_x(step) as i32, y: pre.stepped_y(step) as i32 },
                )
            } else {
                post.pos == pre.pos
            }
        },
        Update::Destroy => post.pos == pre.pos && post.rot == pre.rot && !post.live(),
    }
}

/// Whether `post` is the result of integrating some update outcome into
/// `pre`: what one record may turn into during a single update pass.
pub open spec fn some_update_integrates<E>(
    pre: EntityState<E>,
    post: EntityState<E>,
    b: Bounds,
) -> bool {
    exists|u: Update| integrated(pre, post, u, b)
}

/// How a whole record sequence may change under one update pass: each record
/// is integrated with some update outcome, and a record that had already
/// lost its entity is left untouched.
pub open spec fn updated_records<E>(
    pre: Seq<EntityState<E>>,
    post: Seq<EntityState<E>>,
    b: Bounds,
) -> bool {
    &&& post.len() == pre.len()
    &&& forall|i: int|
        0 <= i < pre.len() ==> some_update_integrates(pre[i], #[trigger] post[i], b)
    &&& forall|i: int| 0 <= i < pre.len() && !(#[trigger] pre[i]).live() ==> post[i] == pre[i]
}

/// Apply one entity's update outcome to its record: move with bounds-checked
/// rollback, rotate by modular addition, or clear the destroyed entity.
pub fn apply_update<E>(rec: &mut EntityState<E>, u: Update, bounds: Bounds)
    requires
        old(rec).positioned(),
    ensures
        integrated(*old(rec), *final(rec), u, bounds),
        final(rec).positioned(),
        final(rec).entity == if u is Destroy {
            Option::<E>::None
        } else {
            old(rec).entity
        },
        final(rec).spec_within_bounds(bounds) || final(rec).pos == old(rec).pos,
{
    match u {
        Update::Noop => {},
        Update::Action { step, rotate } => {
            let p = rec.pos.unwrap();
            let nx: i64 = p.x as i64 + (step.x as i64) * (X_SCALE as i64);
            let ny: i64 = p.y as i64 + (step.y as i64) * (Y_SCALE as i64);
            let ex = (rec.sprite.width() as i64) * (X_SCALE as i64);
            let ey = (rec.sprite.height() as i64) * (Y_SCALE as i64);
            if nx > 0 && nx + ex < bounds.width as i64 && ny > 0 && ny + ey
                < bounds.height as i64 {
                rec.pos = Some(Position { x: nx as i32, y: ny as i32 });
            }
            rec.rot = rec.rot.plus(rotate);
        },
        Update::Destroy => {
            rec.entity = None;
        },
    }
}

/// Appending one element to a sequence extends its filtered view by that
/// element exactly when the element satisfies the predicate.
proof fn lemma_filter_push<A>(s: Seq<A>, x: A, pred: spec_fn(A) -> bool)
    ensures
        s.push(x).filter(pred) == if pred(x) {
            s.filter(pred).push(x)
        } else {
            s.filter(pred)
        },
{
    reveal(Seq::filter);
    assert(s.push(x).drop_last() =~= s);
}

/// Every element of a filtered sequence is an element of the original.
proof fn lemma_filter_subset<A>(s: Seq<A>, pred: spec_fn(A) -> bool)
    ensures
        forall|k: int|
            0 <= k < s.filter(pred).len() ==> s.contains(#[trigger] s.filter(pred)[k]),
    decreases s.len(),
{
    reveal(Seq::filter);
    if s.len() > 0 {
        lemma_filter_subset(s.drop_last(), pred);
        assert forall|k: int| 0 <= k < s.filter(pred).len() implies s.contains(
            #[trigger] s.filter(pred)[k],
        ) by {
            if k < s.drop_last().filter(pred).len() {
                let x = s.drop_last().filter(pred)[k];
                let m = choose|m: int| 0 <= m < s.drop_last().len() && s.drop_last()[m] == x;
                assert(s[m] == x);
            } else {
                assert(s[s.len() - 1] == s.filter(pred)[k]);
            }
        }
    }
}

/// The records that survive pruning: exactly those still holding their
/// entity, in their original order.
pub open spec fn pruned<E>(records: Seq<EntityState<E>>) -> Seq<EntityState<E>> {
    records.filter(|r: EntityState<E>| r.live())
}

/// Two-phase destruction, second phase: pruning removes a destroyed record
/// for good — no record with its id survives — while every live record is
/// carried over.
pub proof fn lemma_two_phase_destroy<E>(records: Seq<EntityState<E>>, i: int)
    requires
        0 <= i < records.len(),
        !records[i].live(),
        forall|a: int, b: int|
            0 <= a < b < records.len() ==> records[a].id != records[b].id,
    ensures
        forall|k: int|
            0 <= k < pruned(records).len() ==> (#[trigger] pruned(records)[k]).id
                != records[i].id,
        forall|m: int|
            0 <= m < records.len() && (#[trigger] records[m]).live() ==> pruned(
                records,
            ).contains(records[m]),
{
    broadcast use vstd::seq_lib::group_filter_ensures;

    let pred = |r: EntityState<E>| r.live();
    lemma_filter_subset(records, pred);
    assert forall|k: int| 0 <= k < pruned(records).len() implies (#[trigger] pruned(
        records,
    )[k]).id != records[i].id by {
        let x = pruned(records)[k];
        let m = choose|m: int| 0 <= m < records.len() && records[m] == x;
        assert(x.live());
        assert(m != i);
        if m < i {
            assert(records[m].id != records[i].id);
        } else {
            assert(records[i].id != records[m].id);
        }
    }
}

/// Resolve a starting position: scale the fractions by the canvas extent,
/// center by half the sprite's scaled extent, and reject a placement whose
/// box does not lie strictly inside the bounds.
pub fn resolve_position(fx: Frac, fy: Frac, sprite: &Sprite, bounds: Bounds) -> (r: Option<
    Position,
>)
    ensures
        r is Some <==> coords_within(
            spec_resolved_x(fx, *sprite, bounds),
            spec_resolved_y(fy, *sprite, bounds),
            *sprite,
            bounds,
        ),
        r matches Some(p) ==> p.x == spec_resolved_x(fx, *sprite, bounds) && p.y
            == spec_resolved_y(fy, *sprite, bounds),
{
    proof {
        assert((bounds.width as u64) * (fx.num as u64) < 0x1_0000_0000u64) by (nonlinear_arith)
            requires
                bounds.width < 0x1_0000,
                fx.num < 0x1_0000,
        ;
        assert((bounds.height as u64) * (fy.num as u64) < 0x1_0000_0000u64) by (nonlinear_arith)
            requires
                bounds.height < 0x1_0000,
                fy.num < 0x1_0000,
        ;
    }
    let prod_x: u64 = (bounds.width as u64) * (fx.num as u64);
    let prod_y: u64 = (bounds.height as u64) * (fy.num as u64);
    proof {
        vstd::arithmetic::div_mod::lemma_div_nonincreasing(prod_x as int, FRAC_DENOM as int);
        vstd::arithmetic::div_mod::lemma_div_nonincreasing(prod_y as int, FRAC_DENOM as int);
    }
    let scaled_x: u64 = prod_x / (FRAC_DENOM as u64);
    let scaled_y: u64 = prod_y / (FRAC_DENOM as u64);

    let span_x: u64 = (sprite.width() as u64) * (X_SCALE as u64);
    let span_y: u64 = (sprite.height() as u64) * (Y_SCALE as u64);
    proof {
        vstd::arithmetic::div_mod::lemma_div_nonincreasing(span_x as int, 2);
        vstd::arithmetic::div_mod::lemma_div_nonincreasing(span_y as int, 2);
    }
    let half_x: u64 = span_x / 2;
    let half_y: u64 = span_y / 2;
    let rx: i64 = scaled_x as i64 - half_x as i64;
    let ry: i64 = scaled_y as i64 - half_y as i64;

    let ex = (sprite.width() as i64) * (X_SCALE as i64);
    let ey = (sprite.height() as i64) * (Y_SCALE as i64);
    if rx > 0 && rx + ex < bounds.width as i64 && ry > 0 && ry + ey < bounds.height as i64 {
        Some(Position { x: rx as i32, y: ry as i32 })
    } else {
        None
    }
}

/// The entity state store.
pub struct State<E> {
    bounds: Option<Bounds>,
    entity_states: Vec<EntityState<E>>,
    next_id: u64,
}

impl<E: Entity> State<E> {
    /// The records the store holds, in insertion order.
    pub closed spec fn records(&self) -> Seq<EntityState<E>> {
        self.entity_states@
    }

    /// The canvas bounds, once set.
    pub closed spec fn spec_bounds(&self) -> Option<Bounds> {
        self.bounds
    }

    /// The id the next registered entity will receive.
    pub closed spec fn spec_next_id(&self) -> u64 {
        self.next_id
    }

    /// Store invariant: every positioned record lies strictly inside the
    /// bounds, a record loses its entity only after it was positioned, ids
    /// are unique and below the allocation counter.
    pub open spec fn wf(&self) -> bool {
        &&& forall|i: int|
            0 <= i < self.records().len() ==> {
                let r = #[trigger] self.records()[i];
                &&& (r.positioned() ==> self.spec_bounds() is Some && r.spec_within_bounds(
                    self.spec_bounds().unwrap(),
                ))
                &&& (!r.positioned() ==> r.live())
                &&& r.id < self.spec_next_id()
            }
        &&& forall|i: int, j: int|
            0 <= i < j < self.records().len() ==> #[trigger] self.records()[i].id
                != #[trigger] self.records()[j].id
    }

    /// A fresh, empty store.
    pub fn new() -> (s: State<E>)
        ensures
            s.wf(),
            s.records().len() == 0,
            s.spec_bounds() is None,
            s.spec_next_id() == 0,
    {
        State { bounds: None, entity_states: Vec::new(), next_id: 0 }
    }

    /// The canvas bounds, if they have been set.
    pub fn bounds(&self) -> (b: Option<Bounds>)
        ensures
            b == self.spec_bounds(),
    {
        self.bounds
    }

    /// Number of records currently held, destroyed-but-unpruned ones
    /// included.
    pub fn len(&self) -> (n: usize)
        ensures
            n == self.records().len(),
    {
        self.entity_states.len()
    }

    /// Read one record.
    pub fn record(&self, i: usize) -> (r: &EntityState<E>)
        requires
            i < self.records().len(),
        ensures
            *r == self.records()[i as int],
    {
        &self.entity_states[i]
    }

    /// Set the canvas bounds; done once at startup, before any starting
    /// position is resolved.
    pub fn set_bounds(&mut self, bounds: Bounds)
        requires
            old(self).wf(),
            forall|i: int|
                0 <= i < old(self).records().len()
                    ==> !(#[trigger] old(self).records()[i]).positioned(),
        ensures
            final(self).wf(),
            final(self).spec_bounds() == Some(bounds),
            final(self).records() == old(self).records(),
            final(self).spec_next_id() == old(self).spec_next_id(),
    {
        self.bounds = Some(bounds);
    }

    /// Register an entity: allocate a fresh stable id and insert a record
    /// with unresolved position.
    pub fn add_entity(&mut self, entity: E) -> (id: u64)
        requires
            old(self).wf(),
            old(self).spec_next_id() < u64::MAX,
        ensures
            final(self).wf(),
            id == old(self).spec_next_id(),
            final(self).spec_next_id() == id + 1,
            final(self).spec_bounds() == old(self).spec_bounds(),
            final(self).records().len() == old(self).records().len() + 1,
            forall|i: int|
                0 <= i < old(self).records().len()
                    ==> final(self).records()[i] == old(self).records()[i],
            final(self).records().last().id == id,
            final(self).records().last().pos is None,
            final(self).records().last().rot == Rotation::Zero,
            final(self).records().last().entity == Some(entity),
    {
        let sprite = entity.sprite();
        let id = self.next_id;
        self.next_id = id + 1;
        self.entity_states.push(
            EntityState { id, pos: None, rot: Rotation::Zero, sprite, entity: Some(entity) },
        );
        id
    }

    /// For every record with an unresolved position, query the entity's
    /// starting fractions and resolve them against the bounds. Fails with
    /// [`GameError::OutOfBounds`], leaving the offending record unpositioned,
    /// if a resolved placement would violate the bounds invariant.
    pub fn set_starting_positions(&mut self) -> (r: Result<(), GameError>)
        requires
            old(self).wf(),
            old(self).spec_bounds() is Some,
        ensures
            final(self).wf(),
            final(self).spec_bounds() == old(self).spec_bounds(),
            final(self).spec_next_id() == old(self).spec_next_id(),
            final(self).records().len() == old(self).records().len(),
            forall|i: int|
                0 <= i < old(self).records().len() ==> {
                    let pre = old(self).records()[i];
                    let post = #[trigger] final(self).records()[i];
                    &&& post.id == pre.id
                    &&& post.rot == pre.rot
                    &&& post.sprite == pre.sprite
                    &&& post.entity == pre.entity
                    &&& (pre.positioned() ==> post.pos == pre.pos)
                },
            r is Ok ==> forall|i: int|
                0 <= i < final(self).records().len()
                    ==> (#[trigger] final(self).records()[i]).positioned(),
            r is Err ==> r == Err::<(), GameError>(GameError::OutOfBounds),
            (forall|i: int|
                0 <= i < old(self).records().len()
                    ==> (#[trigger] old(self).records()[i]).positioned()) ==> r is Ok,
    {
        let bounds = self.bounds.unwrap();
        let n = self.entity_states.len();
        let mut i: usize = 0;
        while i < n
            invariant
                n == self.records().len(),
                0 <= i <= n,
                self.wf(),
                self.spec_bounds() == old(self).spec_bounds(),
                self.spec_bounds() == Some(bounds),
                self.spec_next_id() == old(self).spec_next_id(),
                n == old(self).records().len(),
                forall|m: int|
                    0 <= m < n ==> {
                        let pre = old(self).records()[m];
                        let post = #[trigger] self.records()[m];
                        &&& post.id == pre.id
                        &&& post.rot == pre.rot
                        &&& post.sprite == pre.sprite
                        &&& post.entity == pre.entity
                        &&& (pre.positioned() ==> post.pos == pre.pos)
                    },
                forall|m: int| 0 <= m < i ==> (#[trigger] self.records()[m]).positioned(),
            decreases n - i,
        {
            if self.entity_states[i].pos.is_none() {
                let e = self.entity_states[i].entity.as_ref().unwrap();
                let (fx, fy) = e.start_pos();
                match resolve_position(fx, fy, &self.entity_states[i].sprite, bounds) {
                    Some(p) => {
                        self.entity_states[i].pos = Some(p);
                    },
                    None => {
                        proof {
                            assert(!old(self).records()[i as int].positioned());
                        }
                        return Err(GameError::OutOfBounds);
                    },
                }
            }
            i += 1;
        }
        Ok(())
    }

    /// Compute every unordered pair of live records whose boxes overlap.
    /// Each qualifying pair appears exactly once, as `(i, j)` with `i < j`,
    /// so both members of a pair are notified exactly once per tick,
    /// whatever order the pairs are walked in.
    pub fn collision_pairs(&self) -> (pairs: Vec<(usize, usize)>)
        requires
            forall|i: int|
                0 <= i < self.records().len() ==> (#[trigger] self.records()[i]).positioned(),
        ensures
            forall|k: int|
                0 <= k < pairs@.len() ==> {
                    let (i, j) = #[trigger] pairs@[k];
                    &&& i < j < self.records().len()
                    &&& self.records()[i as int].live()
                    &&& self.records()[j as int].live()
                    &&& self.records()[i as int].spec_overlaps(self.records()[j as int])
                },
            forall|i: usize, j: usize|
                i < j < self.records().len() && self.records()[i as int].live()
                    && self.records()[j as int].live() && #[trigger] self.records()[
                    i as int].spec_overlaps(self.records()[j as int]) ==> pairs@.contains((i, j)),
            forall|k1: int, k2: int| 0 <= k1 < k2 < pairs@.len() ==> pairs@[k1] != pairs@[k2],
    {
        let n = self.entity_states.len();
        let mut pairs: Vec<(usize, usize)> = Vec::new();
        let mut i: usize = 0;
        while i < n
            invariant
                n == self.records().len(),
                0 <= i <= n,
                forall|m: int|
                    0 <= m < n ==> (#[trigger] self.records()[m]).positioned(),
                forall|k: int|
                    0 <= k < pairs@.len() ==> {
                        let (a, b) = #[trigger] pairs@[k];
                        &&& a < b < n
                        &&& a < i
                        &&& self.records()[a as int].live()
                        &&& self.records()[b as int].live()
                        &&& self.records()[a as int].spec_overlaps(self.records()[b as int])
                    },
                forall|a: usize, b: usize|
                    a < i && a < b < n && self.records()[a as int].live()
                        && self.records()[b as int].live() && #[trigger] self.records()[
                        a as int].spec_overlaps(self.records()[b as int]) ==> pairs@.contains(
                        (a, b),
                    ),
                forall|k1: int, k2: int| 0 <= k1 < k2 < pairs@.len() ==> pairs@[k1] != pairs@[k2],
            decreases n - i,
        {
            let mut j: usize = i + 1;
            while j < n
                invariant
                    n == self.records().len(),
                    0 <= i < n,
                    i < j <= n,
                    forall|m: int|
                        0 <= m < n ==> (#[trigger] self.records()[m]).positioned(),
                    forall|k: int|
                        0 <= k < pairs@.len() ==> {
                            let (a, b) = #[trigger] pairs@[k];
                            &&& a < b < n
                            &&& (a < i || (a == i && b < j))
                            &&& self.records()[a as int].live()
                            &&& self.records()[b as int].live()
                            &&& self.records()[a as int].spec_overlaps(self.records()[b as int])
                        },
                    forall|a: usize, b: usize|
                        (a < i || (a == i && b < j)) && a < b < n && self.records()[
                            a as int].live() && self.records()[b as int].live()
                            && #[trigger] self.records()[a as int].spec_overlaps(
                            self.records()[b as int],
                        ) ==> pairs@.contains((a, b)),
                    forall|k1: int, k2: int|
                        0 <= k1 < k2 < pairs@.len() ==> pairs@[k1] != pairs@[k2],
                decreases n - j,
            {
                let ghost prev = pairs@;
                let hit = self.entity_states[i].entity.is_some()
                    && self.entity_states[j].entity.is_some() && self.entity_states[i].overlaps(
                    &self.entity_states[j],
                );
                if hit {
                    pairs.push((i, j));
                }
                proof {
                    assert forall|a: usize, b: usize|
                        (a < i || (a == i && b < j + 1)) && a < b < n && self.records()[
                            a as int].live() && self.records()[b as int].live()
                            && #[trigger] self.records()[a as int].spec_overlaps(
                            self.records()[b as int],
                        ) implies pairs@.contains((a, b)) by {
                        if a == i && b == j {
                            assert(hit);
                            assert(pairs@[pairs@.len() - 1] == (a, b));
                        } else {
                            assert(prev.contains((a, b)));
                            let k = choose|k: int| 0 <= k < prev.len() && prev[k] == (a, b);
                            assert(pairs@[k] == (a, b));
                        }
                    }
                }
                j += 1;
            }
            i += 1;
        }
        pairs
    }

    /// Run one tick's collision and update pass.
    ///
    /// Every unordered pair of overlapping live records is computed first;
    /// both members of each pair are then notified exactly once, and the
    /// effects they answer with are collected and delivered only after the
    /// whole collision pass, so the outcome does not depend on the order in
    /// which pairs are walked. Only then is every live entity offered the
    /// tick's input, and its update outcome integrated into its record.
    /// Records destroyed by an update stay in the store until [`Self::prune`].
    pub fn update_entities(&mut self, input: Input)
        requires
            old(self).wf(),
            old(self).spec_bounds() is Some,
            forall|i: int|
                0 <= i < old(self).records().len()
                    ==> (#[trigger] old(self).records()[i]).positioned(),
        ensures
            final(self).wf(),
            final(self).spec_bounds() == old(self).spec_bounds(),
            final(self).spec_next_id() == old(self).spec_next_id(),
            final(self).records().len() == old(self).records().len(),
            updated_records(
                old(self).records(),
                final(self).records(),
                old(self).spec_bounds().unwrap(),
            ),
            forall|i: int|
                0 <= i < final(self).records().len()
                    ==> (#[trigger] final(self).records()[i]).positioned(),
    {
        let bounds = self.bounds.unwrap();
        let n = self.entity_states.len();

        // Collision pass: notify both members of every overlapping live pair
        // and collect the effects they deal to one another.
        let pairs = self.collision_pairs();
        let mut effects: Vec<(usize, Effect)> = Vec::new();
        let mut k: usize = 0;
        while k < pairs.len()
            invariant
                n == self.records().len(),
                self.wf(),
                self.spec_bounds() == old(self).spec_bounds(),
                self.spec_bounds() == Some(bounds),
                self.spec_next_id() == old(self).spec_next_id(),
                n == old(self).records().len(),
                forall|m: int|
                    0 <= m < n ==> {
                        let pre = old(self).records()[m];
                        let cur = #[trigger] self.records()[m];
                        &&& cur.id == pre.id
                        &&& cur.pos == pre.pos
                        &&& cur.rot == pre.rot
                        &&& cur.sprite == pre.sprite
                        &&& cur.live() == pre.live()
                    },
                forall|m: int|
                    0 <= m < n && !(#[trigger] old(self).records()[m]).live() ==> self.records()[m]
                        == old(self).records()[m],
                forall|e: int| 0 <= e < effects@.len() ==> (#[trigger] effects@[e]).0 < n,
                forall|p: int|
                    0 <= p < pairs@.len() ==> {
                        let (a, b) = #[trigger] pairs@[p];
                        a < b < n
                    },
            decreases pairs.len() - k,
        {
            let (i, j) = pairs[k];
            let effect_for_j = match &mut self.entity_states[i].entity {
                Some(e) => e.collision(),
                None => None,
            };
            if let Some(eff) = effect_for_j {
                effects.push((j, eff));
            }
            let effect_for_i = match &mut self.entity_states[j].entity {
                Some(e) => e.collision(),
                None => None,
            };
            if let Some(eff) = effect_for_i {
                effects.push((i, eff));
            }
            k += 1;
        }

        // Deliver the collected effects to their targets.
        let mut k: usize = 0;
        while k < effects.len()
            invariant
                n == self.records().len(),
                self.wf(),
                self.spec_bounds() == old(self).spec_bounds(),
                self.spec_bounds() == Some(bounds),
                self.spec_next_id() == old(self).spec_next_id(),
                n == old(self).records().len(),
                forall|m: int|
                    0 <= m < n ==> {
                        let pre = old(self).records()[m];
                        let cur = #[trigger] self.records()[m];
                        &&& cur.id == pre.id
                        &&& cur.pos == pre.pos
                        &&& cur.rot == pre.rot
                        &&& cur.sprite == pre.sprite
                        &&& cur.live() == pre.live()
                    },
                forall|m: int|
                    0 <= m < n && !(#[trigger] old(self).records()[m]).live() ==> self.records()[m]
                        == old(self).records()[m],
                forall|e: int| 0 <= e < effects@.len() ==> (#[trigger] effects@[e]).0 < n,
            decreases effects.len() - k,
        {
            let (target, eff) = effects[k];
            match &mut self.entity_states[target].entity {
                Some(e) => e.effect(eff),
                None => {},
            }
            k += 1;
        }

        // Update pass: offer the input to every live entity and integrate
        // its outcome.
        let ghost mid = self.records();
        let mut i: usize = 0;
        while i < n
            invariant
                n == self.records().len(),
                0 <= i <= n,
                self.wf(),
                self.spec_bounds() == old(self).spec_bounds(),
                self.spec_bounds() == Some(bounds),
                self.spec_next_id() == old(self).spec_next_id(),
                n == mid.len(),
                forall|m: int|
                    0 <= m < n ==> {
                        let pre = old(self).records()[m];
                        let cur = #[trigger] mid[m];
                        &&& cur.id == pre.id
                        &&& cur.pos == pre.pos
                        &&& cur.rot == pre.rot
                        &&& cur.sprite == pre.sprite
                        &&& cur.live() == pre.live()
                    },
                forall|m: int|
                    0 <= m < n && !(#[trigger] old(self).records()[m]).live() ==> mid[m] == old(
                        self,
                    ).records()[m],
                forall|m: int| i <= m < n ==> #[trigger] self.records()[m] == mid[m],
                forall|m: int|
                    0 <= m < i ==> some_update_integrates(
                        mid[m],
                        #[trigger] self.records()[m],
                        bounds,
                    ),
                forall|m: int|
                    0 <= m < i && !(#[trigger] mid[m]).live() ==> self.records()[m] == mid[m],
                forall|m: int|
                    0 <= m < n ==> (#[trigger] self.records()[m]).positioned(),
            decreases n - i,
        {
            let u = match &mut self.entity_states[i].entity {
                Some(e) => e.update(input),
                None => Update::Noop,
            };
            let ghost prev = self.records();
            apply_update(&mut self.entity_states[i], u, bounds);
            proof {
                assert(integrated(prev[i as int], self.records()[i as int], u, bounds));
                assert(integrated(mid[i as int], self.records()[i as int], u, bounds));
                assert forall|m: int| 0 <= m < i + 1 implies some_update_integrates(
                    mid[m],
                    #[trigger] self.records()[m],
                    bounds,
                ) by {
                    if m < i {
                        assert(self.records()[m] == prev[m]);
                        let u2 = choose|u2: Update| integrated(mid[m], prev[m], u2, bounds);
                        assert(integrated(mid[m], self.records()[m], u2, bounds));
                    } else {
                        assert(integrated(mid[m], self.records()[m], u, bounds));
                    }
                }
            }
            i += 1;
        }

        proof {
            assert forall|m: int| 0 <= m < n implies some_update_integrates(
                old(self).records()[m],
                #[trigger] self.records()[m],
                bounds,
            ) by {
                let u = choose|u: Update| integrated(mid[m], self.records()[m], u, bounds);
                assert(integrated(old(self).records()[m], self.records()[m], u, bounds));
            }
        }
    }

    /// Remove every record whose entity has been destroyed. Runs once per
    /// tick, strictly after the collision and update pass, so a destroyed
    /// entity still participates in the tick that destroyed it but never in
    /// the next one.
    pub fn prune(&mut self)
        requires
            old(self).wf(),
        ensures
            final(self).wf(),
            final(self).spec_bounds() == old(self).spec_bounds(),
            final(self).spec_next_id() == old(self).spec_next_id(),
            final(self).records() == pruned(old(self).records()),
            forall|k: int|
                0 <= k < final(self).records().len() ==> old(self).records().contains(
                    #[trigger] final(self).records()[k],
                ),
    {
        let ghost orig = self.entity_states@;
        let ghost pred = |r: EntityState<E>| r.live();
        let mut i: usize = 0;
        let ghost j: int = 0;
        while i < self.entity_states.len()
            invariant
                0 <= j <= orig.len(),
                i == orig.subrange(0, j).filter(pred).len(),
                self.entity_states@ =~= orig.subrange(0, j).filter(pred).add(
                    orig.subrange(j, orig.len() as int),
                ),
                self.wf(),
                self.spec_bounds() == old(self).spec_bounds(),
                self.spec_next_id() == old(self).spec_next_id(),
                orig == old(self).records(),
                pred == (|r: EntityState<E>| r.live()),
            decreases orig.len() - j,
        {
            proof {
                broadcast use vstd::seq_lib::group_filter_ensures;

                assert(orig.subrange(0, j + 1) =~= orig.subrange(0, j).push(orig[j]));
                lemma_filter_push(orig.subrange(0, j), orig[j], pred);
                assert(self.entity_states@[i as int] == orig[j]);
            }
            if self.entity_states[i].entity.is_some() {
                i += 1;
            } else {
                let removed = self.entity_states.remove(i);
                proof {
                    assert(self.entity_states@ =~= orig.subrange(0, j + 1).filter(pred).add(
                        orig.subrange(j + 1, orig.len() as int),
                    ));
                }
            }
            proof {
                j = j + 1;
                assert(self.entity_states@ =~= orig.subrange(0, j).filter(pred).add(
                    orig.subrange(j, orig.len() as int),
                ));
            }
        }
        proof {
            broadcast use vstd::seq_lib::group_filter_ensures;

            assert(j == orig.len());
            assert(orig.subrange(0, j) =~= orig);
            assert(self.entity_states@ =~= orig.filter(pred));
            lemma_filter_subset(orig, pred);
        }
    }
}

} // verus!

