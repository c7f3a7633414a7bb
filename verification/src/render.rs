//! The renderer: rasterize every live record's sprite into canvas-cell paint
//! commands, applying the anisotropic scale factors and the quarter-turn
//! rotation remapping.

use vstd::prelude::*;

use crate::entity::{Entity, Rotation, Sprite};
use crate::state::{coords_within, Bounds, EntityState, Position, State};
use crate::{GameError, X_SCALE, Y_SCALE};

verus! {

/// One canvas cell to paint with one color.
#[derive(Copy, Clone, Debug, PartialEq, Eq)]
pub struct PaintOp {
    pub x: i64,
    pub y: i64,
    pub rgb: (u8, u8, u8),
}

/// Extent of the iterated sample grid along x: width and height swap roles
/// for quarter-turn rotations, since the sprite is read transposed.
pub open spec fn grid_w(rot: Rotation, sprite: Sprite) -> int {
    if rot is Zero || rot is Pi {
        sprite.spec_width() as int
    } else {
        sprite.spec_height() as int
    }
}

/// Extent of the iterated sample grid along y.
pub open spec fn grid_h(rot: Rotation, sprite: Sprite) -> int {
    if rot is Zero || rot is Pi {
        sprite.spec_height() as int
    } else {
        sprite.spec_width() as int
    }
}

/// The sprite pixel sampled for grid coordinate `(px, py)` under a rotation.
pub open spec fn sample(sprite: Sprite, rot: Rotation, px: int, py: int) -> (u8, u8, u8) {
    let w = sprite.spec_width() as int;
    let h = sprite.spec_height() as int;
    match rot {
        Rotation::Zero => sprite.spec_pixel(px, py),
        Rotation::HalfPi => sprite.spec_pixel(w - py - 1, h - px - 1),
        Rotation::Pi => sprite.spec_pixel(w - px - 1, h - py - 1),
        Rotation::ThreeHalvesPi => sprite.spec_pixel(py, px),
    }
}

/// The canvas x coordinate of block cell `bx` of grid column `px`: one
/// logical pixel covers an `X_SCALE` by `Y_SCALE` block of canvas cells.
pub open spec fn cell_x(pos: Position, px: int, bx: int) -> int {
    pos.x + px * X_SCALE + bx
}

/// The canvas y coordinate of block cell `by` of grid row `py`.
pub open spec fn cell_y(pos: Position, py: int, by: int) -> int {
    pos.y + py * Y_SCALE + by
}

/// How many paint operations one record produces.
pub open spec fn rec_op_count(rot: Rotation, sprite: Sprite) -> int {
    grid_w(rot, sprite) * grid_h(rot, sprite) * X_SCALE * Y_SCALE
}

/// The canvas x coordinate of the `k`-th paint operation of one record: the
/// grid is walked column by column, each grid cell expanding into its scale
/// block, rows innermost.
pub open spec fn op_cell_x(pos: Position, rot: Rotation, sprite: Sprite, k: int) -> int {
    let bx = k / (Y_SCALE as int) % (X_SCALE as int);
    let px = k / (Y_SCALE as int) / (X_SCALE as int) / grid_h(rot, sprite);
    cell_x(pos, px, bx)
}

/// The canvas y coordinate of the `k`-th paint operation of one record.
pub open spec fn op_cell_y(pos: Position, rot: Rotation, sprite: Sprite, k: int) -> int {
    let by = k % (Y_SCALE as int);
    let py = k / (Y_SCALE as int) / (X_SCALE as int) % grid_h(rot, sprite);
    cell_y(pos, py, by)
}

/// The `k`-th paint operation of one record.
pub open spec fn rec_op(pos: Position, rot: Rotation, sprite: Sprite, k: int) -> PaintOp {
    let py = k / (Y_SCALE as int) / (X_SCALE as int) % grid_h(rot, sprite);
    let px = k / (Y_SCALE as int) / (X_SCALE as int) / grid_h(rot, sprite);
    PaintOp {
        x: op_cell_x(pos, rot, sprite, k) as i64,
        y: op_cell_y(pos, rot, sprite, k) as i64,
        rgb: sample(sprite, rot, px, py),
    }
}

/// All paint operations of one record, in walk order.
pub open spec fn spec_record_ops(pos: Position, rot: Rotation, sprite: Sprite) -> Seq<PaintOp> {
    Seq::new(rec_op_count(rot, sprite) as nat, |k: int| rec_op(pos, rot, sprite, k))
}

/// Whether every cell the record would paint lies on the canvas.
pub open spec fn cells_on_canvas(pos: Position, rot: Rotation, sprite: Sprite, b: Bounds) -> bool {
    forall|k: int|
        #![trigger op_cell_x(pos, rot, sprite, k)]
        #![trigger op_cell_y(pos, rot, sprite, k)]
        0 <= k < rec_op_count(rot, sprite) ==> 0 <= op_cell_x(pos, rot, sprite, k) < b.width && 0
            <= op_cell_y(pos, rot, sprite, k) < b.height
}

/// The paint operations of a whole sequence of records, first record first.
pub open spec fn spec_render<E>(records: Seq<EntityState<E>>) -> Seq<PaintOp> {
    Seq::new(
        records.len(),
        |i: int| spec_record_ops(records[i].pos.unwrap(), records[i].rot, records[i].sprite),
    ).flatten()
}

/// The walk order is a bijection: composing a grid coordinate and block
/// offset into an operation index and decomposing it again is the identity.
proof fn lemma_op_index(px: int, py: int, bx: int, by: int, gw: int, gh: int)
    requires
        0 <= px < gw,
        0 <= py < gh,
        0 <= bx < X_SCALE,
        0 <= by < Y_SCALE,
    ensures
        ({
            let k = ((px * gh + py) * X_SCALE + bx) * Y_SCALE + by;
            &&& 0 <= k < gw * gh * X_SCALE * Y_SCALE
            &&& k % (Y_SCALE as int) == by
            &&& k / (Y_SCALE as int) % (X_SCALE as int) == bx
            &&& k / (Y_SCALE as int) / (X_SCALE as int) % gh == py
            &&& k / (Y_SCALE as int) / (X_SCALE as int) / gh == px
        }),
{
    let t = (px * gh + py) * X_SCALE + bx;
    let k = t * Y_SCALE + by;
    vstd::arithmetic::div_mod::lemma_fundamental_div_mod_converse_div(k, Y_SCALE as int, t, by);
    vstd::arithmetic::div_mod::lemma_fundamental_div_mod_converse_mod(k, Y_SCALE as int, t, by);
    vstd::arithmetic::div_mod::lemma_fundamental_div_mod_converse_div(
        t,
        X_SCALE as int,
        px * gh + py,
        bx,
    );
    vstd::arithmetic::div_mod::lemma_fundamental_div_mod_converse_mod(
        t,
        X_SCALE as int,
        px * gh + py,
        bx,
    );
    vstd::arithmetic::div_mod::lemma_fundamental_div_mod_converse_div(px * gh + py, gh, px, py);
    vstd::arithmetic::div_mod::lemma_fundamental_div_mod_converse_mod(px * gh + py, gh, px, py);
    assert(k < gw * gh * X_SCALE * Y_SCALE) by (nonlinear_arith)
        requires
            0 <= px < gw,
            0 <= py < gh,
            0 <= bx < X_SCALE,
            0 <= by < Y_SCALE,
            t == (px * gh + py) * X_SCALE + bx,
            k == t * Y_SCALE + by,
    ;
}

/// Any in-range operation index decomposes into an in-range grid coordinate
/// and block offset, and recomposes to the same index.
proof fn lemma_op_decompose(k: int, gw: int, gh: int)
    requires
        0 <= gw,
        0 <= gh,
        0 <= k < gw * gh * X_SCALE * Y_SCALE,
    ensures
        ({
            let by = k % (Y_SCALE as int);
            let t = k / (Y_SCALE as int);
            let bx = t % (X_SCALE as int);
            let t2 = t / (X_SCALE as int);
            let py = t2 % gh;
            let px = t2 / gh;
            &&& 0 <= by < Y_SCALE
            &&& 0 <= bx < X_SCALE
            &&& 0 <= py < gh
            &&& 0 <= px < gw
            &&& k == ((px * gh + py) * X_SCALE + bx) * Y_SCALE + by
        }),
{
    broadcast use vstd::arithmetic::div_mod::lemma_fundamental_div_mod;
    broadcast use vstd::arithmetic::div_mod::lemma_mod_division_less_than_divisor;
    broadcast use vstd::arithmetic::div_mod::lemma_div_pos_is_pos;

    assert(gw > 0 && gh > 0) by (nonlinear_arith)
        requires
            0 <= gw,
            0 <= gh,
            0 <= k < gw * gh * X_SCALE * Y_SCALE,
            X_SCALE == 2,
            Y_SCALE == 1,
    ;
    let t = k / (Y_SCALE as int);
    assert(k < (Y_SCALE as int) * (gw * gh * X_SCALE)) by (nonlinear_arith)
        requires
            k < gw * gh * X_SCALE * Y_SCALE,
    ;
    vstd::arithmetic::div_mod::lemma_multiply_divide_lt(k, Y_SCALE as int, gw * gh * X_SCALE);
    let t2 = t / (X_SCALE as int);
    assert(t < (X_SCALE as int) * (gw * gh)) by (nonlinear_arith)
        requires
            t < gw * gh * X_SCALE,
    ;
    vstd::arithmetic::div_mod::lemma_multiply_divide_lt(t, X_SCALE as int, gw * gh);
    assert(t2 < gh * gw) by (nonlinear_arith)
        requires
            t2 < gw * gh,
    ;
    vstd::arithmetic::div_mod::lemma_multiply_divide_lt(t2, gh, gw);
    let px = t2 / gh;
    let py = t2 % gh;
    let bx = t % (X_SCALE as int);
    let by = k % (Y_SCALE as int);
    assert(t2 == px * gh + py) by (nonlinear_arith)
        requires
            px == t2 / gh,
            py == t2 % gh,
            t2 == gh * (t2 / gh) + t2 % gh,
    ;
    assert(t == t2 * X_SCALE + bx) by (nonlinear_arith)
        requires
            t2 == t / (X_SCALE as int),
            bx == t % (X_SCALE as int),
            t == (X_SCALE as int) * (t / (X_SCALE as int)) + t % (X_SCALE as int),
    ;
    assert(k == t * Y_SCALE + by) by (nonlinear_arith)
        requires
            t == k / (Y_SCALE as int),
            by == k % (Y_SCALE as int),
            k == (Y_SCALE as int) * (k / (Y_SCALE as int)) + k % (Y_SCALE as int),
    ;
}

/// A record whose box lies strictly inside the bounds paints only cells on
/// the canvas, provided its sample grid is not transposed (no quarter-turn
/// rotation) or its sprite is square.
pub proof fn lemma_within_bounds_renders(pos: Position, rot: Rotation, sprite: Sprite, b: Bounds)
    requires
        coords_within(pos.x as int, pos.y as int, sprite, b),
        rot is Zero || rot is Pi || sprite.spec_width() == sprite.spec_height(),
    ensures
        cells_on_canvas(pos, rot, sprite, b),
{
    assert forall|k: int|
        #![trigger op_cell_x(pos, rot, sprite, k)]
        #![trigger op_cell_y(pos, rot, sprite, k)]
        0 <= k < rec_op_count(rot, sprite) implies 0 <= op_cell_x(pos, rot, sprite, k) < b.width
        && 0 <= op_cell_y(pos, rot, sprite, k) < b.height by {
        let gw = grid_w(rot, sprite);
        let gh = grid_h(rot, sprite);
        lemma_op_decompose(k, gw, gh);
        let bx = k / (Y_SCALE as int) % (X_SCALE as int);
        let px = k / (Y_SCALE as int) / (X_SCALE as int) / gh;
        let by = k % (Y_SCALE as int);
        let py = k / (Y_SCALE as int) / (X_SCALE as int) % gh;
        assert(grid_w(rot, sprite) == sprite.spec_width());
        assert(grid_h(rot, sprite) == sprite.spec_height());
        assert(0 <= px * X_SCALE + bx < sprite.spec_width() * X_SCALE) by (nonlinear_arith)
            requires
                0 <= px < sprite.spec_width(),
                0 <= bx < X_SCALE,
        ;
        assert(0 <= py * Y_SCALE + by < sprite.spec_height() * Y_SCALE) by (nonlinear_arith)
            requires
                0 <= py < sprite.spec_height(),
                0 <= by < Y_SCALE,
        ;
    }
}

/// Rasterize one record: walk the (possibly transposed) sample grid, fetch
/// each pixel by the rotation's coordinate remapping, and emit one paint
/// command per canvas cell of the pixel's scale block. Painting outside the
/// canvas is a fatal error.
pub fn render_record(pos: Position, rot: Rotation, sprite: &Sprite, bounds: Bounds) -> (r: Result<
    Vec<PaintOp>,
    GameError,
>)
    ensures
        r is Ok <==> cells_on_canvas(pos, rot, *sprite, bounds),
        r matches Ok(ops) ==> ops@ == spec_record_ops(pos, rot, *sprite),
        r is Err ==> r == Err::<Vec<PaintOp>, GameError>(GameError::OutOfBounds),
{
    let (nx, ny): (u32, u32) = match rot {
        Rotation::Zero | Rotation::Pi => (sprite.width(), sprite.height()),
        Rotation::HalfPi | Rotation::ThreeHalvesPi => (sprite.height(), sprite.width()),
    };
    let mut ops: Vec<PaintOp> = Vec::new();
    let mut px: u32 = 0;
    while px < nx
        invariant
            nx == grid_w(rot, *sprite),
            ny == grid_h(rot, *sprite),
            0 <= px <= nx,
            ops@.len() == px * ny * X_SCALE * Y_SCALE,
            forall|k: int|
                0 <= k < ops@.len() ==> #[trigger] ops@[k] == rec_op(pos, rot, *sprite, k),
            forall|k: int|
                #![trigger op_cell_x(pos, rot, *sprite, k)]
                #![trigger op_cell_y(pos, rot, *sprite, k)]
                0 <= k < ops@.len() ==> 0 <= op_cell_x(pos, rot, *sprite, k) < bounds.width && 0
                    <= op_cell_y(pos, rot, *sprite, k) < bounds.height,
        decreases nx - px,
    {
        let mut py: u32 = 0;
        while py < ny
            invariant
                nx == grid_w(rot, *sprite),
                ny == grid_h(rot, *sprite),
                0 <= px < nx,
                0 <= py <= ny,
                ops@.len() == (px * ny + py) * X_SCALE * Y_SCALE,
                forall|k: int|
                    0 <= k < ops@.len() ==> #[trigger] ops@[k] == rec_op(pos, rot, *sprite, k),
                forall|k: int|
                    #![trigger op_cell_x(pos, rot, *sprite, k)]
                    #![trigger op_cell_y(pos, rot, *sprite, k)]
                    0 <= k < ops@.len() ==> 0 <= op_cell_x(pos, rot, *sprite, k) < bounds.width
                        && 0 <= op_cell_y(pos, rot, *sprite, k) < bounds.height,
            decreases ny - py,
        {
            let (sx, sy): (u32, u32) = match rot {
                Rotation::Zero => (px, py),
                Rotation::HalfPi => (sprite.width() - py - 1, sprite.height() - px - 1),
                Rotation::Pi => (sprite.width() - px - 1, sprite.height() - py - 1),
                Rotation::ThreeHalvesPi => (py, px),
            };
            let rgb = sprite.get_pixel(sx, sy);
            proof {
                assert(rgb == sample(*sprite, rot, px as int, py as int));
            }
            let base_x: i64 = pos.x as i64 + (px as i64) * (X_SCALE as i64);
            let base_y: i64 = pos.y as i64 + (py as i64) * (Y_SCALE as i64);
            let mut bx: i32 = 0;
            while bx < X_SCALE
                invariant
                    nx == grid_w(rot, *sprite),
                    ny == grid_h(rot, *sprite),
                    0 <= px < nx,
                    0 <= py < ny,
                    0 <= bx <= X_SCALE,
                    base_x == pos.x + px * X_SCALE,
                    base_y == pos.y + py * Y_SCALE,
                    rgb == sample(*sprite, rot, px as int, py as int),
                    ops@.len() == ((px * ny + py) * X_SCALE + bx) * Y_SCALE,
                    forall|k: int|
                        0 <= k < ops@.len() ==> #[trigger] ops@[k] == rec_op(pos, rot, *sprite, k),
                    forall|k: int|
                        #![trigger op_cell_x(pos, rot, *sprite, k)]
                        #![trigger op_cell_y(pos, rot, *sprite, k)]
                        0 <= k < ops@.len() ==> 0 <= op_cell_x(pos, rot, *sprite, k)
                            < bounds.width && 0 <= op_cell_y(pos, rot, *sprite, k)
                            < bounds.height,
                decreases X_SCALE - bx,
            {
                let mut by: i32 = 0;
                while by < Y_SCALE
                    invariant
                        nx == grid_w(rot, *sprite),
                        ny == grid_h(rot, *sprite),
                        0 <= px < nx,
                        0 <= py < ny,
                        0 <= bx < X_SCALE,
                        0 <= by <= Y_SCALE,
                        base_x == pos.x + px * X_SCALE,
                        base_y == pos.y + py * Y_SCALE,
                        rgb == sample(*sprite, rot, px as int, py as int),
                        ops@.len() == ((px * ny + py) * X_SCALE + bx) * Y_SCALE + by,
                        forall|k: int|
                            0 <= k < ops@.len() ==> #[trigger] ops@[k] == rec_op(
                                pos,
                                rot,
                                *sprite,
                                k,
                            ),
                        forall|k: int|
                            #![trigger op_cell_x(pos, rot, *sprite, k)]
                            #![trigger op_cell_y(pos, rot, *sprite, k)]
                            0 <= k < ops@.len() ==> 0 <= op_cell_x(pos, rot, *sprite, k)
                                < bounds.width && 0 <= op_cell_y(pos, rot, *sprite, k)
                                < bounds.height,
                    decreases Y_SCALE - by,
                {
                    let cx: i64 = base_x + bx as i64;
                    let cy: i64 = base_y + by as i64;
                    if !(0 <= cx && cx < bounds.width as i64 && 0 <= cy && cy
                        < bounds.height as i64) {
                        proof {
                            lemma_op_index(px as int, py as int, bx as int, by as int, nx as int,
                                ny as int);
                            let k = ((px * (ny as int) + py) * X_SCALE + bx) * Y_SCALE + by;
                            assert(op_cell_x(pos, rot, *sprite, k) == cx);
                            assert(op_cell_y(pos, rot, *sprite, k) == cy);
                            assert(!cells_on_canvas(pos, rot, *sprite, bounds));
                        }
                        return Err(GameError::OutOfBounds);
                    }
                    ops.push(PaintOp { x: cx, y: cy, rgb });
                    proof {
                        lemma_op_index(px as int, py as int, bx as int, by as int, nx as int,
                            ny as int);
                        let k = ops@.len() - 1;
                        assert(op_cell_x(pos, rot, *sprite, k) == cx);
                        assert(op_cell_y(pos, rot, *sprite, k) == cy);
                        assert(ops@[k] == rec_op(pos, rot, *sprite, k));
                    }
                    by += 1;
                }
                bx += 1;
            }
            py += 1;
        }
        proof {
            assert((px * ny + ny) * X_SCALE * Y_SCALE == (px + 1) * ny * X_SCALE * Y_SCALE)
                by (nonlinear_arith);
        }
        px += 1;
    }
    proof {
        assert(ops@ =~= spec_record_ops(pos, rot, *sprite));
    }
    Ok(ops)
}

impl<E: Entity> State<E> {
    /// Rasterize every record into paint commands, first record first.
    /// Fails with [`GameError::OutOfBounds`] exactly when some record would
    /// paint a cell off the canvas, which a record kept inside the bounds
    /// can only do when a quarter-turn rotation transposes a non-square
    /// sprite.
    pub fn render_entities(&self) -> (r: Result<Vec<PaintOp>, GameError>)
        requires
            self.spec_bounds() is Some,
            forall|i: int|
                0 <= i < self.records().len() ==> (#[trigger] self.records()[i]).positioned(),
        ensures
            r matches Ok(ops) ==> ops@ == spec_render(self.records()),
            r is Ok <==> forall|i: int|
                0 <= i < self.records().len() ==> cells_on_canvas(
                    (#[trigger] self.records()[i]).pos.unwrap(),
                    self.records()[i].rot,
                    self.records()[i].sprite,
                    self.spec_bounds().unwrap(),
                ),
            r is Err ==> r == Err::<Vec<PaintOp>, GameError>(GameError::OutOfBounds),
    {
        let bounds = self.bounds().unwrap();
        let n = self.len();
        let mut all: Vec<PaintOp> = Vec::new();
        let ghost per_record = Seq::new(
            self.records().len(),
            |i: int| spec_record_ops(
                self.records()[i].pos.unwrap(),
                self.records()[i].rot,
                self.records()[i].sprite,
            ),
        );
        let mut i: usize = 0;
        while i < n
            invariant
                n == self.records().len(),
                0 <= i <= n,
                self.spec_bounds() == Some(bounds),
                forall|m: int|
                    0 <= m < n ==> (#[trigger] self.records()[m]).positioned(),
                per_record == Seq::new(
                    self.records().len(),
                    |m: int| spec_record_ops(
                        self.records()[m].pos.unwrap(),
                        self.records()[m].rot,
                        self.records()[m].sprite,
                    ),
                ),
                all@ == per_record.subrange(0, i as int).flatten(),
                forall|m: int|
                    0 <= m < i ==> cells_on_canvas(
                        (#[trigger] self.records()[m]).pos.unwrap(),
                        self.records()[m].rot,
                        self.records()[m].sprite,
                        bounds,
                    ),
            decreases n - i,
        {
            let rec = self.record(i);
            let pos = rec.pos.unwrap();
            match render_record(pos, rec.rot, &rec.sprite, bounds) {
                Ok(mut ops) => {
                    proof {
                        assert(ops@ == per_record[i as int]);
                        per_record.subrange(0, i as int).lemma_flatten_push(ops@);
                        assert(per_record.subrange(0, i + 1) =~= per_record.subrange(
                            0,
                            i as int,
                        ).push(ops@));
                    }
                    all.append(&mut ops);
                },
                Err(e) => {
                    return Err(e);
                },
            }
            i += 1;
        }
        proof {
            assert(per_record.subrange(0, n as int) =~= per_record);
            assert(all@ == spec_render(self.records()));
        }
        Ok(all)
    }
}

} // verus!

