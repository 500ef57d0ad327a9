//! Row planning under conjugate symmetry, and assembly of the raster.
//!
//! The recurrence is conjugate-symmetric: the points `(x, y)` and `(x, -y)`
//! escape after the same number of steps. A row whose vertical coordinate
//! `r` is positive therefore copies the row of coordinate `-r` whenever the
//! canvas holds that row; every other row is computed. The offsets are part
//! of the coordinate mapping, so the pairing is exact for any offset.
use vstd::prelude::*;
use crate::viewport::Viewport;

verus! {

/// Where the bytes of one output row come from.
#[derive(Clone, Copy, Debug, PartialEq, Eq, Structural)]
pub enum RowSource {
    /// Evaluate every pixel of the row, whose vertical coordinate this is.
    Compute(i64),
    /// Copy the row at this index, which is computed.
    Mirror(usize),
}

/// The source of row `j`, with or without use of the symmetry.
pub open spec fn row_source(vp: Viewport, j: int, mirror: bool) -> RowSource {
    let r = vp.row_at(j);
    if mirror && r > 0 && j - 2 * r >= 0 {
        RowSource::Mirror((j - 2 * r) as usize)
    } else {
        RowSource::Compute(r as i64)
    }
}

/// The plan of the whole canvas, top row first.
pub open spec fn row_plan(vp: Viewport, mirror: bool) -> Seq<RowSource> {
    Seq::new(vp.height as nat, |j: int| row_source(vp, j, mirror))
}

/// The index of the row whose bytes row `j` shows.
pub open spec fn source_index(plan: Seq<RowSource>, j: int) -> int {
    match plan[j] {
        RowSource::Compute(_) => j,
        RowSource::Mirror(s) => s as int,
    }
}

/// Every copied row names an earlier row that is computed.
pub open spec fn plan_ok(plan: Seq<RowSource>) -> bool {
    forall|j: int|
        0 <= j < plan.len() && (#[trigger] plan[j]) is Mirror ==> {
            let s = plan[j]->Mirror_0 as int;
            0 <= s < j && plan[s] is Compute
        }
}

/// `rows` has one entry per planned row, and each computed row holds
/// `width` bytes; entries of copied rows are not read.
pub open spec fn rows_ok(width: int, plan: Seq<RowSource>, rows: Seq<Vec<u8>>) -> bool {
    &&& rows.len() == plan.len()
    &&& forall|j: int|
        0 <= j < plan.len() && (#[trigger] plan[j]) is Compute ==> rows[j]@.len() == width
}

/// The raster that the rows make under a plan: byte `k` is byte
/// `k % width` of the row that row `k / width` shows.
pub open spec fn assembled(width: int, plan: Seq<RowSource>, rows: Seq<Vec<u8>>) -> Seq<u8> {
    Seq::new(
        (plan.len() * width) as nat,
        |k: int| rows[source_index(plan, k / width)]@[k % width],
    )
}

/// Lists the source of each row of the canvas, top row first. With `mirror`
/// a row of positive vertical coordinate `r` copies the row of coordinate
/// `-r` when the canvas holds it; without, every row is computed.
pub fn plan_rows(vp: &Viewport, mirror: bool) -> (r: Vec<RowSource>)
    requires
        vp.wf(),
    ensures
        r@ == row_plan(*vp, mirror),
        plan_ok(r@),
{
    let height = vp.height as usize;
    let mut plan: Vec<RowSource> = Vec::new();
    for j in 0..height
        invariant
            vp.wf(),
            height == vp.height,
            plan@.len() == j,
            forall|k: int| 0 <= k < j ==> plan@[k] == row_source(*vp, k, mirror),
    {
        let r = vp.row_coord(j);
        if mirror && r > 0 && (j as i64) - 2 * r >= 0 {
            plan.push(RowSource::Mirror(((j as i64) - 2 * r) as usize));
        } else {
            plan.push(RowSource::Compute(r));
        }
    }
    assert(plan@ =~= row_plan(*vp, mirror));
    proof {
        lemma_plan_ok(*vp, mirror);
    }
    plan
}

/// Concatenates the rows in plan order, each copied row taking the bytes
/// of its source, into one row-major raster of `width * height` bytes.
pub fn assemble(vp: &Viewport, plan: &Vec<RowSource>, rows: &Vec<Vec<u8>>) -> (r: Vec<u8>)
    requires
        vp.wf(),
        plan@.len() == vp.height,
        plan_ok(plan@),
        rows_ok(vp.width as int, plan@, rows@),
    ensures
        r@ == assembled(vp.width as int, plan@, rows@),
        r@.len() == vp.area(),
{
    let width = vp.width as usize;
    let height = vp.height as usize;
    let ghost w = width as int;
    let ghost target = assembled(w, plan@, rows@);
    let mut out: Vec<u8> = Vec::new();
    for j in 0..height
        invariant
            vp.wf(),
            width == vp.width,
            height == vp.height,
            plan@.len() == height,
            plan_ok(plan@),
            rows_ok(w, plan@, rows@),
            w == width as int,
            target == assembled(w, plan@, rows@),
            out@.len() == j * w,
            forall|k: int| 0 <= k < out@.len() ==> out@[k] == target[k],
    {
        let src: usize = match plan[j] {
            RowSource::Compute(_) => j,
            RowSource::Mirror(s) => s,
        };
        let row = &rows[src];
        assert(row@.len() == w);
        for i in 0..width
            invariant
                vp.wf(),
                width == vp.width,
                height == vp.height,
                j < height,
                plan@.len() == height,
                src == source_index(plan@, j as int),
                row@ == rows@[src as int]@,
                row@.len() == w,
                w == width as int,
                target == assembled(w, plan@, rows@),
                out@.len() == j * w + i,
                forall|k: int| 0 <= k < out@.len() ==> out@[k] == target[k],
        {
            proof {
                lemma_cell_in_raster(j as int, i as int, w, height as int);
                vstd::arithmetic::div_mod::lemma_fundamental_div_mod_converse(
                    j * w + i,
                    w,
                    j as int,
                    i as int,
                );
            }
            out.push(row[i]);
        }
        assert(out@.len() == (j + 1) * w) by (nonlinear_arith)
            requires
                out@.len() == j * w + w,
        ;
    }
    proof {
        assert(out@.len() == vp.area()) by (nonlinear_arith)
            requires
                out@.len() == height * w,
                w == vp.width,
                height == vp.height,
        ;
        assert(out@ =~= target);
    }
    out
}

/// Cell `i` of row `j` lies inside a raster of `h` rows of width `w`.
proof fn lemma_cell_in_raster(j: int, i: int, w: int, h: int)
    requires
        0 <= j < h,
        0 <= i < w,
    ensures
        0 <= j * w + i < h * w,
{
    assert(0 <= j * w + i < h * w) by (nonlinear_arith)
        requires
            0 <= j < h,
            0 <= i < w,
    ;
}

/// Byte `k` of a raster of `h` rows of width `w` lies in row `k / w`,
/// column `k % w`.
proof fn lemma_cell_of(k: int, w: int, h: int)
    requires
        0 < w,
        0 <= k < h * w,
    ensures
        0 <= k / w < h,
        0 <= k % w < w,
        k == (k / w) * w + k % w,
{
    vstd::arithmetic::div_mod::lemma_fundamental_div_mod(k, w);
    let j = k / w;
    let i = k % w;
    assert(0 <= j < h) by (nonlinear_arith)
        requires
            k == w * j + i,
            0 <= i < w,
            0 <= k < h * w,
    ;
    assert(k == j * w + i) by (nonlinear_arith)
        requires
            k == w * j + i,
    ;
}

/// A planned copy always names an earlier, computed row whose vertical
/// coordinate is the negation of its own.
pub proof fn lemma_plan_ok(vp: Viewport, mirror: bool)
    requires
        vp.wf(),
    ensures
        plan_ok(row_plan(vp, mirror)),
        forall|j: int|
            0 <= j < vp.height && (#[trigger] row_source(vp, j, mirror)) is Mirror ==> {
                let s = row_source(vp, j, mirror)->Mirror_0 as int;
                &&& 0 <= s < j
                &&& vp.row_at(s) == -vp.row_at(j)
                &&& row_source(vp, s, mirror) == RowSource::Compute((-vp.row_at(j)) as i64)
            },
{
}

/// Replicates each grey byte into three equal channels: byte `m` of the
/// result is byte `m / 3` of `gray`.
pub fn gray_to_rgb(gray: &Vec<u8>) -> (r: Vec<u8>)
    requires
        3 * gray@.len() <= usize::MAX,
    ensures
        r@.len() == 3 * gray@.len(),
        forall|m: int| 0 <= m < r@.len() ==> #[trigger] r@[m] == gray@[m / 3],
{
    let mut out: Vec<u8> = Vec::new();
    for k in 0..gray.len()
        invariant
            3 * gray@.len() <= usize::MAX,
            out@.len() == 3 * k,
            forall|m: int| 0 <= m < out@.len() ==> #[trigger] out@[m] == gray@[m / 3],
    {
        let v = gray[k];
        out.push(v);
        out.push(v);
        out.push(v);
    }
    out
}

/// The intensity of a point, given its plane coordinates in pixel steps.
pub type PixelFn = spec_fn(int, int) -> u8;

/// The pixel function gives `(x, y)` and `(x, -y)` the same intensity.
pub open spec fn conjugate_symmetric(f: PixelFn) -> bool {
    forall|x: int, y: int| #[trigger] f(x, y) == f(x, -y)
}

/// The rows match the plan's shape, and each computed row holds the
/// pixel function's value at every column of its coordinate.
pub open spec fn rows_depict(vp: Viewport, plan: Seq<RowSource>, rows: Seq<Vec<u8>>, f: PixelFn) -> bool {
    &&& rows_ok(vp.width as int, plan, rows)
    &&& forall|j: int, i: int|
        0 <= j < plan.len() && plan[j] is Compute && 0 <= i < vp.width ==> #[trigger] rows[j]@[i]
            == f(vp.column_at(i), plan[j]->Compute_0 as int)
}

/// The raster of the whole canvas, every pixel evaluated where it stands.
pub open spec fn raster_of(vp: Viewport, f: PixelFn) -> Seq<u8> {
    Seq::new(
        vp.area() as nat,
        |k: int| f(vp.column_at(k % (vp.width as int)), vp.row_at(k / (vp.width as int))),
    )
}

/// Rows computed by a pixel function assemble to that function's raster:
/// always without the symmetry, and with it when the function is
/// conjugate-symmetric.
pub proof fn lemma_assembled_is_raster(vp: Viewport, mirror: bool, rows: Seq<Vec<u8>>, f: PixelFn)
    requires
        vp.wf(),
        rows_depict(vp, row_plan(vp, mirror), rows, f),
        mirror ==> conjugate_symmetric(f),
    ensures
        assembled(vp.width as int, row_plan(vp, mirror), rows) == raster_of(vp, f),
{
    let w = vp.width as int;
    let plan = row_plan(vp, mirror);
    let a = assembled(w, plan, rows);
    let b = raster_of(vp, f);
    lemma_plan_ok(vp, mirror);
    assert(plan.len() * w == vp.area()) by (nonlinear_arith)
        requires
            plan.len() == vp.height,
            w == vp.width,
    ;
    assert forall|k: int| 0 <= k < a.len() implies a[k] == b[k] by {
        lemma_cell_of(k, w, vp.height as int);
        let j = k / w;
        let i = k % w;
        if plan[j] is Mirror {
            let s = plan[j]->Mirror_0 as int;
            assert(row_source(vp, j, mirror) is Mirror);
            assert(rows[s]@[i] == f(vp.column_at(i), -vp.row_at(j)));
            assert(f(vp.column_at(i), vp.row_at(j)) == f(vp.column_at(i), -vp.row_at(j)));
        } else {
            assert(rows[j]@[i] == f(vp.column_at(i), vp.row_at(j)));
        }
    }
    assert(a =~= b);
}

/// With a conjugate-symmetric pixel function, mirroring rows changes no
/// byte of the raster.
pub proof fn lemma_mirror_agrees(
    vp: Viewport,
    mirrored_rows: Seq<Vec<u8>>,
    direct_rows: Seq<Vec<u8>>,
    f: PixelFn,
)
    requires
        vp.wf(),
        conjugate_symmetric(f),
        rows_depict(vp, row_plan(vp, true), mirrored_rows, f),
        rows_depict(vp, row_plan(vp, false), direct_rows, f),
    ensures
        assembled(vp.width as int, row_plan(vp, true), mirrored_rows) == assembled(
            vp.width as int,
            row_plan(vp, false),
            direct_rows,
        ),
{
    lemma_assembled_is_raster(vp, true, mirrored_rows, f);
    lemma_assembled_is_raster(vp, false, direct_rows, f);
}

/// Rendering the same configuration twice with the same pixel function
/// gives the same raster, byte for byte, whatever the copied rows' entries
/// hold and whether or not the function is symmetric.
pub proof fn lemma_render_reproducible(
    vp: Viewport,
    mirror: bool,
    first: Seq<Vec<u8>>,
    second: Seq<Vec<u8>>,
    f: PixelFn,
)
    requires
        vp.wf(),
        rows_depict(vp, row_plan(vp, mirror), first, f),
        rows_depict(vp, row_plan(vp, mirror), second, f),
    ensures
        assembled(vp.width as int, row_plan(vp, mirror), first) == assembled(
            vp.width as int,
            row_plan(vp, mirror),
            second,
        ),
{
    let w = vp.width as int;
    let plan = row_plan(vp, mirror);
    let a = assembled(w, plan, first);
    let b = assembled(w, plan, second);
    lemma_plan_ok(vp, mirror);
    assert(plan.len() * w == vp.area()) by (nonlinear_arith)
        requires
            plan.len() == vp.height,
            w == vp.width,
    ;
    assert forall|k: int| 0 <= k < a.len() implies a[k] == b[k] by {
        lemma_cell_of(k, w, vp.height as int);
        let j = k / w;
        let i = k % w;
        let s = source_index(plan, j);
        assert(plan[s] is Compute);
        assert(first[s]@[i] == second[s]@[i]);
    }
    assert(a =~= b);
}

} // verus!
