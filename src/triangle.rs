//! Scan conversion of one screen-space triangle into fragments.
use vstd::prelude::*;
use vstd::arithmetic::div_mod::{lemma_div_is_ordered, lemma_div_multiples_vanish};
use crate::fixed::{clamp, clamp_i64, div_floor};
use crate::vertex::{Vec3, Vertex, LIMIT, within, vec_within};

verus! {

/// A candidate pixel write: pixel coordinates, interpolated depth, the
/// interpolated model-space position used for shading, and a light intensity
/// in thousandths.
#[derive(Clone, Copy, Debug, PartialEq, Eq, Structural)]
pub struct Fragment {
    pub x: usize,
    pub y: usize,
    pub depth: i64,
    pub vertex_position: Vec3,
    pub intensity: u64,
}

impl Fragment {
    /// Whether the depth and shading position are within `LIMIT` and the
    /// intensity within `[0, 1000]`, as for every fragment of `triangle`.
    pub open spec fn wf(self) -> bool {
        within(self.depth) && vec_within(self.vertex_position) && self.intensity <= 1000
    }
}

/// Twice the signed area of the triangle `(a, b, p)`.
pub open spec fn edge(ax: int, ay: int, bx: int, by: int, px: int, py: int) -> int {
    (bx - ax) * (py - ay) - (by - ay) * (px - ax)
}

/// Twice the signed screen-space area of a triangle.
pub open spec fn area(v0: Vertex, v1: Vertex, v2: Vertex) -> int {
    let a = v0.transformed_position;
    let b = v1.transformed_position;
    let c = v2.transformed_position;
    edge(a.x as int, a.y as int, b.x as int, b.y as int, c.x as int, c.y as int)
}

pub open spec fn abs(v: int) -> int {
    if v < 0 {
        -v
    } else {
        v
    }
}

/// The center of pixel column or row `p`, in thousandths.
pub open spec fn center(p: int) -> int {
    p * 1000 + 500
}

/// The barycentric weights (scaled by the doubled area) of a pixel center,
/// oriented by the triangle's winding so that inside means all non-negative.
pub open spec fn weights(v0: Vertex, v1: Vertex, v2: Vertex, px: int, py: int) -> (int, int, int) {
    let a = v0.transformed_position;
    let b = v1.transformed_position;
    let c = v2.transformed_position;
    let x = center(px);
    let y = center(py);
    let w0 = edge(b.x as int, b.y as int, c.x as int, c.y as int, x, y);
    let w1 = edge(c.x as int, c.y as int, a.x as int, a.y as int, x, y);
    let w2 = edge(a.x as int, a.y as int, b.x as int, b.y as int, x, y);
    if area(v0, v1, v2) < 0 {
        (-w0, -w1, -w2)
    } else {
        (w0, w1, w2)
    }
}

pub open spec fn covered(v0: Vertex, v1: Vertex, v2: Vertex, px: int, py: int) -> bool {
    let w = weights(v0, v1, v2, px, py);
    w.0 >= 0 && w.1 >= 0 && w.2 >= 0
}

/// Weighted average of three values, rounded down.
pub open spec fn interp(w: (int, int, int), total: int, q0: int, q1: int, q2: int) -> int {
    (w.0 * q0 + w.1 * q1 + w.2 * q2) / total
}

/// The fragment of a covered pixel. The intensity is the interpolated
/// normal's component toward the viewer (light from `+z`), limited to `[0, 1000]`.
pub open spec fn fragment_at(v0: Vertex, v1: Vertex, v2: Vertex, px: int, py: int) -> Fragment {
    let w = weights(v0, v1, v2, px, py);
    let t = abs(area(v0, v1, v2));
    Fragment {
        x: px as usize,
        y: py as usize,
        depth: interp(
            w,
            t,
            v0.transformed_position.z as int,
            v1.transformed_position.z as int,
            v2.transformed_position.z as int,
        ) as i64,
        vertex_position: Vec3 {
            x: interp(w, t, v0.position.x as int, v1.position.x as int, v2.position.x as int) as i64,
            y: interp(w, t, v0.position.y as int, v1.position.y as int, v2.position.y as int) as i64,
            z: interp(w, t, v0.position.z as int, v1.position.z as int, v2.position.z as int) as i64,
        },
        intensity: clamp(
            interp(
                w,
                t,
                v0.transformed_normal.z as int,
                v1.transformed_normal.z as int,
                v2.transformed_normal.z as int,
            ),
            0,
            1000,
        ) as u64,
    }
}

pub open spec fn cell(v0: Vertex, v1: Vertex, v2: Vertex, px: int, py: int) -> Seq<Fragment> {
    if covered(v0, v1, v2, px, py) {
        seq![fragment_at(v0, v1, v2, px, py)]
    } else {
        Seq::empty()
    }
}

/// The fragments of pixels `x0 .. x` of row `py`, left to right.
pub open spec fn row(v0: Vertex, v1: Vertex, v2: Vertex, py: int, x0: int, x: int) -> Seq<Fragment>
    decreases x - x0,
{
    if x <= x0 {
        Seq::empty()
    } else {
        row(v0, v1, v2, py, x0, x - 1) + cell(v0, v1, v2, x - 1, py)
    }
}

/// The fragments of rows `y0 .. y`, each over columns `x0 .. x1`, top to bottom.
pub open spec fn rows(v0: Vertex, v1: Vertex, v2: Vertex, y0: int, y: int, x0: int, x1: int) -> Seq<
    Fragment,
>
    decreases y - y0,
{
    if y <= y0 {
        Seq::empty()
    } else {
        rows(v0, v1, v2, y0, y - 1, x0, x1) + row(v0, v1, v2, y - 1, x0, x1)
    }
}

pub open spec fn min3(a: int, b: int, c: int) -> int {
    if a <= b && a <= c {
        a
    } else if b <= c {
        b
    } else {
        c
    }
}

pub open spec fn max3(a: int, b: int, c: int) -> int {
    if a >= b && a >= c {
        a
    } else if b >= c {
        b
    } else {
        c
    }
}

/// The first pixel of a bounding box side, never negative.
pub open spec fn first_pixel(a: int, b: int, c: int) -> int {
    let m = min3(a, b, c) / 1000;
    if m < 0 {
        0
    } else {
        m
    }
}

/// The last pixel of a bounding box side.
pub open spec fn last_pixel(a: int, b: int, c: int) -> int {
    max3(a, b, c) / 1000
}

/// All fragments of a triangle: nothing for a degenerate one, else every
/// covered pixel of the bounding box, row by row.
pub open spec fn triangle_fragments(v0: Vertex, v1: Vertex, v2: Vertex) -> Seq<Fragment> {
    let a = v0.transformed_position;
    let b = v1.transformed_position;
    let c = v2.transformed_position;
    if area(v0, v1, v2) == 0 {
        Seq::empty()
    } else {
        rows(
            v0,
            v1,
            v2,
            first_pixel(a.y as int, b.y as int, c.y as int),
            last_pixel(a.y as int, b.y as int, c.y as int) + 1,
            first_pixel(a.x as int, b.x as int, c.x as int),
            last_pixel(a.x as int, b.x as int, c.x as int) + 1,
        )
    }
}

/// Bound on the magnitudes that `edge_value` takes.
const SPAN: i128 = 0x8_0000_0000;

proof fn lemma_edge_bound(ax: int, ay: int, bx: int, by: int, px: int, py: int)
    requires
        -SPAN <= ax <= SPAN,
        -SPAN <= ay <= SPAN,
        -SPAN <= bx <= SPAN,
        -SPAN <= by <= SPAN,
        -SPAN <= px <= SPAN,
        -SPAN <= py <= SPAN,
    ensures
        -4 * SPAN * SPAN <= (bx - ax) * (py - ay) <= 4 * SPAN * SPAN,
        -4 * SPAN * SPAN <= (by - ay) * (px - ax) <= 4 * SPAN * SPAN,
        -8 * SPAN * SPAN <= edge(ax, ay, bx, by, px, py) <= 8 * SPAN * SPAN,
{
    let s = SPAN as int;
    assert(-4 * s * s <= (bx - ax) * (py - ay) <= 4 * s * s) by (nonlinear_arith)
        requires -2 * s <= bx - ax <= 2 * s, -2 * s <= py - ay <= 2 * s;
    assert(-4 * s * s <= (by - ay) * (px - ax) <= 4 * s * s) by (nonlinear_arith)
        requires -2 * s <= by - ay <= 2 * s, -2 * s <= px - ax <= 2 * s;
}

fn edge_value(ax: i128, ay: i128, bx: i128, by: i128, px: i128, py: i128) -> (r: i128)
    requires
        -SPAN <= ax <= SPAN,
        -SPAN <= ay <= SPAN,
        -SPAN <= bx <= SPAN,
        -SPAN <= by <= SPAN,
        -SPAN <= px <= SPAN,
        -SPAN <= py <= SPAN,
    ensures
        r == edge(ax as int, ay as int, bx as int, by as int, px as int, py as int),
        -8 * SPAN * SPAN <= r <= 8 * SPAN * SPAN,
{
    proof {
        lemma_edge_bound(ax as int, ay as int, bx as int, by as int, px as int, py as int);
    }
    (bx - ax) * (py - ay) - (by - ay) * (px - ax)
}

proof fn lemma_expand(a: int, b: int, c: int, d: int)
    ensures
        (a - b) * (c - d) == a * c - a * d - b * c + b * d,
{
    assert((a - b) * (c - d) == a * c - a * d - b * c + b * d) by (nonlinear_arith);
}

/// The three weights of a point add up to the doubled area.
proof fn lemma_weights_sum(ax: int, ay: int, bx: int, by: int, cx: int, cy: int, x: int, y: int)
    ensures
        edge(bx, by, cx, cy, x, y) + edge(cx, cy, ax, ay, x, y) + edge(ax, ay, bx, by, x, y) == edge(
            ax,
            ay,
            bx,
            by,
            cx,
            cy,
        ),
{
    lemma_expand(cx, bx, y, by);
    lemma_expand(cy, by, x, bx);
    lemma_expand(ax, cx, y, cy);
    lemma_expand(ay, cy, x, cx);
    lemma_expand(bx, ax, y, ay);
    lemma_expand(by, ay, x, ax);
    lemma_expand(bx, ax, cy, ay);
    lemma_expand(by, ay, cx, ax);
}

/// A weighted average with non-negative weights stays within the bound of its values.
proof fn lemma_interp_within(w0: int, w1: int, w2: int, t: int, q0: int, q1: int, q2: int, l: int)
    requires
        w0 >= 0,
        w1 >= 0,
        w2 >= 0,
        w0 + w1 + w2 == t,
        t > 0,
        -l <= q0 <= l,
        -l <= q1 <= l,
        -l <= q2 <= l,
    ensures
        -l <= (w0 * q0 + w1 * q1 + w2 * q2) / t <= l,
{
    assert(-(w0 * l) <= w0 * q0 <= w0 * l) by (nonlinear_arith)
        requires w0 >= 0, -l <= q0 <= l;
    assert(-(w1 * l) <= w1 * q1 <= w1 * l) by (nonlinear_arith)
        requires w1 >= 0, -l <= q1 <= l;
    assert(-(w2 * l) <= w2 * q2 <= w2 * l) by (nonlinear_arith)
        requires w2 >= 0, -l <= q2 <= l;
    assert(t * l == w0 * l + w1 * l + w2 * l) by (nonlinear_arith)
        requires w0 + w1 + w2 == t;
    let s = w0 * q0 + w1 * q1 + w2 * q2;
    lemma_div_is_ordered(s, t * l, t);
    assert(t * (-l) == -(t * l)) by (nonlinear_arith);
    lemma_div_is_ordered(t * (-l), s, t);
    lemma_div_multiples_vanish(l, t);
    lemma_div_multiples_vanish(-l, t);
}

/// Largest doubled area of a triangle within the coordinate bound.
const AREA_MAX: i128 = 0x400_0000_0000_0000_0000;

fn interp_value(w0: i128, w1: i128, w2: i128, t: i128, q0: i64, q1: i64, q2: i64) -> (r: i64)
    requires
        w0 >= 0,
        w1 >= 0,
        w2 >= 0,
        w0 + w1 + w2 == t,
        0 < t <= AREA_MAX,
        within(q0),
        within(q1),
        within(q2),
    ensures
        r == interp((w0 as int, w1 as int, w2 as int), t as int, q0 as int, q1 as int, q2 as int),
        within(r),
{
    proof {
        let m = AREA_MAX as int;
        let l = LIMIT as int;
        assert(-m * l <= w0 * q0 <= m * l) by (nonlinear_arith)
            requires 0 <= w0 <= m, -l <= q0 <= l, l >= 0;
        assert(-m * l <= w1 * q1 <= m * l) by (nonlinear_arith)
            requires 0 <= w1 <= m, -l <= q1 <= l, l >= 0;
        assert(-m * l <= w2 * q2 <= m * l) by (nonlinear_arith)
            requires 0 <= w2 <= m, -l <= q2 <= l, l >= 0;
        lemma_interp_within(
            w0 as int,
            w1 as int,
            w2 as int,
            t as int,
            q0 as int,
            q1 as int,
            q2 as int,
            l,
        );
    }
    let s: i128 = w0 * (q0 as i128) + w1 * (q1 as i128) + w2 * (q2 as i128);
    div_floor(s, t) as i64
}

fn min3_i64(a: i64, b: i64, c: i64) -> (r: i64)
    ensures
        r == min3(a as int, b as int, c as int),
{
    if a <= b && a <= c {
        a
    } else if b <= c {
        b
    } else {
        c
    }
}

fn max3_i64(a: i64, b: i64, c: i64) -> (r: i64)
    ensures
        r == max3(a as int, b as int, c as int),
{
    if a >= b && a >= c {
        a
    } else if b >= c {
        b
    } else {
        c
    }
}

/// The pixel range `first .. end` that a bounding box side covers.
fn pixel_span(a: i64, b: i64, c: i64) -> (r: (i64, i64))
    requires
        within(a),
        within(b),
        within(c),
    ensures
        r.0 == first_pixel(a as int, b as int, c as int),
        r.1 == last_pixel(a as int, b as int, c as int) + 1,
        0 <= r.0 <= 5_000_000,
        -5_000_000 <= r.1 <= 5_000_000,
{
    let lo = div_floor(min3_i64(a, b, c) as i128, 1000);
    let hi = div_floor(max3_i64(a, b, c) as i128, 1000);
    proof {
        let mn = min3(a as int, b as int, c as int);
        let mx = max3(a as int, b as int, c as int);
        lemma_div_is_ordered(mn, LIMIT as int, 1000);
        lemma_div_is_ordered(-LIMIT as int, mn, 1000);
        lemma_div_is_ordered(mx, LIMIT as int, 1000);
        lemma_div_is_ordered(-LIMIT as int, mx, 1000);
    }
    let first: i64 = if lo < 0 { 0 } else { lo as i64 };
    (first, hi as i64 + 1)
}

/// The weights and fragment of one pixel; `None` when the pixel center lies
/// outside the triangle.
fn pixel_fragment(v0: &Vertex, v1: &Vertex, v2: &Vertex, signed_area: i128, px: i64, py: i64) -> (r:
    Option<Fragment>)
    requires
        v0.rasterizable(),
        v1.rasterizable(),
        v2.rasterizable(),
        signed_area == area(*v0, *v1, *v2),
        signed_area != 0,
        0 <= px <= 5_000_000,
        0 <= py <= 5_000_000,
    ensures
        r is Some <==> covered(*v0, *v1, *v2, px as int, py as int),
        r is Some ==> r->0 == fragment_at(*v0, *v1, *v2, px as int, py as int),
        r is Some ==> r->0.wf(),
{
    let a = v0.transformed_position;
    let b = v1.transformed_position;
    let c = v2.transformed_position;
    let x: i128 = px as i128 * 1000 + 500;
    let y: i128 = py as i128 * 1000 + 500;
    let e0 = edge_value(b.x as i128, b.y as i128, c.x as i128, c.y as i128, x, y);
    let e1 = edge_value(c.x as i128, c.y as i128, a.x as i128, a.y as i128, x, y);
    let e2 = edge_value(a.x as i128, a.y as i128, b.x as i128, b.y as i128, x, y);
    proof {
        lemma_weights_sum(
            a.x as int,
            a.y as int,
            b.x as int,
            b.y as int,
            c.x as int,
            c.y as int,
            x as int,
            y as int,
        );
    }
    proof {
        lemma_edge_bound(
            a.x as int,
            a.y as int,
            b.x as int,
            b.y as int,
            c.x as int,
            c.y as int,
        );
    }
    let (w0, w1, w2, t) = if signed_area < 0 {
        (-e0, -e1, -e2, -signed_area)
    } else {
        (e0, e1, e2, signed_area)
    };
    if w0 < 0 || w1 < 0 || w2 < 0 {
        return None;
    }
    let depth = interp_value(w0, w1, w2, t, a.z, b.z, c.z);
    let p0 = v0.position;
    let p1 = v1.position;
    let p2 = v2.position;
    let vx = interp_value(w0, w1, w2, t, p0.x, p1.x, p2.x);
    let vy = interp_value(w0, w1, w2, t, p0.y, p1.y, p2.y);
    let vz = interp_value(w0, w1, w2, t, p0.z, p1.z, p2.z);
    let nz = interp_value(
        w0,
        w1,
        w2,
        t,
        v0.transformed_normal.z,
        v1.transformed_normal.z,
        v2.transformed_normal.z,
    );
    let intensity = clamp_i64(nz, 0, 1000) as u64;
    Some(
        Fragment {
            x: px as usize,
            y: py as usize,
            depth,
            vertex_position: Vec3 { x: vx, y: vy, z: vz },
            intensity,
        },
    )
}

/// Rasterizes a screen-space triangle: one fragment for each pixel whose
/// center lies inside it (either winding), row by row over the bounding box
/// clipped to non-negative pixels; none for a degenerate triangle.
pub fn triangle(v0: &Vertex, v1: &Vertex, v2: &Vertex) -> (frags: Vec<Fragment>)
    requires
        v0.rasterizable(),
        v1.rasterizable(),
        v2.rasterizable(),
    ensures
        frags@ == triangle_fragments(*v0, *v1, *v2),
        area(*v0, *v1, *v2) == 0 ==> frags@.len() == 0,
        forall|i: int| 0 <= i < frags@.len() ==> (#[trigger] frags@[i]).wf(),
{
    let a = v0.transformed_position;
    let b = v1.transformed_position;
    let c = v2.transformed_position;
    let signed_area = edge_value(
        a.x as i128,
        a.y as i128,
        b.x as i128,
        b.y as i128,
        c.x as i128,
        c.y as i128,
    );
    let mut frags: Vec<Fragment> = Vec::new();
    if signed_area == 0 {
        return frags;
    }
    let (x0, x_end) = pixel_span(a.x, b.x, c.x);
    let (y0, y_end) = pixel_span(a.y, b.y, c.y);
    let mut py: i64 = y0;
    while py < y_end
        invariant
            0 <= y0 <= py,
            py <= y_end || py == y0,
            y_end <= 5_000_000,
            0 <= x0 <= 5_000_000,
            x_end <= 5_000_000,
            v0.rasterizable(),
            v1.rasterizable(),
            v2.rasterizable(),
            signed_area == area(*v0, *v1, *v2),
            signed_area != 0,
            frags@ == rows(*v0, *v1, *v2, y0 as int, py as int, x0 as int, x_end as int),
            forall|i: int| 0 <= i < frags@.len() ==> (#[trigger] frags@[i]).wf(),
        decreases y_end - py,
    {
        let ghost before = frags@;
        let mut px: i64 = x0;
        while px < x_end
            invariant
                x0 <= px,
                px <= x_end || px == x0,
                x_end <= 5_000_000,
                0 <= x0 <= 5_000_000,
                0 <= py < y_end <= 5_000_000,
                v0.rasterizable(),
                v1.rasterizable(),
                v2.rasterizable(),
                signed_area == area(*v0, *v1, *v2),
                signed_area != 0,
                frags@ == before + row(*v0, *v1, *v2, py as int, x0 as int, px as int),
                forall|i: int| 0 <= i < frags@.len() ==> (#[trigger] frags@[i]).wf(),
            decreases x_end - px,
        {
            let ghost prior = frags@;
            match pixel_fragment(v0, v1, v2, signed_area, px, py) {
                Some(f) => {
                    frags.push(f);
                },
                None => {},
            }
            assert(row(*v0, *v1, *v2, py as int, x0 as int, px + 1) == row(
                *v0,
                *v1,
                *v2,
                py as int,
                x0 as int,
                px as int,
            ) + cell(*v0, *v1, *v2, px as int, py as int));
            assert(frags@ =~= before + row(*v0, *v1, *v2, py as int, x0 as int, px + 1));
            px = px + 1;
        }
        if px != x_end {
            assert(row(*v0, *v1, *v2, py as int, x0 as int, x_end as int) =~= Seq::empty());
            assert(row(*v0, *v1, *v2, py as int, x0 as int, px as int) =~= Seq::empty());
        }
        assert(frags@ == before + row(*v0, *v1, *v2, py as int, x0 as int, x_end as int));
        py = py + 1;
    }
    if py != y_end {
        assert(rows(*v0, *v1, *v2, y0 as int, y_end as int, x0 as int, x_end as int) =~= Seq::empty());
    }
    frags
}

} // verus!
