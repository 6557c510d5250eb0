//! Fixed-point 4x4 matrices and the vertex transform.
use vstd::prelude::*;
use vstd::arithmetic::div_mod::lemma_div_is_ordered;
use crate::fixed::div_floor;
use crate::shaders::{HALF_TURN, wave, wave_spec};
use crate::vertex::{Vec3, Vertex, LIMIT, within, vec_within};

verus! {

/// A 4x4 matrix in row-major order, entries in thousandths.
#[derive(Clone, Copy, Debug)]
pub struct Mat4 {
    pub m: [i64; 16],
}

/// The per-draw parameters shared by every stage: the four transform
/// matrices and the frame counter.
#[derive(Clone, Copy, Debug)]
pub struct Uniforms {
    pub model_matrix: Mat4,
    pub view_matrix: Mat4,
    pub projection_matrix: Mat4,
    pub viewport_matrix: Mat4,
    pub time: u32,
}

impl Mat4 {
    pub open spec fn at(self, i: int, j: int) -> int {
        self.m@[4 * i + j] as int
    }

    pub open spec fn is_identity(self) -> bool {
        forall|i: int, j: int| 0 <= i < 4 && 0 <= j < 4 ==> #[trigger] self.at(i, j) == if i == j {
            1000int
        } else {
            0int
        }
    }

    pub open spec fn within_limit(self) -> bool {
        forall|k: int| 0 <= k < 16 ==> within(#[trigger] self.m@[k])
    }

    pub fn new(m: [i64; 16]) -> (r: Mat4)
        ensures
            r.m == m,
    {
        Mat4 { m }
    }

    pub fn identity() -> (r: Mat4)
        ensures
            r.is_identity(),
    {
        let r = Mat4 { m: [1000, 0, 0, 0, 0, 1000, 0, 0, 0, 0, 1000, 0, 0, 0, 0, 1000] };
        assert(r.is_identity()) by {
            assert forall|i: int, j: int| 0 <= i < 4 && 0 <= j < 4 implies #[trigger] r.at(i, j) == if i
                == j {
                1000int
            } else {
                0int
            } by {
                assert(r.m@ == seq![1000i64, 0, 0, 0, 0, 1000, 0, 0, 0, 0, 1000, 0, 0, 0, 0, 1000]);
            }
        }
        r
    }

    fn check_within(&self) -> (ok: bool)
        ensures
            ok == self.within_limit(),
    {
        let mut k: usize = 0;
        while k < 16
            invariant
                k <= 16,
                forall|j: int| 0 <= j < k ==> within(#[trigger] self.m@[j]),
            decreases 16 - k,
        {
            if self.m[k] < -LIMIT || self.m[k] > LIMIT {
                return false;
            }
            k = k + 1;
        }
        true
    }
}

/// The viewport matrix of a `width` by `height` buffer: maps `x` and `y`
/// from `[-1, 1]` to pixel coordinates, `y` pointing down, and passes `z` on.
pub fn create_viewport_matrix(width: u32, height: u32) -> (m: Mat4)
    ensures
        m.at(0, 0) == width as int * 500 && m.at(0, 3) == width as int * 500,
        m.at(1, 1) == -(height as int * 500) && m.at(1, 3) == height as int * 500,
        m.at(2, 2) == 1000 && m.at(3, 3) == 1000,
        m.at(0, 1) == 0 && m.at(0, 2) == 0,
        m.at(1, 0) == 0 && m.at(1, 2) == 0,
        m.at(2, 0) == 0 && m.at(2, 1) == 0 && m.at(2, 3) == 0,
        m.at(3, 0) == 0 && m.at(3, 1) == 0 && m.at(3, 2) == 0,
{
    let hw: i64 = width as i64 * 500;
    let hh: i64 = height as i64 * 500;
    let nh: i64 = -hh;
    let m = Mat4 { m: [hw, 0, 0, hw, 0, nh, 0, hh, 0, 0, 1000, 0, 0, 0, 0, 1000] };
    assert(m.m@ == seq![hw, 0, 0, hw, 0, nh, 0, hh, 0, 0, 1000, 0, 0, 0, 0, 1000i64]);
    m
}

/// The entries of a matrix as integers, row-major.
pub open spec fn entries(m: Mat4) -> Seq<int> {
    Seq::new(16, |k: int| m.m@[k] as int)
}

pub open spec fn seq_bounded(s: Seq<int>, k: int) -> bool {
    forall|x: int| 0 <= x < s.len() ==> -k <= #[trigger] s[x] <= k
}

/// Entry `(i, j)` of the fixed-point product of two row-major 4x4 matrices,
/// rounded down.
pub open spec fn product_entry(a: Seq<int>, b: Seq<int>, i: int, j: int) -> int {
    (a[4 * i] * b[j] + a[4 * i + 1] * b[4 + j] + a[4 * i + 2] * b[8 + j] + a[4 * i + 3] * b[12 + j]) / 1000
}

pub open spec fn product(a: Seq<int>, b: Seq<int>) -> Seq<int> {
    Seq::new(16, |k: int| product_entry(a, b, k / 4, k % 4))
}

/// Bound on the entries of a product of bounded matrices.
proof fn lemma_product_bounded(a: Seq<int>, b: Seq<int>, ka: int, kb: int)
    requires
        a.len() == 16,
        b.len() == 16,
        ka >= 0,
        kb >= 0,
        seq_bounded(a, ka),
        seq_bounded(b, kb),
    ensures
        seq_bounded(product(a, b), 4 * ka * kb / 1000 + 1),
{
    assert forall|x: int| 0 <= x < 16 implies -(4 * ka * kb / 1000 + 1) <= #[trigger] product(a, b)[x] <= 4
        * ka * kb / 1000 + 1 by {
        let i = x / 4;
        let j = x % 4;
        let t0 = a[4 * i] * b[j];
        let t1 = a[4 * i + 1] * b[4 + j];
        let t2 = a[4 * i + 2] * b[8 + j];
        let t3 = a[4 * i + 3] * b[12 + j];
        lemma_term_bounded(a[4 * i], b[j], ka, kb);
        lemma_term_bounded(a[4 * i + 1], b[4 + j], ka, kb);
        lemma_term_bounded(a[4 * i + 2], b[8 + j], ka, kb);
        lemma_term_bounded(a[4 * i + 3], b[12 + j], ka, kb);
        let s = t0 + t1 + t2 + t3;
        let k = ka * kb;
        assert(4 * ka * kb == 4 * k) by (nonlinear_arith)
            requires k == ka * kb;
        assert(product(a, b)[x] == s / 1000);
        lemma_div_is_ordered(s, 4 * k, 1000);
        lemma_div_is_ordered(-(4 * k), s, 1000);
        assert(-(4 * k) / 1000 >= -(4 * k / 1000) - 1);
    }
}

proof fn lemma_term_bounded(x: int, y: int, kx: int, ky: int)
    requires
        -kx <= x <= kx,
        -ky <= y <= ky,
    ensures
        -(kx * ky) <= x * y <= kx * ky,
{
    assert(-(kx * ky) <= x * y <= kx * ky) by (nonlinear_arith)
        requires -kx <= x <= kx, -ky <= y <= ky;
}

fn product_value(a: &Mat4, b: &Mat4, i: usize, j: usize) -> (r: i64)
    requires
        i < 4,
        j < 4,
        a.within_limit(),
        b.within_limit(),
    ensures
        r == product_entry(entries(*a), entries(*b), i as int, j as int),
{
    let ghost l = LIMIT as int;
    let x0: i128 = a.m[4 * i] as i128;
    let x1: i128 = a.m[4 * i + 1] as i128;
    let x2: i128 = a.m[4 * i + 2] as i128;
    let x3: i128 = a.m[4 * i + 3] as i128;
    let y0: i128 = b.m[j] as i128;
    let y1: i128 = b.m[4 + j] as i128;
    let y2: i128 = b.m[8 + j] as i128;
    let y3: i128 = b.m[12 + j] as i128;
    proof {
        assert(within(a.m@[4 * i as int]) && within(a.m@[4 * i + 1]) && within(a.m@[4 * i + 2])
            && within(a.m@[4 * i + 3]));
        assert(within(b.m@[j as int]) && within(b.m@[4 + j]) && within(b.m@[8 + j]) && within(
            b.m@[12 + j],
        ));
        lemma_term_bounded(x0 as int, y0 as int, l, l);
        lemma_term_bounded(x1 as int, y1 as int, l, l);
        lemma_term_bounded(x2 as int, y2 as int, l, l);
        lemma_term_bounded(x3 as int, y3 as int, l, l);
        let s = x0 * y0 + x1 * y1 + x2 * y2 + x3 * y3;
        lemma_div_is_ordered(s, 4 * l * l, 1000);
        lemma_div_is_ordered(-(4 * l * l), s, 1000);
    }
    div_floor(x0 * y0 + x1 * y1 + x2 * y2 + x3 * y3, 1000) as i64
}

impl Mat4 {
    /// The fixed-point product `self * other`.
    pub fn mul(&self, other: &Mat4) -> (r: Mat4)
        requires
            self.within_limit(),
            other.within_limit(),
        ensures
            entries(r) == product(entries(*self), entries(*other)),
    {
        let r = Mat4 {
            m: [
                product_value(self, other, 0, 0),
                product_value(self, other, 0, 1),
                product_value(self, other, 0, 2),
                product_value(self, other, 0, 3),
                product_value(self, other, 1, 0),
                product_value(self, other, 1, 1),
                product_value(self, other, 1, 2),
                product_value(self, other, 1, 3),
                product_value(self, other, 2, 0),
                product_value(self, other, 2, 1),
                product_value(self, other, 2, 2),
                product_value(self, other, 2, 3),
                product_value(self, other, 3, 0),
                product_value(self, other, 3, 1),
                product_value(self, other, 3, 2),
                product_value(self, other, 3, 3),
            ],
        };
        assert(entries(r) =~= product(entries(*self), entries(*other)));
        r
    }
}

/// A rotation about `x` with the given sine and cosine (thousandths).
pub open spec fn rotation_x(s: int, c: int) -> Seq<int> {
    seq![1000, 0, 0, 0, 0, c, -s, 0, 0, s, c, 0, 0, 0, 0, 1000]
}

pub open spec fn rotation_y(s: int, c: int) -> Seq<int> {
    seq![c, 0, s, 0, 0, 1000, 0, 0, -s, 0, c, 0, 0, 0, 0, 1000]
}

pub open spec fn rotation_z(s: int, c: int) -> Seq<int> {
    seq![c, -s, 0, 0, s, c, 0, 0, 0, 0, 1000, 0, 0, 0, 0, 1000]
}

/// Uniform scale followed by a translation.
pub open spec fn scale_translate(t: Vec3, scale: int) -> Seq<int> {
    seq![scale, 0, 0, t.x as int, 0, scale, 0, t.y as int, 0, 0, scale, t.z as int, 0, 0, 0, 1000]
}

/// The model matrix: rotations about `x`, then `y`, then `z` (angles in
/// thousandths of a radian, through `wave`), then scale and translation.
pub open spec fn model_matrix_spec(t: Vec3, scale: int, r: Vec3) -> Seq<int> {
    let q = HALF_TURN / 2;
    let rx = rotation_x(wave_spec(r.x as int), wave_spec(r.x + q));
    let ry = rotation_y(wave_spec(r.y as int), wave_spec(r.y + q));
    let rz = rotation_z(wave_spec(r.z as int), wave_spec(r.z + q));
    product(scale_translate(t, scale), product(rz, product(ry, rx)))
}

fn from_entries(e: [i64; 16]) -> (m: Mat4)
    ensures
        entries(m) == Seq::new(16, |k: int| e@[k] as int),
{
    let m = Mat4 { m: e };
    assert(entries(m) =~= Seq::new(16, |k: int| e@[k] as int));
    m
}

/// Builds a model matrix from a translation, a uniform scale (thousandths)
/// and rotation angles about `x`, `y` and `z` (thousandths of a radian).
pub fn create_model_matrix(translation: Vec3, scale: i64, rotation: Vec3) -> (m: Mat4)
    requires
        vec_within(translation),
        within(scale),
    ensures
        entries(m) == model_matrix_spec(translation, scale as int, rotation),
{
    let q: i128 = (HALF_TURN / 2) as i128;
    let (sx, cx) = (wave(rotation.x as i128), wave(rotation.x as i128 + q));
    let (sy, cy) = (wave(rotation.y as i128), wave(rotation.y as i128 + q));
    let (sz, cz) = (wave(rotation.z as i128), wave(rotation.z as i128 + q));
    let rx = from_entries([1000, 0, 0, 0, 0, cx, -sx, 0, 0, sx, cx, 0, 0, 0, 0, 1000]);
    let ry = from_entries([cy, 0, sy, 0, 0, 1000, 0, 0, -sy, 0, cy, 0, 0, 0, 0, 1000]);
    let rz = from_entries([cz, -sz, 0, 0, sz, cz, 0, 0, 0, 0, 1000, 0, 0, 0, 0, 1000]);
    let st = from_entries(
        [scale, 0, 0, translation.x, 0, scale, 0, translation.y, 0, 0, scale, translation.z, 0, 0, 0, 1000],
    );
    proof {
        assert(entries(rx) =~= rotation_x(sx as int, cx as int));
        assert(entries(ry) =~= rotation_y(sy as int, cy as int));
        assert(entries(rz) =~= rotation_z(sz as int, cz as int));
        assert(entries(st) =~= scale_translate(translation, scale as int));
        assert(seq_bounded(entries(rx), 1000));
        assert(seq_bounded(entries(ry), 1000));
        assert(seq_bounded(entries(rz), 1000));
        lemma_product_bounded(entries(ry), entries(rx), 1000, 1000);
        lemma_product_bounded(entries(rz), product(entries(ry), entries(rx)), 1000, 4001);
    }
    let ryx = ry.mul(&rx);
    proof {
        assert(seq_bounded(entries(ryx), 4001));
        assert(ryx.within_limit()) by {
            assert forall|k: int| 0 <= k < 16 implies within(#[trigger] ryx.m@[k]) by {
                assert(entries(ryx)[k] == ryx.m@[k]);
            }
        }
        assert(rz.within_limit()) by {
            assert forall|k: int| 0 <= k < 16 implies within(#[trigger] rz.m@[k]) by {
                assert(entries(rz)[k] == rz.m@[k]);
            }
        }
    }
    let rzyx = rz.mul(&ryx);
    proof {
        assert(seq_bounded(entries(rzyx), 16005));
        assert(rzyx.within_limit()) by {
            assert forall|k: int| 0 <= k < 16 implies within(#[trigger] rzyx.m@[k]) by {
                assert(entries(rzyx)[k] == rzyx.m@[k]);
            }
        }
        assert(st.within_limit()) by {
            assert forall|k: int| 0 <= k < 16 implies within(#[trigger] st.m@[k]) by {
                assert(entries(st)[k] == st.m@[k]);
            }
        }
        assert(rx.within_limit()) by {
            assert forall|k: int| 0 <= k < 16 implies within(#[trigger] rx.m@[k]) by {
                assert(entries(rx)[k] == rx.m@[k]);
            }
        }
        assert(ry.within_limit()) by {
            assert forall|k: int| 0 <= k < 16 implies within(#[trigger] ry.m@[k]) by {
                assert(entries(ry)[k] == ry.m@[k]);
            }
        }
    }
    st.mul(&rzyx)
}

/// Row `i` of `m` times the column `v`, rounded down to thousandths.
pub open spec fn row_times(m: Mat4, i: int, v: Seq<int>) -> int {
    (m.at(i, 0) * v[0] + m.at(i, 1) * v[1] + m.at(i, 2) * v[2] + m.at(i, 3) * v[3]) / 1000
}

pub open spec fn mat_vec(m: Mat4, v: Seq<int>) -> Seq<int> {
    seq![row_times(m, 0, v), row_times(m, 1, v), row_times(m, 2, v), row_times(m, 3, v)]
}

pub open spec fn seq_within(v: Seq<int>) -> bool {
    forall|k: int| 0 <= k < v.len() ==> -LIMIT <= #[trigger] v[k] <= LIMIT
}

/// One transform step; `None` where a coordinate leaves the range.
pub open spec fn stage(m: Mat4, v: Seq<int>) -> Option<Seq<int>> {
    let r = mat_vec(m, v);
    if seq_within(r) {
        Some(r)
    } else {
        None
    }
}

/// `n / w` rounded toward negative infinity for a positive `w`, and the
/// negated quotient by `-w` for a negative one.
pub open spec fn ratio(n: int, w: int) -> int {
    if w > 0 {
        n / w
    } else {
        -(n / -w)
    }
}

/// The perspective divide: `x`, `y` and `z` over `w`, then `w = 1`.
pub open spec fn divide(c: Seq<int>) -> Option<Seq<int>> {
    let w = c[3];
    if w == 0 {
        None
    } else {
        let r = seq![ratio(c[0] * 1000, w), ratio(c[1] * 1000, w), ratio(c[2] * 1000, w), 1000];
        if seq_within(r) {
            Some(r)
        } else {
            None
        }
    }
}

pub open spec fn homogeneous(p: Vec3) -> Seq<int> {
    seq![p.x as int, p.y as int, p.z as int, 1000]
}

/// The screen-space position of a model-space point: model, view and
/// projection, perspective divide, then viewport.
pub open spec fn screen_position(u: Uniforms, p: Vec3) -> Option<Seq<int>> {
    match stage(u.model_matrix, homogeneous(p)) {
        None => None,
        Some(world) => match stage(u.view_matrix, world) {
            None => None,
            Some(eye) => match stage(u.projection_matrix, eye) {
                None => None,
                Some(clip) => match divide(clip) {
                    None => None,
                    Some(ndc) => stage(u.viewport_matrix, ndc),
                },
            },
        },
    }
}

/// The signed cofactor of entry `(i, j)` of the upper-left 3x3 block.
pub open spec fn cofactor(m: Mat4, i: int, j: int) -> int {
    let i1 = (i + 1) % 3;
    let i2 = (i + 2) % 3;
    let j1 = (j + 1) % 3;
    let j2 = (j + 2) % 3;
    m.at(i1, j1) * m.at(i2, j2) - m.at(i1, j2) * m.at(i2, j1)
}

/// The determinant of the upper-left 3x3 block, in billionths.
pub open spec fn det3(m: Mat4) -> int {
    m.at(0, 0) * cofactor(m, 0, 0) + m.at(0, 1) * cofactor(m, 0, 1) + m.at(0, 2) * cofactor(m, 0, 2)
}

/// Entry `(i, j)` of the normal matrix, the inverse-transpose of the upper-left
/// 3x3 block (cofactor over determinant); the identity where the block is singular.
pub open spec fn normal_entry(m: Mat4, i: int, j: int) -> int {
    if det3(m) == 0 {
        if i == j {
            1000int
        } else {
            0int
        }
    } else {
        ratio(cofactor(m, i, j) * 1_000_000, det3(m))
    }
}

pub open spec fn normal_row(m: Mat4, i: int, n: Vec3) -> int {
    (normal_entry(m, i, 0) * n.x + normal_entry(m, i, 1) * n.y + normal_entry(m, i, 2) * n.z) / 1000
}

/// The transformed normal; `None` where a coordinate leaves the range.
pub open spec fn transformed_normal(m: Mat4, n: Vec3) -> Option<Vec3> {
    let r = seq![normal_row(m, 0, n), normal_row(m, 1, n), normal_row(m, 2, n)];
    if seq_within(r) {
        Some(Vec3 { x: r[0] as i64, y: r[1] as i64, z: r[2] as i64 })
    } else {
        None
    }
}

pub open spec fn inputs_within(v: Vertex, u: Uniforms) -> bool {
    &&& vec_within(v.position)
    &&& vec_within(v.normal)
    &&& u.model_matrix.within_limit()
    &&& u.view_matrix.within_limit()
    &&& u.projection_matrix.within_limit()
    &&& u.viewport_matrix.within_limit()
}

/// The vertex with its screen-space position and normal filled in; `None`
/// where an input or a result leaves the coordinate range or the clip-space
/// `w` is zero.
pub open spec fn transform_spec(v: Vertex, u: Uniforms) -> Option<Vertex> {
    if !inputs_within(v, u) {
        None
    } else {
        match screen_position(u, v.position) {
            None => None,
            Some(s) => match transformed_normal(u.model_matrix, v.normal) {
                None => None,
                Some(n) => Some(
                    Vertex {
                        transformed_position: Vec3 { x: s[0] as i64, y: s[1] as i64, z: s[2] as i64 },
                        transformed_normal: n,
                        ..v
                    },
                ),
            },
        }
    }
}

pub open spec fn quad(t: (i64, i64, i64, i64)) -> Seq<int> {
    seq![t.0 as int, t.1 as int, t.2 as int, t.3 as int]
}

pub open spec fn quad_within(t: (i64, i64, i64, i64)) -> bool {
    within(t.0) && within(t.1) && within(t.2) && within(t.3)
}

fn row_value(m: &Mat4, i: usize, v: (i64, i64, i64, i64)) -> (r: i128)
    requires
        i < 4,
        m.within_limit(),
        quad_within(v),
    ensures
        r == row_times(*m, i as int, quad(v)),
{
    let ghost l = LIMIT as int;
    let b: usize = 4 * i;
    let a0: i128 = m.m[b] as i128;
    let a1: i128 = m.m[b + 1] as i128;
    let a2: i128 = m.m[b + 2] as i128;
    let a3: i128 = m.m[b + 3] as i128;
    let (v0, v1, v2, v3) = (v.0 as i128, v.1 as i128, v.2 as i128, v.3 as i128);
    proof {
        assert(within(m.m@[b as int]) && within(m.m@[b + 1]) && within(m.m@[b + 2]) && within(
            m.m@[b + 3],
        ));
        assert(-l * l <= a0 * v0 <= l * l) by (nonlinear_arith)
            requires -l <= a0 <= l, -l <= v0 <= l;
        assert(-l * l <= a1 * v1 <= l * l) by (nonlinear_arith)
            requires -l <= a1 <= l, -l <= v1 <= l;
        assert(-l * l <= a2 * v2 <= l * l) by (nonlinear_arith)
            requires -l <= a2 <= l, -l <= v2 <= l;
        assert(-l * l <= a3 * v3 <= l * l) by (nonlinear_arith)
            requires -l <= a3 <= l, -l <= v3 <= l;
    }
    div_floor(a0 * v0 + a1 * v1 + a2 * v2 + a3 * v3, 1000)
}

fn narrow(r: i128) -> (o: Option<i64>)
    ensures
        o is Some <==> -LIMIT <= r <= LIMIT,
        o is Some ==> o->0 == r,
{
    if r < -(LIMIT as i128) || r > LIMIT as i128 {
        None
    } else {
        Some(r as i64)
    }
}

/// One transform step by `m`.
fn stage_value(m: &Mat4, v: (i64, i64, i64, i64)) -> (r: Option<(i64, i64, i64, i64)>)
    requires
        m.within_limit(),
        quad_within(v),
    ensures
        r is Some <==> stage(*m, quad(v)) is Some,
        r is Some ==> stage(*m, quad(v)) == Some(quad(r->0)) && quad_within(r->0),
{
    let r0 = row_value(m, 0, v);
    let r1 = row_value(m, 1, v);
    let r2 = row_value(m, 2, v);
    let r3 = row_value(m, 3, v);
    let ghost full = mat_vec(*m, quad(v));
    assert(full[0] == r0 && full[1] == r1 && full[2] == r2 && full[3] == r3);
    match (narrow(r0), narrow(r1), narrow(r2), narrow(r3)) {
        (Some(x), Some(y), Some(z), Some(w)) => {
            assert(full =~= quad((x, y, z, w)));
            Some((x, y, z, w))
        },
        _ => {
            assert(!seq_within(full));
            None
        },
    }
}

fn ratio_value(n: i128, w: i128) -> (r: i128)
    requires
        w != 0,
        -0x1_0000_0000_0000_0000_0000_0000 <= n <= 0x1_0000_0000_0000_0000_0000_0000,
        -0x10_0000_0000_0000_0000_0000_0000 <= w <= 0x10_0000_0000_0000_0000_0000_0000,
    ensures
        r == ratio(n as int, w as int),
        n >= 0 ==> -n <= r <= n,
        n < 0 ==> n <= r <= -n,
{
    if w > 0 {
        div_floor(n, w)
    } else {
        -div_floor(n, -w)
    }
}

fn divide_value(c: (i64, i64, i64, i64)) -> (r: Option<(i64, i64, i64, i64)>)
    requires
        quad_within(c),
    ensures
        r is Some <==> divide(quad(c)) is Some,
        r is Some ==> divide(quad(c)) == Some(quad(r->0)) && quad_within(r->0),
{
    let w: i128 = c.3 as i128;
    if w == 0 {
        return None;
    }
    let x = ratio_value(c.0 as i128 * 1000, w);
    let y = ratio_value(c.1 as i128 * 1000, w);
    let z = ratio_value(c.2 as i128 * 1000, w);
    let ghost full = seq![x as int, y as int, z as int, 1000int];
    match (narrow(x), narrow(y), narrow(z)) {
        (Some(a), Some(b), Some(d)) => {
            assert(full =~= quad((a, b, d, 1000)));
            Some((a, b, d, 1000))
        },
        _ => {
            assert(!seq_within(full));
            None
        },
    }
}

fn entry(m: &Mat4, i: usize, j: usize) -> (r: i128)
    requires
        i < 3,
        j < 3,
        m.within_limit(),
    ensures
        r == m.at(i as int, j as int),
        -LIMIT <= r <= LIMIT,
{
    assert(within(m.m@[4 * i + j]));
    m.m[4 * i + j] as i128
}

fn cofactor_value(m: &Mat4, i: usize, j: usize) -> (r: i128)
    requires
        i < 3,
        j < 3,
        m.within_limit(),
    ensures
        r == cofactor(*m, i as int, j as int),
        -2 * LIMIT * LIMIT <= r <= 2 * LIMIT * LIMIT,
{
    let i1: usize = (i + 1) % 3;
    let i2: usize = (i + 2) % 3;
    let j1: usize = (j + 1) % 3;
    let j2: usize = (j + 2) % 3;
    let a = entry(m, i1, j1);
    let b = entry(m, i2, j2);
    let c = entry(m, i1, j2);
    let d = entry(m, i2, j1);
    let ghost l = LIMIT as int;
    proof {
        assert(-l * l <= a * b <= l * l) by (nonlinear_arith)
            requires -l <= a <= l, -l <= b <= l;
        assert(-l * l <= c * d <= l * l) by (nonlinear_arith)
            requires -l <= c <= l, -l <= d <= l;
    }
    a * b - c * d
}

fn det_value(m: &Mat4) -> (r: i128)
    requires
        m.within_limit(),
    ensures
        r == det3(*m),
        -6 * LIMIT * LIMIT * LIMIT <= r <= 6 * LIMIT * LIMIT * LIMIT,
{
    let ghost l = LIMIT as int;
    let a0 = entry(m, 0, 0);
    let a1 = entry(m, 0, 1);
    let a2 = entry(m, 0, 2);
    let c0 = cofactor_value(m, 0, 0);
    let c1 = cofactor_value(m, 0, 1);
    let c2 = cofactor_value(m, 0, 2);
    proof {
        assert(-2 * l * l * l <= a0 * c0 <= 2 * l * l * l) by (nonlinear_arith)
            requires -l <= a0 <= l, -2 * l * l <= c0 <= 2 * l * l, l > 0;
        assert(-2 * l * l * l <= a1 * c1 <= 2 * l * l * l) by (nonlinear_arith)
            requires -l <= a1 <= l, -2 * l * l <= c1 <= 2 * l * l, l > 0;
        assert(-2 * l * l * l <= a2 * c2 <= 2 * l * l * l) by (nonlinear_arith)
            requires -l <= a2 <= l, -2 * l * l <= c2 <= 2 * l * l, l > 0;
    }
    a0 * c0 + a1 * c1 + a2 * c2
}

/// Bound on the entries of a normal matrix.
const NORMAL_SPAN: i128 = 0x100_0000_0000_0000_0000_0000;

fn normal_entry_value(m: &Mat4, det: i128, i: usize, j: usize) -> (r: i128)
    requires
        i < 3,
        j < 3,
        m.within_limit(),
        det == det3(*m),
        -6 * LIMIT * LIMIT * LIMIT <= det <= 6 * LIMIT * LIMIT * LIMIT,
    ensures
        r == normal_entry(*m, i as int, j as int),
        -NORMAL_SPAN <= r <= NORMAL_SPAN,
{
    if det == 0 {
        if i == j {
            1000
        } else {
            0
        }
    } else {
        let c = cofactor_value(m, i, j);
        ratio_value(c * 1_000_000, det)
    }
}

fn normal_row_value(m: &Mat4, det: i128, i: usize, n: &Vec3) -> (r: i128)
    requires
        i < 3,
        m.within_limit(),
        det == det3(*m),
        -6 * LIMIT * LIMIT * LIMIT <= det <= 6 * LIMIT * LIMIT * LIMIT,
        vec_within(*n),
    ensures
        r == normal_row(*m, i as int, *n),
{
    let e0 = normal_entry_value(m, det, i, 0);
    let e1 = normal_entry_value(m, det, i, 1);
    let e2 = normal_entry_value(m, det, i, 2);
    let (x, y, z) = (n.x as i128, n.y as i128, n.z as i128);
    let ghost s = NORMAL_SPAN as int;
    let ghost l = LIMIT as int;
    proof {
        assert(-s * l <= e0 * x <= s * l) by (nonlinear_arith)
            requires -s <= e0 <= s, -l <= x <= l, s > 0, l > 0;
        assert(-s * l <= e1 * y <= s * l) by (nonlinear_arith)
            requires -s <= e1 <= s, -l <= y <= l, s > 0, l > 0;
        assert(-s * l <= e2 * z <= s * l) by (nonlinear_arith)
            requires -s <= e2 <= s, -l <= z <= l, s > 0, l > 0;
    }
    div_floor(e0 * x + e1 * y + e2 * z, 1000)
}

fn normal_value(m: &Mat4, n: &Vec3) -> (r: Option<Vec3>)
    requires
        m.within_limit(),
        vec_within(*n),
    ensures
        r == transformed_normal(*m, *n),
{
    let det = det_value(m);
    let x = normal_row_value(m, det, 0, n);
    let y = normal_row_value(m, det, 1, n);
    let z = normal_row_value(m, det, 2, n);
    let ghost full = seq![x as int, y as int, z as int];
    assert(full =~= seq![normal_row(*m, 0, *n), normal_row(*m, 1, *n), normal_row(*m, 2, *n)]);
    match (narrow(x), narrow(y), narrow(z)) {
        (Some(a), Some(b), Some(c)) => Some(Vec3 { x: a, y: b, z: c }),
        _ => {
            assert(!seq_within(full));
            None
        },
    }
}

fn vec_in_range(v: &Vec3) -> (ok: bool)
    ensures
        ok == vec_within(*v),
{
    -LIMIT <= v.x && v.x <= LIMIT && -LIMIT <= v.y && v.y <= LIMIT && -LIMIT <= v.z && v.z <= LIMIT
}

/// Transforms a model-space vertex to screen space: position through model,
/// view and projection, perspective divide and viewport; normal through the
/// inverse-transpose of the model's rotation and scale block, unnormalized.
/// `None` where an input or result leaves the coordinate range or the
/// clip-space `w` is zero.
pub fn vertex_shader(vertex: &Vertex, uniforms: &Uniforms) -> (r: Option<Vertex>)
    ensures
        r == transform_spec(*vertex, *uniforms),
{
    if !(vec_in_range(&vertex.position) && vec_in_range(&vertex.normal)
        && uniforms.model_matrix.check_within() && uniforms.view_matrix.check_within()
        && uniforms.projection_matrix.check_within() && uniforms.viewport_matrix.check_within()) {
        return None;
    }
    let p = vertex.position;
    let ghost h = homogeneous(p);
    assert(h =~= quad((p.x, p.y, p.z, 1000)));
    let world = match stage_value(&uniforms.model_matrix, (p.x, p.y, p.z, 1000)) {
        Some(v) => v,
        None => return None,
    };
    let eye = match stage_value(&uniforms.view_matrix, world) {
        Some(v) => v,
        None => return None,
    };
    let clip = match stage_value(&uniforms.projection_matrix, eye) {
        Some(v) => v,
        None => return None,
    };
    let ndc = match divide_value(clip) {
        Some(v) => v,
        None => return None,
    };
    let screen = match stage_value(&uniforms.viewport_matrix, ndc) {
        Some(v) => v,
        None => return None,
    };
    let normal = match normal_value(&uniforms.model_matrix, &vertex.normal) {
        Some(n) => n,
        None => return None,
    };
    Some(
        Vertex {
            position: vertex.position,
            normal: vertex.normal,
            tex_coords: vertex.tex_coords,
            color: vertex.color,
            transformed_position: Vec3 { x: screen.0, y: screen.1, z: screen.2 },
            transformed_normal: normal,
        },
    )
}

proof fn lemma_identity_within(m: Mat4)
    requires
        m.is_identity(),
    ensures
        m.within_limit(),
{
    assert forall|k: int| 0 <= k < 16 implies within(#[trigger] m.m@[k]) by {
        let i = k / 4;
        let j = k % 4;
        assert(k == 4 * i + j);
        assert(m.at(i, j) == m.m@[k]);
    }
}

proof fn lemma_identity_stage(m: Mat4, v: Seq<int>)
    requires
        m.is_identity(),
        v.len() == 4,
        seq_within(v),
    ensures
        stage(m, v) == Some(v),
{
    assert(m.at(0, 0) == 1000 && m.at(0, 1) == 0 && m.at(0, 2) == 0 && m.at(0, 3) == 0);
    assert(m.at(1, 0) == 0 && m.at(1, 1) == 1000 && m.at(1, 2) == 0 && m.at(1, 3) == 0);
    assert(m.at(2, 0) == 0 && m.at(2, 1) == 0 && m.at(2, 2) == 1000 && m.at(2, 3) == 0);
    assert(m.at(3, 0) == 0 && m.at(3, 1) == 0 && m.at(3, 2) == 0 && m.at(3, 3) == 1000);
    assert(mat_vec(m, v) =~= v);
}

proof fn lemma_unit_row(a: int, b: int, c: int, x: int, y: int, z: int)
    requires
        a == 1000,
        b == 0,
        c == 0,
    ensures
        (a * x + b * y + c * z) / 1000 == x,
        (b * y + c * z + a * x) / 1000 == x,
        (c * z + a * x + b * y) / 1000 == x,
{
}

/// With identity model, view, projection and viewport matrices, the
/// transform is a fixed point: the screen-space position is the model-space
/// position, and the normal is unchanged.
pub proof fn lemma_identity_transform(v: Vertex, u: Uniforms)
    requires
        u.model_matrix.is_identity(),
        u.view_matrix.is_identity(),
        u.projection_matrix.is_identity(),
        u.viewport_matrix.is_identity(),
        vec_within(v.position),
        vec_within(v.normal),
    ensures
        transform_spec(v, u) == Some(
            Vertex { transformed_position: v.position, transformed_normal: v.normal, ..v },
        ),
{
    let m = u.model_matrix;
    lemma_identity_within(m);
    lemma_identity_within(u.view_matrix);
    lemma_identity_within(u.projection_matrix);
    lemma_identity_within(u.viewport_matrix);
    let h = homogeneous(v.position);
    lemma_identity_stage(m, h);
    lemma_identity_stage(u.view_matrix, h);
    lemma_identity_stage(u.projection_matrix, h);
    assert(divide(h) == Some(h)) by {
        assert(seq![ratio(h[0] * 1000, 1000), ratio(h[1] * 1000, 1000), ratio(h[2] * 1000, 1000), 1000int]
            =~= h);
    }
    lemma_identity_stage(u.viewport_matrix, h);
    assert(screen_position(u, v.position) == Some(h));
    assert(m.at(0, 0) == 1000 && m.at(0, 1) == 0 && m.at(0, 2) == 0);
    assert(m.at(1, 0) == 0 && m.at(1, 1) == 1000 && m.at(1, 2) == 0);
    assert(m.at(2, 0) == 0 && m.at(2, 1) == 0 && m.at(2, 2) == 1000);
    assert(cofactor(m, 0, 0) == 1_000_000 && cofactor(m, 1, 1) == 1_000_000 && cofactor(m, 2, 2)
        == 1_000_000);
    assert(cofactor(m, 0, 1) == 0 && cofactor(m, 0, 2) == 0 && cofactor(m, 1, 0) == 0);
    assert(cofactor(m, 1, 2) == 0 && cofactor(m, 2, 0) == 0 && cofactor(m, 2, 1) == 0);
    assert(det3(m) == 1_000_000_000);
    let n = v.normal;
    assert(normal_entry(m, 0, 0) == 1000 && normal_entry(m, 1, 1) == 1000 && normal_entry(m, 2, 2)
        == 1000);
    assert(normal_entry(m, 0, 1) == 0 && normal_entry(m, 0, 2) == 0 && normal_entry(m, 1, 0) == 0);
    assert(normal_entry(m, 1, 2) == 0 && normal_entry(m, 2, 0) == 0 && normal_entry(m, 2, 1) == 0);
    lemma_unit_row(normal_entry(m, 0, 0), normal_entry(m, 0, 1), normal_entry(m, 0, 2), n.x as int, n.y as int, n.z as int);
    lemma_unit_row(normal_entry(m, 1, 1), normal_entry(m, 1, 2), normal_entry(m, 1, 0), n.y as int, n.z as int, n.x as int);
    lemma_unit_row(normal_entry(m, 2, 2), normal_entry(m, 2, 0), normal_entry(m, 2, 1), n.z as int, n.x as int, n.y as int);
    assert(normal_row(m, 0, n) == n.x);
    assert(normal_row(m, 1, n) == n.y);
    assert(normal_row(m, 2, n) == n.z);
}

} // verus!
