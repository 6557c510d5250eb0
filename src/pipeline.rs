//! One object's pass through the pipeline: vertex transform, primitive
//! assembly, rasterization, then shading and depth-tested writes.
use vstd::prelude::*;
use crate::color::hex_of;
use crate::framebuffer::{FrameView, Framebuffer, lemma_index_in_range};
use crate::shaders::{Material, NoiseSample, shade, shade_spec};
use crate::transform::{Uniforms, transform_spec, vertex_shader, seq_within, screen_position};
use crate::triangle::{Fragment, triangle, triangle_fragments};
use crate::vertex::Vertex;

verus! {

/// The fragments of triangle `i` (vertices `3i`, `3i + 1`, `3i + 2`): none
/// when one of its vertices does not transform.
pub open spec fn triangle_of(vs: Seq<Vertex>, u: Uniforms, i: int) -> Seq<Fragment> {
    match (transform_spec(vs[3 * i], u), transform_spec(vs[3 * i + 1], u), transform_spec(vs[3 * i + 2], u)) {
        (Some(a), Some(b), Some(c)) => triangle_fragments(a, b, c),
        _ => Seq::empty(),
    }
}

/// The fragments of the first `k` triangles, in order.
pub open spec fn object_fragments(vs: Seq<Vertex>, u: Uniforms, k: nat) -> Seq<Fragment>
    decreases k,
{
    if k == 0 {
        Seq::empty()
    } else {
        object_fragments(vs, u, (k - 1) as nat) + triangle_of(vs, u, k - 1)
    }
}

proof fn lemma_transformed_rasterizable(v: Vertex, u: Uniforms)
    requires
        transform_spec(v, u) is Some,
    ensures
        transform_spec(v, u)->0.rasterizable(),
{
    let s = screen_position(u, v.position)->0;
    assert(seq_within(s));
    assert(-crate::vertex::LIMIT <= s[0] <= crate::vertex::LIMIT);
    assert(-crate::vertex::LIMIT <= s[1] <= crate::vertex::LIMIT);
    assert(-crate::vertex::LIMIT <= s[2] <= crate::vertex::LIMIT);
}

fn triangle_at(uniforms: &Uniforms, vertex_array: &Vec<Vertex>, i: usize) -> (frags: Vec<Fragment>)
    requires
        3 * i + 2 < vertex_array@.len(),
    ensures
        frags@ == triangle_of(vertex_array@, *uniforms, i as int),
        forall|j: int| 0 <= j < frags@.len() ==> (#[trigger] frags@[j]).wf(),
{
    let len: usize = vertex_array.len();
    let a = vertex_shader(&vertex_array[3 * i], uniforms);
    let b = vertex_shader(&vertex_array[3 * i + 1], uniforms);
    let c = vertex_shader(&vertex_array[3 * i + 2], uniforms);
    match (a, b, c) {
        (Some(a), Some(b), Some(c)) => {
            proof {
                lemma_transformed_rasterizable(vertex_array@[3 * i as int], *uniforms);
                lemma_transformed_rasterizable(vertex_array@[3 * i + 1], *uniforms);
                lemma_transformed_rasterizable(vertex_array@[3 * i + 2], *uniforms);
            }
            triangle(&a, &b, &c)
        },
        _ => Vec::new(),
    }
}

/// Transforms the vertices, groups them into triangles by threes (a trailing
/// incomplete group is ignored) and rasterizes each triangle whose vertices
/// all transform.
pub fn rasterize_object(uniforms: &Uniforms, vertex_array: &Vec<Vertex>) -> (frags: Vec<Fragment>)
    ensures
        frags@ == object_fragments(vertex_array@, *uniforms, vertex_array@.len() / 3),
        forall|i: int| 0 <= i < frags@.len() ==> (#[trigger] frags@[i]).wf(),
{
    let len: usize = vertex_array.len();
    let n: usize = len / 3;
    let mut frags: Vec<Fragment> = Vec::new();
    let mut i: usize = 0;
    while i < n
        invariant
            i <= n,
            n == vertex_array@.len() / 3,
            frags@ == object_fragments(vertex_array@, *uniforms, i as nat),
            forall|j: int| 0 <= j < frags@.len() ==> (#[trigger] frags@[j]).wf(),
        decreases n - i,
    {
        let ghost before = frags@;
        let mut t = triangle_at(uniforms, vertex_array, i);
        let ghost tv = t@;
        frags.append(&mut t);
        assert(frags@ == before + tv);
        assert forall|j: int| 0 <= j < frags@.len() implies (#[trigger] frags@[j]).wf() by {
            if j >= before.len() {
                assert(frags@[j] == tv[j - before.len()]);
            } else {
                assert(frags@[j] == before[j]);
            }
        }
        i = i + 1;
    }
    frags
}

/// The framebuffer after one fragment: when the fragment lies inside the
/// buffer, its color becomes the current color (and the emission color is
/// set, if given) and the point is depth-tested.
pub open spec fn draw_one(v: FrameView, f: Fragment, c: u32, emission: Option<u32>) -> FrameView {
    if f.x < v.width && f.y < v.height {
        let v1 = FrameView { current: c, ..v };
        let v2 = match emission {
            Some(e) => FrameView { emission: e, emitting: true, ..v1 },
            None => v1,
        };
        v2.after_point(f.x as int, f.y as int, f.depth)
    } else {
        v
    }
}

/// The framebuffer after the first `k` fragments, each shaded with its noise sample.
pub open spec fn drawn(
    v: FrameView,
    frags: Seq<Fragment>,
    samples: Seq<NoiseSample>,
    mat: Material,
    time: u32,
    emission: Option<u32>,
    k: nat,
) -> FrameView
    decreases k,
{
    if k == 0 {
        v
    } else {
        let prev = drawn(v, frags, samples, mat, time, emission, (k - 1) as nat);
        let f = frags[k - 1];
        draw_one(prev, f, hex_of(shade_spec(mat, f, time, samples[k - 1])), emission)
    }
}

proof fn lemma_drawn_keeps_shape(
    v: FrameView,
    frags: Seq<Fragment>,
    samples: Seq<NoiseSample>,
    mat: Material,
    time: u32,
    emission: Option<u32>,
    k: nat,
)
    requires
        v.wf(),
    ensures
        drawn(v, frags, samples, mat, time, emission, k).wf(),
        drawn(v, frags, samples, mat, time, emission, k).width == v.width,
        drawn(v, frags, samples, mat, time, emission, k).height == v.height,
    decreases k,
{
    if k > 0 {
        lemma_drawn_keeps_shape(v, frags, samples, mat, time, emission, (k - 1) as nat);
        let prev = drawn(v, frags, samples, mat, time, emission, (k - 1) as nat);
        let f = frags[k - 1];
        if f.x < prev.width && f.y < prev.height {
            lemma_index_in_range(prev, f.x as int, f.y as int);
        }
    }
}

/// Shades each fragment with its noise sample and writes it, depth-tested,
/// where it lies inside the buffer; with `emission`, the written cells are
/// marked to glow with that color.
pub fn draw_fragments(
    framebuffer: &mut Framebuffer,
    fragments: &Vec<Fragment>,
    samples: &Vec<NoiseSample>,
    uniforms: &Uniforms,
    material: Material,
    emission: Option<u32>,
)
    requires
        old(framebuffer)@.wf(),
        fragments@.len() == samples@.len(),
        forall|i: int| 0 <= i < fragments@.len() ==> (#[trigger] fragments@[i]).wf(),
    ensures
        final(framebuffer)@ == drawn(
            old(framebuffer)@,
            fragments@,
            samples@,
            material,
            uniforms.time,
            emission,
            fragments@.len() as nat,
        ),
        final(framebuffer)@.wf(),
{
    let n: usize = fragments.len();
    let mut i: usize = 0;
    while i < n
        invariant
            i <= n,
            n == fragments@.len(),
            n == samples@.len(),
            forall|j: int| 0 <= j < fragments@.len() ==> (#[trigger] fragments@[j]).wf(),
            framebuffer@ == drawn(
                old(framebuffer)@,
                fragments@,
                samples@,
                material,
                uniforms.time,
                emission,
                i as nat,
            ),
            old(framebuffer)@.wf(),
        decreases n - i,
    {
        proof {
            lemma_drawn_keeps_shape(
                old(framebuffer)@,
                fragments@,
                samples@,
                material,
                uniforms.time,
                emission,
                i as nat,
            );
        }
        let f = &fragments[i];
        if f.x < framebuffer.width() && f.y < framebuffer.height() {
            let color = shade(material, f, uniforms, &samples[i]);
            framebuffer.set_current_color(color.to_hex());
            match emission {
                Some(e) => framebuffer.set_emission_color(e),
                None => {},
            }
            framebuffer.point(f.x, f.y, f.depth);
        }
        i = i + 1;
    }
    proof {
        lemma_drawn_keeps_shape(
            old(framebuffer)@,
            fragments@,
            samples@,
            material,
            uniforms.time,
            emission,
            n as nat,
        );
    }
}

/// One offset of a disc of radius `r` around `(x, y)`, offsets taken row
/// by row over the square `[-r, r]^2`: a white point where the offset lies
/// within the radius and the pixel within the buffer.
pub open spec fn disc_step(v: FrameView, x: int, y: int, d: i64, r: int, k: int) -> FrameView {
    let side = 2 * r + 1;
    let dx = k / side - r;
    let dy = k % side - r;
    let px = x + dx;
    let py = y + dy;
    if dx * dx + dy * dy <= r * r && 0 <= px < v.width && 0 <= py < v.height {
        FrameView { current: 0xffffff, ..v }.after_point(px, py, d)
    } else {
        v
    }
}

/// The buffer after the first `k` offsets of the disc.
pub open spec fn disc(v: FrameView, x: int, y: int, d: i64, r: int, k: nat) -> FrameView
    decreases k,
{
    if k == 0 {
        v
    } else {
        disc_step(disc(v, x, y, d, r, (k - 1) as nat), x, y, d, r, k - 1)
    }
}

proof fn lemma_disc_keeps_shape(v: FrameView, x: int, y: int, d: i64, r: int, k: nat)
    requires
        v.wf(),
    ensures
        disc(v, x, y, d, r, k).wf(),
        disc(v, x, y, d, r, k).width == v.width,
        disc(v, x, y, d, r, k).height == v.height,
    decreases k,
{
    if k > 0 {
        lemma_disc_keeps_shape(v, x, y, d, r, (k - 1) as nat);
        let prev = disc(v, x, y, d, r, (k - 1) as nat);
        let side = 2 * r + 1;
        let px = x + ((k - 1) / side - r);
        let py = y + ((k - 1) % side - r);
        if 0 <= px < prev.width && 0 <= py < prev.height {
            lemma_index_in_range(prev, px, py);
        }
    }
}

/// Draws a white disc of the given radius centered on pixel `(x, y)` at
/// depth `depth`, each point depth-tested and clipped to the buffer.
pub fn render_point(framebuffer: &mut Framebuffer, x: i64, y: i64, depth: i64, radius: u16)
    requires
        old(framebuffer)@.wf(),
    ensures
        final(framebuffer)@ == disc(
            old(framebuffer)@,
            x as int,
            y as int,
            depth,
            radius as int,
            ((2 * radius + 1) * (2 * radius + 1)) as nat,
        ),
        final(framebuffer)@.wf(),
{
    let r: i128 = radius as i128;
    let side: i128 = 2 * r + 1;
    proof {
        assert(0 < side * side <= 0x10_0000_0000) by (nonlinear_arith)
            requires 0 < side <= 0x2_0001;
        assert(0 <= r * r <= 0x1_0000_0000) by (nonlinear_arith)
            requires 0 <= r <= 0xffff;
    }
    let total: i128 = side * side;
    let mut k: i128 = 0;
    while k < total
        invariant
            0 <= k <= total,
            r == radius,
            side == 2 * r + 1,
            total == side * side,
            0 <= r * r <= 0x1_0000_0000,
            old(framebuffer)@.wf(),
            framebuffer@ == disc(old(framebuffer)@, x as int, y as int, depth, r as int, k as nat),
        decreases total - k,
    {
        proof {
            lemma_disc_keeps_shape(old(framebuffer)@, x as int, y as int, depth, r as int, k as nat);
            assert(0 <= k / side < side) by (nonlinear_arith)
                requires 0 <= k < side * side, side > 0;
        }
        let dx: i128 = k / side - r;
        let dy: i128 = k % side - r;
        let px: i128 = x as i128 + dx;
        let py: i128 = y as i128 + dy;
        proof {
            assert(dx * dx <= 0x1_0000_0000_0000) by (nonlinear_arith)
                requires -0x1_0000 <= dx <= 0x1_0000;
            assert(dy * dy <= 0x1_0000_0000_0000) by (nonlinear_arith)
                requires -0x1_0000 <= dy <= 0x1_0000;
            assert(dx * dx >= 0 && dy * dy >= 0) by (nonlinear_arith);
        }
        if dx * dx + dy * dy <= r * r && 0 <= px && px < framebuffer.width() as i128 && 0 <= py && py
            < framebuffer.height() as i128 {
            framebuffer.set_current_color(0xffffff);
            framebuffer.point(px as usize, py as usize, depth);
        }
        k = k + 1;
    }
    proof {
        lemma_disc_keeps_shape(old(framebuffer)@, x as int, y as int, depth, r as int, k as nat);
    }
}

} // verus!
