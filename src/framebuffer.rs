//! A color buffer with a parallel depth buffer and an emission pass.
use vstd::prelude::*;
use crate::color::{Color, hex_of, from_hex_spec};

verus! {

/// The depth that a cleared cell holds: farther than any fragment.
pub const FAR_DEPTH: i64 = 0x7fff_ffff_ffff_ffff;

/// The abstract contents of a framebuffer.
pub ghost struct FrameView {
    pub width: nat,
    pub height: nat,
    pub colors: Seq<u32>,
    pub depths: Seq<i64>,
    /// Cells written while an emission color was set, not yet composited.
    pub glowing: Seq<bool>,
    pub background: u32,
    pub current: u32,
    pub emission: u32,
    pub emitting: bool,
}

impl FrameView {
    pub open spec fn wf(self) -> bool {
        &&& self.colors.len() == self.width * self.height
        &&& self.depths.len() == self.width * self.height
        &&& self.glowing.len() == self.width * self.height
    }

    pub open spec fn in_bounds(self, x: int, y: int) -> bool {
        0 <= x < self.width && 0 <= y < self.height
    }

    /// Row-major position of a pixel.
    pub open spec fn index(self, x: int, y: int) -> int {
        y * self.width + x
    }

    pub open spec fn color_at(self, x: int, y: int) -> u32 {
        self.colors[self.index(x, y)]
    }

    pub open spec fn depth_at(self, x: int, y: int) -> i64 {
        self.depths[self.index(x, y)]
    }

    /// The state after `clear`: every cell holds the background and the far depth.
    pub open spec fn cleared(self) -> FrameView {
        FrameView {
            colors: Seq::new(self.colors.len(), |i: int| self.background),
            depths: Seq::new(self.depths.len(), |i: int| FAR_DEPTH),
            glowing: Seq::new(self.glowing.len(), |i: int| false),
            ..self
        }
    }

    /// Whether a fragment at depth `d` passes the depth test at `(x, y)`:
    /// nearer or equal wins, so ties go to the latest write.
    pub open spec fn passes(self, x: int, y: int, d: i64) -> bool {
        d <= self.depth_at(x, y)
    }

    /// The state after a depth-tested write of the current color.
    pub open spec fn after_point(self, x: int, y: int, d: i64) -> FrameView {
        if self.passes(x, y, d) {
            FrameView {
                colors: self.colors.update(self.index(x, y), self.current),
                depths: self.depths.update(self.index(x, y), d),
                glowing: self.glowing.update(self.index(x, y), self.emitting),
                ..self
            }
        } else {
            self
        }
    }

    /// A color with the emission color added channel by channel.
    pub open spec fn glow(self, c: u32) -> u32 {
        hex_of(from_hex_spec(c).add_spec(from_hex_spec(self.emission)))
    }

    /// The state after the emission pass.
    pub open spec fn emitted(self) -> FrameView {
        FrameView {
            colors: Seq::new(
                self.colors.len(),
                |i: int|
                    if self.glowing[i] {
                        self.glow(self.colors[i])
                    } else {
                        self.colors[i]
                    },
            ),
            glowing: Seq::new(self.glowing.len(), |i: int| false),
            emitting: false,
            ..self
        }
    }
}

pub proof fn lemma_index_in_range(v: FrameView, x: int, y: int)
    requires
        v.in_bounds(x, y),
    ensures
        0 <= y * v.width <= v.index(x, y) < v.width * v.height,
{
    assert(0 <= y * v.width <= y * v.width + x < v.width * v.height) by (nonlinear_arith)
        requires 0 <= x < v.width, 0 <= y < v.height;
}

pub struct Framebuffer {
    width: usize,
    height: usize,
    buffer: Vec<u32>,
    zbuffer: Vec<i64>,
    glowing: Vec<bool>,
    background_color: u32,
    current_color: u32,
    emission_color: u32,
    emitting: bool,
}

impl View for Framebuffer {
    type V = FrameView;

    closed spec fn view(&self) -> FrameView {
        FrameView {
            width: self.width as nat,
            height: self.height as nat,
            colors: self.buffer@,
            depths: self.zbuffer@,
            glowing: self.glowing@,
            background: self.background_color,
            current: self.current_color,
            emission: self.emission_color,
            emitting: self.emitting,
        }
    }
}

impl Framebuffer {
    /// A buffer of `width * height` black cells at the far depth.
    pub fn new(width: usize, height: usize) -> (fb: Framebuffer)
        requires
            width * height <= usize::MAX,
        ensures
            fb@.wf(),
            fb@.width == width,
            fb@.height == height,
            fb@.background == 0,
            fb@.current == 0xffffff,
            !fb@.emitting,
            forall|i: int| 0 <= i < width * height ==> fb@.colors[i] == 0 && fb@.depths[i] == FAR_DEPTH
                && !fb@.glowing[i],
    {
        let n: usize = width * height;
        let mut buffer: Vec<u32> = Vec::new();
        let mut zbuffer: Vec<i64> = Vec::new();
        let mut glowing: Vec<bool> = Vec::new();
        let mut i: usize = 0;
        while i < n
            invariant
                i <= n,
                buffer@.len() == i,
                zbuffer@.len() == i,
                glowing@.len() == i,
                forall|j: int| 0 <= j < i ==> buffer@[j] == 0 && zbuffer@[j] == FAR_DEPTH && !glowing@[j],
            decreases n - i,
        {
            buffer.push(0);
            zbuffer.push(FAR_DEPTH);
            glowing.push(false);
            i = i + 1;
        }
        Framebuffer {
            width,
            height,
            buffer,
            zbuffer,
            glowing,
            background_color: 0,
            current_color: 0xffffff,
            emission_color: 0,
            emitting: false,
        }
    }

    pub fn width(&self) -> (w: usize)
        ensures
            w == self@.width,
    {
        self.width
    }

    pub fn height(&self) -> (h: usize)
        ensures
            h == self@.height,
    {
        self.height
    }

    /// The color cells in row-major order, as `0xRRGGBB`.
    pub fn buffer(&self) -> (b: &Vec<u32>)
        ensures
            b@ == self@.colors,
    {
        &self.buffer
    }

    pub fn get_color(&self, x: usize, y: usize) -> (c: u32)
        requires
            self@.wf(),
            self@.in_bounds(x as int, y as int),
        ensures
            c == self@.color_at(x as int, y as int),
    {
        let n: usize = self.buffer.len();
        proof { lemma_index_in_range(self@, x as int, y as int); }
        self.buffer[y * self.width + x]
    }

    pub fn get_depth(&self, x: usize, y: usize) -> (d: i64)
        requires
            self@.wf(),
            self@.in_bounds(x as int, y as int),
        ensures
            d == self@.depth_at(x as int, y as int),
    {
        let n: usize = self.zbuffer.len();
        proof { lemma_index_in_range(self@, x as int, y as int); }
        self.zbuffer[y * self.width + x]
    }

    pub fn set_background_color(&mut self, color: u32)
        ensures
            final(self)@ == (FrameView { background: color, ..old(self)@ }),
    {
        self.background_color = color;
    }

    pub fn set_current_color(&mut self, color: u32)
        ensures
            final(self)@ == (FrameView { current: color, ..old(self)@ }),
    {
        self.current_color = color;
    }

    /// Sets the emission color; the cells that `point` writes from now on
    /// glow with it at the next `apply_emission`.
    pub fn set_emission_color(&mut self, color: u32)
        ensures
            final(self)@ == (FrameView { emission: color, emitting: true, ..old(self)@ }),
    {
        self.emission_color = color;
        self.emitting = true;
    }

    /// Resets every cell to the background color and the far depth.
    pub fn clear(&mut self)
        requires
            old(self)@.wf(),
        ensures
            final(self)@ == old(self)@.cleared(),
            final(self)@.wf(),
    {
        let n: usize = self.buffer.len();
        let mut i: usize = 0;
        while i < n
            invariant
                i <= n,
                n == self.buffer@.len(),
                self@.wf(),
                self@.width == old(self)@.width,
                self@.height == old(self)@.height,
                self@.background == old(self)@.background,
                self@.current == old(self)@.current,
                self@.emission == old(self)@.emission,
                self@.emitting == old(self)@.emitting,
                forall|j: int| 0 <= j < i ==> self.buffer@[j] == self.background_color
                    && self.zbuffer@[j] == FAR_DEPTH && !self.glowing@[j],
            decreases n - i,
        {
            self.buffer.set(i, self.background_color);
            self.zbuffer.set(i, FAR_DEPTH);
            self.glowing.set(i, false);
            i = i + 1;
        }
        assert(self.buffer@ =~= old(self)@.cleared().colors);
        assert(self.zbuffer@ =~= old(self)@.cleared().depths);
        assert(self.glowing@ =~= old(self)@.cleared().glowing);
    }

    /// Writes the current color at `(x, y)` when `depth` is nearer than or
    /// equal to the stored depth; otherwise leaves the buffer unchanged.
    pub fn point(&mut self, x: usize, y: usize, depth: i64)
        requires
            old(self)@.wf(),
            old(self)@.in_bounds(x as int, y as int),
        ensures
            final(self)@ == old(self)@.after_point(x as int, y as int, depth),
            final(self)@.wf(),
    {
        let n: usize = self.buffer.len();
        proof { lemma_index_in_range(self@, x as int, y as int); }
        let i: usize = y * self.width + x;
        if depth <= self.zbuffer[i] {
            self.buffer.set(i, self.current_color);
            self.zbuffer.set(i, depth);
            self.glowing.set(i, self.emitting);
        }
    }

    /// Adds the emission color to every cell written since it was set, then
    /// stops emitting.
    pub fn apply_emission(&mut self)
        requires
            old(self)@.wf(),
        ensures
            final(self)@ == old(self)@.emitted(),
            final(self)@.wf(),
    {
        let n: usize = self.buffer.len();
        let glow = Color::from_hex(self.emission_color);
        let mut i: usize = 0;
        while i < n
            invariant
                i <= n,
                n == self.buffer@.len(),
                self@.wf(),
                n == old(self).buffer@.len(),
                n == old(self).glowing@.len(),
                glow == from_hex_spec(self.emission_color),
                self.width == old(self).width,
                self.height == old(self).height,
                self.zbuffer@ == old(self).zbuffer@,
                self.background_color == old(self).background_color,
                self.current_color == old(self).current_color,
                self.emission_color == old(self).emission_color,
                self.emitting == old(self).emitting,
                forall|j: int| 0 <= j < i ==> self.buffer@[j] == old(self)@.emitted().colors[j]
                    && !self.glowing@[j],
                forall|j: int| i <= j < n ==> self.buffer@[j] == old(self).buffer@[j]
                    && self.glowing@[j] == old(self).glowing@[j],
            decreases n - i,
        {
            if self.glowing[i] {
                let c = Color::from_hex(self.buffer[i]).add(&glow);
                let h = c.to_hex();
                assert(h == old(self)@.glow(old(self).buffer@[i as int]));
                self.buffer.set(i, h);
                self.glowing.set(i, false);
            }
            assert(self.buffer@[i as int] == old(self)@.emitted().colors[i as int]);
            i = i + 1;
        }
        self.emitting = false;
        assert(self.buffer@ =~= old(self)@.emitted().colors);
        assert(self.glowing@ =~= old(self)@.emitted().glowing);
    }
}

/// After `clear`, every pixel reads back as the background color at the far depth.
pub proof fn lemma_clear_reads_background(v: FrameView, x: int, y: int)
    requires
        v.wf(),
        v.in_bounds(x, y),
    ensures
        v.cleared().color_at(x, y) == v.background,
        v.cleared().depth_at(x, y) == FAR_DEPTH,
{
    lemma_index_in_range(v, x, y);
}

/// After a write at depth `d1`, a write at the same pixel strictly farther
/// than `d1`, whatever color is current by then, changes no color, depth
/// or glow mark.
pub proof fn lemma_farther_point_rejected(v: FrameView, x: int, y: int, d1: i64, d2: i64, c: u32)
    requires
        v.wf(),
        v.in_bounds(x, y),
        d2 > d1,
    ensures
        ({
            let w = FrameView { current: c, ..v.after_point(x, y, d1) };
            w.after_point(x, y, d2) == w
        }),
{
    lemma_index_in_range(v, x, y);
    let w = FrameView { current: c, ..v.after_point(x, y, d1) };
    if v.passes(x, y, d1) {
        assert(w.depth_at(x, y) == d1);
    }
    assert(!w.passes(x, y, d2));
}

/// A write strictly nearer than the stored depth stores the current color
/// and the new depth.
pub proof fn lemma_nearer_point_accepted(v: FrameView, x: int, y: int, d: i64)
    requires
        v.wf(),
        v.in_bounds(x, y),
        d < v.depth_at(x, y),
    ensures
        v.after_point(x, y, d).color_at(x, y) == v.current,
        v.after_point(x, y, d).depth_at(x, y) == d,
{
    lemma_index_in_range(v, x, y);
}

} // verus!
