use vstd::prelude::*;
use crate::constants;
use crate::ratio::Ratio;
use crate::vertex::{Mode, Tess, TessView, Vertex, VertexPosition, VertexRGB};

verus! {

/// The vertex at `(x, y)`, both in tenths, with the given colour.
pub open spec fn spec_corner(x: int, y: int, color: [u8; 3]) -> Vertex {
    Vertex {
        position: VertexPosition { x: Ratio::spec_tenths(x), y: Ratio::spec_tenths(y) },
        color: VertexRGB { rgb: color },
    }
}

/// The four corners of the axis-aligned rectangle spanned by `(x1, y1)` and
/// `(x2, y2)`, in the order that a triangle fan fills it.
pub open spec fn spec_rectangle(x1: int, y1: int, x2: int, y2: int, color: [u8; 3]) -> Seq<
    Vertex,
> {
    seq![
        spec_corner(x1, y1, color),
        spec_corner(x1, y2, color),
        spec_corner(x2, y2, color),
        spec_corner(x2, y1, color),
    ]
}

/// The frame around the viewport: bottom, left, top and right bar.
pub open spec fn spec_border() -> Seq<Seq<Vertex>> {
    seq![
        spec_rectangle(-10, -10, 10, -9, constants::C64_RED),
        spec_rectangle(-10, -10, -9, 10, constants::C64_GREEN),
        spec_rectangle(-10, 10, 10, 9, constants::C64_BLUE),
        spec_rectangle(9, 10, 10, -10, constants::C64_VIOLET),
    ]
}

/// The vertex lists of `v`, each as a sequence.
pub open spec fn rows(v: Seq<Vec<Vertex>>) -> Seq<Seq<Vertex>> {
    Seq::new(v.len(), |i: int| v[i]@)
}

/// Builds the four corners of a rectangle; coordinates are in tenths.
pub fn gen_rectangle(x1: i16, y1: i16, x2: i16, y2: i16, color: [u8; 3]) -> (vertices: Vec<Vertex>)
    ensures
        vertices@ == spec_rectangle(x1 as int, y1 as int, x2 as int, y2 as int, color),
{
    let mut vertices: Vec<Vertex> = Vec::new();

    vertices.push(
        Vertex {
            position: VertexPosition::new(Ratio::tenths(x1), Ratio::tenths(y1)),
            color: VertexRGB::new(color),
        },
    );

    vertices.push(
        Vertex {
            position: VertexPosition::new(Ratio::tenths(x1), Ratio::tenths(y2)),
            color: VertexRGB::new(color),
        },
    );

    vertices.push(
        Vertex {
            position: VertexPosition::new(Ratio::tenths(x2), Ratio::tenths(y2)),
            color: VertexRGB::new(color),
        },
    );

    vertices.push(
        Vertex {
            position: VertexPosition::new(Ratio::tenths(x2), Ratio::tenths(y1)),
            color: VertexRGB::new(color),
        },
    );

    assert(vertices@ =~= spec_rectangle(x1 as int, y1 as int, x2 as int, y2 as int, color));
    vertices
}

/// Builds the frame around the viewport.
pub fn gen_border() -> (vertices: Vec<Vec<Vertex>>)
    ensures
        rows(vertices@) == spec_border(),
{
    let mut vertices: Vec<Vec<Vertex>> = Vec::new();

    vertices.push(gen_rectangle(-10, -10, 10, -9, constants::C64_RED));

    vertices.push(gen_rectangle(-10, -10, -9, 10, constants::C64_GREEN));

    vertices.push(gen_rectangle(-10, 10, 10, 9, constants::C64_BLUE));

    vertices.push(gen_rectangle(9, 10, 10, -10, constants::C64_VIOLET));

    assert(rows(vertices@) =~= spec_border());
    vertices
}

/// Where `x` falls in `[out_min, out_max]` tenths when `[in_min, in_max]` is
/// stretched over it: `(x - in_min) * (out_max - out_min) / (in_max - in_min)
/// + out_min`, over ten.  The input range may run downwards.  An empty input
/// range maps everything to the middle of the output range.
pub open spec fn spec_relative(x: int, in_min: int, in_max: int, out_min: int, out_max: int) -> Ratio {
    let span = in_max - in_min;
    let scaled = (x - in_min) * (out_max - out_min) + out_min * span;
    if span > 0 {
        Ratio { num: scaled as i128, den: (10 * span) as i128 }
    } else if span < 0 {
        Ratio { num: (-scaled) as i128, den: (-(10 * span)) as i128 }
    } else {
        Ratio { num: (out_min + out_max) as i128, den: 20 }
    }
}

/// Linear rescale of `x` from `[in_min, in_max]` to `[out_min, out_max]`
/// tenths.
pub fn relative(x: i64, in_min: i64, in_max: i64, out_min: i16, out_max: i16) -> (r: Ratio)
    ensures
        r == spec_relative(x as int, in_min as int, in_max as int, out_min as int, out_max as int),
        r.wf(),
{
    let span: i128 = in_max as i128 - in_min as i128;
    let offset: i128 = x as i128 - in_min as i128;
    let width: i128 = out_max as i128 - out_min as i128;
    let low: i128 = out_min as i128;
    proof {
        lemma_product_bound(offset as int, width as int, 0x1_0000_0000_0000_0000, 0x1_0000);
        lemma_product_bound(low as int, span as int, 0x1_0000, 0x1_0000_0000_0000_0000);
    }
    let scaled: i128 = offset * width + low * span;
    if span > 0 {
        Ratio { num: scaled, den: 10 * span }
    } else if span < 0 {
        Ratio { num: -scaled, den: -(10 * span) }
    } else {
        Ratio { num: out_min as i128 + out_max as i128, den: 20 }
    }
}

/// The ends of the input range fall on the ends of the output range.
pub proof fn lemma_relative_ends(in_min: i64, in_max: i64, out_min: i16, out_max: i16)
    requires
        in_min != in_max,
    ensures
        ({
            let low = spec_relative(
                in_min as int,
                in_min as int,
                in_max as int,
                out_min as int,
                out_max as int,
            );
            10 * low.num == out_min * low.den
        }),
        ({
            let high = spec_relative(
                in_max as int,
                in_min as int,
                in_max as int,
                out_min as int,
                out_max as int,
            );
            10 * high.num == out_max * high.den
        }),
{
    let span = in_max - in_min;
    let width = out_max - out_min;
    lemma_product_bound(span, width, 0x1_0000_0000_0000_0000, 0x1_0000);
    lemma_product_bound(out_min as int, span, 0x1_0000, 0x1_0000_0000_0000_0000);
    assert(0 * width == 0);
    assert(span * width + out_min * span == out_max * span) by (nonlinear_arith)
        requires
            width == out_max - out_min,
    ;
    assert(10 * (out_min * span) == out_min * (10 * span)) by (nonlinear_arith);
    assert(10 * (out_max * span) == out_max * (10 * span)) by (nonlinear_arith);
    assert(10 * (-(out_min * span)) == out_min * (-(10 * span))) by (nonlinear_arith);
    assert(10 * (-(out_max * span)) == out_max * (-(10 * span))) by (nonlinear_arith);
}

/// A product is bounded by the product of the bounds of its factors.
proof fn lemma_product_bound(a: int, b: int, bound_a: int, bound_b: int)
    requires
        -bound_a <= a <= bound_a,
        -bound_b <= b <= bound_b,
    ensures
        -(bound_a * bound_b) <= a * b <= bound_a * bound_b,
{
    assert((bound_a - a) * (bound_b - b) >= 0) by (nonlinear_arith)
        requires
            bound_a - a >= 0,
            bound_b - b >= 0,
    ;
    assert((bound_a + a) * (bound_b + b) >= 0) by (nonlinear_arith)
        requires
            bound_a + a >= 0,
            bound_b + b >= 0,
    ;
    assert((bound_a - a) * (bound_b + b) >= 0) by (nonlinear_arith)
        requires
            bound_a - a >= 0,
            bound_b + b >= 0,
    ;
    assert((bound_a + a) * (bound_b - b) >= 0) by (nonlinear_arith)
        requires
            bound_a + a >= 0,
            bound_b - b >= 0,
    ;
    assert(-(bound_a * bound_b) <= a * b <= bound_a * bound_b) by (nonlinear_arith)
        requires
            (bound_a - a) * (bound_b - b) >= 0,
            (bound_a + a) * (bound_b + b) >= 0,
            (bound_a - a) * (bound_b + b) >= 0,
            (bound_a + a) * (bound_b - b) >= 0,
    ;
}

/// The colour of a sample of the given magnitude: one of four bands, each
/// closed at its upper threshold.
pub open spec fn spec_band(magnitude: nat) -> [u8; 3] {
    if magnitude <= constants::BAND_LOW {
        constants::C64_BLUE
    } else if magnitude <= constants::BAND_MID {
        constants::C64_LIGHT_BLUE
    } else if magnitude <= constants::BAND_HIGH {
        constants::C64_CYAN
    } else {
        constants::C64_GREEN
    }
}

/// The magnitude of an amplitude.
pub open spec fn spec_magnitude(amplitude: int) -> nat {
    if amplitude < 0 {
        (-amplitude) as nat
    } else {
        amplitude as nat
    }
}

/// The colour in which a sample of the given amplitude is drawn.
pub fn band_color(amplitude: i16) -> (color: [u8; 3])
    ensures
        color == spec_band(spec_magnitude(amplitude as int)),
{
    let magnitude: u16 = if amplitude < 0 {
        (-(amplitude as i32)) as u16
    } else {
        amplitude as u16
    };
    if magnitude <= constants::BAND_LOW {
        constants::C64_BLUE
    } else if magnitude <= constants::BAND_MID {
        constants::C64_LIGHT_BLUE
    } else if magnitude <= constants::BAND_HIGH {
        constants::C64_CYAN
    } else {
        constants::C64_GREEN
    }
}

/// The largest sample of `samples`, or zero when there is none.
pub open spec fn spec_highest(samples: Seq<i16>) -> int
    decreases samples.len(),
{
    if samples.len() == 0 {
        0
    } else if samples.len() == 1 {
        samples[0] as int
    } else {
        let rest = spec_highest(samples.drop_last());
        if samples.last() > rest {
            samples.last() as int
        } else {
            rest
        }
    }
}

/// The smallest sample of `samples`, or zero when there is none.
pub open spec fn spec_lowest(samples: Seq<i16>) -> int
    decreases samples.len(),
{
    if samples.len() == 0 {
        0
    } else if samples.len() == 1 {
        samples[0] as int
    } else {
        let rest = spec_lowest(samples.drop_last());
        if samples.last() < rest {
            samples.last() as int
        } else {
            rest
        }
    }
}

/// The largest sample of the buffer, zero for an empty one.
pub fn highest(samples: &Vec<i16>) -> (top: i16)
    ensures
        top == spec_highest(samples@),
{
    if samples.len() == 0 {
        return 0;
    }
    let mut top: i16 = samples[0];
    let mut i: usize = 1;
    assert(samples@.take(1) =~= seq![samples@[0]]);
    while i < samples.len()
        invariant
            1 <= i <= samples.len(),
            top == spec_highest(samples@.take(i as int)),
        decreases samples.len() - i,
    {
        assert(samples@.take(i + 1).drop_last() =~= samples@.take(i as int));
        if samples[i] > top {
            top = samples[i];
        }
        i += 1;
    }
    assert(samples@.take(i as int) =~= samples@);
    top
}

/// The smallest sample of the buffer, zero for an empty one.
pub fn lowest(samples: &Vec<i16>) -> (bottom: i16)
    ensures
        bottom == spec_lowest(samples@),
{
    if samples.len() == 0 {
        return 0;
    }
    let mut bottom: i16 = samples[0];
    let mut i: usize = 1;
    assert(samples@.take(1) =~= seq![samples@[0]]);
    while i < samples.len()
        invariant
            1 <= i <= samples.len(),
            bottom == spec_lowest(samples@.take(i as int)),
        decreases samples.len() - i,
    {
        assert(samples@.take(i + 1).drop_last() =~= samples@.take(i as int));
        if samples[i] < bottom {
            bottom = samples[i];
        }
        i += 1;
    }
    assert(samples@.take(i as int) =~= samples@);
    bottom
}

/// `spec_highest` is an upper bound that some sample attains.
pub proof fn lemma_highest_is_maximum(samples: Seq<i16>)
    requires
        samples.len() > 0,
    ensures
        forall|i: int| 0 <= i < samples.len() ==> samples[i] <= spec_highest(samples),
        exists|i: int| 0 <= i < samples.len() && samples[i] == spec_highest(samples),
    decreases samples.len(),
{
    if samples.len() > 1 {
        let rest = samples.drop_last();
        lemma_highest_is_maximum(rest);
        let w = choose|i: int| 0 <= i < rest.len() && rest[i] == spec_highest(rest);
        assert(samples[w] == rest[w]);
        assert forall|i: int| 0 <= i < samples.len() implies samples[i] <= spec_highest(
            samples,
        ) by {
            if i < rest.len() {
                assert(samples[i] == rest[i]);
            }
        }
        if samples.last() > spec_highest(rest) {
            assert(samples[samples.len() - 1] == spec_highest(samples));
        } else {
            assert(samples[w] == spec_highest(samples));
        }
    } else {
        assert(samples[0] == spec_highest(samples));
    }
}

/// `spec_lowest` is a lower bound that some sample attains.
pub proof fn lemma_lowest_is_minimum(samples: Seq<i16>)
    requires
        samples.len() > 0,
    ensures
        forall|i: int| 0 <= i < samples.len() ==> samples[i] >= spec_lowest(samples),
        exists|i: int| 0 <= i < samples.len() && samples[i] == spec_lowest(samples),
    decreases samples.len(),
{
    if samples.len() > 1 {
        let rest = samples.drop_last();
        lemma_lowest_is_minimum(rest);
        let w = choose|i: int| 0 <= i < rest.len() && rest[i] == spec_lowest(rest);
        assert(samples[w] == rest[w]);
        assert forall|i: int| 0 <= i < samples.len() implies samples[i] >= spec_lowest(
            samples,
        ) by {
            if i < rest.len() {
                assert(samples[i] == rest[i]);
            }
        }
        if samples.last() < spec_lowest(rest) {
            assert(samples[samples.len() - 1] == spec_lowest(samples));
        } else {
            assert(samples[w] == spec_lowest(samples));
        }
    } else {
        assert(samples[0] == spec_lowest(samples));
    }
}

/// How many samples the window starting at `cursor` shows: `window`, cut
/// short where the buffer ends.
pub open spec fn spec_window_count(len: nat, cursor: nat, window: nat) -> nat {
    if cursor >= len {
        0
    } else if window <= len - cursor {
        window
    } else {
        (len - cursor) as nat
    }
}

/// The vertex drawn for the `i`-th sample of the window starting at `cursor`:
/// its place in the window runs along the x axis, its amplitude between the
/// buffer's extremes along the y axis (the highest sample lowest), and its
/// colour follows its magnitude.
pub open spec fn spec_wave_vertex(samples: Seq<i16>, cursor: nat, window: nat, i: int) -> Vertex {
    let amplitude = samples[cursor + i] as int;
    Vertex {
        position: VertexPosition {
            x: spec_relative(i, 0, window as int, -9, 9),
            y: spec_relative(amplitude, spec_highest(samples), spec_lowest(samples), -9, 9),
        },
        color: VertexRGB { rgb: spec_band(spec_magnitude(amplitude)) },
    }
}

/// The polyline of the window starting at `cursor`, latest sample first.
pub open spec fn spec_wave(samples: Seq<i16>, cursor: nat, window: nat) -> Seq<Vertex> {
    let count = spec_window_count(samples.len(), cursor, window);
    Seq::new(count, |j: int| spec_wave_vertex(samples, cursor, window, count - 1 - j))
}

/// Where the cursor stands one frame after `cursor`: `stride` samples on,
/// starting over at the end of the buffer.
pub open spec fn spec_advance(cursor: nat, stride: nat, len: nat) -> nat {
    if len == 0 {
        0
    } else {
        ((cursor + stride) % len) as nat
    }
}

/// The meshes of a frame in drawing order: each bar of the border as a
/// triangle fan, then the wave as a line strip.
pub open spec fn spec_scene(border: Seq<Seq<Vertex>>, wave: Seq<Vertex>) -> Seq<TessView<Vertex>> {
    Seq::new(
        border.len() + 1,
        |i: int|
            if i < border.len() {
                TessView { mode: Mode::TriangleFan, vertices: border[i] }
            } else {
                TessView { mode: Mode::LineStrip, vertices: wave }
            },
    )
}

/// The views of a list of meshes.
pub open spec fn tess_views(tess: Seq<Tess<Vertex>>) -> Seq<TessView<Vertex>> {
    Seq::new(tess.len(), |i: int| tess[i]@)
}

/// The scope: a frame around a window that scrolls over a sample buffer.
///
/// Each update draws the samples from the cursor on, as many as the window
/// is long, or as many as are left where the buffer ends.  The latest sample
/// comes first in the polyline.  A sample's place in the window runs along
/// the x axis and its amplitude, between the lowest and the highest sample of
/// the whole buffer, along the y axis; a buffer whose samples are all alike
/// is drawn on the centre line.  After drawing, the cursor moves on by the
/// stride and starts over at the end of the buffer.
pub struct Tom {
    border: Vec<Vec<Vertex>>,
    wave: Vec<Vertex>,
    last_x: usize,
    waveform: Vec<i16>,
    tessalations: Vec<Tess<Vertex>>,
    window: u32,
    stride: usize,
    top: i16,
    bottom: i16,
}

/// What a `Tom` holds, as plain values.
pub struct TomView {
    /// The bars of the border.
    pub border: Seq<Seq<Vertex>>,
    /// The polyline of the last window drawn.
    pub wave: Seq<Vertex>,
    /// Where the next window starts.
    pub cursor: nat,
    /// The sample buffer.
    pub samples: Seq<i16>,
    /// The meshes of the last frame, in drawing order.
    pub tess: Seq<TessView<Vertex>>,
    /// The number of samples a window shows.
    pub window: nat,
    /// The number of samples the cursor moves per frame.
    pub stride: nat,
}

impl View for Tom {
    type V = TomView;

    closed spec fn view(&self) -> TomView {
        TomView {
            border: rows(self.border@),
            wave: self.wave@,
            cursor: self.last_x as nat,
            samples: self.waveform@,
            tess: tess_views(self.tessalations@),
            window: self.window as nat,
            stride: self.stride as nat,
        }
    }
}

/// The cursor one frame after `cursor`.
pub fn advance(cursor: usize, stride: usize, len: usize) -> (next: usize)
    ensures
        next == spec_advance(cursor as nat, stride as nat, len as nat),
        len > 0 ==> next < len,
{
    if len == 0 {
        return 0;
    }
    let here: usize = cursor % len;
    let step: usize = stride % len;
    proof {
        let m = len as int;
        vstd::arithmetic::div_mod::lemma_add_mod_noop(cursor as int, stride as int, m);
        if here + step < m {
            vstd::arithmetic::div_mod::lemma_small_mod((here + step) as nat, m as nat);
        } else {
            vstd::arithmetic::div_mod::lemma_mod_add_multiples_vanish(here + step - m, m);
            vstd::arithmetic::div_mod::lemma_small_mod((here + step - m) as nat, m as nat);
        }
    }
    if step >= len - here {
        step - (len - here)
    } else {
        here + step
    }
}

/// A copy of a list of vertices.
fn copy_vertices(vertices: &Vec<Vertex>) -> (copy: Vec<Vertex>)
    ensures
        copy@ == vertices@,
{
    let mut copy: Vec<Vertex> = Vec::new();
    let mut i: usize = 0;
    while i < vertices.len()
        invariant
            i <= vertices.len(),
            copy@ == vertices@.take(i as int),
        decreases vertices.len() - i,
    {
        copy.push(vertices[i]);
        assert(vertices@.take(i + 1) =~= vertices@.take(i as int).push(vertices@[i as int]));
        i += 1;
    }
    assert(vertices@.take(i as int) =~= vertices@);
    copy
}

impl Tom {
    /// The invariant of a scope: the border is the fixed frame, the cursor
    /// stands inside the buffer (at zero when the buffer is empty), and the
    /// extremes kept are those of the buffer.
    pub closed spec fn wf(&self) -> bool {
        &&& rows(self.border@) == spec_border()
        &&& self.waveform@.len() > 0 ==> self.last_x < self.waveform@.len()
        &&& self.waveform@.len() == 0 ==> self.last_x == 0
        &&& self.top == spec_highest(self.waveform@)
        &&& self.bottom == spec_lowest(self.waveform@)
    }

    /// A scope over `waveform` with the standard window, moving one frame's
    /// worth of samples per update.
    pub fn new(waveform: Vec<i16>) -> (tom: Tom)
        ensures
            tom.wf(),
            tom@.samples == waveform@,
            tom@.cursor == 0,
            tom@.window == constants::WINDOW_LENGTH,
            tom@.stride == constants::SAMPLE_RATE / constants::TARGET_FPS,
            tom@.border == spec_border(),
            tom@.wave == Seq::<Vertex>::empty(),
            tom@.tess == Seq::<TessView<Vertex>>::empty(),
    {
        Tom::with_window(
            waveform,
            constants::WINDOW_LENGTH,
            constants::SAMPLE_RATE / constants::TARGET_FPS,
        )
    }

    /// A scope over `waveform` that shows `window` samples at once and moves
    /// `stride` samples per update.
    pub fn with_window(waveform: Vec<i16>, window: u32, stride: usize) -> (tom: Tom)
        ensures
            tom.wf(),
            tom@.samples == waveform@,
            tom@.cursor == 0,
            tom@.window == window,
            tom@.stride == stride,
            tom@.border == spec_border(),
            tom@.wave == Seq::<Vertex>::empty(),
            tom@.tess == Seq::<TessView<Vertex>>::empty(),
    {
        let top = highest(&waveform);
        let bottom = lowest(&waveform);
        let tom = Tom {
            waveform,
            border: gen_border(),
            wave: Vec::new(),
            last_x: 0,
            tessalations: Vec::new(),
            window,
            stride,
            top,
            bottom,
        };
        assert(tom@.tess =~= Seq::<TessView<Vertex>>::empty());
        tom
    }

    /// Redraws the polyline from the window at the cursor, then moves the
    /// cursor on by the stride.
    pub fn update_wave(&mut self)
        requires
            old(self).wf(),
        ensures
            final(self).wf(),
            final(self)@.wave == spec_wave(old(self)@.samples, old(self)@.cursor, old(self)@.window),
            final(self)@.cursor == spec_advance(
                old(self)@.cursor,
                old(self)@.stride,
                old(self)@.samples.len(),
            ),
            final(self)@.samples == old(self)@.samples,
            final(self)@.window == old(self)@.window,
            final(self)@.stride == old(self)@.stride,
            final(self)@.border == old(self)@.border,
            final(self)@.tess == old(self)@.tess,
            old(self)@.cursor + old(self)@.window <= old(self)@.samples.len() ==> final(self)@.wave.len() == old(self)@.window,
            forall|j: int, k: int|
                0 <= j < k < final(self)@.wave.len() ==> (#[trigger] final(self)@.wave[k]).position.x.lt((#[trigger] final(self)@.wave[j]).position.x),
    {
        let len: usize = self.waveform.len();
        let start: usize = self.last_x;
        let window: usize = self.window as usize;
        let count: usize = if start >= len {
            0
        } else if window <= len - start {
            window
        } else {
            len - start
        };
        let ghost samples = self.waveform@;
        let mut wave: Vec<Vertex> = Vec::new();
        let mut j: usize = 0;
        while j < count
            invariant
                j <= count,
                count == spec_window_count(len as nat, start as nat, window as nat),
                len == self.waveform@.len(),
                samples == self.waveform@,
                window == self.window,
                self.top == spec_highest(samples),
                self.bottom == spec_lowest(samples),
                wave@.len() == j,
                forall|k: int|
                    0 <= k < j ==> wave@[k] == spec_wave_vertex(
                        samples,
                        start as nat,
                        window as nat,
                        count - 1 - k,
                    ),
            decreases count - j,
        {
            let i: usize = count - 1 - j;
            let amplitude: i16 = self.waveform[start + i];
            let position = VertexPosition::new(
                relative(i as i64, 0, window as i64, -9, 9),
                relative(amplitude as i64, self.top as i64, self.bottom as i64, -9, 9),
            );
            let color = VertexRGB::new(band_color(amplitude));
            wave.push(Vertex { position, color });
            j += 1;
        }
        assert(wave@ =~= spec_wave(samples, start as nat, window as nat));
        proof {
            lemma_wave_shape(samples, start as nat, self.window);
        }
        self.wave = wave;
        self.last_x = advance(start, self.stride, len);
    }

    /// Builds the frame's meshes anew: the polyline of the current window and,
    /// around it, the border as it always was.
    pub fn update(&mut self)
        requires
            old(self).wf(),
        ensures
            final(self).wf(),
            final(self)@.wave == spec_wave(old(self)@.samples, old(self)@.cursor, old(self)@.window),
            final(self)@.cursor == spec_advance(
                old(self)@.cursor,
                old(self)@.stride,
                old(self)@.samples.len(),
            ),
            final(self)@.samples == old(self)@.samples,
            final(self)@.window == old(self)@.window,
            final(self)@.stride == old(self)@.stride,
            final(self)@.border == old(self)@.border,
            final(self)@.border == spec_border(),
            final(self)@.tess == spec_scene(final(self)@.border, final(self)@.wave),
            old(self)@.cursor + old(self)@.window <= old(self)@.samples.len() ==> final(self)@.wave.len() == old(self)@.window,
            forall|j: int, k: int|
                0 <= j < k < final(self)@.wave.len() ==> (#[trigger] final(self)@.wave[k]).position.x.lt((#[trigger] final(self)@.wave[j]).position.x),
    {
        self.update_wave();

        let mut tessalations: Vec<Tess<Vertex>> = Vec::new();
        let mut i: usize = 0;
        while i < self.border.len()
            invariant
                i <= self.border.len(),
                tessalations@.len() == i,
                forall|k: int|
                    0 <= k < i ==> tessalations@[k]@ == (TessView {
                        mode: Mode::TriangleFan,
                        vertices: self.border@[k]@,
                    }),
            decreases self.border.len() - i,
        {
            tessalations.push(
                Tess { mode: Mode::TriangleFan, vertices: copy_vertices(&self.border[i]) },
            );
            i += 1;
        }

        tessalations.push(Tess { mode: Mode::LineStrip, vertices: copy_vertices(&self.wave) });

        assert(tess_views(tessalations@) =~= spec_scene(rows(self.border@), self.wave@));
        self.tessalations = tessalations;
    }

    /// The meshes to draw, in drawing order.
    pub fn draw(&self) -> (meshes: &Vec<Tess<Vertex>>)
        ensures
            tess_views(meshes@) == self@.tess,
    {
        &self.tessalations
    }
}

/// Where the cursor stands `frames` updates after `cursor`.
pub open spec fn spec_cursor_after(cursor: nat, stride: nat, len: nat, frames: nat) -> nat
    decreases frames,
{
    if frames == 0 {
        cursor
    } else {
        spec_advance(spec_cursor_after(cursor, stride, len, (frames - 1) as nat), stride, len)
    }
}

/// The cursor moves by the stride each frame and starts over at the end of
/// the buffer: after `frames` updates it stands at
/// `(cursor + frames * stride) mod len`.
pub proof fn lemma_cursor_after(cursor: nat, stride: nat, len: nat, frames: nat)
    requires
        len > 0,
        cursor < len,
    ensures
        spec_cursor_after(cursor, stride, len, frames) == (cursor + frames * stride) % len,
        spec_cursor_after(cursor, stride, len, frames) < len,
    decreases frames,
{
    let m = len as int;
    let c = cursor as int;
    let s = stride as int;
    let f = frames as int;
    if frames == 0 {
        assert(f * s == 0) by (nonlinear_arith)
            requires
                f == 0,
        ;
        vstd::arithmetic::div_mod::lemma_small_mod(cursor, len);
    } else {
        let before = (frames - 1) as nat;
        let g = before as int;
        lemma_cursor_after(cursor, stride, len, before);
        let reached: int = c + g * s;
        assert(f * s == g * s + s) by (nonlinear_arith)
            requires
                f == g + 1,
        ;
        vstd::arithmetic::div_mod::lemma_add_mod_noop(reached, s, m);
        vstd::arithmetic::div_mod::lemma_add_mod_noop(reached % m, s, m);
        vstd::arithmetic::div_mod::lemma_mod_bound(reached, m);
        vstd::arithmetic::div_mod::lemma_mod_twice(reached, m);
        vstd::arithmetic::div_mod::lemma_mod_bound(c + f * s, m);
        assert((cursor + frames * stride) % len == (c + f * s) % m);
        assert(spec_cursor_after(cursor, stride, len, before) == reached % m);
        assert(spec_cursor_after(cursor, stride, len, frames) == (reached % m + s) % m);
    }
}

/// Over an empty buffer the cursor never leaves zero.
pub proof fn lemma_cursor_after_empty(stride: nat, frames: nat)
    ensures
        spec_cursor_after(0, stride, 0, frames) == 0,
    decreases frames,
{
    if frames > 0 {
        lemma_cursor_after_empty(stride, (frames - 1) as nat);
    }
}

/// A window that fits in the buffer yields one vertex per sample, and along
/// any polyline the x coordinate strictly falls from each vertex to the next
/// (the latest sample comes first).
pub proof fn lemma_wave_shape(samples: Seq<i16>, cursor: nat, window: u32)
    ensures
        spec_wave(samples, cursor, window as nat).len() == spec_window_count(
            samples.len(),
            cursor,
            window as nat,
        ),
        cursor + window <= samples.len() ==> spec_wave(samples, cursor, window as nat).len()
            == window,
        forall|j: int, k: int|
            0 <= j < k < spec_wave(samples, cursor, window as nat).len() ==> (#[trigger] spec_wave(
                samples,
                cursor,
                window as nat,
            )[k]).position.x.lt(
                (#[trigger] spec_wave(samples, cursor, window as nat)[j]).position.x,
            ),
{
    let wave = spec_wave(samples, cursor, window as nat);
    let count = spec_window_count(samples.len(), cursor, window as nat);
    assert forall|j: int, k: int| 0 <= j < k < wave.len() implies (#[trigger] wave[k]).position.x.lt(
        (#[trigger] wave[j]).position.x,
    ) by {
        let a = wave[k].position.x;
        let b = wave[j].position.x;
        assert(a == spec_relative(count - 1 - k, 0, window as int, -9, 9));
        assert(b == spec_relative(count - 1 - j, 0, window as int, -9, 9));
        assert(a.den == 10 * window);
        assert(b.den == 10 * window);
        assert(a.num == (count - 1 - k) * 18 - 9 * window);
        assert(b.num == (count - 1 - j) * 18 - 9 * window);
        crate::ratio::lemma_lt_common_den(a, b);
    }
}

/// Every vertex of a polyline lies within nine tenths of the centre in both
/// directions.
pub proof fn lemma_wave_in_range(samples: Seq<i16>, cursor: nat, window: u32, j: int)
    requires
        0 <= j < spec_wave(samples, cursor, window as nat).len(),
    ensures
        spec_wave(samples, cursor, window as nat)[j].position.wf(),
        Ratio::spec_tenths(-9).le(spec_wave(samples, cursor, window as nat)[j].position.x),
        spec_wave(samples, cursor, window as nat)[j].position.x.lt(Ratio::spec_tenths(9)),
        Ratio::spec_tenths(-9).le(spec_wave(samples, cursor, window as nat)[j].position.y),
        spec_wave(samples, cursor, window as nat)[j].position.y.le(Ratio::spec_tenths(9)),
{
    let count = spec_window_count(samples.len(), cursor, window as nat);
    let i = count - 1 - j;
    let v = spec_wave(samples, cursor, window as nat)[j];
    assert(v == spec_wave_vertex(samples, cursor, window as nat, i));
    let x = v.position.x;
    assert(x.den == 10 * window);
    assert(x.num == i * 18 - 9 * window);
    let low = Ratio::spec_tenths(-9);
    let high = Ratio::spec_tenths(9);
    assert(low.num == -9 && low.den == 10 && high.num == 9 && high.den == 10);
    assert(low.num * x.den == -90 * window);
    assert(x.num * low.den == 180 * i - 90 * window);
    assert(x.num * high.den == 180 * i - 90 * window);
    assert(high.num * x.den == 90 * window);
    let amplitude = samples[cursor + i] as int;
    let top = spec_highest(samples);
    let bottom = spec_lowest(samples);
    lemma_highest_is_maximum(samples);
    lemma_lowest_is_minimum(samples);
    assert(bottom <= amplitude <= top);
    let y = v.position.y;
    assert(y == spec_relative(amplitude, top, bottom, -9, 9));
    if bottom < top {
        assert(y.den == 10 * (top - bottom));
        assert(y.num == (top - amplitude) * 18 - 9 * (top - bottom));
        assert(low.num * y.den == -90 * (top - bottom));
        assert(y.num * low.den == 180 * (top - amplitude) - 90 * (top - bottom));
        assert(high.num * y.den == 90 * (top - bottom));
    } else {
        assert(y.den == 20 && y.num == 0);
    }
}

impl Tom {
    /// The border of a scope is the fixed frame, whatever was done to the
    /// scope, and its cursor stands inside the buffer.
    pub proof fn lemma_wf(self)
        requires
            self.wf(),
        ensures
            self@.border == spec_border(),
            self@.samples.len() > 0 ==> self@.cursor < self@.samples.len(),
            self@.samples.len() == 0 ==> self@.cursor == 0,
            self@.window <= u32::MAX,
    {
    }

    /// The polyline of the last window drawn.
    pub fn wave(&self) -> (wave: &Vec<Vertex>)
        ensures
            wave@ == self@.wave,
    {
        &self.wave
    }

    /// The bars of the border.
    pub fn border(&self) -> (border: &Vec<Vec<Vertex>>)
        ensures
            rows(border@) == self@.border,
    {
        &self.border
    }

    /// Where the next window starts.
    pub fn cursor(&self) -> (cursor: usize)
        ensures
            cursor == self@.cursor,
    {
        self.last_x
    }
}

/// The colour of a sample depends on its magnitude alone: a quiet sample is
/// drawn in the first colour, a threshold belongs to the band below it, and
/// everything above the highest threshold is drawn in the last colour.
pub proof fn lemma_band_by_magnitude(a: i16, b: i16)
    ensures
        spec_magnitude(a as int) == spec_magnitude(b as int) ==> spec_band(
            spec_magnitude(a as int),
        ) == spec_band(spec_magnitude(b as int)),
        spec_band(0) == constants::C64_BLUE,
        spec_band(50) == constants::C64_BLUE,
        spec_band(51) == constants::C64_LIGHT_BLUE,
        spec_band(125) == constants::C64_LIGHT_BLUE,
        spec_band(126) == constants::C64_CYAN,
        spec_band(225) == constants::C64_CYAN,
        spec_magnitude(a as int) > 225 ==> spec_band(spec_magnitude(a as int))
            == constants::C64_GREEN,
{
}

} // verus!
