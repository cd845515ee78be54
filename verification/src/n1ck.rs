use vstd::prelude::*;
use crate::ratio::Ratio;
use crate::vertex::{Mode, Tess, TessView, VertexPosition};

verus! {

/// The attributes a textured `Vertex` feeds to the shader.
#[derive(Clone, Copy, Debug, Eq, PartialEq, Structural)]
pub enum Semantics {
    Position,
    UV,
}

impl Semantics {
    /// The attribute's slot in the shader program.
    pub fn index(&self) -> (i: usize)
        ensures
            i == match *self {
                Semantics::Position => 0usize,
                Semantics::UV => 1usize,
            },
    {
        match self {
            Semantics::Position => 0,
            Semantics::UV => 1,
        }
    }

    /// The attribute's name in the shader program.
    pub fn name(&self) -> (name: &'static str)
        ensures
            name@ == match *self {
                Semantics::Position => "pos"@,
                Semantics::UV => "uv"@,
            },
    {
        match self {
            Semantics::Position => "pos",
            Semantics::UV => "uv",
        }
    }
}

/// A place on the texture, each coordinate an exact fraction.
#[derive(Clone, Copy, Debug, PartialEq, Eq, Structural)]
pub struct UVCoordinate {
    pub u: Ratio,
    pub v: Ratio,
}

/// A corner of the textured quad.
#[derive(Clone, Copy, Debug, PartialEq, Eq, Structural)]
pub struct Vertex {
    pub pos: VertexPosition,
    pub uv: UVCoordinate,
}

/// A cue of the track: from `time` milliseconds on, the pulse sits at
/// `position` with the given `intensity`.
#[derive(Clone, Copy, Debug, PartialEq, Eq, Structural)]
pub struct Beat {
    pub time: u64,
    pub position: VertexPosition,
    pub intensity: Ratio,
}

/// The cue at `time` milliseconds, at `(x, y)` tenths, with `intensity`
/// hundredths.
pub open spec fn spec_beat(time: u64, x: int, y: int, intensity: int) -> Beat {
    Beat {
        time,
        position: VertexPosition { x: Ratio::spec_tenths(x), y: Ratio::spec_tenths(y) },
        intensity: Ratio::spec_hundredths(intensity),
    }
}

/// The cues of the track.
pub open spec fn spec_beats() -> Seq<Beat> {
    seq![
        spec_beat(1030, 5, -5, 6),
        spec_beat(3470, -5, -5, 8),
        spec_beat(5840, 5, 5, 3),
        spec_beat(8300, 5, -5, 4),
        spec_beat(10760, -5, 5, 6),
        spec_beat(13170, -5, -5, 8),
        spec_beat(15600, 5, -5, 9),
        spec_beat(18030, -5, -5, 3),
        spec_beat(20480, -5, 5, 7),
        spec_beat(22900, 5, -5, 2),
        spec_beat(25300, -5, -5, 12),
        spec_beat(27760, 5, 5, 5),
        spec_beat(30200, -5, 5, 7),
        spec_beat(32600, 5, 5, 8),
        spec_beat(35070, 5, -5, 4),
    ]
}

/// Builds one cue; see `spec_beat`.
pub fn beat(time: u64, x: i16, y: i16, intensity: i16) -> (b: Beat)
    ensures
        b == spec_beat(time, x as int, y as int, intensity as int),
{
    Beat {
        time,
        position: VertexPosition::new(Ratio::tenths(x), Ratio::tenths(y)),
        intensity: Ratio::hundredths(intensity),
    }
}

/// Builds the cues of the track.
pub fn beats() -> (table: Vec<Beat>)
    ensures
        table@ == spec_beats(),
{
    let mut table: Vec<Beat> = Vec::new();
    table.push(beat(1030, 5, -5, 6));
    table.push(beat(3470, -5, -5, 8));
    table.push(beat(5840, 5, 5, 3));
    table.push(beat(8300, 5, -5, 4));
    table.push(beat(10760, -5, 5, 6));
    table.push(beat(13170, -5, -5, 8));
    table.push(beat(15600, 5, -5, 9));
    table.push(beat(18030, -5, -5, 3));
    table.push(beat(20480, -5, 5, 7));
    table.push(beat(22900, 5, -5, 2));
    table.push(beat(25300, -5, -5, 12));
    table.push(beat(27760, 5, 5, 5));
    table.push(beat(30200, -5, 5, 7));
    table.push(beat(32600, 5, 5, 8));
    table.push(beat(35070, 5, -5, 4));
    assert(table@ =~= spec_beats());
    table
}

/// The corner at `(x, y)` tenths showing the texture at `(u, v)` tenths.
pub open spec fn spec_quad_corner(x: int, y: int, u: int, v: int) -> Vertex {
    Vertex {
        pos: VertexPosition { x: Ratio::spec_tenths(x), y: Ratio::spec_tenths(y) },
        uv: UVCoordinate { u: Ratio::spec_tenths(u), v: Ratio::spec_tenths(v) },
    }
}

/// The quad that fills the viewport, as a strip of two triangles.
pub open spec fn spec_tri_vertices() -> Seq<Vertex> {
    seq![
        spec_quad_corner(-10, 10, 0, 10),
        spec_quad_corner(10, 10, 10, 10),
        spec_quad_corner(-10, -10, 0, 0),
        spec_quad_corner(10, -10, 10, 0),
    ]
}

fn quad_corner(x: i16, y: i16, u: i16, v: i16) -> (corner: Vertex)
    ensures
        corner == spec_quad_corner(x as int, y as int, u as int, v as int),
{
    Vertex {
        pos: VertexPosition::new(Ratio::tenths(x), Ratio::tenths(y)),
        uv: UVCoordinate { u: Ratio::tenths(u), v: Ratio::tenths(v) },
    }
}

/// Builds the quad that fills the viewport.
pub fn tri_vertices() -> (vertices: Vec<Vertex>)
    ensures
        vertices@ == spec_tri_vertices(),
{
    let mut vertices: Vec<Vertex> = Vec::new();
    vertices.push(quad_corner(-10, 10, 0, 10));
    vertices.push(quad_corner(10, 10, 10, 10));
    vertices.push(quad_corner(-10, -10, 0, 0));
    vertices.push(quad_corner(10, -10, 10, 0));
    assert(vertices@ =~= spec_tri_vertices());
    vertices
}

/// The cue in force after one frame at `elapsed` milliseconds, given the cue
/// `index` before it: the next one once `elapsed` has passed the time of the
/// current one, but never beyond the last.
pub open spec fn spec_step(beats: Seq<Beat>, index: nat, elapsed: u64) -> nat {
    if elapsed > beats[index as int].time && index + 1 < beats.len() {
        index + 1
    } else {
        index
    }
}

/// The cue in force after a frame at each of the times of `frames`, in turn.
pub open spec fn spec_step_all(beats: Seq<Beat>, index: nat, frames: Seq<u64>) -> nat
    decreases frames.len(),
{
    if frames.len() == 0 {
        index
    } else {
        spec_step(beats, spec_step_all(beats, index, frames.drop_last()), frames.last())
    }
}

/// What the shader is fed for one frame.
#[derive(Clone, Copy, Debug, PartialEq, Eq, Structural)]
pub struct Uniforms {
    /// Where the pulse sits.
    pub position: VertexPosition,
    /// How strong the pulse is.
    pub intensity: Ratio,
    /// Milliseconds since the start.
    pub time: u64,
}

/// The pulsing quad: a table of cues and the cue in force.
pub struct N1ck {
    index: usize,
    beats: Vec<Beat>,
    tess: Vec<Tess<Vertex>>,
}

/// What a `N1ck` holds, as plain values.
pub struct N1ckView {
    /// The cue in force.
    pub index: nat,
    /// The table of cues.
    pub beats: Seq<Beat>,
    /// The meshes of the last frame, in drawing order.
    pub tess: Seq<TessView<Vertex>>,
}

impl View for N1ck {
    type V = N1ckView;

    closed spec fn view(&self) -> N1ckView {
        N1ckView {
            index: self.index as nat,
            beats: self.beats@,
            tess: Seq::new(self.tess@.len(), |i: int| self.tess@[i]@),
        }
    }
}

impl N1ck {
    /// The invariant of a quad: the cue in force is one of the table.
    pub closed spec fn wf(&self) -> bool {
        self.index < self.beats@.len()
    }

    /// A quad driven by the cues of the track, at the first of them.
    pub fn new() -> (n1ck: N1ck)
        ensures
            n1ck.wf(),
            n1ck@.index == 0,
            n1ck@.beats == spec_beats(),
            n1ck@.tess == Seq::<TessView<Vertex>>::empty(),
    {
        let n1ck = N1ck { index: 0, beats: beats(), tess: Vec::new() };
        assert(n1ck@.tess =~= Seq::<TessView<Vertex>>::empty());
        n1ck
    }

    /// A quad driven by the given cues, at the first of them.  There is none
    /// for an empty table.
    pub fn with_beats(beats: Vec<Beat>) -> (made: Option<N1ck>)
        ensures
            made is Some <==> beats@.len() > 0,
            made matches Some(n1ck) ==> {
                &&& n1ck.wf()
                &&& n1ck@.index == 0
                &&& n1ck@.beats == beats@
                &&& n1ck@.tess == Seq::<TessView<Vertex>>::empty()
            },
    {
        if beats.len() == 0 {
            return None;
        }
        let n1ck = N1ck { index: 0, beats, tess: Vec::new() };
        assert(n1ck@.tess =~= Seq::<TessView<Vertex>>::empty());
        Some(n1ck)
    }

    /// One frame at `elapsed` milliseconds since the start: the quad is built
    /// anew and the cue in force moves on by at most one.
    pub fn update(&mut self, elapsed: u64)
        requires
            old(self).wf(),
        ensures
            final(self).wf(),
            final(self)@.beats == old(self)@.beats,
            final(self)@.index == spec_step(old(self)@.beats, old(self)@.index, elapsed),
            old(self)@.index <= final(self)@.index < old(self)@.beats.len(),
            final(self)@.tess == seq![
                (TessView { mode: Mode::TriangleStrip, vertices: spec_tri_vertices() }),
            ],
    {
        let mut tess: Vec<Tess<Vertex>> = Vec::new();
        tess.push(Tess { mode: Mode::TriangleStrip, vertices: tri_vertices() });
        self.tess = tess;
        if elapsed > self.beats[self.index].time {
            self.index = if self.index < self.beats.len() - 1 {
                self.index + 1
            } else {
                self.beats.len() - 1
            };
        }
        assert(self@.tess =~= seq![
            (TessView { mode: Mode::TriangleStrip, vertices: spec_tri_vertices() }),
        ]);
    }

    /// The cue in force.
    pub fn current_entry(&self) -> (entry: Beat)
        requires
            self.wf(),
        ensures
            entry == self@.beats[self@.index as int],
    {
        self.beats[self.index]
    }

    /// What the shader is fed for a frame at `elapsed` milliseconds: the
    /// place and strength of the cue in force, and the time.
    pub fn draw(&self, elapsed: u64) -> (uniforms: Uniforms)
        requires
            self.wf(),
        ensures
            uniforms == (Uniforms {
                position: self@.beats[self@.index as int].position,
                intensity: self@.beats[self@.index as int].intensity,
                time: elapsed,
            }),
    {
        let entry = self.current_entry();
        Uniforms { position: entry.position, intensity: entry.intensity, time: elapsed }
    }

    /// The meshes to draw, in drawing order.
    pub fn tess(&self) -> (meshes: &Vec<Tess<Vertex>>)
        ensures
            Seq::new(meshes@.len(), |i: int| meshes@[i]@) == self@.tess,
    {
        &self.tess
    }

    /// The cue in force is always one of the table.
    pub proof fn lemma_wf(self)
        requires
            self.wf(),
        ensures
            self@.index < self@.beats.len(),
    {
    }

    /// The position of the cue in force within the table.
    pub fn index(&self) -> (index: usize)
        ensures
            index == self@.index,
    {
        self.index
    }
}

/// A frame never moves the cue in force backwards, moves it on by at most
/// one, and never past the last cue; at the last cue it stays.
pub proof fn lemma_step_bounds(beats: Seq<Beat>, index: nat, elapsed: u64)
    requires
        index < beats.len(),
    ensures
        index <= spec_step(beats, index, elapsed) <= index + 1,
        spec_step(beats, index, elapsed) < beats.len(),
        index == beats.len() - 1 ==> spec_step(beats, index, elapsed) == index,
{
}

/// Over any run of frames the cue in force never moves backwards and never
/// past the last cue.
pub proof fn lemma_index_monotonic(beats: Seq<Beat>, index: nat, frames: Seq<u64>)
    requires
        index < beats.len(),
    ensures
        index <= spec_step_all(beats, index, frames) < beats.len(),
        spec_step_all(beats, index, frames) <= index + frames.len(),
    decreases frames.len(),
{
    if frames.len() > 0 {
        lemma_index_monotonic(beats, index, frames.drop_last());
    }
}

/// A longer run of frames leaves the cue in force at least as far on as any
/// run it starts with.
pub proof fn lemma_index_grows_with_time(beats: Seq<Beat>, index: nat, frames: Seq<u64>, n: int)
    requires
        index < beats.len(),
        0 <= n <= frames.len(),
    ensures
        spec_step_all(beats, index, frames.take(n)) <= spec_step_all(beats, index, frames),
    decreases frames.len() - n,
{
    if n < frames.len() {
        lemma_index_grows_with_time(beats, index, frames, n + 1);
        assert(frames.take(n + 1).drop_last() =~= frames.take(n));
        lemma_index_monotonic(beats, index, frames.take(n));
    } else {
        assert(frames.take(n) =~= frames);
    }
}

/// Once the last cue is in force it stays in force, whatever the times of
/// the frames that follow.
pub proof fn lemma_last_is_final(beats: Seq<Beat>, frames: Seq<u64>)
    requires
        beats.len() > 0,
    ensures
        spec_step_all(beats, (beats.len() - 1) as nat, frames) == beats.len() - 1,
    decreases frames.len(),
{
    if frames.len() > 0 {
        lemma_last_is_final(beats, frames.drop_last());
    }
}

/// When every cue before the last is earlier than the last, frames at or
/// after the time of the last cue each move the cue in force on by one until
/// the last cue is reached; from then on it is the last cue.
pub proof fn lemma_reaches_last(beats: Seq<Beat>, index: nat, frames: Seq<u64>)
    requires
        index < beats.len(),
        forall|i: int| 0 <= i < beats.len() - 1 ==> beats[i].time < beats.last().time,
        forall|k: int| 0 <= k < frames.len() ==> frames[k] >= beats.last().time,
    ensures
        spec_step_all(beats, index, frames) == if index + frames.len() < beats.len() {
            index + frames.len()
        } else {
            (beats.len() - 1) as nat
        },
    decreases frames.len(),
{
    if frames.len() > 0 {
        lemma_reaches_last(beats, index, frames.drop_last());
    }
}

/// The cues of the track come in strictly rising time order.
pub proof fn lemma_beats_in_time_order()
    ensures
        spec_beats().len() == 15,
        forall|i: int, j: int|
            0 <= i < j < spec_beats().len() ==> spec_beats()[i].time < spec_beats()[j].time,
{
}

} // verus!
