use vstd::prelude::*;
use crate::ratio::Ratio;

verus! {

/// A position in normalised device coordinates, each an exact fraction.
#[derive(Clone, Copy, Debug, PartialEq, Eq, Structural)]
pub struct VertexPosition {
    pub x: Ratio,
    pub y: Ratio,
}

impl VertexPosition {
    pub fn new(x: Ratio, y: Ratio) -> (p: VertexPosition)
        ensures
            p == (VertexPosition { x, y }),
    {
        VertexPosition { x, y }
    }

    /// Both coordinates are well-formed fractions.
    pub open spec fn wf(self) -> bool {
        self.x.wf() && self.y.wf()
    }
}

/// A colour as red, green and blue channels.
#[derive(Clone, Copy, Debug, PartialEq, Eq)]
pub struct VertexRGB {
    pub rgb: [u8; 3],
}

impl VertexRGB {
    pub fn new(rgb: [u8; 3]) -> (c: VertexRGB)
        ensures
            c == (VertexRGB { rgb }),
    {
        VertexRGB { rgb }
    }
}

/// A coloured point of the scene.
#[derive(Clone, Copy, Debug, PartialEq, Eq)]
pub struct Vertex {
    pub position: VertexPosition,
    pub color: VertexRGB,
}

/// The attributes a `Vertex` feeds to the shader.
#[derive(Copy, Clone, Debug)]
pub enum VertexSemantics {
    Position,
    Color,
}

impl VertexSemantics {
    /// The attribute's slot in the shader program.
    pub fn index(&self) -> (i: usize)
        ensures
            i == match *self {
                VertexSemantics::Position => 0usize,
                VertexSemantics::Color => 1usize,
            },
    {
        match self {
            VertexSemantics::Position => 0,
            VertexSemantics::Color => 1,
        }
    }

    /// The attribute's name in the shader program.
    pub fn name(&self) -> (name: &'static str)
        ensures
            name@ == match *self {
                VertexSemantics::Position => "position"@,
                VertexSemantics::Color => "color"@,
            },
    {
        match self {
            VertexSemantics::Position => "position",
            VertexSemantics::Color => "color",
        }
    }
}

/// How the vertices of a mesh are joined.
#[derive(Clone, Copy, Debug, PartialEq, Eq, Structural)]
pub enum Mode {
    LineStrip,
    TriangleFan,
    TriangleStrip,
}

/// Geometry ready to be drawn: a list of vertices with the way to join them.
#[derive(Debug, PartialEq, Eq)]
pub struct Tess<V> {
    pub mode: Mode,
    pub vertices: Vec<V>,
}

/// What a `Tess` holds, as plain values.
pub struct TessView<V> {
    pub mode: Mode,
    pub vertices: Seq<V>,
}

impl<V> View for Tess<V> {
    type V = TessView<V>;

    open spec fn view(&self) -> TessView<V> {
        TessView { mode: self.mode, vertices: self.vertices@ }
    }
}

} // verus!
