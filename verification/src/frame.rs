use vstd::prelude::*;
use crate::constants;

verus! {

/// A rectangle of the window, in pixels from its lower left corner.
#[derive(Clone, Copy, Debug, PartialEq, Eq, Structural)]
pub struct Viewport {
    pub x: u32,
    pub y: u32,
    pub width: u32,
    pub height: u32,
}

impl Viewport {
    /// Whether the pixel `(px, py)` lies in the rectangle.
    pub open spec fn holds(self, px: int, py: int) -> bool {
        self.x <= px < self.x + self.width && self.y <= py < self.y + self.height
    }
}

/// The four quarters of the window: lower left, upper left, lower right,
/// upper right.
pub open spec fn spec_viewports() -> Seq<Viewport> {
    let w = (constants::WIDTH / 2) as u32;
    let h = (constants::HEIGHT / 2) as u32;
    seq![
        Viewport { x: 0, y: 0, width: w, height: h },
        Viewport { x: 0, y: h, width: w, height: h },
        Viewport { x: w, y: 0, width: w, height: h },
        Viewport { x: w, y: h, width: w, height: h },
    ]
}

/// Splits the window into its four quarters.
pub fn gen_viewports() -> (viewports: Vec<Viewport>)
    ensures
        viewports@ == spec_viewports(),
{
    let mut viewports: Vec<Viewport> = Vec::new();

    viewports.push(
        Viewport {
            x: 0,
            y: 0,
            width: constants::WIDTH / 2,
            height: constants::HEIGHT / 2,
        },
    );

    viewports.push(
        Viewport {
            x: 0,
            y: constants::HEIGHT / 2,
            width: constants::WIDTH / 2,
            height: constants::HEIGHT / 2,
        },
    );

    viewports.push(
        Viewport {
            x: constants::WIDTH / 2,
            y: 0,
            width: constants::WIDTH / 2,
            height: constants::HEIGHT / 2,
        },
    );

    viewports.push(
        Viewport {
            x: constants::WIDTH / 2,
            y: constants::HEIGHT / 2,
            width: constants::WIDTH / 2,
            height: constants::HEIGHT / 2,
        },
    );

    assert(viewports@ =~= spec_viewports());
    viewports
}

/// What is drawn into a viewport.
#[derive(Clone, Copy, Debug, PartialEq, Eq, Structural)]
pub enum Scene {
    /// The scope with its border.
    Tom,
    /// The pulsing quad.
    N1ck,
}

/// The scene of the viewport at `index`: the scope on one diagonal, the quad
/// on the other, nothing beyond the fourth viewport.
pub open spec fn spec_scene_of(index: int) -> Option<Scene> {
    if index == 0 || index == 3 {
        Some(Scene::Tom)
    } else if index == 1 || index == 2 {
        Some(Scene::N1ck)
    } else {
        None
    }
}

/// Picks the scene to draw into the viewport at `index`.
pub fn scene_of(index: usize) -> (scene: Option<Scene>)
    ensures
        scene == spec_scene_of(index as int),
{
    if index == 0 || index == 3 {
        Some(Scene::Tom)
    } else if index == 1 || index == 2 {
        Some(Scene::N1ck)
    } else {
        None
    }
}

/// Every pixel of the window lies in exactly one of the four viewports, and
/// each viewport has a scene.
pub proof fn lemma_viewports_tile(px: int, py: int)
    requires
        0 <= px < constants::WIDTH,
        0 <= py < constants::HEIGHT,
    ensures
        exists|i: int|
            0 <= i < 4 && (#[trigger] spec_viewports()[i]).holds(px, py) && spec_scene_of(i) is Some,
        forall|i: int, j: int|
            0 <= i < 4 && 0 <= j < 4 && (#[trigger] spec_viewports()[i]).holds(px, py) && (
            #[trigger] spec_viewports()[j]).holds(px, py) ==> i == j,
{
    let i: int = if px < 320 {
        if py < 240 {
            0
        } else {
            1
        }
    } else {
        if py < 240 {
            2
        } else {
            3
        }
    };
    assert(spec_viewports()[i].holds(px, py));
}

} // verus!
