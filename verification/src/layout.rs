//! The layout engine: a pure function from screen dimensions, an ordered
//! window list and a layout mode to per-window geometry assignments.

use vstd::prelude::*;

verus! {

/// How two tiled windows share the screen: side by side, or stacked.
#[derive(Debug, Clone, Copy, PartialEq, Eq, Structural)]
pub enum LayoutMode {
    Horizontal,
    Vertical,
}

impl LayoutMode {
    /// The other mode.
    pub open spec fn flipped(self) -> LayoutMode {
        match self {
            LayoutMode::Horizontal => LayoutMode::Vertical,
            LayoutMode::Vertical => LayoutMode::Horizontal,
        }
    }

    /// Switch between horizontal and vertical tiling.
    pub fn toggled(self) -> (r: LayoutMode)
        ensures
            r == self.flipped(),
    {
        match self {
            LayoutMode::Horizontal => LayoutMode::Vertical,
            LayoutMode::Vertical => LayoutMode::Horizontal,
        }
    }
}

/// A window's position and size on screen, in pixels.
#[derive(Debug, Clone, Copy, PartialEq, Eq, Structural)]
pub struct Geometry {
    pub x: u32,
    pub y: u32,
    pub width: u32,
    pub height: u32,
}

/// The geometry assigned to one window handle.
#[derive(Debug, Clone, Copy, PartialEq, Eq, Structural)]
pub struct Assignment {
    pub window: u32,
    pub geometry: Geometry,
}

/// Geometry of the first (older) window of a tiled pair.
pub open spec fn first_geometry(width: u32, height: u32, mode: LayoutMode) -> Geometry {
    match mode {
        LayoutMode::Horizontal => Geometry {
            x: 0,
            y: 0,
            width: (width / 2) as u32,
            height: height,
        },
        LayoutMode::Vertical => Geometry {
            x: 0,
            y: 0,
            width: width,
            height: (height / 2) as u32,
        },
    }
}

/// Geometry of the second (newer) window of a tiled pair; it absorbs the
/// division remainder so that the pair always covers the split axis exactly.
pub open spec fn second_geometry(width: u32, height: u32, mode: LayoutMode) -> Geometry {
    match mode {
        LayoutMode::Horizontal => Geometry {
            x: (width / 2) as u32,
            y: 0,
            width: (width - width / 2) as u32,
            height: height,
        },
        LayoutMode::Vertical => Geometry {
            x: 0,
            y: (height / 2) as u32,
            width: width,
            height: (height - height / 2) as u32,
        },
    }
}

/// What `compute` returns: nothing until a second window is tracked, and
/// otherwise one assignment per tracked window, in arrival order.
pub open spec fn spec_compute(
    width: u32,
    height: u32,
    windows: Seq<u32>,
    mode: LayoutMode,
) -> Seq<Assignment> {
    if windows.len() < 2 {
        Seq::empty()
    } else {
        seq![
            Assignment { window: windows[0], geometry: first_geometry(width, height, mode) },
            Assignment { window: windows[1], geometry: second_geometry(width, height, mode) },
        ]
    }
}

/// Map the tracked windows to their geometries under the given mode.
///
/// With fewer than two windows nothing is arranged: a lone window keeps
/// whatever geometry it already has.
pub fn compute(width: u32, height: u32, windows: &Vec<u32>, mode: LayoutMode) -> (r: Vec<
    Assignment,
>)
    ensures
        r@ == spec_compute(width, height, windows@, mode),
{
    let mut r: Vec<Assignment> = Vec::new();
    if windows.len() >= 2 {
        let (g0, g1) = match mode {
            LayoutMode::Horizontal => {
                let half = width / 2;
                (
                    Geometry { x: 0, y: 0, width: half, height: height },
                    Geometry { x: half, y: 0, width: width - half, height: height },
                )
            },
            LayoutMode::Vertical => {
                let half = height / 2;
                (
                    Geometry { x: 0, y: 0, width: width, height: half },
                    Geometry { x: 0, y: half, width: width, height: height - half },
                )
            },
        };
        r.push(Assignment { window: windows[0], geometry: g0 });
        r.push(Assignment { window: windows[1], geometry: g1 });
        assert(r@ =~= spec_compute(width, height, windows@, mode));
    }
    r
}

/// Law: with two tracked windows the pair of geometries is in bounds on both
/// axes, and the pair tiles the split axis exactly: the two widths sum to the
/// screen width under horizontal tiling, the two heights to the screen height
/// under vertical tiling, while the other axis is covered whole by each.
pub proof fn lemma_compute_tiles_axis(width: u32, height: u32, windows: Seq<u32>, mode: LayoutMode)
    requires
        windows.len() == 2,
    ensures
        ({
            let a = spec_compute(width, height, windows, mode);
            &&& a.len() == 2
            &&& a[0].window == windows[0]
            &&& a[1].window == windows[1]
            &&& a[0].geometry.x + a[0].geometry.width <= width
            &&& a[1].geometry.x + a[1].geometry.width <= width
            &&& a[0].geometry.y + a[0].geometry.height <= height
            &&& a[1].geometry.y + a[1].geometry.height <= height
            &&& mode == LayoutMode::Horizontal ==> {
                &&& a[0].geometry.width + a[1].geometry.width == width
                &&& a[0].geometry.height == height
                &&& a[1].geometry.height == height
            }
            &&& mode == LayoutMode::Vertical ==> {
                &&& a[0].geometry.height + a[1].geometry.height == height
                &&& a[0].geometry.width == width
                &&& a[1].geometry.width == width
            }
        }),
{
}

/// Law: with fewer than two tracked windows `compute` assigns nothing,
/// whatever the mode.
pub proof fn lemma_compute_under_two_is_empty(
    width: u32,
    height: u32,
    windows: Seq<u32>,
    mode: LayoutMode,
)
    requires
        windows.len() < 2,
    ensures
        spec_compute(width, height, windows, mode) == Seq::<Assignment>::empty(),
{
}

/// Law: toggling the mode twice restores it, and on an unchanged window set
/// the computed geometries are reproduced exactly.
pub proof fn lemma_toggle_round_trip(width: u32, height: u32, windows: Seq<u32>, mode: LayoutMode)
    ensures
        mode.flipped().flipped() == mode,
        spec_compute(width, height, windows, mode.flipped().flipped()) == spec_compute(
            width,
            height,
            windows,
            mode,
        ),
{
}

} // verus!
