//! The surface that a pattern is drawn on: when it is measured, when it
//! listens for a change of its size, and when a frame is drawn.

use vstd::prelude::*;

verus! {

/// What the surface knows of itself.
#[derive(Clone, Copy, Debug, PartialEq, Eq)]
pub struct Canvas {
    /// Whether the surface has not been measured yet.
    pub is_first_render: bool,
    /// The size at which the surface is shown: its width, then its height.
    pub display_size: (usize, usize),
}

/// What is to be done for the surface after an update.
#[derive(Clone, Copy, Debug, PartialEq, Eq, Structural)]
pub struct CanvasAction {
    /// Start to listen for a change of the size of the view.
    pub listen_for_resize: bool,
    /// Draw a frame before the next repaint.
    pub render: bool,
}

impl Canvas {
    /// The surface after an update of its view. `measured` is the size at
    /// which the surface is shown, or nothing while it is not attached.
    pub open spec fn updated(self, measured: Option<(usize, usize)>) -> Canvas {
        match measured {
            Some(size) if self.is_first_render => Canvas {
                is_first_render: false,
                display_size: size,
            },
            _ => self,
        }
    }

    /// What an update of the view asks for. A surface that is not attached
    /// asks for nothing.
    pub open spec fn action(self, measured: Option<(usize, usize)>) -> CanvasAction {
        CanvasAction {
            listen_for_resize: self.is_first_render && measured is Some,
            render: measured is Some,
        }
    }

    /// A surface that is not measured yet and asks to be shown at `width`
    /// by `height`.
    pub fn new(width: usize, height: usize) -> (canvas: Canvas)
        ensures
            canvas == (Canvas { is_first_render: true, display_size: (width, height) }),
    {
        Canvas { is_first_render: true, display_size: (width, height) }
    }

    /// The view was updated. `measured` is the size at which the surface is
    /// shown, or nothing while it is not attached.
    ///
    /// The first time the surface is found attached, its size is taken and
    /// it starts to listen for a change of the size of the view. Whenever
    /// it is attached, a frame is drawn.
    pub fn update(&mut self, measured: Option<(usize, usize)>) -> (action: CanvasAction)
        ensures
            *final(self) == old(self).updated(measured),
            action == old(self).action(measured),
    {
        match measured {
            Some(size) => {
                let first = self.is_first_render;
                if first {
                    self.is_first_render = false;
                    self.display_size = size;
                }
                CanvasAction { listen_for_resize: first, render: true }
            },
            None => CanvasAction { listen_for_resize: false, render: false },
        }
    }

    /// The size of the view changed, and the surface is now shown at
    /// `measured`.
    pub fn resize(&mut self, measured: (usize, usize))
        ensures
            *final(self) == (Canvas { display_size: measured, ..*old(self) }),
    {
        self.display_size = measured;
    }
}

/// A surface is measured and starts to listen once, at the first update
/// that finds it attached; later updates only draw.
pub proof fn lemma_measured_once(
    canvas: Canvas,
    first: (usize, usize),
    second: Option<(usize, usize)>,
)
    ensures
        !canvas.updated(Some(first)).is_first_render,
        !canvas.updated(Some(first)).action(second).listen_for_resize,
        canvas.updated(Some(first)).updated(second) == canvas.updated(Some(first)),
        canvas.updated(None) == canvas,
        canvas.action(None) == (CanvasAction { listen_for_resize: false, render: false }),
{
}

} // verus!
