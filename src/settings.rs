use vstd::prelude::*;

verus! {

/// How polygons are rasterised.
#[derive(Clone, Copy, Debug, PartialEq, Eq, Structural)]
pub enum PolygonMode {
    /// Filled triangles.
    Fill,
    /// Triangle outlines only.
    Line,
}

/// The keys the viewer reacts to.
#[derive(Clone, Copy, Debug, PartialEq, Eq, Structural)]
pub enum InputKey {
    Escape,
    Y,
    Other,
}

/// What happened to a key.
#[derive(Clone, Copy, Debug, PartialEq, Eq, Structural)]
pub enum KeyAction {
    Press,
    Release,
    Repeat,
}

/// What the window should do in answer to a key event.
#[derive(Clone, Copy, Debug, PartialEq, Eq, Structural)]
pub enum WindowCommand {
    /// Close the window.
    Close,
    /// Switch between filled and wireframe drawing.
    ToggleWireframe,
    /// Nothing.
    Ignore,
}

/// Escape closes the window and Y toggles wireframe drawing, each on a press;
/// every other event is ignored.
pub fn command_for_key(key: InputKey, action: KeyAction) -> (r: WindowCommand)
    ensures
        r == (if action != KeyAction::Press {
            WindowCommand::Ignore
        } else if key == InputKey::Escape {
            WindowCommand::Close
        } else if key == InputKey::Y {
            WindowCommand::ToggleWireframe
        } else {
            WindowCommand::Ignore
        }),
{
    match (key, action) {
        (InputKey::Escape, KeyAction::Press) => WindowCommand::Close,
        (InputKey::Y, KeyAction::Press) => WindowCommand::ToggleWireframe,
        _ => WindowCommand::Ignore,
    }
}

/// Display settings of the viewer's window.
#[derive(Clone, Copy, Debug, PartialEq, Eq, Structural)]
pub struct WindowSettings {
    pub wireframe: bool,
}

/// The polygon mode that a wireframe flag calls for.
pub open spec fn polygon_mode_for(wireframe: bool) -> PolygonMode {
    if wireframe {
        PolygonMode::Line
    } else {
        PolygonMode::Fill
    }
}

impl WindowSettings {
    /// Settings that start with filled drawing.
    pub fn new() -> (r: WindowSettings)
        ensures
            !r.wireframe,
    {
        WindowSettings { wireframe: false }
    }

    /// Flips wireframe drawing and returns the polygon mode to switch to.
    pub fn toggle_wireframe(&mut self) -> (r: PolygonMode)
        ensures
            final(self).wireframe == !old(self).wireframe,
            r == polygon_mode_for(final(self).wireframe),
    {
        self.wireframe = !self.wireframe;
        if self.wireframe {
            PolygonMode::Line
        } else {
            PolygonMode::Fill
        }
    }
}

} // verus!
