//! Input-driven control state: the toggles and mouse-mode flags the event
//! loop maintains. The windowing layer translates its native events into
//! these plain calls; the float-valued pan and zoom arithmetic stays with
//! the view parameters outside the core.

use vstd::prelude::*;

verus! {

/// Whether a key or button changed to pressed or to released.
#[derive(Clone, Copy, Debug, PartialEq, Eq, Structural)]
pub enum ButtonState {
    Pressed,
    Released,
}

/// The scancode that toggles the diagnostic overlay.
pub const TOGGLE_OVERLAY_SCANCODE: u32 = 1;

/// The scancode that toggles exclusive fullscreen.
pub const TOGGLE_FULLSCREEN_SCANCODE: u32 = 28;

/// The mouse button that, while held, pans the view by mouse motion.
pub const PAN_BUTTON: u32 = 3;

/// The mouse button that, while held, zooms the view by mouse motion.
pub const ZOOM_BUTTON: u32 = 2;

/// The control flags the event loop maintains from keyboard and mouse
/// events.
#[derive(Clone, Copy, Debug, PartialEq, Eq, Structural)]
pub struct InputControlState {
    /// The diagnostic overlay is shown.
    pub show_diagnostics: bool,
    /// The window is in exclusive fullscreen.
    pub fullscreen: bool,
    /// Mouse motion pans the view.
    pub pan_active: bool,
    /// Mouse motion zooms the view.
    pub zoom_active: bool,
}

impl InputControlState {
    /// The state at startup: everything off.
    pub fn new() -> (r: Self)
        ensures
            r == (InputControlState {
                show_diagnostics: false,
                fullscreen: false,
                pan_active: false,
                zoom_active: false,
            }),
    {
        InputControlState {
            show_diagnostics: false,
            fullscreen: false,
            pan_active: false,
            zoom_active: false,
        }
    }

    /// Applies a key event: releasing the overlay key toggles the
    /// diagnostic overlay, releasing the fullscreen key toggles exclusive
    /// fullscreen, every other key leaves the state unchanged.
    pub fn handle_key(&mut self, scancode: u32, state: ButtonState)
        ensures
            *final (self) == (InputControlState {
                show_diagnostics: if scancode == TOGGLE_OVERLAY_SCANCODE && state
                    == ButtonState::Released {
                    !old(self).show_diagnostics
                } else {
                    old(self).show_diagnostics
                },
                fullscreen: if scancode == TOGGLE_FULLSCREEN_SCANCODE && state
                    == ButtonState::Released {
                    !old(self).fullscreen
                } else {
                    old(self).fullscreen
                },
                ..*old(self)
            }),
    {
        match state {
            ButtonState::Released => {
                if scancode == TOGGLE_OVERLAY_SCANCODE {
                    self.show_diagnostics = !self.show_diagnostics;
                } else if scancode == TOGGLE_FULLSCREEN_SCANCODE {
                    self.fullscreen = !self.fullscreen;
                }
            },
            ButtonState::Pressed => {},
        }
    }

    /// Applies a mouse-button event: panning is active exactly while the
    /// pan button is pressed, zooming exactly while the zoom button is
    /// pressed; any other button event clears both modes.
    pub fn handle_mouse_button(&mut self, button: u32, state: ButtonState)
        ensures
            *final (self) == (InputControlState {
                pan_active: state == ButtonState::Pressed && button == PAN_BUTTON,
                zoom_active: state == ButtonState::Pressed && button == ZOOM_BUTTON,
                ..*old(self)
            }),
    {
        let pressed = match state {
            ButtonState::Pressed => true,
            ButtonState::Released => false,
        };
        self.pan_active = pressed && button == PAN_BUTTON;
        self.zoom_active = pressed && button == ZOOM_BUTTON;
    }
}

} // verus!
