//! What a user can configure.

use vstd::prelude::*;

use crate::request::{take_low_half, Request, Sequence};

verus! {

/// Space kept free along the four edges of a monitor, in pixels.
#[derive(Debug, Clone, Copy, PartialEq, Eq, Structural)]
pub struct Padding {
    pub top: u16,
    pub bottom: u16,
    pub left: u16,
    pub right: u16,
}

/// How the borders of windows are drawn.
#[derive(Debug, Clone, Copy, PartialEq, Eq, Structural)]
pub struct Borders {
    /// Border width in pixels.
    pub width: u16,
    /// Pixel value for windows that do not have the focus.
    pub normal: u32,
    /// Pixel value for the window that has the focus.
    pub focused: u32,
}

/// Settings that apply to every window.
#[derive(Debug, Clone, Copy, PartialEq, Eq, Structural)]
pub struct Windows {
    /// Space left free on each side of a tiled window, in pixels.
    pub gaps: u16,
    pub borders: Borders,
    /// Whether floating windows can be moved and resized with the mouse.
    pub mouse_movement: bool,
}

/// The configuration of the window manager.
#[derive(Debug, Clone, Copy, PartialEq, Eq, Structural)]
pub struct Config {
    pub padding: Padding,
    pub windows: Windows,
}

impl Config {
    /// The configuration after a request. Of numbers of pixels the lower half of
    /// the bits counts.
    pub open spec fn configured(self, sequence: Sequence) -> Config {
        let value = sequence.value;
        let pixels = crate::request::low_half(value);
        let padding = self.padding;
        let windows = self.windows;
        let borders = windows.borders;
        match sequence.request {
            Request::PaddingTop => Config { padding: Padding { top: pixels, ..padding }, ..self },
            Request::PaddingBottom => Config {
                padding: Padding { bottom: pixels, ..padding },
                ..self
            },
            Request::PaddingLeft => Config { padding: Padding { left: pixels, ..padding }, ..self },
            Request::PaddingRight => Config {
                padding: Padding { right: pixels, ..padding },
                ..self
            },
            Request::WindowGaps => Config { windows: Windows { gaps: pixels, ..windows }, ..self },
            Request::FocusedBorder => Config {
                windows: Windows { borders: Borders { focused: value, ..borders }, ..windows },
                ..self
            },
            Request::NormalBorder => Config {
                windows: Windows { borders: Borders { normal: value, ..borders }, ..windows },
                ..self
            },
            Request::BorderWidth => Config {
                windows: Windows { borders: Borders { width: pixels, ..borders }, ..windows },
                ..self
            },
            Request::EnableMouse => Config {
                windows: Windows { mouse_movement: true, ..windows },
                ..self
            },
            Request::DisableMouse => Config {
                windows: Windows { mouse_movement: false, ..windows },
                ..self
            },
            _ => self,
        }
    }

    /// Takes over what a request says about the configuration.
    pub fn configure(&mut self, sequence: Sequence)
        ensures
            *final(self) == old(self).configured(sequence),
    {
        let value = sequence.value;
        let pixels = take_low_half(value);
        match sequence.request {
            Request::PaddingTop => self.padding.top = pixels,
            Request::PaddingBottom => self.padding.bottom = pixels,
            Request::PaddingLeft => self.padding.left = pixels,
            Request::PaddingRight => self.padding.right = pixels,
            Request::WindowGaps => self.windows.gaps = pixels,
            Request::FocusedBorder => self.windows.borders.focused = value,
            Request::NormalBorder => self.windows.borders.normal = value,
            Request::BorderWidth => self.windows.borders.width = pixels,
            Request::EnableMouse => self.windows.mouse_movement = true,
            Request::DisableMouse => self.windows.mouse_movement = false,
            _ => {},
        }
    }
}

} // verus!
