//! Conversion of browser input data to the renderer's input model: mouse
//! buttons from button numbers and bitmasks, and modifier key states. The
//! browser layer reads the raw event objects and hands over plain values.

use vstd::prelude::*;

verus! {

/// The state of the modifier keys.
#[derive(Clone, Copy, Debug, PartialEq, Eq, Structural)]
pub struct Modifiers {
    pub control: bool,
    pub alt: bool,
    pub shift: bool,
    pub platform: bool,
    pub function: bool,
}

/// The direction of a browser-history navigation button.
#[derive(Clone, Copy, Debug, PartialEq, Eq, Structural)]
pub enum NavigationDirection {
    Back,
    Forward,
}

/// A mouse button.
#[derive(Clone, Copy, Debug, PartialEq, Eq, Structural)]
pub enum MouseButton {
    Left,
    Middle,
    Right,
    Navigate(NavigationDirection),
}

/// The button a browser button number names; unknown numbers fall back to
/// the left button.
pub open spec fn spec_button_from_browser(button: i16) -> MouseButton {
    if button == 0 {
        MouseButton::Left
    } else if button == 1 {
        MouseButton::Middle
    } else if button == 2 {
        MouseButton::Right
    } else if button == 3 {
        MouseButton::Navigate(NavigationDirection::Back)
    } else if button == 4 {
        MouseButton::Navigate(NavigationDirection::Forward)
    } else {
        MouseButton::Left
    }
}

/// Convert a browser mouse button number to a mouse button.
pub fn mouse_button_from_browser(button: i16) -> (r: MouseButton)
    ensures
        r == spec_button_from_browser(button),
{
    match button {
        0 => MouseButton::Left,
        1 => MouseButton::Middle,
        2 => MouseButton::Right,
        3 => MouseButton::Navigate(NavigationDirection::Back),
        4 => MouseButton::Navigate(NavigationDirection::Forward),
        _ => MouseButton::Left,
    }
}

/// The lowest-numbered button a browser `buttons` bitmask holds.
pub open spec fn spec_pressed_button(buttons: u16) -> Option<MouseButton> {
    if buttons & 1 != 0 {
        Some(MouseButton::Left)
    } else if buttons & 2 != 0 {
        Some(MouseButton::Right)
    } else if buttons & 4 != 0 {
        Some(MouseButton::Middle)
    } else if buttons & 8 != 0 {
        Some(MouseButton::Navigate(NavigationDirection::Back))
    } else if buttons & 16 != 0 {
        Some(MouseButton::Navigate(NavigationDirection::Forward))
    } else {
        None
    }
}

/// The currently pressed mouse button, from a browser `buttons` bitmask.
pub fn pressed_button_from_buttons(buttons: u16) -> (r: Option<MouseButton>)
    ensures
        r == spec_pressed_button(buttons),
{
    if buttons & 1 != 0 {
        Some(MouseButton::Left)
    } else if buttons & 2 != 0 {
        Some(MouseButton::Right)
    } else if buttons & 4 != 0 {
        Some(MouseButton::Middle)
    } else if buttons & 8 != 0 {
        Some(MouseButton::Navigate(NavigationDirection::Back))
    } else if buttons & 16 != 0 {
        Some(MouseButton::Navigate(NavigationDirection::Forward))
    } else {
        None
    }
}

/// The modifier state a browser mouse event carries. The function key state
/// is not available in browsers and reads as released.
pub fn modifiers_from_mouse_event(ctrl: bool, alt: bool, shift: bool, meta: bool) -> (r: Modifiers)
    ensures
        r == (Modifiers { control: ctrl, alt, shift, platform: meta, function: false }),
{
    Modifiers { control: ctrl, alt, shift, platform: meta, function: false }
}

/// The modifier state a browser keyboard event carries. The function key
/// state is not available in browsers and reads as released.
pub fn modifiers_from_keyboard_event(ctrl: bool, alt: bool, shift: bool, meta: bool) -> (r:
    Modifiers)
    ensures
        r == (Modifiers { control: ctrl, alt, shift, platform: meta, function: false }),
{
    Modifiers { control: ctrl, alt, shift, platform: meta, function: false }
}

} // verus!
