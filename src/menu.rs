//! The overlay menu: F8 arms it, and the next key picks an action instead
//! of going to the server.
use vstd::prelude::*;
use crate::session::EncodingQuality;

verus! {

pub const KEY_F1: u32 = 0xffbe;

pub const KEY_F2: u32 = 0xffbf;

pub const KEY_F3: u32 = 0xffc0;

pub const KEY_F4: u32 = 0xffc1;

pub const KEY_F5: u32 = 0xffc2;

pub const KEY_F6: u32 = 0xffc3;

pub const KEY_F8: u32 = 0xffc5;

pub const KEY_F11: u32 = 0xffc8;

/// What the front-end must do for a menu choice.
#[derive(Clone, Copy, Debug, PartialEq, Eq, Structural)]
pub enum MenuAction {
    SetEncodingQuality(EncodingQuality),
    StartRelativeMouseMode,
    StopRelativeMouseMode,
    SetFullscreen,
    UnsetFullscreen,
}

/// The front-end's side of the menu's actions.
pub trait MenuActionHandler {
    fn set_encoding_quality(&mut self, quality: EncodingQuality);

    fn set_fullscreen(&mut self);

    fn unset_fullscreen(&mut self);

    fn start_relative_mouse_mode(&mut self);

    fn stop_relative_mouse_mode(&mut self);
}

#[derive(Clone, Copy, Debug, PartialEq, Eq, Structural)]
pub struct Menu {
    pub f8_pressed: bool,
    pub relative_mouse_mode: bool,
    pub fullscreen: bool,
}

/// The quality that F1 to F5 select.
pub open spec fn quality_key(keysym: u32) -> Option<EncodingQuality> {
    if keysym == KEY_F1 {
        Some(EncodingQuality::LossyHigh)
    } else if keysym == KEY_F2 {
        Some(EncodingQuality::LossyMedium)
    } else if keysym == KEY_F3 {
        Some(EncodingQuality::LossyMediumInterframeComparison)
    } else if keysym == KEY_F4 {
        Some(EncodingQuality::LossyLow)
    } else if keysym == KEY_F5 {
        Some(EncodingQuality::Lossless)
    } else {
        None
    }
}

impl Menu {
    pub fn new() -> (r: Self)
        ensures
            !r.f8_pressed && !r.relative_mouse_mode && !r.fullscreen,
    {
        Menu { f8_pressed: false, relative_mouse_mode: false, fullscreen: false }
    }

    /// Looks at a key press. Returns whether the key is the menu's (and must
    /// not reach the server) and the action it chose, if any.
    pub fn intercept_key_press(&mut self, keysym: u32) -> (r: (bool, Option<MenuAction>))
        ensures
            r.0 == (old(self).f8_pressed || keysym == KEY_F8),
            !old(self).f8_pressed ==> r.1 is None && *final(self) == (Menu { f8_pressed: keysym == KEY_F8, ..*old(self) }),
            old(self).f8_pressed ==> {
                &&& !final(self).f8_pressed
                &&& quality_key(keysym) is Some ==> r.1 == Some(MenuAction::SetEncodingQuality(quality_key(keysym)->Some_0))
                    && final(self).relative_mouse_mode == old(self).relative_mouse_mode && final(self).fullscreen == old(
                    self,
                ).fullscreen
                &&& keysym == KEY_F6 ==> final(self).relative_mouse_mode == !old(self).relative_mouse_mode
                    && final(self).fullscreen == old(self).fullscreen && r.1 == Some(
                    if final(self).relative_mouse_mode {
                        MenuAction::StartRelativeMouseMode
                    } else {
                        MenuAction::StopRelativeMouseMode
                    },
                )
                &&& keysym == KEY_F11 ==> final(self).fullscreen == !old(self).fullscreen && final(self).relative_mouse_mode
                    == old(self).relative_mouse_mode && r.1 == Some(
                    if final(self).fullscreen {
                        MenuAction::SetFullscreen
                    } else {
                        MenuAction::UnsetFullscreen
                    },
                )
                &&& (quality_key(keysym) is None && keysym != KEY_F6 && keysym != KEY_F11) ==> r.1 is None
                    && final(self).relative_mouse_mode == old(self).relative_mouse_mode && final(self).fullscreen == old(
                    self,
                ).fullscreen
            },
    {
        let f8_pressed_now = keysym == KEY_F8;
        let f8_was_pressed = self.f8_pressed;
        let mut action: Option<MenuAction> = None;
        if f8_was_pressed {
            if keysym == KEY_F1 {
                action = Some(MenuAction::SetEncodingQuality(EncodingQuality::LossyHigh));
            } else if keysym == KEY_F2 {
                action = Some(MenuAction::SetEncodingQuality(EncodingQuality::LossyMedium));
            } else if keysym == KEY_F3 {
                action = Some(MenuAction::SetEncodingQuality(EncodingQuality::LossyMediumInterframeComparison));
            } else if keysym == KEY_F4 {
                action = Some(MenuAction::SetEncodingQuality(EncodingQuality::LossyLow));
            } else if keysym == KEY_F5 {
                action = Some(MenuAction::SetEncodingQuality(EncodingQuality::Lossless));
            } else if keysym == KEY_F6 {
                self.relative_mouse_mode = !self.relative_mouse_mode;
                action = Some(
                    if self.relative_mouse_mode {
                        MenuAction::StartRelativeMouseMode
                    } else {
                        MenuAction::StopRelativeMouseMode
                    },
                );
            } else if keysym == KEY_F11 {
                self.fullscreen = !self.fullscreen;
                action = Some(
                    if self.fullscreen {
                        MenuAction::SetFullscreen
                    } else {
                        MenuAction::UnsetFullscreen
                    },
                );
            }
            self.f8_pressed = false;
        } else if f8_pressed_now {
            self.f8_pressed = true;
        }
        (f8_was_pressed || f8_pressed_now, action)
    }

    /// Like `intercept_key_press`, and hands the chosen action to `handler`.
    pub fn intercept_key_press_with<H: MenuActionHandler>(&mut self, keysym: u32, handler: &mut H) -> (r: bool)
        ensures
            r == (old(self).f8_pressed || keysym == KEY_F8),
    {
        let (consumed, action) = self.intercept_key_press(keysym);
        match action {
            Some(MenuAction::SetEncodingQuality(q)) => handler.set_encoding_quality(q),
            Some(MenuAction::StartRelativeMouseMode) => handler.start_relative_mouse_mode(),
            Some(MenuAction::StopRelativeMouseMode) => handler.stop_relative_mouse_mode(),
            Some(MenuAction::SetFullscreen) => handler.set_fullscreen(),
            Some(MenuAction::UnsetFullscreen) => handler.unset_fullscreen(),
            None => {},
        }
        consumed
    }

    /// Whether the menu is drawn: it is armed.
    pub fn visible(&self) -> (r: bool)
        ensures
            r == self.f8_pressed,
    {
        self.f8_pressed
    }

    pub fn relative_mouse_mode(&self) -> (r: bool)
        ensures
            r == self.relative_mouse_mode,
    {
        self.relative_mouse_mode
    }
}

} // verus!
