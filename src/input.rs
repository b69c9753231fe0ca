//! Pointer input: the RFB button mask of a pointer event.
use vstd::prelude::*;

verus! {

#[derive(Clone, Copy, Debug, PartialEq, Eq, Structural)]
pub enum ButtonState {
    Down,
    Up,
}

/// The button mask: bit `i` for button `i + 1`, from the buttons held
/// before the event (the low five bits of `held`), then the button that the
/// event pressed set or the one it released cleared.
pub fn compute_buttons_state(held: u8, changed: Option<(u32, ButtonState)>) -> (r: u8)
    requires
        changed matches Some((b, _)) ==> 1 <= b <= 8,
    ensures
        changed is None ==> r == held & 31u8,
        changed matches Some((b, ButtonState::Down)) ==> r == (held & 31u8) | (1u8 << ((b - 1) as u8)),
        changed matches Some((b, ButtonState::Up)) ==> r == (held & 31u8) & !(1u8 << ((b - 1) as u8)),
{
    let state = held & 31;
    match changed {
        Some((button, ButtonState::Down)) => state | (1u8 << ((button - 1) as u8)),
        Some((button, ButtonState::Up)) => state & !(1u8 << ((button - 1) as u8)),
        None => state,
    }
}

/// The button a scroll event stands for: 5 for down, 4 otherwise.
pub fn scroll_button(down: bool) -> (r: u32)
    ensures
        r == if down { 5u32 } else { 4u32 },
{
    if down {
        5
    } else {
        4
    }
}

} // verus!
