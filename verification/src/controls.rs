//! How the client turns the keys and mouse buttons held in a frame into
//! input messages, focus and window changes.
use vstd::prelude::*;
use crate::components::InputButtons;

verus! {

/// The keys and mouse buttons the client looks at, each held down or not.
#[derive(PartialEq, Eq, Structural, Clone, Copy, Debug)]
pub struct KeyState {
    pub w: bool,
    pub a: bool,
    pub s: bool,
    pub d: bool,
    pub r: bool,
    pub left_shift: bool,
    pub left_control: bool,
    pub space: bool,
    pub enter: bool,
    pub escape: bool,
    pub f11: bool,
    pub mouse_left: bool,
    pub mouse_right: bool,
    pub mouse_middle: bool,
}

/// Lobby keys: the first press of enter that follows a release sends the
/// ready message, once; returns whether to send it now.
pub fn process_inputs_lobby(enter: bool, ready_sent: &mut bool, first_enter: &mut bool) -> (r:
    bool)
    ensures
        r == (!*old(first_enter) && !*old(ready_sent) && enter),
        *final(ready_sent) == (*old(ready_sent) || r),
        *final(first_enter) == (*old(first_enter) && enter),
{
    let mut send = false;
    if !*first_enter && !*ready_sent && enter {
        *ready_sent = true;
        send = true;
    }
    if !enter {
        *first_enter = false;
    }
    send
}

/// Game keys, while the window has focus: held keys press their buttons in
/// the outgoing message, space rolls, the left button fires unless it is
/// still held from the click that focused the window, and each press of the
/// middle button toggles the zoom. Without focus nothing changes.
pub fn process_inputs_game(
    keys: &KeyState,
    input: &mut InputButtons,
    roll: &mut bool,
    zoomed: &mut bool,
    mmb_clicked: &mut bool,
    first_click: &mut bool,
    is_focused: bool,
)
    ensures
        !is_focused ==> {
            &&& *final(input) == *old(input)
            &&& *final(roll) == *old(roll)
            &&& *final(zoomed) == *old(zoomed)
            &&& *final(mmb_clicked) == *old(mmb_clicked)
            &&& *final(first_click) == *old(first_click)
        },
        is_focused ==> {
            &&& *final(input) == (InputButtons {
                w_pressed: old(input).w_pressed || keys.w,
                a_pressed: old(input).a_pressed || keys.a,
                s_pressed: old(input).s_pressed || keys.s,
                d_pressed: old(input).d_pressed || keys.d,
                shift_pressed: old(input).shift_pressed || keys.left_shift,
                ctrl_pressed: old(input).ctrl_pressed || keys.left_control,
                r_pressed: old(input).r_pressed || keys.r,
                rmb_clicked: old(input).rmb_clicked || keys.mouse_right,
                lmb_clicked: old(input).lmb_clicked || (!*old(first_click) && keys.mouse_left),
                ..*old(input)
            })
            &&& *final(roll) == (*old(roll) || keys.space)
            &&& *final(first_click) == (*old(first_click) && keys.mouse_left)
            &&& *final(zoomed) == (*old(zoomed) != (!*old(mmb_clicked) && keys.mouse_middle))
            &&& *final(mmb_clicked) == keys.mouse_middle
        },
{
    if !is_focused {
        return ;
    }
    if keys.w {
        input.w_pressed = true;
    }
    if keys.a {
        input.a_pressed = true;
    }
    if keys.s {
        input.s_pressed = true;
    }
    if keys.d {
        input.d_pressed = true;
    }
    if keys.left_shift {
        input.shift_pressed = true;
    }
    if keys.left_control {
        input.ctrl_pressed = true;
    }
    if keys.r {
        input.r_pressed = true;
    }
    if keys.space {
        *roll = true;
    }
    if keys.mouse_right {
        input.rmb_clicked = true;
    }
    if !*first_click && keys.mouse_left {
        input.lmb_clicked = true;
    }
    if !keys.mouse_left {
        *first_click = false;
    }
    if !*mmb_clicked && keys.mouse_middle {
        *zoomed = !*zoomed;
        *mmb_clicked = true;
    }
    if *mmb_clicked && !keys.mouse_middle {
        *mmb_clicked = false;
    }
}

/// Game-over keys: the first press of enter that follows a release moves on;
/// returns whether it does.
pub fn process_inputs_game_over(enter: bool, first_enter: &mut bool) -> (r: bool)
    ensures
        r == (!*old(first_enter) && enter),
        *final(first_enter) == (*old(first_enter) || r),
{
    if !*first_enter && enter {
        *first_enter = true;
        return true;
    }
    false
}

/// The direction the buttons ask to move in, as (right, up, forward), each
/// -1, 0 or 1: opposite buttons held together cancel out.
pub fn movement_axes(input: &InputButtons) -> (r: (i8, i8, i8))
    ensures
        r.0 == (if input.d_pressed { 1int } else { 0 }) - (if input.a_pressed { 1int } else { 0 }),
        r.1 == (if input.shift_pressed { 1int } else { 0 }) - (if input.ctrl_pressed {
            1int
        } else {
            0
        }),
        r.2 == (if input.w_pressed { 1int } else { 0 }) - (if input.s_pressed { 1int } else { 0 }),
{
    let mut x: i8 = 0;
    let mut y: i8 = 0;
    let mut z: i8 = 0;
    if input.d_pressed {
        x += 1;
    }
    if input.a_pressed {
        x -= 1;
    }
    if input.w_pressed {
        z += 1;
    }
    if input.s_pressed {
        z -= 1;
    }
    if input.shift_pressed {
        y += 1;
    }
    if input.ctrl_pressed {
        y -= 1;
    }
    (x, y, z)
}

/// The early test client's movement word: the first of the down, up, left
/// and right arrows that is held, in that order, names the movement; with
/// none held the word stays as it was.
pub fn process_arrow_inputs(movement: &mut String, down: bool, up: bool, left: bool, right: bool)
    ensures
        down ==> final(movement)@ == "down"@,
        !down && up ==> final(movement)@ == "up"@,
        !down && !up && left ==> final(movement)@ == "left"@,
        !down && !up && !left && right ==> final(movement)@ == "right"@,
        !down && !up && !left && !right ==> final(movement)@ == old(movement)@,
{
    if down {
        *movement = String::from_str("down");
    } else if up {
        *movement = String::from_str("up");
    } else if left {
        *movement = String::from_str("left");
    } else if right {
        *movement = String::from_str("right");
    }
}

/// Whether a frame with these keys gives focus back to an unfocused window:
/// the window was unfocused, or escape just unfocused it, and the left button is down.
pub open spec fn refocuses(was_focused: bool, escape: bool, mouse_left: bool) -> bool {
    !(was_focused && !escape) && mouse_left
}

/// Escape releases the focus; a left click on an unfocused window takes it
/// back and marks the mouse and the click as fresh.
pub fn update_focus(
    is_focused: &mut bool,
    first_mouse: &mut bool,
    first_click: &mut bool,
    escape: bool,
    mouse_left: bool,
)
    ensures
        *final(is_focused) == ((*old(is_focused) && !escape) || mouse_left),
        refocuses(*old(is_focused), escape, mouse_left) ==> *final(first_mouse) && *final(first_click),
        !refocuses(*old(is_focused), escape, mouse_left) ==> *final(first_mouse) == *old(first_mouse) && *final(first_click) == *old(first_click),
{
    if *is_focused && escape {
        *is_focused = false;
    }
    if !*is_focused && mouse_left {
        *is_focused = true;
        *first_mouse = true;
        *first_click = true;
    }
}

/// F11: each press toggles full screen; returns whether the window must
/// change now.
pub fn toggle_fullscreen_key(fullscreen: &mut bool, f11_pressed: &mut bool, f11: bool) -> (r:
    bool)
    ensures
        r == (!*old(f11_pressed) && f11),
        *final(fullscreen) == (*old(fullscreen) != r),
        *final(f11_pressed) == f11,
{
    let mut toggled = false;
    if !*f11_pressed && f11 {
        *fullscreen = !*fullscreen;
        *f11_pressed = true;
        toggled = true;
    }
    if !f11 {
        *f11_pressed = false;
    }
    toggled
}

/// The window's size, and the windowed position and size to go back to.
#[derive(PartialEq, Eq, Structural, Clone, Copy, Debug)]
pub struct WindowGeometry {
    pub width: u32,
    pub height: u32,
    pub saved_xpos: i32,
    pub saved_ypos: i32,
    pub saved_width: u32,
    pub saved_height: u32,
}

/// Where and how to put the window.
#[derive(PartialEq, Eq, Structural, Clone, Copy, Debug)]
pub struct WindowPlacement {
    pub decorated: bool,
    pub xpos: i32,
    pub ypos: i32,
    pub width: u32,
    pub height: u32,
}

/// The geometry after a full-screen change, and where the window goes:
/// going full screen remembers the windowed position and size and covers the
/// monitor without decorations; going back restores the remembered size and
/// puts a decorated window of twice that size at the remembered position.
pub open spec fn fullscreen_step(
    fullscreen: bool,
    g: WindowGeometry,
    window_pos: (i32, i32),
    monitor_size: (u32, u32),
) -> (WindowGeometry, WindowPlacement) {
    if fullscreen {
        (
            WindowGeometry {
                width: monitor_size.0,
                height: monitor_size.1,
                saved_xpos: window_pos.0,
                saved_ypos: window_pos.1,
                saved_width: g.width,
                saved_height: g.height,
            },
            WindowPlacement {
                decorated: false,
                xpos: 0,
                ypos: 0,
                width: monitor_size.0,
                height: monitor_size.1,
            },
        )
    } else {
        (
            WindowGeometry { width: g.saved_width, height: g.saved_height, ..g },
            WindowPlacement {
                decorated: true,
                xpos: g.saved_xpos,
                ypos: g.saved_ypos,
                width: (g.saved_width * 2) as u32,
                height: (g.saved_height * 2) as u32,
            },
        )
    }
}

/// Switches the window into or out of full screen.
pub fn set_fullscreen(
    fullscreen: bool,
    geometry: &mut WindowGeometry,
    window_pos: (i32, i32),
    monitor_size: (u32, u32),
) -> (r: WindowPlacement)
    requires
        !fullscreen ==> old(geometry).saved_width * 2 <= u32::MAX && old(geometry).saved_height
            * 2 <= u32::MAX,
    ensures
        (*final(geometry), r) == fullscreen_step(fullscreen, *old(geometry), window_pos, monitor_size),
{
    if fullscreen {
        geometry.saved_height = geometry.height;
        geometry.saved_width = geometry.width;
        geometry.saved_xpos = window_pos.0;
        geometry.saved_ypos = window_pos.1;
        geometry.width = monitor_size.0;
        geometry.height = monitor_size.1;
        WindowPlacement {
            decorated: false,
            xpos: 0,
            ypos: 0,
            width: geometry.width,
            height: geometry.height,
        }
    } else {
        let placement = WindowPlacement {
            decorated: true,
            xpos: geometry.saved_xpos,
            ypos: geometry.saved_ypos,
            width: geometry.saved_width * 2,
            height: geometry.saved_height * 2,
        };
        geometry.height = geometry.saved_height;
        geometry.width = geometry.saved_width;
        placement
    }
}

/// Going full screen and back gives the window its size from before, and
/// puts it back where it was.
pub proof fn law_fullscreen_round_trip(
    g: WindowGeometry,
    window_pos: (i32, i32),
    monitor_size: (u32, u32),
    later_pos: (i32, i32),
    later_monitor: (u32, u32),
)
    ensures
        ({
            let g1 = fullscreen_step(true, g, window_pos, monitor_size).0;
            let (g2, p2) = fullscreen_step(false, g1, later_pos, later_monitor);
            &&& g2.width == g.width
            &&& g2.height == g.height
            &&& p2.decorated
            &&& p2.xpos == window_pos.0
            &&& p2.ypos == window_pos.1
        }),
{
}

} // verus!
