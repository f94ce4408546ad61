use vstd::prelude::*;
use crate::constants::{HOTKEY_ID_EXIT, VK_CONTROL};
use crate::geometry::{dot_screen_pos, screen_pos_for_rect, Rect};
use crate::layout::Placed;
use crate::rect::{any_hit, get_rect_at_point, is_first_hit, RectCache};

verus! {

/// What the overlay remembers between window messages.
#[derive(Clone, Copy, Debug, PartialEq, Eq, Structural)]
pub struct OverlayState {
    /// The overlay window is shown.
    pub visible: bool,
    /// The Ctrl key is held down.
    pub ctrl_held: bool,
}

impl OverlayState {
    /// The state at start-up: shown, Ctrl not held.
    pub fn new() -> (state: Self)
        ensures
            state.visible,
            !state.ctrl_held,
    {
        OverlayState { visible: true, ctrl_held: false }
    }
}

/// A window message, with the parameters the overlay reads from it.
#[derive(Clone, Copy, Debug, PartialEq, Eq, Structural)]
pub enum WindowEvent {
    /// A registered hotkey was pressed; `id` is the message's `wparam`.
    Hotkey { id: usize },
    /// The screenshot timer fired.
    Timer,
    /// A key went down; `key` is its virtual-key code.
    KeyDown { key: usize },
    /// A key went up; `key` is its virtual-key code.
    KeyUp { key: usize },
    /// The left mouse button went down; `lparam` packs the client position.
    LeftButtonDown { lparam: isize },
    /// The window must be painted.
    Paint,
    /// The window is being destroyed.
    Destroy,
    /// Any other message.
    Other,
}

/// What the window procedure must do in answer to a message.
#[derive(Debug)]
pub enum WindowAction {
    /// Nothing beyond answering the message.
    Nothing,
    /// Destroy the window: the exit hotkey was pressed.
    DestroyWindow,
    /// Capture the screen.
    TakeScreenshot,
    /// Show the overlay window.
    ShowWindow,
    /// Hide the overlay window.
    HideWindow,
    /// Click at the screen position of the picked rectangle's dot, then hide
    /// the overlay.
    ClickAndHide {
        label: String,
        client_x: i32,
        client_y: i32,
        screen_x: i32,
        screen_y: i32,
    },
    /// Paint the rectangles.
    Paint,
    /// Unregister the hotkey, stop the timer and quit the message loop.
    Shutdown,
    /// Hand the message to the default window procedure.
    DefaultProcessing,
}

/// The client position packed in a mouse message's `lparam`: the low word
/// is the x coordinate, the next word the y coordinate.
pub open spec fn click_point(lparam: isize) -> (int, int) {
    (lparam as int % 65536, (lparam as int / 65536) % 65536)
}

/// Unpacks the client position from a mouse message's `lparam`.
pub fn decode_click_point(lparam: isize) -> (point: (i32, i32))
    ensures
        point.0 as int == click_point(lparam).0,
        point.1 as int == click_point(lparam).1,
        point.0 as int == lparam as int % 65536,
        point.1 as int == (lparam as int / 65536) % 65536,
        0 <= point.0 < 65536,
        0 <= point.1 < 65536,
{
    let x = lparam & 0xFFFF;
    let y = (lparam >> 16u32) & 0xFFFF;
    assert(x as int == lparam % 65536 && 0 <= x < 65536) by (bit_vector)
        requires
            x == lparam & 0xFFFF,
    ;
    assert(y as int == (lparam / 65536) % 65536 && 0 <= y < 65536) by (bit_vector)
        requires
            y == (lparam >> 16u32) & 0xFFFF,
    ;
    (x as i32, y as i32)
}

/// The rectangle that a click at `lparam` picks, if any: the first cached
/// rectangle that contains the click.
pub open spec fn picks_rect(cache: Option<Seq<Placed>>, lparam: isize) -> bool {
    cache matches Some(v) && any_hit(v, click_point(lparam).0, click_point(lparam).1)
}

/// `action` clicks the dot of the rectangle that a click at `lparam` picks
/// among the cached ones, and carries that rectangle's label and the click's
/// client position.
pub open spec fn clicks_picked_dot(action: WindowAction, cache: Option<Seq<Placed>>, lparam: isize) -> bool {
    match action {
        WindowAction::ClickAndHide { label, client_x, client_y, screen_x, screen_y } => {
            &&& client_x == click_point(lparam).0
            &&& client_y == click_point(lparam).1
            &&& cache matches Some(v)
            &&& exists|i: int|
                is_first_hit(v, i, client_x as int, client_y as int) && #[trigger] v[i].1 == label@
                    && (screen_x as int, screen_y as int) == dot_screen_pos(v[i].0)
        },
        _ => false,
    }
}

/// The state after `event`, given the cached rectangles.
pub open spec fn next_overlay_state(state: OverlayState, event: WindowEvent, cache: Option<Seq<Placed>>) -> OverlayState {
    match event {
        WindowEvent::KeyDown { key } => if key == VK_CONTROL && !state.ctrl_held {
            OverlayState { visible: !state.visible, ctrl_held: true }
        } else {
            state
        },
        WindowEvent::KeyUp { key } => if key == VK_CONTROL {
            OverlayState { ctrl_held: false, ..state }
        } else {
            state
        },
        WindowEvent::LeftButtonDown { lparam } => if picks_rect(cache, lparam) {
            OverlayState { visible: false, ..state }
        } else {
            state
        },
        _ => state,
    }
}

/// Decides how the overlay answers `event`, and updates its state: the exit
/// hotkey destroys the window; the timer takes a screenshot; a Ctrl press
/// toggles the overlay once until Ctrl is released; a click on a rectangle
/// clicks that rectangle's dot on the screen and hides the overlay.
pub fn handle_event(state: &mut OverlayState, event: WindowEvent, cache: &RectCache) -> (action: WindowAction)
    ensures
        *final(state) == next_overlay_state(*old(state), event, cache@),
        event matches WindowEvent::KeyUp { key } ==> if key == VK_CONTROL {
            !final(state).ctrl_held && final(state).visible == old(state).visible
        } else {
            *final(state) == *old(state)
        },
        event matches WindowEvent::KeyDown { key } ==> if key == VK_CONTROL
            && !old(state).ctrl_held {
            final(state).ctrl_held && final(state).visible == !old(state).visible
        } else {
            *final(state) == *old(state)
        },
        event matches WindowEvent::LeftButtonDown { lparam } ==> final(state).ctrl_held == old(
            state,
        ).ctrl_held && (final(state).visible == (old(state).visible && !picks_rect(
            cache@,
            lparam,
        ))),
        (event is Hotkey || event is Timer || event is Paint || event is Destroy || event is Other)
            ==> *final(state) == *old(state),
        match event {
            WindowEvent::Hotkey { id } => if #[verifier::truncate] (id as i32) == HOTKEY_ID_EXIT {
                action is DestroyWindow
            } else {
                action is Nothing
            },
            WindowEvent::Timer => action is TakeScreenshot,
            WindowEvent::KeyDown { key } => if key == VK_CONTROL && !old(state).ctrl_held {
                if old(state).visible {
                    action is HideWindow
                } else {
                    action is ShowWindow
                }
            } else {
                action is Nothing
            },
            WindowEvent::KeyUp { key } => action is Nothing,
            WindowEvent::LeftButtonDown { lparam } => if picks_rect(cache@, lparam) {
                clicks_picked_dot(action, cache@, lparam)
            } else {
                action is Nothing
            },
            WindowEvent::Paint => action is Paint,
            WindowEvent::Destroy => action is Shutdown,
            WindowEvent::Other => action is DefaultProcessing,
        },
{
    match event {
        WindowEvent::Hotkey { id } => {
            if #[verifier::truncate] (id as i32) == HOTKEY_ID_EXIT {
                WindowAction::DestroyWindow
            } else {
                WindowAction::Nothing
            }
        },
        WindowEvent::Timer => WindowAction::TakeScreenshot,
        WindowEvent::KeyDown { key } => {
            if key == VK_CONTROL && !state.ctrl_held {
                state.ctrl_held = true;
                let new_visible = !state.visible;
                state.visible = new_visible;
                if new_visible {
                    WindowAction::ShowWindow
                } else {
                    WindowAction::HideWindow
                }
            } else {
                WindowAction::Nothing
            }
        },
        WindowEvent::KeyUp { key } => {
            if key == VK_CONTROL {
                state.ctrl_held = false;
            }
            WindowAction::Nothing
        },
        WindowEvent::LeftButtonDown { lparam } => {
            let (x, y) = decode_click_point(lparam);
            match get_rect_at_point(cache, x, y) {
                Some((rect, label)) => {
                    let (screen_x, screen_y) = screen_pos_for_rect(&rect);
                    state.visible = false;
                    proof {
                        let v = cache@->Some_0;
                        let i = choose|i: int|
                            is_first_hit(v, i, x as int, y as int) && #[trigger] v[i] == (
                                rect,
                                label@,
                            );
                        assert(v[i].1 == label@ && v[i].0 == rect);
                    }
                    WindowAction::ClickAndHide { label, client_x: x, client_y: y, screen_x, screen_y }
                },
                None => WindowAction::Nothing,
            }
        },
        WindowEvent::Paint => WindowAction::Paint,
        WindowEvent::Destroy => WindowAction::Shutdown,
        WindowEvent::Other => WindowAction::DefaultProcessing,
    }
}

/// Holding Ctrl down toggles the overlay once: the key repeats that follow
/// the first press change nothing.
pub proof fn lemma_ctrl_repeat_toggles_once(state: OverlayState, cache: Option<Seq<Placed>>)
    requires
        !state.ctrl_held,
    ensures
        ({
            let press = WindowEvent::KeyDown { key: VK_CONTROL };
            let once = next_overlay_state(state, press, cache);
            &&& once.visible == !state.visible
            &&& next_overlay_state(once, press, cache) == once
        }),
{
}

/// Pressing and releasing Ctrl twice brings the overlay back to where it was.
pub proof fn lemma_ctrl_twice_restores(state: OverlayState, cache: Option<Seq<Placed>>)
    requires
        !state.ctrl_held,
    ensures
        ({
            let press = WindowEvent::KeyDown { key: VK_CONTROL };
            let release = WindowEvent::KeyUp { key: VK_CONTROL };
            let s1 = next_overlay_state(state, press, cache);
            let s2 = next_overlay_state(s1, release, cache);
            let s3 = next_overlay_state(s2, press, cache);
            let s4 = next_overlay_state(s3, release, cache);
            s4 == state
        }),
{
}

/// Releasing any key but Ctrl changes nothing: while Ctrl is held, other
/// keys cannot make room for a second toggle.
pub proof fn lemma_other_key_release_keeps_state(
    state: OverlayState,
    key: usize,
    cache: Option<Seq<Placed>>,
)
    requires
        key != VK_CONTROL,
    ensures
        next_overlay_state(state, WindowEvent::KeyUp { key }, cache) == state,
{
}

/// Releasing Ctrl clears the held flag and leaves the visibility alone.
pub proof fn lemma_ctrl_release(state: OverlayState, cache: Option<Seq<Placed>>)
    ensures
        next_overlay_state(state, WindowEvent::KeyUp { key: VK_CONTROL }, cache) == (
        OverlayState { visible: state.visible, ctrl_held: false }),
{
}

/// While Ctrl is held, a Ctrl key-down after any key-up of another key
/// still changes nothing.
pub proof fn lemma_held_ctrl_ignores_repeats(
    state: OverlayState,
    key: usize,
    cache: Option<Seq<Placed>>,
)
    requires
        state.ctrl_held,
        key != VK_CONTROL,
    ensures
        next_overlay_state(
            next_overlay_state(state, WindowEvent::KeyUp { key }, cache),
            WindowEvent::KeyDown { key: VK_CONTROL },
            cache,
        ) == state,
{
}

/// A click picks a rectangle exactly when the cache is filled and some
/// cached rectangle contains the click's client position, which is the low
/// word of `lparam` across and the next word down.
pub proof fn lemma_picks_rect_meaning(cache: Option<Seq<Placed>>, lparam: isize)
    ensures
        picks_rect(cache, lparam) <==> (cache matches Some(v) && exists|i: int|
            0 <= i < v.len() && (#[trigger] v[i]).0.left <= lparam as int % 65536 <= v[i].0.right
                && v[i].0.top <= (lparam as int / 65536) % 65536 <= v[i].0.bottom),
{
}

/// The rectangle a click picks is the first in the cache that contains the
/// click, edges included.
pub proof fn lemma_first_hit_meaning(v: Seq<Placed>, i: int, x: int, y: int)
    ensures
        is_first_hit(v, i, x, y) <==> (0 <= i < v.len() && v[i].0.left <= x <= v[i].0.right
            && v[i].0.top <= y <= v[i].0.bottom && forall|j: int|
            0 <= j < i ==> !((#[trigger] v[j]).0.left <= x <= v[j].0.right && v[j].0.top <= y
                <= v[j].0.bottom)),
{
}

/// A click that picks a rectangle always leaves the overlay hidden.
pub proof fn lemma_click_hides(state: OverlayState, lparam: isize, cache: Option<Seq<Placed>>)
    requires
        picks_rect(cache, lparam),
    ensures
        !next_overlay_state(state, WindowEvent::LeftButtonDown { lparam }, cache).visible,
{
}

} // verus!
