use vstd::prelude::*;

verus! {

/// How many labelled rectangles the overlay tries to place.
pub const RECT_COUNT: usize = 20;

/// Width of every target rectangle, in pixels.
pub const RECT_WIDTH: i32 = 60;

/// Height of every target rectangle, in pixels.
pub const RECT_HEIGHT: i32 = 40;

/// Minimum free space kept between two target rectangles.
pub const RECT_PADDING: i32 = 10;

/// Offset of the clickable dot from the rectangle's top-left corner.
pub const DOT_PADDING: i32 = 5;

/// Diameter of the clickable dot.
pub const DOT_SIZE: i32 = 10;

/// Screen position of the overlay window's left edge.
pub const OVERLAY_X: i32 = 0;

/// Screen position of the overlay window's top edge.
pub const OVERLAY_Y: i32 = 0;

/// Width of the overlay window.
pub const OVERLAY_WIDTH: i32 = 1920;

/// Height of the overlay window.
pub const OVERLAY_HEIGHT: i32 = 1080;

/// Identifier of the exit hotkey (Ctrl+F12).
pub const HOTKEY_ID_EXIT: i32 = 1;

/// Identifier of the periodic screenshot timer.
pub const TIMER_ID_SCREENSHOT: usize = 1;

/// Opacity of the layered overlay window.
pub const WINDOW_ALPHA: u8 = 200;

/// Virtual-key code of the Ctrl key.
pub const VK_CONTROL: usize = 0x11;

} // verus!
