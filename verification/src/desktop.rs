//! Screen geometry (regions, monitors, the virtual desktop) and the state the
//! capture commands hand between windows.
use vstd::prelude::*;
use crate::pixels::{half_i32, half_toward_zero};
use crate::text::str_equals;

verus! {

/// A capture region in physical pixels.
#[derive(Debug, Clone, Copy, PartialEq, Eq, Structural)]
pub struct CaptureRegion {
    pub x: i32,
    pub y: i32,
    pub width: u32,
    pub height: u32,
}

/// Position and size of one monitor in physical pixels.
#[derive(Debug, Clone, Copy, PartialEq, Eq, Structural)]
pub struct MonitorRect {
    pub x: i32,
    pub y: i32,
    pub width: u32,
    pub height: u32,
}

/// Position and size of the virtual desktop in physical pixels.
#[derive(Debug, Clone, Copy, PartialEq, Eq, Structural)]
pub struct VirtualDesktopInfo {
    pub x: i32,
    pub y: i32,
    pub width: u32,
    pub height: u32,
}

/// A top-level window offered for window capture.
pub struct WindowInfo {
    pub id: String,
    pub title: String,
    pub class_name: String,
    pub x: i32,
    pub y: i32,
    pub width: u32,
    pub height: u32,
    pub is_minimized: bool,
}

/// Bounding box `(min_x, min_y, max_x, max_y)` of the first `n` monitors,
/// starting from the empty box `(i32::MAX, i32::MAX, i32::MIN, i32::MIN)`.
pub open spec fn bounds_of(ms: Seq<MonitorRect>, n: int) -> (i32, i32, i32, i32)
    decreases n,
{
    if n <= 0 {
        (i32::MAX, i32::MAX, i32::MIN, i32::MIN)
    } else {
        let (a, b, c, d) = bounds_of(ms, n - 1);
        let m = ms[n - 1];
        let right = (m.x + (m.width as i32)) as i32;
        let bottom = (m.y + (m.height as i32)) as i32;
        (
            if m.x < a { m.x } else { a },
            if m.y < b { m.y } else { b },
            if right > c { right } else { c },
            if bottom > d { bottom } else { d },
        )
    }
}

/// Every monitor's right and bottom edge fits in `i32`.
pub open spec fn edges_fit(ms: Seq<MonitorRect>) -> bool {
    forall|i: int|
        0 <= i < ms.len() ==> {
            &&& i32::MIN <= #[trigger] ms[i].x + (ms[i].width as i32) <= i32::MAX
            &&& i32::MIN <= ms[i].y + (ms[i].height as i32) <= i32::MAX
        }
}

/// The bounding box of all monitors (the empty box when there is none).
pub fn desktop_bounds(monitors: &Vec<MonitorRect>) -> (res: (i32, i32, i32, i32))
    requires
        edges_fit(monitors@),
    ensures
        res == bounds_of(monitors@, monitors@.len() as int),
{
    let mut acc: (i32, i32, i32, i32) = (i32::MAX, i32::MAX, i32::MIN, i32::MIN);
    let mut i: usize = 0;
    while i < monitors.len()
        invariant
            edges_fit(monitors@),
            i <= monitors@.len(),
            acc == bounds_of(monitors@, i as int),
        decreases monitors@.len() - i,
    {
        let m = monitors[i];
        assert(i32::MIN <= monitors@[i as int].x + (monitors@[i as int].width as i32) <= i32::MAX);
        let right = m.x + m.width as i32;
        let bottom = m.y + m.height as i32;
        acc = (
            if m.x < acc.0 { m.x } else { acc.0 },
            if m.y < acc.1 { m.y } else { acc.1 },
            if right > acc.2 { right } else { acc.2 },
            if bottom > acc.3 { bottom } else { acc.3 },
        );
        i = i + 1;
    }
    acc
}

/// The physical origin of the virtual desktop: image coordinate (0, 0).
/// The empty box (no monitor found) gives (0, 0).
pub fn virtual_desktop_origin(bounds: (i32, i32, i32, i32)) -> (res: (i32, i32))
    ensures
        res == (if bounds.0 == i32::MAX { (0i32, 0i32) } else { (bounds.0, bounds.1) }),
{
    if bounds.0 == i32::MAX { (0, 0) } else { (bounds.0, bounds.1) }
}

/// Size of the desktop box, when it is not empty.
pub open spec fn desktop_extent_spec(bounds: (i32, i32, i32, i32)) -> Option<(i32, i32)> {
    let w = bounds.2 - bounds.0;
    let h = bounds.3 - bounds.1;
    if w <= 0 || h <= 0 { None } else { Some((w as i32, h as i32)) }
}

/// Width and height of the virtual desktop to grab; `None` when the box is
/// empty or inverted.
pub fn desktop_extent(bounds: (i32, i32, i32, i32)) -> (res: Option<(i32, i32)>)
    requires
        i32::MIN <= bounds.2 - bounds.0 <= i32::MAX,
        i32::MIN <= bounds.3 - bounds.1 <= i32::MAX,
    ensures
        res == desktop_extent_spec(bounds),
{
    let w = bounds.2 - bounds.0;
    let h = bounds.3 - bounds.1;
    if w <= 0 || h <= 0 { None } else { Some((w, h)) }
}

/// A region moved from desktop-image coordinates to screen coordinates.
pub fn to_screen_region(region: CaptureRegion, origin: (i32, i32)) -> (res: CaptureRegion)
    requires
        i32::MIN <= region.x + origin.0 <= i32::MAX,
        i32::MIN <= region.y + origin.1 <= i32::MAX,
    ensures
        res == (CaptureRegion {
            x: (region.x + origin.0) as i32,
            y: (region.y + origin.1) as i32,
            width: region.width,
            height: region.height,
        }),
{
    CaptureRegion { x: region.x + origin.0, y: region.y + origin.1, width: region.width, height: region.height }
}

/// The frame size a region grab produces, or `None` when the region is empty
/// (its size read as `i32` is not positive).
pub fn region_frame_size(region: CaptureRegion) -> (res: Option<(i32, i32)>)
    ensures
        res == (if (region.width as i32) <= 0 || (region.height as i32) <= 0 {
            None
        } else {
            Some((region.width as i32, region.height as i32))
        }),
{
    let w = region.width as i32;
    let h = region.height as i32;
    if w <= 0 || h <= 0 { None } else { Some((w, h)) }
}

/// The centre of a region, where the cursor is put before wheel scrolling.
pub fn region_center(region: CaptureRegion) -> (res: (i32, i32))
    requires
        i32::MIN <= region.x + half_toward_zero(region.width as i32 as int) <= i32::MAX,
        i32::MIN <= region.y + half_toward_zero(region.height as i32 as int) <= i32::MAX,
    ensures
        res == ((region.x + half_toward_zero(region.width as i32 as int)) as i32, (region.y + half_toward_zero(
            region.height as i32 as int,
        )) as i32),
{
    let hw = region.width as i32;
    let hh = region.height as i32;
    (region.x + half_i32(hw), region.y + half_i32(hh))
}

// ---------------------------------------------------------------------------
// Payloads handed to the overlay, preview and scroll-frame windows
// ---------------------------------------------------------------------------

/// The preview window's data: the image path and a JPEG data URL.
pub struct PreviewPayload {
    pub path: String,
    pub data_url: String,
}

/// The region overlay's data: the desktop grab and where it sits.
pub struct OverlayPayload {
    pub image_path: String,
    pub origin_x: i32,
    pub origin_y: i32,
    pub width: u32,
    pub height: u32,
    pub image_data_url: String,
}

impl OverlayPayload {
    /// The payload for a desktop grab shown through a data URL (no file).
    pub fn for_desktop(info: VirtualDesktopInfo, image_data_url: String) -> (res: Self)
        ensures
            res.image_path@.len() == 0,
            res.origin_x == info.x,
            res.origin_y == info.y,
            res.width == info.width,
            res.height == info.height,
            res.image_data_url == image_data_url,
    {
        OverlayPayload {
            image_path: String::new(),
            origin_x: info.x,
            origin_y: info.y,
            width: info.width,
            height: info.height,
            image_data_url,
        }
    }
}

/// The scroll-region frame's data: the selection and the desktop size.
#[derive(Debug, Clone, Copy, PartialEq, Eq, Structural)]
pub struct ScrollFramePayload {
    pub x: i32,
    pub y: i32,
    pub width: u32,
    pub height: u32,
    pub desktop_width: u32,
    pub desktop_height: u32,
}

impl ScrollFramePayload {
    /// The payload for a selection over the desktop box `bounds`.
    pub fn new(x: i32, y: i32, width: u32, height: u32, bounds: (i32, i32, i32, i32)) -> (res: Self)
        requires
            i32::MIN <= bounds.2 - bounds.0 <= i32::MAX,
            i32::MIN <= bounds.3 - bounds.1 <= i32::MAX,
        ensures
            res == (ScrollFramePayload {
                x,
                y,
                width,
                height,
                desktop_width: (bounds.2 - bounds.0) as i32 as u32,
                desktop_height: (bounds.3 - bounds.1) as i32 as u32,
            }),
    {
        let vw = bounds.2 - bounds.0;
        let vh = bounds.3 - bounds.1;
        ScrollFramePayload { x, y, width, height, desktop_width: vw as u32, desktop_height: vh as u32 }
    }
}

/// State shared by the capture commands (the application keeps it behind a
/// lock).
pub struct CaptureState {
    /// Cache path of the last full-screen capture.
    pub last_fullscreen_path: Option<String>,
    /// Data the region overlay reads once its window exists.
    pub pending_overlay: Option<OverlayPayload>,
    /// The clean desktop grab under the overlay (RGBA, width, height).
    pub pending_overlay_base: Option<(Vec<u8>, u32, u32)>,
    /// Data the preview window reads once it exists.
    pub pending_preview: Option<PreviewPayload>,
    /// Label of the current pinned preview window.
    pub current_pin_label: Option<String>,
    /// Whether the pinned window lets the mouse through.
    pub pin_passthrough: bool,
    /// Label of the small handle window shown while passing through.
    pub pin_handle_label: Option<String>,
    /// The region the scroll toolbar will capture.
    pub pending_scroll_region: Option<CaptureRegion>,
    /// Data the scroll-region frame reads.
    pub pending_scroll_frame: Option<ScrollFramePayload>,
}

impl CaptureState {
    /// Nothing pending, no pinned window, passthrough off.
    pub fn new() -> (res: Self)
        ensures
            res.last_fullscreen_path is None,
            res.pending_overlay is None,
            res.pending_overlay_base is None,
            res.pending_preview is None,
            res.current_pin_label is None,
            !res.pin_passthrough,
            res.pin_handle_label is None,
            res.pending_scroll_region is None,
            res.pending_scroll_frame is None,
    {
        CaptureState {
            last_fullscreen_path: None,
            pending_overlay: None,
            pending_overlay_base: None,
            pending_preview: None,
            current_pin_label: None,
            pin_passthrough: false,
            pin_handle_label: None,
            pending_scroll_region: None,
            pending_scroll_frame: None,
        }
    }

    /// The pin hotkey: with a pinned window, flips its passthrough and
    /// returns the new setting; without one, changes nothing.
    pub fn toggle_pin_passthrough(&mut self) -> (res: Option<bool>)
        ensures
            old(self).current_pin_label is None ==> res is None && final(self).pin_passthrough
                == old(self).pin_passthrough,
            old(self).current_pin_label is Some ==> res == Some(!old(self).pin_passthrough)
                && final(self).pin_passthrough == !old(self).pin_passthrough,
            final(self).current_pin_label == old(self).current_pin_label,
            final(self).pin_handle_label == old(self).pin_handle_label,
            final(self).pending_scroll_region == old(self).pending_scroll_region,
            final(self).pending_scroll_frame == old(self).pending_scroll_frame,
    {
        if self.current_pin_label.is_some() {
            self.pin_passthrough = !self.pin_passthrough;
            Some(self.pin_passthrough)
        } else {
            None
        }
    }
}

// ---------------------------------------------------------------------------
// Windows and monitors for window capture
// ---------------------------------------------------------------------------

/// Whether a top-level window is offered for window capture: visible, not
/// minimised, titled, and not the desktop shell ("Program Manager").
pub fn window_is_listed(visible: bool, iconic: bool, title: &str) -> (res: bool)
    ensures
        res == (visible && !iconic && title@.len() != 0 && title@ != "Program Manager"@),
{
    visible && !iconic && !title.is_empty() && !str_equals(title, "Program Manager")
}

/// Width and height of a window rectangle (negative spans count as 0).
pub fn window_extent(left: i32, top: i32, right: i32, bottom: i32) -> (res: (u32, u32))
    requires
        i32::MIN <= right - left <= i32::MAX,
        i32::MIN <= bottom - top <= i32::MAX,
    ensures
        res == ((if right - left > 0 { right - left } else { 0 }) as u32, (if bottom - top > 0 {
            bottom - top
        } else {
            0
        }) as u32),
{
    let w = right - left;
    let h = bottom - top;
    ((if w > 0 { w } else { 0 }) as u32, (if h > 0 { h } else { 0 }) as u32)
}

/// The monitor fully contains the rectangle `(x, y, w, h)`.
pub open spec fn monitor_contains(m: MonitorRect, x: i32, y: i32, w: u32, h: u32) -> bool {
    &&& x >= m.x
    &&& y >= m.y
    &&& x + (w as i32) <= m.x + (m.width as i32)
    &&& y + (h as i32) <= m.y + (m.height as i32)
}

/// Index of the first monitor among `ms[from..]` containing the rectangle, or 0.
pub open spec fn containing_from(ms: Seq<MonitorRect>, x: i32, y: i32, w: u32, h: u32, from: int) -> int
    decreases ms.len() - from,
{
    if from >= ms.len() || from < 0 {
        0
    } else if monitor_contains(ms[from], x, y, w, h) {
        from
    } else {
        containing_from(ms, x, y, w, h, from + 1)
    }
}

/// The monitor a window is captured from: the first one that contains it,
/// else the first monitor.
pub fn containing_monitor(monitors: &Vec<MonitorRect>, x: i32, y: i32, w: u32, h: u32) -> (res: usize)
    requires
        monitors@.len() > 0,
        edges_fit(monitors@),
        i32::MIN <= x + (w as i32) <= i32::MAX,
        i32::MIN <= y + (h as i32) <= i32::MAX,
    ensures
        res == containing_from(monitors@, x, y, w, h, 0),
        res < monitors@.len(),
{
    let mut i: usize = 0;
    while i < monitors.len()
        invariant
            edges_fit(monitors@),
            i32::MIN <= x + (w as i32) <= i32::MAX,
            i32::MIN <= y + (h as i32) <= i32::MAX,
            i <= monitors@.len(),
            containing_from(monitors@, x, y, w, h, 0) == containing_from(monitors@, x, y, w, h, i as int),
        decreases monitors@.len() - i,
    {
        let m = monitors[i];
        assert(i32::MIN <= monitors@[i as int].x + (monitors@[i as int].width as i32) <= i32::MAX);
        let right = x + w as i32;
        let bottom = y + h as i32;
        if x >= m.x && y >= m.y && right <= m.x + m.width as i32 && bottom <= m.y + m.height as i32 {
            return i;
        }
        i = i + 1;
    }
    0
}

/// Where the window starts inside the monitor's image (clamped at 0).
pub fn offset_in_monitor(m: MonitorRect, x: i32, y: i32) -> (res: (u32, u32))
    requires
        i32::MIN <= x - m.x <= i32::MAX,
        i32::MIN <= y - m.y <= i32::MAX,
    ensures
        res == ((if x - m.x > 0 { x - m.x } else { 0 }) as u32, (if y - m.y > 0 { y - m.y } else { 0 }) as u32),
{
    let ox = x - m.x;
    let oy = y - m.y;
    ((if ox > 0 { ox } else { 0 }) as u32, (if oy > 0 { oy } else { 0 }) as u32)
}

/// Whether to hide the main window before grabbing the screen: when the
/// setting asks for it and the window is visible (an unknown visibility
/// counts as visible).
pub fn hide_for_capture(hide_ui_on_capture: bool, main_visible: Option<bool>) -> (res: bool)
    ensures
        res == (hide_ui_on_capture && match main_visible {
            Some(v) => v,
            None => true,
        }),
{
    hide_ui_on_capture && match main_visible {
        Some(v) => v,
        None => true,
    }
}

/// The desktop box covers every monitor: each monitor's left and top edge is
/// at or after the box's, its right and bottom edge at or before the box's.
pub proof fn lemma_bounds_cover_monitors(ms: Seq<MonitorRect>, n: int, i: int)
    requires
        0 <= i < n <= ms.len(),
        edges_fit(ms),
    ensures
        bounds_of(ms, n).0 <= ms[i].x,
        bounds_of(ms, n).1 <= ms[i].y,
        bounds_of(ms, n).2 >= ms[i].x + (ms[i].width as i32),
        bounds_of(ms, n).3 >= ms[i].y + (ms[i].height as i32),
    decreases n,
{
    if i < n - 1 {
        lemma_bounds_cover_monitors(ms, n - 1, i);
    }
}

} // verus!
