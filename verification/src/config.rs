//! Settings of the capture tool and their defaults.
use vstd::prelude::*;
use crate::text::str_equals;

verus! {

/// Global hotkeys.
pub struct HotkeyConfig {
    pub screenshot: String,
    pub screenshot_full: String,
    pub scrollshot: String,
    pub pin_last: String,
}

/// Where and how captures are saved.
pub struct SaveConfig {
    pub path: String,
    pub format: String,
    pub quality: u8,
    pub naming: String,
}

/// Scroll-capture settings.
pub struct ScrollshotConfig {
    pub mode: String,
    pub max_length: u32,
    pub scroll_delay_ms: u64,
    pub jpeg_quality: u8,
}

/// Annotation settings.
pub struct AnnotationConfig {
    pub default_color: String,
    pub default_line_width: u32,
    pub font_size: u32,
}

/// Default preview drag mode: the left button drags the window.
pub fn default_preview_drag_mode() -> (res: String)
    ensures
        res@ == "left_drag"@,
{
    "left_drag".to_owned()
}

/// Default preview background: black.
pub fn default_preview_bg_mode() -> (res: String)
    ensures
        res@ == "black"@,
{
    "black".to_owned()
}

/// Default preview position: bottom right.
pub fn default_preview_position() -> (res: String)
    ensures
        res@ == "bottom_right"@,
{
    "bottom_right".to_owned()
}

/// Default modifier for panning inside the preview: Shift.
pub fn default_pan_modifier() -> (res: String)
    ensures
        res@ == "Shift"@,
{
    "Shift".to_owned()
}

/// The main window hides while capturing by default.
pub fn default_hide_ui_on_capture() -> (res: bool)
    ensures
        res,
{
    true
}

impl HotkeyConfig {
    /// Alt+Shift+A region, Ctrl+Alt+A full screen, Ctrl+Shift+A scroll,
    /// Ctrl+Shift+P pin passthrough.
    pub fn defaults() -> (res: Self)
        ensures
            res.screenshot@ == "Alt+Shift+A"@,
            res.screenshot_full@ == "Ctrl+Alt+A"@,
            res.scrollshot@ == "Ctrl+Shift+A"@,
            res.pin_last@ == "Ctrl+Shift+P"@,
    {
        HotkeyConfig {
            screenshot: "Alt+Shift+A".to_owned(),
            screenshot_full: "Ctrl+Alt+A".to_owned(),
            scrollshot: "Ctrl+Shift+A".to_owned(),
            pin_last: "Ctrl+Shift+P".to_owned(),
        }
    }
}

impl SaveConfig {
    /// PNG at quality 90, named `{date}_{time}_{seq}`, into `path`.
    pub fn defaults(path: String) -> (res: Self)
        ensures
            res.path == path,
            res.format@ == "png"@,
            res.quality == 90,
            res.naming@ == "{date}_{time}_{seq}"@,
    {
        SaveConfig { path, format: "png".to_owned(), quality: 90, naming: "{date}_{time}_{seq}".to_owned() }
    }
}

impl ScrollshotConfig {
    /// Automatic mode, at most 30000 rows, 300 ms between scrolls, JPEG 85.
    pub fn defaults() -> (res: Self)
        ensures
            res.mode@ == "auto"@,
            res.max_length == 30000,
            res.scroll_delay_ms == 300,
            res.jpeg_quality == 85,
    {
        ScrollshotConfig { mode: "auto".to_owned(), max_length: 30000, scroll_delay_ms: 300, jpeg_quality: 85 }
    }
}

impl AnnotationConfig {
    /// Red (#FF0000), 3-pixel lines, 16-point text.
    pub fn defaults() -> (res: Self)
        ensures
            res.default_color@ == "#FF0000"@,
            res.default_line_width == 3,
            res.font_size == 16,
    {
        AnnotationConfig { default_color: "#FF0000".to_owned(), default_line_width: 3, font_size: 16 }
    }
}

/// How a saved file's name is finished.
#[derive(Debug, Clone, Copy, PartialEq, Eq, Structural)]
pub enum SaveTarget {
    /// Written as JPEG with the extension set to `.jpg`.
    Jpg,
    /// Written as WebP with the extension set to `.webp`.
    Webp,
    /// Written to the destination as given (format from its extension).
    AsGiven,
}

/// The target for a requested output format (PNG when none is given).
pub fn save_target(format: Option<&str>) -> (res: SaveTarget)
    ensures
        res == (match format {
            Some(f) => if f@ == "jpg"@ || f@ == "jpeg"@ {
                SaveTarget::Jpg
            } else if f@ == "webp"@ {
                SaveTarget::Webp
            } else {
                SaveTarget::AsGiven
            },
            None => SaveTarget::AsGiven,
        }),
{
    match format {
        Some(f) => if str_equals(f, "jpg") || str_equals(f, "jpeg") {
            SaveTarget::Jpg
        } else if str_equals(f, "webp") {
            SaveTarget::Webp
        } else {
            SaveTarget::AsGiven
        },
        None => SaveTarget::AsGiven,
    }
}

/// What a global hotkey does when pressed.
#[derive(Debug, Clone, Copy, PartialEq, Eq, Structural)]
pub enum HotkeyAction {
    /// Announce a region capture to the front end.
    ScreenshotRegion,
    /// Announce a full-screen capture.
    ScreenshotFull,
    /// Announce a scroll capture.
    ScrollCapture,
    /// Flip the mouse passthrough of the pinned window.
    TogglePinPassthrough,
}

impl HotkeyAction {
    /// The event announced to the front end, if the action is one.
    pub fn event_name(&self) -> (res: Option<&'static str>)
        ensures
            match self {
                HotkeyAction::ScreenshotRegion => res matches Some(n) && n@ == "hotkey:screenshot_region"@,
                HotkeyAction::ScreenshotFull => res matches Some(n) && n@ == "hotkey:screenshot_full"@,
                HotkeyAction::ScrollCapture => res matches Some(n) && n@ == "hotkey:scroll_capture"@,
                HotkeyAction::TogglePinPassthrough => res is None,
            },
    {
        match self {
            HotkeyAction::ScreenshotRegion => Some("hotkey:screenshot_region"),
            HotkeyAction::ScreenshotFull => Some("hotkey:screenshot_full"),
            HotkeyAction::ScrollCapture => Some("hotkey:scroll_capture"),
            HotkeyAction::TogglePinPassthrough => None,
        }
    }
}

/// The shortcuts to register, in order, with what each one does.
pub fn hotkey_bindings(h: &HotkeyConfig) -> (res: Vec<(String, HotkeyAction)>)
    ensures
        res@.len() == 4,
        res@[0].0 == h.screenshot && res@[0].1 == HotkeyAction::ScreenshotRegion,
        res@[1].0 == h.screenshot_full && res@[1].1 == HotkeyAction::ScreenshotFull,
        res@[2].0 == h.scrollshot && res@[2].1 == HotkeyAction::ScrollCapture,
        res@[3].0 == h.pin_last && res@[3].1 == HotkeyAction::TogglePinPassthrough,
{
    let mut res: Vec<(String, HotkeyAction)> = Vec::new();
    res.push((h.screenshot.clone(), HotkeyAction::ScreenshotRegion));
    res.push((h.screenshot_full.clone(), HotkeyAction::ScreenshotFull));
    res.push((h.scrollshot.clone(), HotkeyAction::ScrollCapture));
    res.push((h.pin_last.clone(), HotkeyAction::TogglePinPassthrough));
    res
}

/// What a tray menu entry does.
#[derive(Debug, Clone, Copy, PartialEq, Eq, Structural)]
pub enum TrayAction {
    Quit,
    Screenshot,
    Nothing,
}

/// The action of the tray menu entry with the given id.
pub fn tray_menu_action(id: &str) -> (res: TrayAction)
    ensures
        res == (if id@ == "quit"@ {
            TrayAction::Quit
        } else if id@ == "screenshot"@ {
            TrayAction::Screenshot
        } else {
            TrayAction::Nothing
        }),
{
    if str_equals(id, "quit") {
        TrayAction::Quit
    } else if str_equals(id, "screenshot") {
        TrayAction::Screenshot
    } else {
        TrayAction::Nothing
    }
}

} // verus!
