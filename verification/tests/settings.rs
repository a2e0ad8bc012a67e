use fetch_screen::cache::{get_cache_dir, set_cache_dir};
use fetch_screen::config::{
    hotkey_bindings, tray_menu_action, HotkeyAction, TrayAction,
    default_hide_ui_on_capture, default_pan_modifier, default_preview_bg_mode,
    default_preview_drag_mode, default_preview_position, save_target, AnnotationConfig,
    HotkeyConfig, SaveConfig, SaveTarget, ScrollshotConfig,
};
use fetch_screen::encoding::{encode_jpeg_data_url, jpeg_data_url, EncodeError};
use fetch_screen::fft::next_power_of_two;
use fetch_screen::pins::{PinError, PinManagerState, PinState};

fn pin(id: &str) -> PinState {
    PinState::new_pinned(id.to_string(), format!("/tmp/pin_{}.png", id), 1, 2, 30, 40)
}

#[test]
fn new_pin_starts_click_through() {
    let p = PinState::new_pinned("p7".to_string(), "/cache/p7.png".to_string(), -5, 12, 300, 200);
    assert_eq!(p.id, "p7");
    assert_eq!(p.image_path, "/cache/p7.png");
    assert_eq!((p.x, p.y, p.width, p.height), (-5, 12, 300, 200));
    assert!(p.click_through);
    assert!(!p.is_minimized);
}

#[test]
fn default_settings() {
    assert_eq!(default_preview_drag_mode(), "left_drag");
    assert_eq!(default_preview_bg_mode(), "black");
    assert_eq!(default_preview_position(), "bottom_right");
    assert_eq!(default_pan_modifier(), "Shift");
    assert!(default_hide_ui_on_capture());
    let h = HotkeyConfig::defaults();
    assert_eq!(
        (h.screenshot.as_str(), h.screenshot_full.as_str(), h.scrollshot.as_str(), h.pin_last.as_str()),
        ("Alt+Shift+A", "Ctrl+Alt+A", "Ctrl+Shift+A", "Ctrl+Shift+P")
    );
    let s = SaveConfig::defaults("/home/u/Pictures".to_string());
    assert_eq!(
        (s.path.as_str(), s.format.as_str(), s.quality, s.naming.as_str()),
        ("/home/u/Pictures", "png", 90, "{date}_{time}_{seq}")
    );
    let sc = ScrollshotConfig::defaults();
    assert_eq!((sc.mode.as_str(), sc.max_length, sc.scroll_delay_ms, sc.jpeg_quality), ("auto", 30000, 300, 85));
    let a = AnnotationConfig::defaults();
    assert_eq!((a.default_color.as_str(), a.default_line_width, a.font_size), ("#FF0000", 3, 16));
}

#[test]
fn save_targets() {
    assert_eq!(save_target(Some("jpg")), SaveTarget::Jpg);
    assert_eq!(save_target(Some("jpeg")), SaveTarget::Jpg);
    assert_eq!(save_target(Some("webp")), SaveTarget::Webp);
    assert_eq!(save_target(Some("png")), SaveTarget::AsGiven);
    assert_eq!(save_target(None), SaveTarget::AsGiven);
}

#[test]
fn cache_dir_set_and_read() {
    let mut slot: Option<String> = None;
    assert_eq!(get_cache_dir(&slot, "/tmp/fetch_screen".to_string()), "/tmp/fetch_screen");
    set_cache_dir(&mut slot, String::new());
    assert_eq!(slot, None);
    set_cache_dir(&mut slot, "/data/shots".to_string());
    assert_eq!(get_cache_dir(&slot, "/tmp/fetch_screen".to_string()), "/data/shots");
    set_cache_dir(&mut slot, String::new());
    assert_eq!(get_cache_dir(&slot, "/tmp/fetch_screen".to_string()), "/data/shots");
}

#[test]
fn powers_of_two() {
    assert_eq!(next_power_of_two(0), 1);
    assert_eq!(next_power_of_two(1), 1);
    assert_eq!(next_power_of_two(5), 8);
    assert_eq!(next_power_of_two(64), 64);
    assert_eq!(next_power_of_two(65), 128);
}

#[test]
fn pins_are_bounded() {
    let mut m = PinManagerState::new();
    assert_eq!(m.max_pins, 8);
    for i in 0..8 {
        assert_eq!(m.check_capacity(), Ok(()));
        m.add(pin(&i.to_string()));
    }
    assert_eq!(m.active_count(), 8);
    assert_eq!(m.check_capacity(), Err(PinError::LimitReached(8)));
    m.remove("3");
    assert_eq!(m.active_count(), 7);
    assert!(m.pins.iter().all(|p| p.id != "3"));
    assert_eq!(m.check_capacity(), Ok(()));
    m.remove("missing");
    assert_eq!(m.active_count(), 7);
}

#[test]
fn pin_toggle_flips_and_restores() {
    let mut m = PinManagerState::new();
    m.add(pin("a"));
    m.add(pin("b"));
    assert_eq!(m.toggle_interaction("b"), Ok(false));
    assert!(!m.pins[1].click_through);
    assert!(m.pins[0].click_through);
    assert_eq!(m.toggle_interaction("b"), Ok(true));
    assert!(m.pins[1].click_through);
    assert_eq!(m.toggle_interaction("zz"), Err(PinError::NotFound));
}

#[test]
fn base64_data_urls() {
    assert_eq!(jpeg_data_url(&[1, 2, 3]), "data:image/jpeg;base64,AQID");
    assert_eq!(jpeg_data_url(&[0xff]), "data:image/jpeg;base64,/w==");
    assert_eq!(jpeg_data_url(&[0xfb, 0xff]), "data:image/jpeg;base64,+/8=");
    assert_eq!(jpeg_data_url(&[]), "data:image/jpeg;base64,");
    assert_eq!(jpeg_data_url(b"Man"), "data:image/jpeg;base64,TWFu");
}

#[test]
fn jpeg_data_url_of_image() {
    let pixels = vec![200u8; 8 * 8 * 4];
    let url = encode_jpeg_data_url(&pixels, 8, 8).unwrap();
    // JPEG files start with FF D8 FF, which is "/9j/" in base64
    assert!(url.starts_with("data:image/jpeg;base64,/9j/"));
    assert_eq!(encode_jpeg_data_url(&pixels[..10], 8, 8), Err(EncodeError::Jpeg));
}

#[test]
fn hotkeys_bind_in_order() {
    let b = hotkey_bindings(&HotkeyConfig::defaults());
    let names: Vec<&str> = b.iter().map(|(n, _)| n.as_str()).collect();
    assert_eq!(names, vec!["Alt+Shift+A", "Ctrl+Alt+A", "Ctrl+Shift+A", "Ctrl+Shift+P"]);
    let events: Vec<Option<&str>> = b.iter().map(|(_, a)| a.event_name()).collect();
    assert_eq!(
        events,
        vec![
            Some("hotkey:screenshot_region"),
            Some("hotkey:screenshot_full"),
            Some("hotkey:scroll_capture"),
            None
        ]
    );
    assert_eq!(b[3].1, HotkeyAction::TogglePinPassthrough);
}

#[test]
fn tray_menu_entries() {
    assert_eq!(tray_menu_action("quit"), TrayAction::Quit);
    assert_eq!(tray_menu_action("screenshot"), TrayAction::Screenshot);
    assert_eq!(tray_menu_action("other"), TrayAction::Nothing);
}

#[test]
fn correlation_peak_shifts() {
    assert_eq!(fetch_screen::fft::signed_shift(3, 16), 3);
    assert_eq!(fetch_screen::fft::signed_shift(8, 16), 8);
    assert_eq!(fetch_screen::fft::signed_shift(9, 16), -7);
    assert_eq!(fetch_screen::fft::signed_shift(0, 1), 0);
}
