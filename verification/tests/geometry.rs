use fetch_screen::desktop::{
    containing_monitor, desktop_bounds, desktop_extent, hide_for_capture, offset_in_monitor,
    region_center, region_frame_size, to_screen_region, virtual_desktop_origin, window_extent,
    window_is_listed, CaptureRegion, CaptureState, MonitorRect, OverlayPayload, ScrollFramePayload,
    VirtualDesktopInfo,
};
use fetch_screen::hitbox::Hitbox;
use fetch_screen::pixels::{
    app_bg_sample_rect, bgra_mostly_app_bg, bgra_to_rgba, crop_rect, display_affinity, half_i32,
};

fn mon(x: i32, y: i32, width: u32, height: u32) -> MonitorRect {
    MonitorRect { x, y, width, height }
}

#[test]
fn desktop_bounds_cover_all_monitors() {
    let ms = vec![mon(0, 0, 1920, 1080), mon(-1280, 200, 1280, 1024), mon(1920, -300, 2560, 1440)];
    assert_eq!(desktop_bounds(&ms), (-1280, -300, 4480, 1224));
    assert_eq!(desktop_bounds(&Vec::new()), (i32::MAX, i32::MAX, i32::MIN, i32::MIN));
}

#[test]
fn origin_of_desktop() {
    assert_eq!(virtual_desktop_origin((-1280, -300, 4480, 1224)), (-1280, -300));
    assert_eq!(virtual_desktop_origin((i32::MAX, i32::MAX, i32::MIN, i32::MIN)), (0, 0));
}

#[test]
fn desktop_extent_refuses_empty_box() {
    assert_eq!(desktop_extent((-10, -20, 90, 80)), Some((100, 100)));
    assert_eq!(desktop_extent((0, 0, 0, 0)), None);
    assert_eq!(desktop_extent((5, 0, 4, 10)), None);
}

#[test]
fn regions_move_to_screen_and_centre() {
    let r = CaptureRegion { x: 10, y: 20, width: 100, height: 51 };
    assert_eq!(to_screen_region(r, (-1280, -300)), CaptureRegion { x: -1270, y: -280, width: 100, height: 51 });
    assert_eq!(region_center(r), (60, 45));
    assert_eq!(region_frame_size(r), Some((100, 51)));
    assert_eq!(region_frame_size(CaptureRegion { x: 0, y: 0, width: 0, height: 5 }), None);
    assert_eq!(region_frame_size(CaptureRegion { x: 0, y: 0, width: u32::MAX, height: 5 }), None);
    assert_eq!(half_i32(-7), -3);
}

#[test]
fn windows_listed_and_measured() {
    assert!(window_is_listed(true, false, "Editor"));
    assert!(!window_is_listed(true, false, ""));
    assert!(!window_is_listed(true, false, "Program Manager"));
    assert!(!window_is_listed(false, false, "Editor"));
    assert!(!window_is_listed(true, true, "Editor"));
    assert_eq!(window_extent(10, 20, 110, 70), (100, 50));
    assert_eq!(window_extent(10, 20, 5, 70), (0, 50));
}

#[test]
fn window_capture_picks_containing_monitor() {
    let ms = vec![mon(0, 0, 1920, 1080), mon(1920, 0, 1920, 1080)];
    assert_eq!(containing_monitor(&ms, 2000, 100, 300, 200), 1);
    assert_eq!(containing_monitor(&ms, 100, 100, 300, 200), 0);
    // straddling both: falls back to the first monitor
    assert_eq!(containing_monitor(&ms, 1800, 100, 300, 200), 0);
    assert_eq!(offset_in_monitor(ms[1], 2000, -5), (80, 0));
    assert_eq!(offset_in_monitor(ms[1], 1900, 40), (0, 40));
}

#[test]
fn hiding_the_main_window() {
    assert!(hide_for_capture(true, Some(true)));
    assert!(hide_for_capture(true, None));
    assert!(!hide_for_capture(true, Some(false)));
    assert!(!hide_for_capture(false, Some(true)));
}

#[test]
fn capture_state_starts_clear() {
    let mut s = CaptureState::new();
    assert!(s.last_fullscreen_path.is_none());
    assert!(s.pending_overlay.is_none());
    assert!(s.pending_overlay_base.is_none());
    assert!(s.pending_preview.is_none());
    assert!(s.current_pin_label.is_none());
    assert!(!s.pin_passthrough);
    assert!(s.pin_handle_label.is_none());
    assert!(s.pending_scroll_region.is_none());
    assert!(s.pending_scroll_frame.is_none());
    assert_eq!(s.toggle_pin_passthrough(), None);
    s.current_pin_label = Some("preview_1".to_string());
    assert_eq!(s.toggle_pin_passthrough(), Some(true));
    assert_eq!(s.toggle_pin_passthrough(), Some(false));
    assert!(!s.pin_passthrough);
}

#[test]
fn payloads() {
    let info = VirtualDesktopInfo { x: -5, y: 3, width: 10, height: 20 };
    let p = OverlayPayload::for_desktop(info, "data:x".to_string());
    assert_eq!(p.image_path, "");
    assert_eq!((p.origin_x, p.origin_y, p.width, p.height), (-5, 3, 10, 20));
    assert_eq!(p.image_data_url, "data:x");
    let f = ScrollFramePayload::new(1, 2, 3, 4, (-1280, -300, 4480, 1224));
    assert_eq!(
        f,
        ScrollFramePayload { x: 1, y: 2, width: 3, height: 4, desktop_width: 5760, desktop_height: 1524 }
    );
}

#[test]
fn hitbox_layout() {
    let hb = Hitbox::for_window(200, 100);
    assert_eq!(hb.toolbar, Some((0, 52, 200, 48)));
    assert_eq!(hb.resize_handles, vec![(0, 0, 8, 8), (192, 0, 8, 8), (0, 92, 8, 8), (192, 92, 8, 8)]);
    assert_eq!(hb.close_button, Some((164, 4, 32, 32)));
    assert!(hb.hit_test(100, 60)); // tool bar
    assert!(hb.hit_test(170, 10)); // close button
    assert!(hb.hit_test(3, 3)); // corner
    assert!(hb.hit_test(195, 95)); // corner
    assert!(!hb.hit_test(100, 40)); // inside: passes through
    assert!(!hb.hit_test(200, 60)); // right of the window
    let small = Hitbox::for_window(40, 40);
    assert_eq!(small.toolbar, None);
    assert!(!small.hit_test(20, 39));
}

#[test]
fn bgra_becomes_opaque_rgba() {
    let mut buf = vec![1u8, 2, 3, 4, 5, 6, 7, 8, 9];
    bgra_to_rgba(&mut buf);
    assert_eq!(buf, vec![3u8, 2, 1, 255, 7, 6, 5, 255, 9]);
}

#[test]
fn main_window_probe() {
    let bg = [22u8, 17, 15, 0];
    let white = [255u8, 255, 255, 0];
    let mut two_bg = bg.to_vec();
    two_bg.extend_from_slice(&bg);
    assert!(bgra_mostly_app_bg(&two_bg));
    let mut half = bg.to_vec();
    half.extend_from_slice(&white);
    assert!(!bgra_mostly_app_bg(&half));
    assert!(!bgra_mostly_app_bg(&[]));
    // 23 away from the colour still counts, 24 does not
    assert!(bgra_mostly_app_bg(&[45, 17, 15, 0]));
    assert!(!bgra_mostly_app_bg(&[46, 17, 15, 0]));
    assert_eq!(app_bg_sample_rect(0, 0, 100, 100), (26, 26, 48, 48));
    assert_eq!(app_bg_sample_rect(10, 10, 4, 30), (8, 10, 8, 30));
    assert_eq!(display_affinity(true), 0x11);
    assert_eq!(display_affinity(false), 0);
}

#[test]
fn crop_is_clamped_to_image() {
    assert_eq!(crop_rect(100, 50, -10, 20, 500, 10), (0, 20, 100, 10));
    assert_eq!(crop_rect(100, 50, 150, 60, 10, 10), (100, 50, 1, 1));
    assert_eq!(crop_rect(100, 50, 10, 10, 0, 0), (10, 10, 1, 1));
    assert_eq!(crop_rect(100, 50, 90, 45, 30, 30), (90, 45, 10, 5));
}
