use fetch_screen::column_match::{OffsetAlgorithm, OffsetResult};
use fetch_screen::controller::{
    check_end_of_scroll, scroll_mode_from, simple_frame_similarity, AutoCapture, FrameReport,
    ManualCapture, ScrollMode, Similarity,
};
use fetch_screen::stitcher::{StitchError, Stitcher};

const W: u32 = 20;
const H: u32 = 40;

fn row_gray(row: u32) -> u8 {
    ((row * 53 + 7) % 251) as u8
}

/// A frame showing content rows `shift .. shift + H`.
fn frame(shift: u32) -> Vec<u8> {
    let mut buf = vec![0u8; (W * H * 4) as usize];
    for row in 0..H {
        let g = row_gray(row + shift);
        for col in 0..W {
            let idx = ((row * W + col) * 4) as usize;
            buf[idx] = g;
            buf[idx + 1] = g;
            buf[idx + 2] = g;
            buf[idx + 3] = 255;
        }
    }
    buf
}

fn offset(dy: i32) -> OffsetResult {
    OffsetResult { dy, dx: 0, confidence: 95, algorithm: OffsetAlgorithm::Mad }
}

fn quiet() -> FrameReport {
    FrameReport { progress: false, warning: false, finished: false }
}

#[test]
fn stitcher_starts_empty() {
    let s = Stitcher::new(30000, 7);
    assert!(s.is_empty());
    assert_eq!(s.total_height, 0);
    assert_eq!(s.width, 7);
    assert_eq!(s.max_length, 30000);
    assert!(s.last_frame().is_empty());
    assert_eq!(s.check_finished(), Err(StitchError::NoFrames));
}

#[test]
fn stitcher_first_frame_then_append_bottom_rows() {
    let mut s = Stitcher::new(1000, W);
    let f0 = frame(0);
    s.add_first_frame(&f0, W, H);
    assert!(!s.is_empty());
    assert_eq!(s.frame_count, 1);
    assert_eq!(s.canvas, f0);
    assert_eq!(s.check_finished(), Ok(()));

    let f1 = frame(3);
    s.append_frame(&f1, W, H, &offset(3));
    assert_eq!(s.total_height, H + 3);
    assert_eq!(s.frame_count, 2);
    let row_bytes = (W * 4) as usize;
    let mut expected = f0.clone();
    expected.extend_from_slice(&f1[(H as usize - 3) * row_bytes..]);
    assert_eq!(s.canvas, expected);
    assert_eq!(s.last_frame(), &f1[..]);
}

#[test]
fn stitcher_append_clamps_rows() {
    let mut s = Stitcher::new(1000, W);
    s.add_first_frame(&frame(0), W, H);
    // no movement still appends one row
    s.append_frame(&frame(0), W, H, &offset(0));
    assert_eq!(s.total_height, H + 1);
    // negative scroll counts as none
    s.append_frame(&frame(0), W, H, &offset(-7));
    assert_eq!(s.total_height, H + 2);
    // more than a frame is capped at the frame height
    s.append_frame(&frame(0), W, H, &offset(1000));
    assert_eq!(s.total_height, 2 * H + 2);
    assert_eq!(s.canvas.len(), ((2 * H + 2) * W * 4) as usize);
}

#[test]
fn stitcher_append_with_short_frame_copies_what_exists() {
    let mut s = Stitcher::new(1000, 2);
    s.add_first_frame(&[1u8; 8], 2, 1);
    // frame claims 2 rows of width 2 but holds only 12 bytes
    let data: Vec<u8> = (10..22u8).collect();
    s.append_frame(&data, 2, 2, &offset(2));
    assert_eq!(s.total_height, 3);
    let mut expected = vec![1u8; 8];
    expected.extend_from_slice(&data[0..8]);
    expected.extend_from_slice(&data[8..12]);
    expected.extend_from_slice(&[0u8; 4]);
    assert_eq!(s.canvas, expected);
}

#[test]
fn stitcher_resync_keeps_canvas() {
    let mut s = Stitcher::new(1000, W);
    s.add_first_frame(&frame(0), W, H);
    let before = s.canvas.clone();
    let f = frame(9);
    s.resync(&f, W, H);
    assert_eq!(s.canvas, before);
    assert_eq!(s.frame_count, 1);
    assert_eq!(s.total_height, H);
    assert_eq!(s.last_frame(), &f[..]);
}

#[test]
fn similarity_of_frames() {
    let a = frame(0);
    assert_eq!(simple_frame_similarity(&a, &a), Similarity { matches: 3200, samples: 3200 });
    assert_eq!(simple_frame_similarity(&a, &a[..10]), Similarity { matches: 0, samples: 0 });
    let big = vec![7u8; 10000];
    let mut other = big.clone();
    other[0] = 100;
    // stride 5 over 10000 bytes: 2000 samples, the first differs
    assert_eq!(simple_frame_similarity(&big, &other), Similarity { matches: 1999, samples: 2000 });
    assert_eq!(simple_frame_similarity(&other, &big), simple_frame_similarity(&big, &other));
}

#[test]
fn end_of_scroll_probe() {
    let a = frame(0);
    assert_eq!(
        check_end_of_scroll(&a, &a),
        OffsetResult { dy: 0, dx: 0, confidence: 0, algorithm: OffsetAlgorithm::EndDetect }
    );
    let b = frame(11);
    assert_eq!(check_end_of_scroll(&b, &a).confidence, 40);
    assert_eq!(check_end_of_scroll(&b, &a).algorithm.name(), "low_confidence");
}

#[test]
fn scroll_mode_names() {
    assert_eq!(scroll_mode_from(Some("auto")), ScrollMode::Auto);
    assert_eq!(scroll_mode_from(Some("manual")), ScrollMode::Manual);
    assert_eq!(scroll_mode_from(None), ScrollMode::Manual);
}

#[test]
fn manual_capture_waits_for_two_stable_matches() {
    let mut c = ManualCapture::new("vertical".to_string(), 16, 30000, W);
    assert_eq!(c.fast_streak, 2);
    assert!(!c.should_stop(true, 0));
    assert!(c.should_stop(false, 0));

    let r = c.on_frame(&frame(0), W, H, 0);
    assert_eq!(r, FrameReport { progress: true, warning: false, finished: false });
    assert_eq!(c.stitcher.total_height, H);

    // unchanged frame: timer starts, nothing appended
    assert_eq!(c.on_frame(&frame(0), W, H, 100), quiet());
    assert_eq!(c.no_change_since, Some(100));
    assert_eq!(c.on_frame(&frame(0), W, H, 200), quiet());
    assert_eq!(c.no_change_since, Some(100));

    // no scroll was too fast yet: the first good match is stitched at once
    let f1 = frame(5);
    let r = c.on_frame(&f1, W, H, 300);
    assert_eq!(r, FrameReport { progress: true, warning: false, finished: false });
    assert_eq!(c.no_change_since, None);
    assert_eq!(c.stitcher.total_height, H + 5);
    assert_eq!(c.hint_dy, Some(5));
    assert_eq!(c.fast_streak, 2);
    let row_bytes = (W * 4) as usize;
    assert_eq!(&c.stitcher.canvas[(H as usize) * row_bytes..], &f1[(H as usize - 5) * row_bytes..]);
    assert_eq!(c.stitcher.frame_count, 2);

    // scrolled too fast: warning, re-anchor, throttle armed
    let mut noise = vec![0u8; (W * H * 4) as usize];
    for (i, b) in noise.iter_mut().enumerate() {
        *b = if (i / 4 / W as usize) % 2 == 0 { 0 } else { 250 };
    }
    let r = c.on_frame(&noise, W, H, 400);
    assert_eq!(r, FrameReport { progress: false, warning: true, finished: false });
    assert_eq!(c.fast_streak, 0);
    assert_eq!(c.hint_dy, None);
    assert_eq!(c.stitcher.total_height, H + 5);

    // back on real content: still no match against the noise
    let r = c.on_frame(&frame(20), W, H, 500);
    assert_eq!(r, FrameReport { progress: false, warning: true, finished: false });
    assert_eq!(c.fast_streak, 0);

    // two good matches only re-anchor
    assert_eq!(c.on_frame(&frame(25), W, H, 600), quiet());
    assert_eq!(c.fast_streak, 1);
    assert_eq!(c.on_frame(&frame(30), W, H, 700), quiet());
    assert_eq!(c.fast_streak, 2);
    assert_eq!(c.stitcher.total_height, H + 5);
    assert_eq!(c.stitcher.frame_count, 2);

    // the third one is stitched
    let f3 = frame(35);
    let r = c.on_frame(&f3, W, H, 800);
    assert_eq!(r, FrameReport { progress: true, warning: false, finished: false });
    assert_eq!(c.stitcher.total_height, H + 10);
    assert_eq!(c.hint_dy, Some(5));
    assert_eq!(
        &c.stitcher.canvas[((H + 5) as usize) * row_bytes..],
        &f3[(H as usize - 5) * row_bytes..]
    );
    assert_eq!(c.stitcher.frame_count, 3);
}

#[test]
fn manual_capture_warns_when_track_is_lost() {
    let mut c = ManualCapture::new("vertical".to_string(), 16, 30000, W);
    c.on_frame(&frame(0), W, H, 0);
    // unrelated content: no match below MAD 30
    let mut noise = vec![0u8; (W * H * 4) as usize];
    for (i, b) in noise.iter_mut().enumerate() {
        *b = if (i / 4 / W as usize) % 2 == 0 { 0 } else { 250 };
    }
    let r = c.on_frame(&noise, W, H, 10);
    assert_eq!(r, FrameReport { progress: false, warning: true, finished: false });
    assert_eq!(c.fast_streak, 0);
    assert_eq!(c.hint_dy, None);
    assert_eq!(c.stitcher.last_frame(), &noise[..]);
    assert_eq!(c.stitcher.total_height, H);
}

#[test]
fn manual_capture_stops_after_three_quiet_seconds() {
    let mut c = ManualCapture::new("vertical".to_string(), 16, 30000, W);
    c.on_frame(&frame(0), W, H, 0);
    c.on_frame(&frame(0), W, H, 1000);
    // only one frame so far: no automatic stop
    assert!(!c.should_stop(true, 5000));
    c.stitcher.frame_count = 2;
    assert!(!c.should_stop(true, 3999));
    assert!(c.should_stop(true, 4000));
    // reaching the maximum length stops as well
    let mut d = ManualCapture::new("vertical".to_string(), 16, H, W);
    d.on_frame(&frame(0), W, H, 0);
    assert!(d.should_stop(true, 0));
}

#[test]
fn auto_capture_stitches_each_match_and_finishes_at_bottom() {
    let mut c = AutoCapture::new("vertical".to_string(), 16, 30000, W);
    assert!(!c.should_stop(true));
    let r = c.on_frame(&frame(0), W, H, 0);
    assert!(r.progress);
    let r = c.on_frame(&frame(6), W, H, 300);
    assert_eq!(r, FrameReport { progress: true, warning: false, finished: false });
    assert_eq!(c.stitcher.total_height, H + 6);
    assert_eq!(c.hint_dy, Some(6));
    // bottom reached: 5 seconds of identical frames end the capture
    assert_eq!(c.on_frame(&frame(6), W, H, 1000), quiet());
    assert_eq!(c.no_change_since, Some(1000));
    assert_eq!(c.on_frame(&frame(6), W, H, 5999), quiet());
    assert_eq!(
        c.on_frame(&frame(6), W, H, 6000),
        FrameReport { progress: false, warning: false, finished: true }
    );
    assert_eq!(c.stitcher.total_height, H + 6);
}

#[test]
fn auto_capture_falls_back_to_hint() {
    let mut c = AutoCapture::new("vertical".to_string(), 16, 30000, W);
    c.on_frame(&frame(0), W, H, 0);
    c.on_frame(&frame(4), W, H, 1);
    assert_eq!(c.hint_dy, Some(4));
    // a white frame matches nothing below MAD 30: the last scroll is reused
    let white = vec![255u8; (W * H * 4) as usize];
    let r = c.on_frame(&white, W, H, 2);
    assert!(r.progress);
    assert_eq!(c.stitcher.total_height, H + 4 + 4);
}
