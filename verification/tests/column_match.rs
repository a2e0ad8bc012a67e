use fetch_screen::column_match::{
    compute_offset, extract_column, mad_3cols, MadScore, OffsetAlgorithm, OffsetResult,
};

#[test]
fn test_extract_column_all_white() {
    let width = 4u32;
    let height = 4u32;
    let frame = vec![255u8; (width * height * 4) as usize];
    let signal = extract_column(&frame, width, height, 1);
    assert_eq!(signal.len(), 4);
    assert!(signal.iter().all(|&v| v == 255));
}

#[test]
fn test_compute_offset_detects_scroll() {
    let width = 200u32;
    let height = 300u32;
    let pattern = |abs_row: u32| -> u8 { ((abs_row * 37 + 11) % 256) as u8 };
    let make = |row_offset: u32| -> Vec<u8> {
        let mut buf = vec![0u8; (width * height * 4) as usize];
        for row in 0..height {
            let g = pattern(row + row_offset);
            for col in 0..width {
                let idx = ((row * width + col) * 4) as usize;
                buf[idx] = g;
                buf[idx + 1] = g;
                buf[idx + 2] = g;
                buf[idx + 3] = 255;
            }
        }
        buf
    };

    let frame_a = make(0);
    let frame_b = make(50);

    let overlap_rows = (height as f32 * 0.6f32) as i32;
    let off = compute_offset(&frame_a, &frame_b, width, height, 40, overlap_rows, "vertical");
    assert!((off.dy - 50).abs() <= 1, "期望 dy≈50，实际 {}", off.dy);
    assert!(off.confidence as f64 / 100.0 > 0.8, "置信度过低: {}", off.confidence);
}

#[test]
fn extract_column_gray_weights_and_short_frame() {
    // one pixel per row, 2 rows; second row missing from the buffer
    let frame = vec![100u8, 200, 50, 255];
    let signal = extract_column(&frame, 1, 2, 0);
    // (100*299 + 200*587 + 50*114) / 1000 = 153
    assert_eq!(signal, vec![153u8, 0]);
}

#[test]
fn extract_column_clamps_to_last_column() {
    // 2x1 image: column 0 black, column 1 white
    let frame = vec![0u8, 0, 0, 255, 255, 255, 255, 255];
    assert_eq!(extract_column(&frame, 2, 1, 7), vec![255u8]);
}

#[test]
fn mad_of_identical_shifted_columns_is_zero() {
    let col: Vec<u8> = (0..20u8).collect();
    let shifted: Vec<u8> = (5..25u8).collect();
    let prev = vec![col.clone(), col.clone(), col.clone()];
    let next = vec![shifted.clone(), shifted.clone(), shifted.clone()];
    let m = mad_3cols(&prev, &next, 5, 20);
    assert_eq!(m, MadScore { total: 0, count: 45 });
    let m2 = mad_3cols(&prev, &next, 4, 20);
    assert_eq!(m2, MadScore { total: 48, count: 48 });
}

#[test]
fn compute_offset_too_small() {
    let frame = vec![0u8; 9 * 9 * 4];
    let off = compute_offset(&frame, &frame, 9, 9, 1, 4, "vertical");
    assert_eq!(off, OffsetResult { dy: 0, dx: 0, confidence: 0, algorithm: OffsetAlgorithm::MadTooSmall });
    assert_eq!(off.algorithm.name(), "mad_too_small");
}

#[test]
fn compute_offset_horizontal_reports_dx() {
    let width = 40u32;
    let height = 60u32;
    let make = |shift: u32| -> Vec<u8> {
        let mut buf = vec![0u8; (width * height * 4) as usize];
        for row in 0..height {
            let g = (((row + shift) * 53 + 7) % 251) as u8;
            for col in 0..width {
                let idx = ((row * width + col) * 4) as usize;
                buf[idx] = g;
                buf[idx + 1] = g;
                buf[idx + 2] = g;
            }
        }
        buf
    };
    let a = make(0);
    let b = make(20);
    let off = compute_offset(&a, &b, width, height, 1, 24, "horizontal");
    assert_eq!(off.dy, 0);
    assert_eq!(off.dx, 20);
    assert_eq!(off.confidence, 95);
    let other = compute_offset(&a, &b, width, height, 1, 24, "diagonal");
    assert_eq!((other.dx, other.dy), (0, 0));
}

#[test]
fn exact_scroll_with_matching_hint_is_reported() {
    let width = 30u32;
    let height = 50u32;
    let make = |shift: u32| -> Vec<u8> {
        let mut buf = vec![0u8; (width * height * 4) as usize];
        for row in 0..height {
            let g = (((row + shift) * 37 + 11) % 256) as u8;
            for col in 0..width {
                let idx = ((row * width + col) * 4) as usize;
                buf[idx] = g;
                buf[idx + 1] = g;
                buf[idx + 2] = g;
            }
        }
        buf
    };
    let off = compute_offset(&make(0), &make(12), width, height, 12, 20, "vertical");
    assert_eq!(off, OffsetResult { dy: 12, dx: 0, confidence: 95, algorithm: OffsetAlgorithm::Mad });
}
