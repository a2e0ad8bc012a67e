//! Pixel-level helpers around screen grabs: channel order of GDI buffers,
//! the probe that tells whether the tool's own window is still on screen,
//! and the clamped crop rectangle.
use vstd::prelude::*;

verus! {

/// Byte `i` of a 32-bit BGRA buffer after conversion to opaque RGBA: blue and
/// red swap, alpha becomes 255; bytes after the last whole pixel stay.
pub open spec fn rgba_byte(old: Seq<u8>, i: int) -> u8 {
    let whole = old.len() - old.len() % 4;
    if i >= whole {
        old[i]
    } else if i % 4 == 0 {
        old[i + 2]
    } else if i % 4 == 2 {
        old[i - 2]
    } else if i % 4 == 3 {
        255
    } else {
        old[i]
    }
}

/// Converts a GDI BGRA buffer to opaque RGBA in place.
pub fn bgra_to_rgba(buf: &mut Vec<u8>)
    ensures
        final(buf)@.len() == old(buf)@.len(),
        forall|i: int| 0 <= i < old(buf)@.len() ==> #[trigger] final(buf)@[i] == rgba_byte(old(buf)@, i),
{
    let len = buf.len();
    let whole = len - len % 4;
    let mut p: usize = 0;
    while p < whole
        invariant
            len == buf@.len(),
            len == old(buf)@.len(),
            whole == len - len % 4,
            p % 4 == 0,
            p <= whole,
            forall|i: int| 0 <= i < p ==> #[trigger] buf@[i] == rgba_byte(old(buf)@, i),
            forall|i: int| p <= i < len ==> #[trigger] buf@[i] == old(buf)@[i],
        decreases whole - p,
    {
        let r = buf[p + 2];
        let b = buf[p];
        buf[p + 2] = b;
        buf[p] = r;
        buf[p + 3] = 255;
        p = p + 4;
    }
}

// ---------------------------------------------------------------------------
// Is the tool's own window still visible?
// ---------------------------------------------------------------------------

/// Background colour of the main window (#0f1116).
pub const APP_BG_R: i32 = 15;
pub const APP_BG_G: i32 = 17;
pub const APP_BG_B: i32 = 22;

/// Rust's `/ 2` on `i32` (rounds toward zero).
pub open spec fn half_toward_zero(v: int) -> int {
    if v >= 0 { v / 2 } else { -((-v) / 2) }
}

/// The sample taken from a window rectangle: at most 48x48 pixels, at
/// least 8x8, centred.
pub open spec fn sample_rect_spec(x: i32, y: i32, w: i32, h: i32) -> (i32, i32, i32, i32) {
    let sw = if w <= 48 { if w >= 8 { w } else { 8 } } else { 48 };
    let sh = if h <= 48 { if h >= 8 { h } else { 8 } } else { 48 };
    ((x + half_toward_zero(w - sw)) as i32, (y + half_toward_zero(h - sh)) as i32, sw, sh)
}

/// The centred sample keeps its coordinates within `i32`.
pub open spec fn sample_rect_fits(x: i32, y: i32, w: i32, h: i32) -> bool {
    let sw = if w <= 48 { if w >= 8 { w } else { 8 } } else { 48 };
    let sh = if h <= 48 { if h >= 8 { h } else { 8 } } else { 48 };
    &&& i32::MIN <= w - sw <= i32::MAX
    &&& i32::MIN <= h - sh <= i32::MAX
    &&& i32::MIN <= x + half_toward_zero(w - sw) <= i32::MAX
    &&& i32::MIN <= y + half_toward_zero(h - sh) <= i32::MAX
}

/// `v / 2` as `i32` division computes it (rounding toward zero).
pub fn half_i32(v: i32) -> (res: i32)
    ensures
        res == half_toward_zero(v as int),
{
    if v >= 0 { v / 2 } else { -((-(v as i64)) / 2) as i32 }
}

/// Position and size `(sx, sy, sw, sh)` of the probe taken from the window
/// rectangle `(x, y, w, h)`.
pub fn app_bg_sample_rect(x: i32, y: i32, w: i32, h: i32) -> (res: (i32, i32, i32, i32))
    requires
        sample_rect_fits(x, y, w, h),
    ensures
        res == sample_rect_spec(x, y, w, h),
{
    let sw = if w <= 48 { if w >= 8 { w } else { 8 } } else { 48 };
    let sh = if h <= 48 { if h >= 8 { h } else { 8 } } else { 48 };
    let sx = x + half_i32(w - sw);
    let sy = y + half_i32(h - sh);
    (sx, sy, sw, sh)
}

/// A channel lies within 24 of the background value.
pub open spec fn near(c: u8, target: int) -> bool {
    -24 < c - target < 24
}

/// Pixel `k` (BGRA) has the main window's background colour.
pub open spec fn is_app_bg_pixel(buf: Seq<u8>, k: int) -> bool {
    near(buf[4 * k + 2], 15) && near(buf[4 * k + 1], 17) && near(buf[4 * k], 22)
}

/// Number of background-coloured pixels among the first `n` whole pixels.
pub open spec fn app_bg_count(buf: Seq<u8>, n: int) -> int
    decreases n,
{
    if n <= 0 {
        0
    } else {
        app_bg_count(buf, n - 1) + if is_app_bg_pixel(buf, n - 1) { 1int } else { 0 }
    }
}

/// More than half of the whole BGRA pixels of the probe have the window's
/// background colour.
pub open spec fn mostly_app_bg_spec(buf: Seq<u8>) -> bool {
    let n = (buf.len() / 4) as int;
    2 * app_bg_count(buf, n) > n
}

proof fn lemma_app_bg_count_bound(buf: Seq<u8>, n: int)
    ensures
        0 <= app_bg_count(buf, n) <= if n > 0 { n } else { 0 },
    decreases n,
{
    if n > 0 {
        lemma_app_bg_count_bound(buf, n - 1);
    }
}

/// Whether a BGRA probe still shows the main window (over half its pixels
/// have the window's background colour).
pub fn bgra_mostly_app_bg(buf: &[u8]) -> (res: bool)
    ensures
        res == mostly_app_bg_spec(buf@),
{
    let n = buf.len() / 4;
    let mut dark: u64 = 0;
    let mut k: usize = 0;
    while k < n
        invariant
            n == buf@.len() / 4,
            4 * n <= buf.len(),
            k <= n,
            dark == app_bg_count(buf@, k as int),
            dark <= k,
        decreases n - k,
    {
        proof {
            lemma_app_bg_count_bound(buf@, k as int);
        }
        let b = buf[4 * k] as i32;
        let g = buf[4 * k + 1] as i32;
        let r = buf[4 * k + 2] as i32;
        if -24 < r - APP_BG_R && r - APP_BG_R < 24 && -24 < g - APP_BG_G && g - APP_BG_G < 24 && -24 < b
            - APP_BG_B && b - APP_BG_B < 24 {
            dark = dark + 1;
        }
        k = k + 1;
    }
    2 * (dark as u128) > n as u128
}

/// Display affinity that hides a window from screen capture, or the normal
/// one (`WDA_EXCLUDEFROMCAPTURE` = 0x11, `WDA_NONE` = 0).
pub fn display_affinity(exclude: bool) -> (res: u32)
    ensures
        res == (if exclude { 0x11u32 } else { 0u32 }),
{
    if exclude { 0x0000_0011 } else { 0x0000_0000 }
}

// ---------------------------------------------------------------------------
// Crop rectangle
// ---------------------------------------------------------------------------

/// The crop `(x, y, w, h)` of a `img_w` x `img_h` image for a requested
/// region: the origin clamped into the image, the size cut at the image
/// edge but at least 1.
pub open spec fn crop_rect_spec(img_w: u32, img_h: u32, rx: i32, ry: i32, rw: u32, rh: u32) -> (u32, u32, u32, u32) {
    let x0 = if rx > 0 { rx as int } else { 0 };
    let y0 = if ry > 0 { ry as int } else { 0 };
    let x = if x0 <= (img_w as i32) as int { x0 } else { (img_w as i32) as int };
    let y = if y0 <= (img_h as i32) as int { y0 } else { (img_h as i32) as int };
    let xu = x as u32;
    let yu = y as u32;
    let room_w = if img_w >= xu { img_w - xu } else { 0 };
    let room_h = if img_h >= yu { img_h - yu } else { 0 };
    let cw = if rw <= room_w { rw as int } else { room_w };
    let ch = if rh <= room_h { rh as int } else { room_h };
    (xu, yu, if cw >= 1 { cw as u32 } else { 1 }, if ch >= 1 { ch as u32 } else { 1 })
}

/// Clamps a requested region to an image (out-of-range parts are cut off).
pub fn crop_rect(img_w: u32, img_h: u32, rx: i32, ry: i32, rw: u32, rh: u32) -> (res: (u32, u32, u32, u32))
    ensures
        res == crop_rect_spec(img_w, img_h, rx, ry, rw, rh),
        img_w <= i32::MAX && img_h <= i32::MAX && 0 <= rx && 0 <= ry && 1 <= rw && 1 <= rh && rx + rw
            <= img_w && ry + rh <= img_h ==> res == (rx as u32, ry as u32, rw, rh),
{
    proof {
        if img_w <= i32::MAX && img_h <= i32::MAX {
            lemma_crop_clamps(img_w, img_h, rx, ry, rw, rh);
        }
    }
    let iw = img_w as i32;
    let ih = img_h as i32;
    let x0 = if rx > 0 { rx } else { 0 };
    let y0 = if ry > 0 { ry } else { 0 };
    let x = if x0 <= iw { x0 } else { iw };
    let y = if y0 <= ih { y0 } else { ih };
    let xu = x as u32;
    let yu = y as u32;
    let room_w = if img_w >= xu { img_w - xu } else { 0 };
    let room_h = if img_h >= yu { img_h - yu } else { 0 };
    let cw = if rw <= room_w { rw } else { room_w };
    let ch = if rh <= room_h { rh } else { room_h };
    (xu, yu, if cw >= 1 { cw } else { 1 }, if ch >= 1 { ch } else { 1 })
}

/// Crop law: for an image whose size fits in `i32`, the crop origin lies in
/// the image and, when the origin is not on the far edge, the crop stays
/// inside the image.
pub proof fn lemma_crop_inside(img_w: u32, img_h: u32, rx: i32, ry: i32, rw: u32, rh: u32)
    requires
        img_w <= i32::MAX,
        img_h <= i32::MAX,
    ensures
        ({
            let (x, y, w, h) = crop_rect_spec(img_w, img_h, rx, ry, rw, rh);
            &&& x <= img_w
            &&& y <= img_h
            &&& w >= 1
            &&& h >= 1
            &&& x < img_w ==> x + w <= img_w
            &&& y < img_h ==> y + h <= img_h
            &&& w <= rw || rw == 0
            &&& h <= rh || rh == 0
        }),
{
}

/// Crop law: the origin is the requested one clamped into the image, and
/// each side is the requested size cut at the image edge, but at least 1.
/// In particular a region that lies inside the image is returned unchanged.
pub proof fn lemma_crop_clamps(img_w: u32, img_h: u32, rx: i32, ry: i32, rw: u32, rh: u32)
    requires
        img_w <= i32::MAX,
        img_h <= i32::MAX,
    ensures
        ({
            let (x, y, w, h) = crop_rect_spec(img_w, img_h, rx, ry, rw, rh);
            let ex: int = if rx < 0 { 0 } else if rx > img_w { img_w as int } else { rx as int };
            let ey: int = if ry < 0 { 0 } else if ry > img_h { img_h as int } else { ry as int };
            let ew: int = if rw < img_w - ex { rw as int } else { img_w - ex };
            let eh: int = if rh < img_h - ey { rh as int } else { img_h - ey };
            &&& x == ex
            &&& y == ey
            &&& w == if ew >= 1 { ew } else { 1 }
            &&& h == if eh >= 1 { eh } else { 1 }
        }),
        0 <= rx && 0 <= ry && 1 <= rw && 1 <= rh && rx + rw <= img_w && ry + rh <= img_h
            ==> crop_rect_spec(img_w, img_h, rx, ry, rw, rh) == (rx as u32, ry as u32, rw, rh),
{
}

} // verus!
