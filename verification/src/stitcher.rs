//! The frame stitcher: accumulates the rows that scroll into view into one
//! tall RGBA canvas.
use vstd::prelude::*;
use vstd::arithmetic::mul::*;
use vstd::slice::slice_to_vec;
use crate::column_match::OffsetResult;

verus! {

/// Accumulates frames into a long image.  `canvas` holds `total_height` rows
/// of `width` RGBA pixels when every frame had the stitcher's width.
pub struct Stitcher {
    pub canvas: Vec<u8>,
    pub total_height: u32,
    pub width: u32,
    pub last_frame_data: Vec<u8>,
    pub last_frame_width: u32,
    pub last_frame_height: u32,
    pub frame_count: u32,
    pub max_length: u32,
}

/// `old` resized to `len` bytes, new bytes zero (`Vec::resize(len, 0)`).
pub open spec fn resized(old: Seq<u8>, len: int) -> Seq<u8> {
    if len <= old.len() {
        old.subrange(0, len)
    } else {
        old + Seq::new((len - old.len()) as nat, |i: int| 0u8)
    }
}

/// Bytes copied for one row: a full canvas row, or what is left of the frame.
pub open spec fn row_bytes(w4: int, data_len: int, src: int) -> int {
    let left = if data_len > src { data_len - src } else { 0 };
    if w4 <= left { w4 } else { left }
}

/// `c` with `n` bytes at `dst` replaced by `data[src..src + n]`.
pub open spec fn splice(c: Seq<u8>, dst: int, data: Seq<u8>, src: int, n: int) -> Seq<u8> {
    c.subrange(0, dst) + data.subrange(src, src + n) + c.subrange(dst + n, c.len() as int)
}

/// The canvas after the first `rows` rows of the appended block were copied:
/// frame row `src_row + r` (frame width `fw`) goes to canvas row
/// `dst_row + r` (canvas row size `w4` bytes), where both ranges fit.
pub open spec fn copy_rows(
    canvas: Seq<u8>,
    data: Seq<u8>,
    src_row: int,
    fw: int,
    dst_row: int,
    w4: int,
    rows: int,
) -> Seq<u8>
    decreases rows,
{
    if rows <= 0 {
        canvas
    } else {
        let c = copy_rows(canvas, data, src_row, fw, dst_row, w4, rows - 1);
        let r = rows - 1;
        let src = (src_row + r) * fw * 4;
        let dst = (dst_row + r) * w4;
        let n = row_bytes(w4, data.len() as int, src);
        if dst + n <= c.len() && src + n <= data.len() {
            splice(c, dst, data, src, n)
        } else {
            c
        }
    }
}

/// Rows taken from a frame for a scroll of `dy`: the scroll clamped to
/// `[1, frame_h]`.
pub open spec fn new_rows_for(dy: i32, frame_h: u32) -> int {
    let scroll = if dy > 0 { dy as int } else { 0 };
    let r = if scroll <= frame_h { scroll } else { frame_h as int };
    if r >= 1 { r } else { 1 }
}

/// The canvas after appending `data` (frame width `width`, height `frame_h`)
/// for a scroll of `dy`.
pub open spec fn appended_canvas(
    old: Seq<u8>,
    total_height: u32,
    canvas_width: u32,
    data: Seq<u8>,
    width: u32,
    frame_h: u32,
    dy: i32,
) -> Seq<u8> {
    let rows = new_rows_for(dy, frame_h);
    let w4 = canvas_width * 4;
    copy_rows(
        resized(old, (total_height + rows) * w4),
        data,
        frame_h - rows,
        width as int,
        total_height as int,
        w4,
        rows,
    )
}

/// The byte counts that `append_frame` computes stay within `u32`.
pub open spec fn append_fits(total_height: u32, canvas_width: u32, width: u32, frame_h: u32, dy: i32) -> bool {
    let rows = new_rows_for(dy, frame_h);
    &&& frame_h >= 1
    &&& total_height + rows <= u32::MAX
    &&& (total_height + rows) * canvas_width * 4 <= u32::MAX
    &&& (frame_h - 1) * width * 4 <= u32::MAX
}

/// Copies `n` bytes of `src` starting at `src_start` into `dst` at `dst_start`.
fn copy_bytes(dst: &mut Vec<u8>, dst_start: usize, src: &[u8], src_start: usize, n: usize)
    requires
        dst_start + n <= old(dst)@.len(),
        src_start + n <= src@.len(),
    ensures
        final(dst)@ == splice(old(dst)@, dst_start as int, src@, src_start as int, n as int),
{
    let mut k: usize = 0;
    while k < n
        invariant
            dst_start + n <= dst.len(),
            src_start + n <= src.len(),
            k <= n,
            dst@.len() == old(dst)@.len(),
            forall|i: int| 0 <= i < dst_start ==> dst@[i] == old(dst)@[i],
            forall|i: int| dst_start + k <= i < dst@.len() ==> dst@[i] == old(dst)@[i],
            forall|i: int| dst_start <= i < dst_start + k ==> #[trigger] dst@[i] == src@[src_start + (i - dst_start)],
        decreases n - k,
    {
        dst[dst_start + k] = src[src_start + k];
        k = k + 1;
    }
    assert(dst@ =~= splice(old(dst)@, dst_start as int, src@, src_start as int, n as int));
}

impl Stitcher {
    /// An empty stitcher for frames `width` pixels wide.
    pub fn new(max_length: u32, width: u32) -> (res: Self)
        ensures
            res.canvas@.len() == 0,
            res.total_height == 0,
            res.width == width,
            res.last_frame_data@.len() == 0,
            res.last_frame_width == 0,
            res.last_frame_height == 0,
            res.frame_count == 0,
            res.max_length == max_length,
    {
        Stitcher {
            canvas: Vec::new(),
            total_height: 0,
            width,
            last_frame_data: Vec::new(),
            last_frame_width: 0,
            last_frame_height: 0,
            frame_count: 0,
            max_length,
        }
    }

    /// No frame has been taken yet.
    pub fn is_empty(&self) -> (res: bool)
        ensures
            res == (self.frame_count == 0),
    {
        self.frame_count == 0
    }

    /// The frame that the next one is compared with.
    pub fn last_frame(&self) -> (res: &[u8])
        ensures
            res@ == self.last_frame_data@,
    {
        self.last_frame_data.as_slice()
    }

    /// Takes `data` as the new reference frame without adding content.
    pub fn resync(&mut self, data: &[u8], width: u32, frame_h: u32)
        ensures
            final(self).last_frame_data@ == data@,
            final(self).last_frame_width == width,
            final(self).last_frame_height == frame_h,
            final(self).canvas == old(self).canvas,
            final(self).total_height == old(self).total_height,
            final(self).width == old(self).width,
            final(self).frame_count == old(self).frame_count,
            final(self).max_length == old(self).max_length,
    {
        self.last_frame_data = slice_to_vec(data);
        self.last_frame_width = width;
        self.last_frame_height = frame_h;
    }

    /// Starts the canvas with a whole frame.
    pub fn add_first_frame(&mut self, data: &[u8], width: u32, height: u32)
        ensures
            final(self).canvas@ == data@,
            final(self).total_height == height,
            final(self).width == width,
            final(self).last_frame_data@ == data@,
            final(self).last_frame_width == width,
            final(self).last_frame_height == height,
            final(self).frame_count == 1,
            final(self).max_length == old(self).max_length,
    {
        self.canvas = slice_to_vec(data);
        self.total_height = height;
        self.width = width;
        self.last_frame_data = slice_to_vec(data);
        self.last_frame_width = width;
        self.last_frame_height = height;
        self.frame_count = 1;
    }
}

impl Stitcher {
    /// Appends the bottom rows of a new frame: a scroll of `offset.dy` rows
    /// brings that many rows into view (at least 1, at most the frame).
    pub fn append_frame(&mut self, data: &[u8], width: u32, frame_h: u32, offset: &OffsetResult)
        requires
            append_fits(old(self).total_height, old(self).width, width, frame_h, offset.dy),
            old(self).frame_count < u32::MAX,
        ensures
            final(self).canvas@ == appended_canvas(
                old(self).canvas@,
                old(self).total_height,
                old(self).width,
                data@,
                width,
                frame_h,
                offset.dy,
            ),
            final(self).total_height == old(self).total_height + new_rows_for(offset.dy, frame_h),
            1 <= offset.dy <= frame_h ==> final(self).total_height == old(self).total_height + offset.dy,
            offset.dy <= 0 ==> final(self).total_height == old(self).total_height + 1,
            offset.dy > frame_h >= 1 ==> final(self).total_height == old(self).total_height + frame_h,
            final(self).width == old(self).width,
            final(self).last_frame_data@ == data@,
            final(self).last_frame_width == width,
            final(self).last_frame_height == frame_h,
            final(self).frame_count == old(self).frame_count + 1,
            final(self).max_length == old(self).max_length,
    {
        let scroll: u32 = if offset.dy > 0 { offset.dy as u32 } else { 0 };
        let clamped = if scroll <= frame_h { scroll } else { frame_h };
        let new_rows = if clamped >= 1 { clamped } else { 1 };
        assert(new_rows == new_rows_for(offset.dy, frame_h));
        let total = self.total_height;
        let cw = self.width;
        let new_h = total + new_rows;
        proof {
            lemma_mul_nonnegative(new_h as int, cw as int);
            lemma_mul_is_associative(new_h as int, cw as int, 4);
        }
        let new_len = (new_h * cw * 4) as usize;
        let ghost w4 = cw * 4;
        let ghost base = resized(old(self).canvas@, new_len as int);
        self.canvas.resize(new_len, 0u8);
        assert(self.canvas@ =~= base);
        let src_row_start = frame_h - new_rows;
        let mut row: u32 = 0;
        while row < new_rows
            invariant
                self.total_height == total,
                self.width == cw,
                self.frame_count == old(self).frame_count,
                self.frame_count < u32::MAX,
                self.max_length == old(self).max_length,
                new_h == total + new_rows,
                new_h * cw * 4 <= u32::MAX,
                w4 == cw * 4,
                1 <= new_rows <= frame_h,
                src_row_start == frame_h - new_rows,
                (frame_h - 1) * width * 4 <= u32::MAX,
                row <= new_rows,
                self.canvas@.len() == new_len,
                self.canvas@ == copy_rows(base, data@, src_row_start as int, width as int, total as int, w4, row as int),
            decreases new_rows - row,
        {
            proof {
                lemma_mul_inequality((src_row_start + row) as int, (frame_h - 1) as int, width as int);
                lemma_mul_inequality((total + row + 1) as int, new_h as int, cw as int);
                lemma_mul_inequality(1, new_h as int, cw as int);
                lemma_mul_is_distributive_add(cw as int, (total + row) as int, 1);
                lemma_mul_is_commutative(cw as int, (total + row) as int);
                lemma_mul_is_commutative(cw as int, (total + row + 1) as int);
            }
            let src_start = ((src_row_start + row) * width * 4) as usize;
            let dst_start = ((total + row) * cw * 4) as usize;
            let avail: usize = if data.len() > src_start { data.len() - src_start } else { 0 };
            let row_w = cw as usize * 4;
            let n = if row_w <= avail { row_w } else { avail };
            proof {
                lemma_mul_is_associative((total + row) as int, cw as int, 4);
                lemma_mul_is_associative((src_row_start + row) as int, width as int, 4);
            }
            if dst_start + n <= self.canvas.len() && src_start + n <= data.len() {
                copy_bytes(&mut self.canvas, dst_start, data, src_start, n);
            }
            row = row + 1;
        }
        self.total_height = new_h;
        self.last_frame_data = slice_to_vec(data);
        self.last_frame_width = width;
        self.last_frame_height = frame_h;
        self.frame_count = self.frame_count + 1;
    }
}

pub open spec fn zeros(n: int) -> Seq<u8> {
    Seq::new(n as nat, |i: int| 0u8)
}

proof fn lemma_splice_step(old: Seq<u8>, data: Seq<u8>, bs: int, p: int, w4: int, q: int)
    requires
        0 <= bs,
        0 <= p,
        0 <= w4 <= q,
        bs + p + w4 <= data.len(),
    ensures
        splice(old + data.subrange(bs, bs + p) + zeros(q), old.len() + p, data, bs + p, w4) == old
            + data.subrange(bs, bs + p + w4) + zeros(q - w4),
{
    let c = old + data.subrange(bs, bs + p) + zeros(q);
    let lhs = splice(c, old.len() + p, data, bs + p, w4);
    let rhs = old + data.subrange(bs, bs + p + w4) + zeros(q - w4);
    assert(lhs.len() == rhs.len());
    assert forall|i: int| 0 <= i < lhs.len() implies lhs[i] == rhs[i] by {
        if i < old.len() {
        } else if i < old.len() + p {
        } else if i < old.len() + p + w4 {
        } else {
        }
    }
    assert(lhs =~= rhs);
}

proof fn lemma_copy_rows_whole(
    old: Seq<u8>,
    data: Seq<u8>,
    total: int,
    w: int,
    fh: int,
    rows: int,
    k: int,
)
    requires
        0 <= total,
        0 <= w,
        1 <= rows <= fh,
        0 <= k <= rows,
        old.len() == total * (w * 4),
        data.len() == fh * (w * 4),
    ensures
        copy_rows(old + zeros(rows * (w * 4)), data, fh - rows, w, total, w * 4, k) == old + data.subrange(
            (fh - rows) * (w * 4),
            (fh - rows) * (w * 4) + k * (w * 4),
        ) + zeros((rows - k) * (w * 4)),
    decreases k,
{
    let w4 = w * 4;
    let s0 = fh - rows;
    if k == 0 {
        lemma_mul_by_zero_is_zero(w4);
        lemma_mul_nonnegative(s0, w4);
        lemma_mul_inequality(s0, fh, w4);
        lemma_mul_is_commutative(s0, w4);
        lemma_mul_is_commutative(fh, w4);
        assert(data.subrange(s0 * w4, s0 * w4 + 0 * w4) =~= Seq::<u8>::empty());
        assert(old + data.subrange(s0 * w4, s0 * w4 + 0 * w4) =~= old);
    } else {
        lemma_copy_rows_whole(old, data, total, w, fh, rows, k - 1);
        let r = k - 1;
        lemma_mul_is_distributive_add(w4, s0, r);
        lemma_mul_is_distributive_add(w4, total, r);
        lemma_mul_is_distributive_add(w4, r, 1);
        lemma_mul_is_distributive_sub(w4, rows, r);
        lemma_mul_is_distributive_sub(w4, fh, s0 + r);
        lemma_mul_is_associative(s0 + r, w, 4);
        lemma_mul_inequality(s0 + r + 1, fh, w4);
        lemma_mul_nonnegative(s0, w4);
        lemma_mul_nonnegative(r, w4);
        lemma_mul_nonnegative(rows - r, w4);
        lemma_mul_inequality(1, rows - r, w4);
        lemma_mul_is_commutative(w4, s0);
        lemma_mul_is_commutative(w4, total);
        lemma_mul_is_commutative(w4, r);
        lemma_mul_is_commutative(w4, rows);
        lemma_mul_is_commutative(w4, fh);
        lemma_mul_is_commutative(w4, s0 + r);
        lemma_mul_is_commutative(w4, total + r);
        lemma_mul_is_commutative(w4, rows - r);
        lemma_mul_is_commutative(w4, s0 + r + 1);
        lemma_mul_is_commutative(w4, fh - (s0 + r));
        lemma_mul_is_distributive_sub(w4, rows - r, 1);
        lemma_mul_is_commutative(w4, rows - r - 1);
        lemma_mul_is_commutative(w4, r + 1);
        lemma_mul_basics(w4);
        assert(k * w4 == r * w4 + w4);
        assert((rows - k) * w4 == (rows - r) * w4 - w4);
        assert((total + r) * w4 == old.len() + r * w4);
        lemma_splice_step(old, data, s0 * w4, r * w4, w4, (rows - r) * w4);
        assert(((s0 + r) * w * 4) == (s0 + r) * w4);
        assert(row_bytes(w4, data.len() as int, (s0 + r) * w4) == w4);
    }
}

/// Stitching law: when the canvas holds `total_height` whole rows and the new
/// frame has the canvas width, appending leaves the canvas unchanged and adds
/// exactly the bottom `new_rows_for(dy, frame_h)` rows of the frame below it.
pub proof fn lemma_append_takes_bottom_rows(
    old: Seq<u8>,
    total_height: u32,
    width: u32,
    data: Seq<u8>,
    frame_h: u32,
    dy: i32,
)
    requires
        frame_h >= 1,
        old.len() == total_height * width * 4,
        data.len() == frame_h * width * 4,
    ensures
        appended_canvas(old, total_height, width, data, width, frame_h, dy) == old + data.subrange(
            (frame_h - new_rows_for(dy, frame_h)) * width * 4,
            frame_h * width * 4,
        ),
        appended_canvas(old, total_height, width, data, width, frame_h, dy).len() == (total_height
            + new_rows_for(dy, frame_h)) * width * 4,
{
    let rows = new_rows_for(dy, frame_h);
    let w4 = width * 4;
    let t = total_height as int;
    let w = width as int;
    let fh = frame_h as int;
    lemma_mul_is_associative(t, w, 4);
    lemma_mul_is_associative(fh, w, 4);
    lemma_mul_is_associative(t + rows, w, 4);
    lemma_mul_is_associative(fh - rows, w, 4);
    lemma_mul_is_distributive_add(w4, t, rows);
    lemma_mul_is_commutative(w4, t);
    lemma_mul_is_commutative(w4, rows);
    lemma_mul_is_commutative(w4, t + rows);
    lemma_mul_nonnegative(rows, w4);
    assert(resized(old, (t + rows) * w4) =~= old + zeros(rows * w4));
    lemma_copy_rows_whole(old, data, t, w, fh, rows, rows);
    lemma_mul_is_distributive_add(w4, fh - rows, rows);
    lemma_mul_is_commutative(w4, fh - rows);
    lemma_mul_is_commutative(w4, fh);
    assert(zeros((rows - rows) * w4) =~= Seq::<u8>::empty());
    assert(old + data.subrange((fh - rows) * w4, (fh - rows) * w4 + rows * w4) + zeros((rows - rows) * w4)
        =~= old + data.subrange((fh - rows) * w4, fh * w4));
}

/// Rows brought into view: a scroll of `dy` rows with `1 <= dy <= frame_h`
/// adds exactly `dy` rows; no movement (or a negative one) still adds one
/// row, and a scroll beyond the frame adds the whole frame.
pub proof fn lemma_new_rows_is_scroll(dy: i32, frame_h: u32)
    requires
        frame_h >= 1,
    ensures
        1 <= dy <= frame_h ==> new_rows_for(dy, frame_h) == dy,
        dy <= 0 ==> new_rows_for(dy, frame_h) == 1,
        dy > frame_h ==> new_rows_for(dy, frame_h) == frame_h,
        1 <= new_rows_for(dy, frame_h) <= frame_h,
{
}

/// Stitching law in plain terms: for a scroll of `dy` rows with
/// `1 <= dy <= frame_h`, on a canvas of whole rows and a frame of the canvas
/// width, the new canvas is the old one followed by the last `dy` rows of
/// the frame, and it is `dy` rows taller.
pub proof fn lemma_append_scrolled_rows(
    old: Seq<u8>,
    total_height: u32,
    width: u32,
    data: Seq<u8>,
    frame_h: u32,
    dy: i32,
)
    requires
        1 <= dy <= frame_h,
        old.len() == total_height * width * 4,
        data.len() == frame_h * width * 4,
    ensures
        appended_canvas(old, total_height, width, data, width, frame_h, dy) == old + data.subrange(
            (frame_h - dy) * width * 4,
            frame_h * width * 4,
        ),
        appended_canvas(old, total_height, width, data, width, frame_h, dy).len() == (total_height + dy)
            * width * 4,
{
    lemma_new_rows_is_scroll(dy, frame_h);
    lemma_append_takes_bottom_rows(old, total_height, width, data, frame_h, dy);
}

/// Why a capture produced no image.
#[derive(Debug, Clone, Copy, PartialEq, Eq, Structural)]
pub enum StitchError {
    /// No frame was captured.
    NoFrames,
}

impl Stitcher {
    /// A capture yields an image only when some frame was taken.
    pub fn check_finished(&self) -> (res: Result<(), StitchError>)
        ensures
            res == (if self.canvas@.len() == 0 {
                Err::<(), StitchError>(StitchError::NoFrames)
            } else {
                Ok(())
            }),
    {
        if self.canvas.len() == 0 {
            Err(StitchError::NoFrames)
        } else {
            Ok(())
        }
    }
}

} // verus!
