//! Decisions of the scroll-capture loops.  The caller grabs frames, sleeps,
//! sends wheel input and reports progress; everything that decides what a
//! frame does to the long image lives here.
use vstd::prelude::*;
use vstd::arithmetic::mul::lemma_mul_inequality;
use crate::column_match::{
    abs_diff, compute_offset, offset_inputs_ok, offset_inputs_valid, offset_spec, OffsetAlgorithm, OffsetResult,
};
use crate::stitcher::{appended_canvas, new_rows_for, Stitcher};
use crate::text::str_equals;

verus! {

/// Who scrolls: the user (manual) or the tool (auto).
#[derive(Debug, Clone, Copy, PartialEq, Eq, Structural)]
pub enum ScrollMode {
    Manual,
    Auto,
}

/// The mode a front-end request names: "auto" is automatic scrolling,
/// anything else (or nothing) is manual.
pub fn scroll_mode_from(mode: Option<&str>) -> (res: ScrollMode)
    ensures
        res == (match mode {
            Some(m) => if m@ == "auto"@ { ScrollMode::Auto } else { ScrollMode::Manual },
            None => ScrollMode::Manual,
        }),
{
    match mode {
        Some(m) => if str_equals(m, "auto") { ScrollMode::Auto } else { ScrollMode::Manual },
        None => ScrollMode::Manual,
    }
}

// ---------------------------------------------------------------------------
// Quick frame similarity
// ---------------------------------------------------------------------------

/// Share of sampled bytes that differ by less than 5: `matches / samples`
/// (no samples means similarity 0).
#[derive(Debug, Clone, Copy, PartialEq, Eq, Structural)]
pub struct Similarity {
    pub matches: u64,
    pub samples: u64,
}

/// Sampling stride: about 2000 samples per frame, at least every byte.
pub open spec fn sample_step(len: int) -> int {
    if len / 2000 >= 1 { len / 2000 } else { 1 }
}

/// (matches, samples) over the byte positions `i, i + step, ...` below
/// `a.len()`.
pub open spec fn sample_stats(a: Seq<u8>, b: Seq<u8>, step: int, i: int) -> (int, int)
    decreases if i < a.len() { a.len() - i } else { 0 },
{
    if step <= 0 || i >= a.len() || i < 0 {
        (0, 0)
    } else {
        let rest = sample_stats(a, b, step, i + step);
        let close = if abs_diff(a[i], b[i]) < 5 { 1int } else { 0 };
        (rest.0 + close, rest.1 + 1)
    }
}

/// The similarity of two frames: zero when their sizes differ.
pub open spec fn similarity_spec(a: Seq<u8>, b: Seq<u8>) -> Similarity {
    if a.len() != b.len() {
        Similarity { matches: 0, samples: 0 }
    } else {
        let st = sample_stats(a, b, sample_step(a.len() as int), 0);
        Similarity { matches: st.0 as u64, samples: st.1 as u64 }
    }
}

/// `similarity > num / den`.
pub open spec fn similarity_above(s: Similarity, num: int, den: int) -> bool {
    s.samples > 0 && s.matches * den > num * s.samples
}

proof fn lemma_sample_stats_bounds(a: Seq<u8>, b: Seq<u8>, step: int, i: int)
    ensures
        0 <= sample_stats(a, b, step, i).0 <= sample_stats(a, b, step, i).1,
        sample_stats(a, b, step, i).1 <= if 0 <= i < a.len() { a.len() - i } else { 0 },
    decreases if i < a.len() { a.len() - i } else { 0 },
{
    if !(step <= 0 || i >= a.len() || i < 0) {
        lemma_sample_stats_bounds(a, b, step, i + step);
    }
}

/// Quick similarity of two frames from about 2000 sampled bytes.
pub fn simple_frame_similarity(a: &[u8], b: &[u8]) -> (res: Similarity)
    ensures
        res == similarity_spec(a@, b@),
        res.matches <= res.samples,
{
    if a.len() != b.len() {
        return Similarity { matches: 0, samples: 0 };
    }
    let len = a.len();
    let step: usize = if len / 2000 >= 1 { len / 2000 } else { 1 };
    let mut matches: u64 = 0;
    let mut total: u64 = 0;
    let mut i: usize = 0;
    let ghost whole = sample_stats(a@, b@, step as int, 0);
    proof {
        lemma_sample_stats_bounds(a@, b@, step as int, 0);
    }
    while i < len
        invariant
            len == a@.len(),
            len == b@.len(),
            step >= 1,
            step == sample_step(len as int),
            i <= len,
            whole == sample_stats(a@, b@, step as int, 0),
            whole.0 == matches + sample_stats(a@, b@, step as int, i as int).0,
            whole.1 == total + sample_stats(a@, b@, step as int, i as int).1,
            whole.1 <= len,
            matches <= total,
        decreases len - i,
    {
        proof {
            lemma_sample_stats_bounds(a@, b@, step as int, i as int);
            lemma_sample_stats_bounds(a@, b@, step as int, i + step);
        }
        let x = a[i];
        let y = b[i];
        let d: u8 = if x >= y { x - y } else { y - x };
        if d < 5 {
            matches = matches + 1;
        }
        total = total + 1;
        if step >= len - i {
            i = len;
        } else {
            i = i + step;
        }
    }
    Similarity { matches, samples: total }
}

fn similar_above(s: Similarity, num: u64, den: u64) -> (res: bool)
    requires
        num <= 1000,
        den <= 1000,
    ensures
        res == similarity_above(s, num as int, den as int),
{
    proof {
        vstd::arithmetic::mul::lemma_mul_upper_bound(s.matches as int, u64::MAX as int, den as int, 1000);
        vstd::arithmetic::mul::lemma_mul_upper_bound(num as int, 1000, s.samples as int, u64::MAX as int);
    }
    s.samples > 0 && (s.matches as u128) * (den as u128) > (num as u128) * (s.samples as u128)
}

/// End-of-scroll probe used when no match and no hint is at hand: frames that
/// are over 95% alike mean the page stopped moving.
pub open spec fn end_of_scroll_spec(current: Seq<u8>, previous: Seq<u8>) -> OffsetResult {
    if similarity_above(similarity_spec(previous, current), 95, 100) {
        OffsetResult { dy: 0, dx: 0, confidence: 0, algorithm: OffsetAlgorithm::EndDetect }
    } else {
        OffsetResult { dy: 0, dx: 0, confidence: 40, algorithm: OffsetAlgorithm::LowConfidence }
    }
}

/// End-of-scroll probe: frames over 95% alike give confidence 0 (the page
/// ended), others confidence 0.4 with no movement.
pub fn check_end_of_scroll(current: &[u8], previous: &[u8]) -> (res: OffsetResult)
    ensures
        res == end_of_scroll_spec(current@, previous@),
{
    let similarity = simple_frame_similarity(previous, current);
    if similar_above(similarity, 95, 100) {
        OffsetResult { dy: 0, dx: 0, confidence: 0, algorithm: OffsetAlgorithm::EndDetect }
    } else {
        OffsetResult { dy: 0, dx: 0, confidence: 40, algorithm: OffsetAlgorithm::LowConfidence }
    }
}

// ---------------------------------------------------------------------------
// Shared pieces of both loops
// ---------------------------------------------------------------------------

/// What the caller does after a frame was handled.
#[derive(Debug, Clone, Copy, PartialEq, Eq, Structural)]
pub struct FrameReport {
    /// Publish the stitching progress.
    pub progress: bool,
    /// Tell the user to scroll more slowly.
    pub warning: bool,
    /// End the capture (automatic mode only).
    pub finished: bool,
}

pub open spec fn report(progress: bool, warning: bool, finished: bool) -> FrameReport {
    FrameReport { progress, warning, finished }
}

/// The scroll amount along the capture direction.
pub open spec fn scroll_amount(direction: Seq<char>, off: OffsetResult) -> i32 {
    if direction == "horizontal"@ { off.dx } else { off.dy }
}

pub open spec fn abs_i32(v: i32) -> int {
    if v < 0 { -v } else { v as int }
}

/// Milliseconds elapsed from `since` to `now` (zero if `now` is earlier).
pub open spec fn elapsed_ms(now: u64, since: u64) -> int {
    if now >= since { now - since } else { 0 }
}

/// The stitcher after `resync(frame, fw, fh)`.
pub open spec fn resynced(old: Stitcher, new: Stitcher, frame: Seq<u8>, fw: u32, fh: u32) -> bool {
    &&& new.last_frame_data@ == frame
    &&& new.last_frame_width == fw
    &&& new.last_frame_height == fh
    &&& new.canvas == old.canvas
    &&& new.total_height == old.total_height
    &&& new.width == old.width
    &&& new.frame_count == old.frame_count
    &&& new.max_length == old.max_length
}

/// The stitcher after `add_first_frame(frame, fw, fh)`.
pub open spec fn started(old: Stitcher, new: Stitcher, frame: Seq<u8>, fw: u32, fh: u32) -> bool {
    &&& new.canvas@ == frame
    &&& new.total_height == fh
    &&& new.width == fw
    &&& new.last_frame_data@ == frame
    &&& new.last_frame_width == fw
    &&& new.last_frame_height == fh
    &&& new.frame_count == 1
    &&& new.max_length == old.max_length
}

/// The stitcher after `append_frame(frame, fw, fh, off)`.
pub open spec fn appended(old: Stitcher, new: Stitcher, frame: Seq<u8>, fw: u32, fh: u32, off: OffsetResult) -> bool {
    &&& new.canvas@ == appended_canvas(old.canvas@, old.total_height, old.width, frame, fw, fh, off.dy)
    &&& new.total_height == old.total_height + new_rows_for(off.dy, fh)
    &&& new.width == old.width
    &&& new.last_frame_data@ == frame
    &&& new.last_frame_width == fw
    &&& new.last_frame_height == fh
    &&& new.frame_count == old.frame_count + 1
    &&& new.max_length == old.max_length
}

/// Frame sizes on which a loop step runs without an arithmetic fault: the
/// match must be computable with the given hint and the appended block must
/// keep every byte count of the canvas within `u32`.
pub open spec fn step_fits(st: Stitcher, fw: u32, fh: u32, hint: i32) -> bool {
    st.frame_count == 0 || {
        &&& offset_inputs_ok(fw, fh, hint)
        &&& 1 <= fh <= i32::MAX
        &&& st.total_height + fh <= u32::MAX
        &&& (st.total_height + fh) * st.width * 4 <= u32::MAX
        &&& (fh - 1) * fw * 4 <= u32::MAX
        &&& st.frame_count < u32::MAX
    }
}

proof fn lemma_append_fits(st: Stitcher, fw: u32, fh: u32, dy: i32)
    requires
        1 <= fh,
        st.total_height + fh <= u32::MAX,
        (st.total_height + fh) * st.width * 4 <= u32::MAX,
        (fh - 1) * fw * 4 <= u32::MAX,
    ensures
        crate::stitcher::append_fits(st.total_height, st.width, fw, fh, dy),
{
    let rows = new_rows_for(dy, fh);
    lemma_mul_inequality(st.total_height + rows, st.total_height + fh, st.width as int);
}

// ---------------------------------------------------------------------------
// Manual mode: the user scrolls, every frame is matched against the last one
// ---------------------------------------------------------------------------

/// What a frame does in manual mode.
#[derive(Debug, Clone, Copy, PartialEq, Eq, Structural)]
pub enum ManualBranch {
    /// First frame: it starts the canvas.
    FirstFrame,
    /// Over 98.5% alike the last frame: the user has not scrolled.
    Unchanged,
    /// Match confidence below 0.5: scrolled too fast, re-anchor and warn.
    LostTrack,
    /// Moved less than 3 pixels: treated as a repeated frame.
    TooSmall,
    /// Moved more than a frame: no overlap, re-anchor and warn.
    TooFar,
    /// A good match soon after a too-fast scroll: re-anchor until two
    /// stable matches have been seen.
    Settling,
    /// A good match: append the rows that scrolled into view.
    Stitch,
}

/// State of a manual-mode capture.
pub struct ManualCapture {
    pub stitcher: Stitcher,
    pub direction: String,
    pub overlap_rows: i32,
    pub hint_dy: Option<i32>,
    pub no_change_since: Option<u64>,
    pub fast_streak: u32,
}


/// One manual-mode step: how `on_frame` changes the capture `old` into `new`
/// and what it reports, for each kind of frame.
pub open spec fn manual_step(
    old: ManualCapture,
    new: ManualCapture,
    frame: Seq<u8>,
    fw: u32,
    fh: u32,
    now_ms: u64,
    rep: FrameReport,
) -> bool {
    match old.branch(frame, fw, fh) {
        ManualBranch::FirstFrame => {
            &&& started(old.stitcher, new.stitcher, frame, fw, fh)
            &&& rep == report(true, false, false)
            &&& new.hint_dy == old.hint_dy
            &&& new.no_change_since == old.no_change_since
            &&& new.fast_streak == old.fast_streak
        },
        ManualBranch::Unchanged => {
            &&& new.stitcher == old.stitcher
            &&& rep == report(false, false, false)
            &&& new.hint_dy == old.hint_dy
            &&& new.no_change_since == Some(
                match old.no_change_since {
                    Some(t) => t,
                    None => now_ms,
                },
            )
            &&& new.fast_streak == old.fast_streak
        },
        ManualBranch::LostTrack | ManualBranch::TooFar => {
            &&& resynced(old.stitcher, new.stitcher, frame, fw, fh)
            &&& rep == report(false, true, false)
            &&& new.hint_dy is None
            &&& new.no_change_since is None
            &&& new.fast_streak == 0
        },
        ManualBranch::TooSmall => {
            &&& new.stitcher == old.stitcher
            &&& rep == report(false, false, false)
            &&& new.hint_dy == old.hint_dy
            &&& new.no_change_since == Some(now_ms)
            &&& new.fast_streak == old.fast_streak
        },
        ManualBranch::Settling => {
            &&& resynced(old.stitcher, new.stitcher, frame, fw, fh)
            &&& rep == report(false, false, false)
            &&& new.hint_dy is None
            &&& new.no_change_since is None
            &&& new.fast_streak == old.fast_streak + 1
        },
        ManualBranch::Stitch => {
            let off = old.offset_for(frame, fw, fh);
            &&& appended(old.stitcher, new.stitcher, frame, fw, fh, off)
            &&& rep == report(true, false, false)
            &&& new.hint_dy == Some(scroll_amount(old.direction@, off))
            &&& new.no_change_since is None
            &&& new.fast_streak == old.fast_streak
        },
    }
}

impl ManualCapture {
    /// A capture of a region `width` pixels wide, stopping at `max_length` rows.
    /// Stitching is not throttled at the start: the wait for two stable
    /// matches only follows a too-fast scroll.
    pub fn new(direction: String, overlap_rows: i32, max_length: u32, width: u32) -> (res: Self)
        ensures
            res.wf(),
            res.stitcher.frame_count == 0,
            res.stitcher.total_height == 0,
            res.stitcher.canvas@.len() == 0,
            res.stitcher.width == width,
            res.stitcher.max_length == max_length,
            res.direction@ == direction@,
            res.overlap_rows == overlap_rows,
            res.hint_dy is None,
            res.no_change_since is None,
            res.fast_streak == 2,
    {
        ManualCapture {
            stitcher: Stitcher::new(max_length, width),
            direction,
            overlap_rows,
            hint_dy: None,
            no_change_since: None,
            fast_streak: 2,
        }
    }

    /// Hints are never negative.
    pub open spec fn wf(&self) -> bool {
        self.hint_dy matches Some(h) ==> h >= 0
    }

    /// The hint handed to the matcher (1 when there is none).
    pub open spec fn search_hint(&self) -> i32 {
        match self.hint_dy {
            Some(h) => h,
            None => 1,
        }
    }

    /// The hint handed to the matcher (1 when there is none).
    pub fn current_hint(&self) -> (res: i32)
        ensures
            res == self.search_hint(),
    {
        match self.hint_dy {
            Some(h) => h,
            None => 1,
        }
    }

    pub open spec fn offset_for(&self, frame: Seq<u8>, fw: u32, fh: u32) -> OffsetResult {
        offset_spec(self.stitcher.last_frame_data@, frame, fw, fh, self.search_hint(), self.overlap_rows, self.direction@)
    }

    /// How `on_frame` classifies a frame.
    pub open spec fn branch(&self, frame: Seq<u8>, fw: u32, fh: u32) -> ManualBranch {
        if self.stitcher.frame_count == 0 {
            ManualBranch::FirstFrame
        } else if similarity_above(similarity_spec(self.stitcher.last_frame_data@, frame), 985, 1000) {
            ManualBranch::Unchanged
        } else {
            let off = self.offset_for(frame, fw, fh);
            let amt = abs_i32(scroll_amount(self.direction@, off));
            if off.confidence < 50 {
                ManualBranch::LostTrack
            } else if amt < 3 {
                ManualBranch::TooSmall
            } else if amt > fh {
                ManualBranch::TooFar
            } else if self.fast_streak < 2 {
                ManualBranch::Settling
            } else {
                ManualBranch::Stitch
            }
        }
    }

    /// Checks made before grabbing a frame: stop when the user stopped the
    /// capture, when the image reached its maximum length, or when, after
    /// something was stitched, the content has not changed for 3 seconds.
    pub fn should_stop(&self, active: bool, now_ms: u64) -> (res: bool)
        ensures
            res == (!active || self.stitcher.total_height >= self.stitcher.max_length || (
            self.stitcher.frame_count > 1 && match self.no_change_since {
                Some(t) => elapsed_ms(now_ms, t) >= 3000,
                None => false,
            })),
    {
        if !active {
            return true;
        }
        if self.stitcher.total_height >= self.stitcher.max_length {
            return true;
        }
        if self.stitcher.frame_count > 1 {
            if let Some(t) = self.no_change_since {
                if now_ms >= t && now_ms - t >= 3000 {
                    return true;
                }
            }
        }
        false
    }

    /// Handles one captured frame (`fw` x `fh` RGBA pixels, taken at `now_ms`).
    pub fn on_frame(&mut self, frame: &[u8], fw: u32, fh: u32, now_ms: u64) -> (rep: FrameReport)
        requires
            old(self).wf(),
            step_fits(old(self).stitcher, fw, fh, old(self).search_hint()),
        ensures
            final(self).wf(),
            final(self).direction == old(self).direction,
            final(self).overlap_rows == old(self).overlap_rows,
            manual_step(*old(self), *final(self), frame@, fw, fh, now_ms, rep),
    {
        if self.stitcher.is_empty() {
            self.stitcher.add_first_frame(frame, fw, fh);
            return FrameReport { progress: true, warning: false, finished: false };
        }
        let similarity = simple_frame_similarity(self.stitcher.last_frame(), frame);
        if similar_above(similarity, 985, 1000) {
            if self.no_change_since.is_none() {
                self.no_change_since = Some(now_ms);
            }
            return FrameReport { progress: false, warning: false, finished: false };
        }
        self.no_change_since = None;
        let hint = self.current_hint();
        let raw = compute_offset(
            self.stitcher.last_frame(),
            frame,
            fw,
            fh,
            hint,
            self.overlap_rows,
            self.direction.as_str(),
        );
        if raw.confidence < 50 {
            self.fast_streak = 0;
            self.stitcher.resync(frame, fw, fh);
            self.hint_dy = None;
            return FrameReport { progress: false, warning: true, finished: false };
        }
        let amt = if str_equals(self.direction.as_str(), "horizontal") { raw.dx } else { raw.dy };
        let magnitude: i64 = if amt < 0 { -(amt as i64) } else { amt as i64 };
        if magnitude < 3 {
            if self.no_change_since.is_none() {
                self.no_change_since = Some(now_ms);
            }
            return FrameReport { progress: false, warning: false, finished: false };
        }
        if magnitude > fh as i64 {
            self.fast_streak = 0;
            self.stitcher.resync(frame, fw, fh);
            self.hint_dy = None;
            return FrameReport { progress: false, warning: true, finished: false };
        }
        if self.fast_streak < 2 {
            self.fast_streak = self.fast_streak + 1;
            self.stitcher.resync(frame, fw, fh);
            self.hint_dy = None;
            return FrameReport { progress: false, warning: false, finished: false };
        }
        proof {
            lemma_append_fits(self.stitcher, fw, fh, raw.dy);
        }
        self.stitcher.append_frame(frame, fw, fh, &raw);
        self.hint_dy = Some(amt);
        FrameReport { progress: true, warning: false, finished: false }
    }
}

// ---------------------------------------------------------------------------
// Automatic mode: the tool scrolls after every frame
// ---------------------------------------------------------------------------

/// What a frame does in automatic mode.
#[derive(Debug, Clone, Copy, PartialEq, Eq, Structural)]
pub enum AutoBranch {
    /// First frame: it starts the canvas.
    FirstFrame,
    /// Over 95% alike the last frame, first time: start the 5 s timer.
    BottomReached,
    /// Still alike, timer running for less than 5 s.
    BottomWaiting,
    /// Still alike for 5 s: the page ended, finish.
    BottomFinished,
    /// No usable offset (confidence below 0.3): skip the frame.
    Skip,
    /// Moved more than a frame: re-anchor.
    TooFar,
    /// Append the rows that scrolled into view.
    Stitch,
}

/// State of an automatic-mode capture.
pub struct AutoCapture {
    pub stitcher: Stitcher,
    pub direction: String,
    pub overlap_rows: i32,
    pub hint_dy: Option<i32>,
    pub no_change_since: Option<u64>,
}

/// The offset automatic mode works with: the match when its confidence is
/// at least 0.5, else the last scroll amount (confidence 0.4), else the
/// end-of-scroll probe.
pub open spec fn auto_offset(raw: OffsetResult, hint_dy: Option<i32>, frame: Seq<u8>, last: Seq<u8>) -> OffsetResult {
    if raw.confidence >= 50 {
        raw
    } else {
        match hint_dy {
            Some(h) => OffsetResult { dy: h, dx: 0, confidence: 40, algorithm: OffsetAlgorithm::HintFallback },
            None => end_of_scroll_spec(frame, last),
        }
    }
}


/// One automatic-mode step: how `on_frame` changes the capture `old` into
/// `new` and what it reports, for each kind of frame.
pub open spec fn auto_step(
    old: AutoCapture,
    new: AutoCapture,
    frame: Seq<u8>,
    fw: u32,
    fh: u32,
    now_ms: u64,
    rep: FrameReport,
) -> bool {
    match old.branch(frame, fw, fh, now_ms) {
        AutoBranch::FirstFrame => {
            &&& started(old.stitcher, new.stitcher, frame, fw, fh)
            &&& rep == report(true, false, false)
            &&& new.hint_dy == old.hint_dy
            &&& new.no_change_since == old.no_change_since
        },
        AutoBranch::BottomReached => {
            &&& new.stitcher == old.stitcher
            &&& rep == report(false, false, false)
            &&& new.hint_dy == old.hint_dy
            &&& new.no_change_since == Some(now_ms)
        },
        AutoBranch::BottomWaiting => {
            &&& new.stitcher == old.stitcher
            &&& rep == report(false, false, false)
            &&& new.hint_dy == old.hint_dy
            &&& new.no_change_since == old.no_change_since
        },
        AutoBranch::BottomFinished => {
            &&& new.stitcher == old.stitcher
            &&& rep == report(false, false, true)
            &&& new.hint_dy == old.hint_dy
            &&& new.no_change_since == old.no_change_since
        },
        AutoBranch::Skip => {
            &&& new.stitcher == old.stitcher
            &&& rep == report(false, false, false)
            &&& new.hint_dy == old.hint_dy
            &&& new.no_change_since is None
        },
        AutoBranch::TooFar => {
            &&& resynced(old.stitcher, new.stitcher, frame, fw, fh)
            &&& rep == report(false, false, false)
            &&& new.hint_dy is None
            &&& new.no_change_since is None
        },
        AutoBranch::Stitch => {
            let off = old.offset_for(frame, fw, fh);
            &&& appended(old.stitcher, new.stitcher, frame, fw, fh, off)
            &&& rep == report(true, false, false)
            &&& new.hint_dy == Some(scroll_amount(old.direction@, off))
            &&& new.no_change_since is None
        },
    }
}

impl AutoCapture {
    /// A capture of a region `width` pixels wide, stopping at `max_length` rows.
    pub fn new(direction: String, overlap_rows: i32, max_length: u32, width: u32) -> (res: Self)
        ensures
            res.wf(),
            res.stitcher.frame_count == 0,
            res.stitcher.total_height == 0,
            res.stitcher.canvas@.len() == 0,
            res.stitcher.width == width,
            res.stitcher.max_length == max_length,
            res.direction@ == direction@,
            res.overlap_rows == overlap_rows,
            res.hint_dy is None,
            res.no_change_since is None,
    {
        AutoCapture {
            stitcher: Stitcher::new(max_length, width),
            direction,
            overlap_rows,
            hint_dy: None,
            no_change_since: None,
        }
    }

    /// Hints are never negative.
    pub open spec fn wf(&self) -> bool {
        self.hint_dy matches Some(h) ==> h >= 0
    }

    /// The hint handed to the matcher (1 when there is none).
    pub open spec fn search_hint(&self) -> i32 {
        match self.hint_dy {
            Some(h) => h,
            None => 1,
        }
    }

    /// The hint handed to the matcher (1 when there is none).
    pub fn current_hint(&self) -> (res: i32)
        ensures
            res == self.search_hint(),
    {
        match self.hint_dy {
            Some(h) => h,
            None => 1,
        }
    }

    pub open spec fn offset_for(&self, frame: Seq<u8>, fw: u32, fh: u32) -> OffsetResult {
        auto_offset(
            offset_spec(self.stitcher.last_frame_data@, frame, fw, fh, self.search_hint(), self.overlap_rows, self.direction@),
            self.hint_dy,
            frame,
            self.stitcher.last_frame_data@,
        )
    }

    /// How `on_frame` classifies a frame taken at `now_ms`.
    pub open spec fn branch(&self, frame: Seq<u8>, fw: u32, fh: u32, now_ms: u64) -> AutoBranch {
        if self.stitcher.frame_count == 0 {
            AutoBranch::FirstFrame
        } else if similarity_above(similarity_spec(self.stitcher.last_frame_data@, frame), 95, 100) {
            match self.no_change_since {
                None => AutoBranch::BottomReached,
                Some(t) => if elapsed_ms(now_ms, t) >= 5000 {
                    AutoBranch::BottomFinished
                } else {
                    AutoBranch::BottomWaiting
                },
            }
        } else {
            let off = self.offset_for(frame, fw, fh);
            if off.confidence < 30 {
                AutoBranch::Skip
            } else if abs_i32(scroll_amount(self.direction@, off)) > fh {
                AutoBranch::TooFar
            } else {
                AutoBranch::Stitch
            }
        }
    }

    /// Checks made before grabbing a frame: stop when the user stopped the
    /// capture or the image reached its maximum length.
    pub fn should_stop(&self, active: bool) -> (res: bool)
        ensures
            res == (!active || self.stitcher.total_height >= self.stitcher.max_length),
    {
        !active || self.stitcher.total_height >= self.stitcher.max_length
    }

    /// Handles one captured frame (`fw` x `fh` RGBA pixels, taken at `now_ms`).
    /// Unless the report says `finished`, the caller scrolls once more.
    pub fn on_frame(&mut self, frame: &[u8], fw: u32, fh: u32, now_ms: u64) -> (rep: FrameReport)
        requires
            old(self).wf(),
            step_fits(old(self).stitcher, fw, fh, old(self).search_hint()),
        ensures
            final(self).wf(),
            final(self).direction == old(self).direction,
            final(self).overlap_rows == old(self).overlap_rows,
            auto_step(*old(self), *final(self), frame@, fw, fh, now_ms, rep),
    {
        if self.stitcher.is_empty() {
            self.stitcher.add_first_frame(frame, fw, fh);
            return FrameReport { progress: true, warning: false, finished: false };
        }
        let similarity = simple_frame_similarity(self.stitcher.last_frame(), frame);
        if similar_above(similarity, 95, 100) {
            match self.no_change_since {
                None => {
                    self.no_change_since = Some(now_ms);
                },
                Some(t) => {
                    if now_ms >= t && now_ms - t >= 5000 {
                        return FrameReport { progress: false, warning: false, finished: true };
                    }
                },
            }
            return FrameReport { progress: false, warning: false, finished: false };
        }
        self.no_change_since = None;
        let hint = self.current_hint();
        let raw = compute_offset(
            self.stitcher.last_frame(),
            frame,
            fw,
            fh,
            hint,
            self.overlap_rows,
            self.direction.as_str(),
        );
        let offset = if raw.confidence >= 50 {
            raw
        } else {
            match self.hint_dy {
                Some(h) => OffsetResult { dy: h, dx: 0, confidence: 40, algorithm: OffsetAlgorithm::HintFallback },
                None => check_end_of_scroll(frame, self.stitcher.last_frame()),
            }
        };
        if offset.confidence < 30 {
            return FrameReport { progress: false, warning: false, finished: false };
        }
        let amt = if str_equals(self.direction.as_str(), "horizontal") { offset.dx } else { offset.dy };
        let magnitude: i64 = if amt < 0 { -(amt as i64) } else { amt as i64 };
        if magnitude > fh as i64 {
            self.stitcher.resync(frame, fw, fh);
            self.hint_dy = None;
            return FrameReport { progress: false, warning: false, finished: false };
        }
        proof {
            lemma_append_fits(self.stitcher, fw, fh, offset.dy);
        }
        self.stitcher.append_frame(frame, fw, fh, &offset);
        self.hint_dy = Some(amt);
        FrameReport { progress: true, warning: false, finished: false }
    }
}

// ---------------------------------------------------------------------------
// Laws
// ---------------------------------------------------------------------------

proof fn lemma_sample_stats_symmetric(a: Seq<u8>, b: Seq<u8>, step: int, i: int)
    requires
        a.len() == b.len(),
    ensures
        sample_stats(a, b, step, i) == sample_stats(b, a, step, i),
    decreases if i < a.len() { a.len() - i } else { 0 },
{
    if !(step <= 0 || i >= a.len() || i < 0) {
        lemma_sample_stats_symmetric(a, b, step, i + step);
    }
}

/// The quick similarity does not depend on the order of the two frames.
pub proof fn lemma_similarity_symmetric(a: Seq<u8>, b: Seq<u8>)
    ensures
        similarity_spec(a, b) == similarity_spec(b, a),
{
    if a.len() == b.len() {
        lemma_sample_stats_symmetric(a, b, sample_step(a.len() as int), 0);
    }
}

/// A non-empty frame compared with itself counts as unchanged.
pub proof fn lemma_frame_similar_to_itself(a: Seq<u8>)
    requires
        0 < a.len() <= usize::MAX,
    ensures
        similarity_above(similarity_spec(a, a), 985, 1000),
{
    lemma_self_stats(a, sample_step(a.len() as int), 0);
    lemma_sample_stats_bounds(a, a, sample_step(a.len() as int), 0);
}

proof fn lemma_self_stats(a: Seq<u8>, step: int, i: int)
    requires
        step >= 1,
        0 <= i,
    ensures
        sample_stats(a, a, step, i).0 == sample_stats(a, a, step, i).1,
        i < a.len() ==> sample_stats(a, a, step, i).1 >= 1,
    decreases if i < a.len() { a.len() - i } else { 0 },
{
    if i < a.len() {
        lemma_self_stats(a, step, i + step);
    }
}

/// Rate limiting in manual mode: while fewer than two stable matches
/// followed the last too-fast scroll, no frame is appended.
pub proof fn lemma_no_stitch_while_settling(s: ManualCapture, frame: Seq<u8>, fw: u32, fh: u32)
    requires
        s.fast_streak < 2,
    ensures
        s.branch(frame, fw, fh) != ManualBranch::Stitch,
{
}

/// Rate limiting in manual mode: a frame is appended only when the two
/// preceding matched frames were stable.
pub proof fn lemma_stitch_needs_two_stable(s: ManualCapture, frame: Seq<u8>, fw: u32, fh: u32)
    requires
        s.branch(frame, fw, fh) == ManualBranch::Stitch,
    ensures
        s.fast_streak >= 2,
        s.stitcher.frame_count > 0,
        s.offset_for(frame, fw, fh).confidence >= 50,
        3 <= abs_i32(scroll_amount(s.direction@, s.offset_for(frame, fw, fh))) <= fh,
{
}

/// Rate limiting applies only after a too-fast scroll: a capture that is
/// not throttled (as every new capture is) appends each good match, that is
/// a frame that differs from the last one, is matched with confidence of at
/// least 0.5 and moved between 3 pixels and a frame height.
pub proof fn lemma_good_match_stitched_unless_throttled(
    s: ManualCapture,
    frame: Seq<u8>,
    fw: u32,
    fh: u32,
)
    requires
        s.fast_streak >= 2,
        s.stitcher.frame_count > 0,
        !similarity_above(similarity_spec(s.stitcher.last_frame_data@, frame), 985, 1000),
        s.offset_for(frame, fw, fh).confidence >= 50,
        3 <= abs_i32(scroll_amount(s.direction@, s.offset_for(frame, fw, fh))) <= fh,
    ensures
        s.branch(frame, fw, fh) == ManualBranch::Stitch,
{
}

/// Small moves accumulate in manual mode: a frame that differs from the
/// reference but is matched less than 3 rows away leaves the stitcher
/// untouched, the reference frame included, reports nothing and starts (or
/// keeps) the no-change timer.
pub proof fn lemma_small_move_keeps_reference(
    old: ManualCapture,
    new: ManualCapture,
    frame: Seq<u8>,
    fw: u32,
    fh: u32,
    now_ms: u64,
    rep: FrameReport,
)
    requires
        manual_step(old, new, frame, fw, fh, now_ms, rep),
        old.stitcher.frame_count > 0,
        !similarity_above(similarity_spec(old.stitcher.last_frame_data@, frame), 985, 1000),
        old.offset_for(frame, fw, fh).confidence >= 50,
        abs_i32(scroll_amount(old.direction@, old.offset_for(frame, fw, fh))) < 3,
    ensures
        new.stitcher == old.stitcher,
        new.stitcher.last_frame_data@ == old.stitcher.last_frame_data@,
        !rep.progress && !rep.warning && !rep.finished,
        new.no_change_since is Some,
        new.hint_dy == old.hint_dy,
{
}

/// In manual mode an unchanged frame (over 98.5% alike the reference) adds
/// nothing and keeps the reference frame.
pub proof fn lemma_unchanged_frame_keeps_reference(
    old: ManualCapture,
    new: ManualCapture,
    frame: Seq<u8>,
    fw: u32,
    fh: u32,
    now_ms: u64,
    rep: FrameReport,
)
    requires
        manual_step(old, new, frame, fw, fh, now_ms, rep),
        old.stitcher.frame_count > 0,
        similarity_above(similarity_spec(old.stitcher.last_frame_data@, frame), 985, 1000),
    ensures
        new.stitcher == old.stitcher,
        !rep.progress && !rep.warning,
        new.no_change_since is Some,
{
}

/// End of page in automatic mode: any frame that is not over 95% alike the
/// reference clears the no-change timer and does not end the capture.
pub proof fn lemma_auto_change_clears_timer(
    old: AutoCapture,
    new: AutoCapture,
    frame: Seq<u8>,
    fw: u32,
    fh: u32,
    now_ms: u64,
    rep: FrameReport,
)
    requires
        auto_step(old, new, frame, fw, fh, now_ms, rep),
        old.stitcher.frame_count > 0,
        !similarity_above(similarity_spec(old.stitcher.last_frame_data@, frame), 95, 100),
    ensures
        new.no_change_since is None,
        !rep.finished,
{
}

/// End of page in automatic mode: the capture is reported finished only for
/// a frame alike the reference when the timer, started by an earlier alike
/// frame and not cleared since, has run for at least 5 seconds; nothing is
/// added then.
pub proof fn lemma_auto_finish_needs_five_quiet_seconds(
    old: AutoCapture,
    new: AutoCapture,
    frame: Seq<u8>,
    fw: u32,
    fh: u32,
    now_ms: u64,
    rep: FrameReport,
)
    requires
        auto_step(old, new, frame, fw, fh, now_ms, rep),
        rep.finished,
    ensures
        old.stitcher.frame_count > 0,
        similarity_above(similarity_spec(old.stitcher.last_frame_data@, frame), 95, 100),
        old.no_change_since matches Some(t) && elapsed_ms(now_ms, t) >= 5000,
        new.stitcher == old.stitcher,
        !rep.progress,
{
}

/// Over two frames in automatic mode: after a frame that is not alike the
/// reference, the next frame never ends the capture, whatever its time.
pub proof fn lemma_auto_no_finish_right_after_change(
    s0: AutoCapture,
    s1: AutoCapture,
    s2: AutoCapture,
    f1: Seq<u8>,
    f2: Seq<u8>,
    fw: u32,
    fh: u32,
    t1: u64,
    t2: u64,
    r1: FrameReport,
    r2: FrameReport,
)
    requires
        auto_step(s0, s1, f1, fw, fh, t1, r1),
        auto_step(s1, s2, f2, fw, fh, t2, r2),
        s0.stitcher.frame_count > 0,
        !similarity_above(similarity_spec(s0.stitcher.last_frame_data@, f1), 95, 100),
    ensures
        !r2.finished,
{
    lemma_auto_change_clears_timer(s0, s1, f1, fw, fh, t1, r1);
    if r2.finished {
        lemma_auto_finish_needs_five_quiet_seconds(s1, s2, f2, fw, fh, t2, r2);
    }
}

/// Checks `step_fits` for the next frame of a capture.
pub fn step_fits_check(st: &Stitcher, fw: u32, fh: u32, hint: i32) -> (res: bool)
    ensures
        res == step_fits(*st, fw, fh, hint),
{
    if st.frame_count == 0 {
        return true;
    }
    if !offset_inputs_valid(fw, fh, hint) || fh < 1 || fh > i32::MAX as u32 {
        return false;
    }
    if st.total_height as u64 + fh as u64 > u32::MAX as u64 {
        return false;
    }
    proof {
        vstd::arithmetic::mul::lemma_mul_upper_bound(
            (st.total_height + fh) as int,
            u32::MAX as int,
            st.width as int,
            u32::MAX as int,
        );
        vstd::arithmetic::mul::lemma_mul_upper_bound((fh - 1) as int, u32::MAX as int, fw as int, u32::MAX as int);
    }
    (st.total_height as u128 + fh as u128) * st.width as u128 * 4 <= u32::MAX as u128 && (fh as u128 - 1)
        * fw as u128 * 4 <= u32::MAX as u128 && st.frame_count < u32::MAX
}

/// The canvas holds exactly `total_height` rows of `width` RGBA pixels.
pub open spec fn whole_rows(st: Stitcher) -> bool {
    st.canvas@.len() == st.total_height * st.width * 4
}

/// A frame of `fw` x `fh` whole pixels that fits the canvas width (any width
/// for the first frame).
pub open spec fn fitting_frame(st: Stitcher, frame: Seq<u8>, fw: u32, fh: u32) -> bool {
    &&& frame.len() == fw * fh * 4
    &&& fh >= 1
    &&& (st.frame_count == 0 || fw == st.width)
}

proof fn lemma_stitcher_keeps_whole_rows(old: Stitcher, new: Stitcher, frame: Seq<u8>, fw: u32, fh: u32, off: OffsetResult)
    requires
        whole_rows(old),
        fitting_frame(old, frame, fw, fh),
        old.frame_count > 0,
        appended(old, new, frame, fw, fh, off),
    ensures
        whole_rows(new),
{
    vstd::arithmetic::mul::lemma_mul_is_commutative(fw as int, fh as int);
    crate::stitcher::lemma_append_takes_bottom_rows(old.canvas@, old.total_height, old.width, frame, fh, off.dy);
}

/// Manual-mode invariant: fed with frames of whole pixels of the canvas
/// width, the canvas always holds whole rows.
pub proof fn lemma_manual_keeps_whole_rows(
    old: ManualCapture,
    new: ManualCapture,
    frame: Seq<u8>,
    fw: u32,
    fh: u32,
    now_ms: u64,
    rep: FrameReport,
)
    requires
        whole_rows(old.stitcher),
        fitting_frame(old.stitcher, frame, fw, fh),
        manual_step(old, new, frame, fw, fh, now_ms, rep),
    ensures
        whole_rows(new.stitcher),
{
    match old.branch(frame, fw, fh) {
        ManualBranch::Stitch => {
            lemma_stitcher_keeps_whole_rows(old.stitcher, new.stitcher, frame, fw, fh, old.offset_for(frame, fw, fh));
        },
        ManualBranch::FirstFrame => {
            vstd::arithmetic::mul::lemma_mul_is_commutative(fw as int, fh as int);
        },
        _ => {},
    }
}

/// Automatic-mode invariant: fed with frames of whole pixels of the canvas
/// width, the canvas always holds whole rows.
pub proof fn lemma_auto_keeps_whole_rows(
    old: AutoCapture,
    new: AutoCapture,
    frame: Seq<u8>,
    fw: u32,
    fh: u32,
    now_ms: u64,
    rep: FrameReport,
)
    requires
        whole_rows(old.stitcher),
        fitting_frame(old.stitcher, frame, fw, fh),
        auto_step(old, new, frame, fw, fh, now_ms, rep),
    ensures
        whole_rows(new.stitcher),
{
    match old.branch(frame, fw, fh, now_ms) {
        AutoBranch::Stitch => {
            lemma_stitcher_keeps_whole_rows(old.stitcher, new.stitcher, frame, fw, fh, old.offset_for(frame, fw, fh));
        },
        AutoBranch::FirstFrame => {
            vstd::arithmetic::mul::lemma_mul_is_commutative(fw as int, fh as int);
        },
        _ => {},
    }
}

} // verus!
