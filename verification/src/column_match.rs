//! Column-sampled MAD (mean absolute difference) matching of two frames.
//!
//! Three full-height columns of each RGBA frame are turned into grey
//! signals.  For a candidate scroll amount `s`, rows `[s, H)` of the previous
//! frame are compared with rows `[0, H - s)` of the next one; the candidate
//! with the smallest MAD wins.  Candidates near the caller's hint are tried
//! first, so that the early stop on a very good match finds them.
//!
//! A MAD is kept as an exact fraction `total / count`; a fraction with a zero
//! count stands for "no sample at all", which compares above every MAD.
use vstd::prelude::*;
use vstd::arithmetic::mul::*;
use crate::text::str_equals;

verus! {

/// Which matcher produced an [`OffsetResult`].
#[derive(Debug, Clone, Copy, PartialEq, Eq, Structural)]
pub enum OffsetAlgorithm {
    Mad,
    MadTooSmall,
    HintFallback,
    EndDetect,
    LowConfidence,
}

impl OffsetAlgorithm {
    /// The tag the matcher reports for itself.
    pub fn name(&self) -> (res: &'static str)
        ensures
            res@ == self.spec_name(),
    {
        match self {
            OffsetAlgorithm::Mad => "mad",
            OffsetAlgorithm::MadTooSmall => "mad_too_small",
            OffsetAlgorithm::HintFallback => "hint_fallback",
            OffsetAlgorithm::EndDetect => "end_detect",
            OffsetAlgorithm::LowConfidence => "low_confidence",
        }
    }

    pub open spec fn spec_name(&self) -> Seq<char> {
        match self {
            OffsetAlgorithm::Mad => "mad"@,
            OffsetAlgorithm::MadTooSmall => "mad_too_small"@,
            OffsetAlgorithm::HintFallback => "hint_fallback"@,
            OffsetAlgorithm::EndDetect => "end_detect"@,
            OffsetAlgorithm::LowConfidence => "low_confidence"@,
        }
    }
}

/// Offset between two consecutive frames.  `confidence` is in hundredths
/// (95 means 0.95).
#[derive(Debug, Clone, Copy, PartialEq, Eq, Structural)]
pub struct OffsetResult {
    pub dy: i32,
    pub dx: i32,
    pub confidence: u32,
    pub algorithm: OffsetAlgorithm,
}

/// An exact mean absolute difference `total / count`; `count == 0` means no
/// pair was compared (the largest possible score).
#[derive(Debug, Clone, Copy, PartialEq, Eq, Structural)]
pub struct MadScore {
    pub total: u64,
    pub count: u64,
}

// ---------------------------------------------------------------------------
// Grey signal of one column
// ---------------------------------------------------------------------------

/// Integer luma of an RGB triple (weights 299/587/114 per mille).
pub open spec fn gray_of(r: u8, g: u8, b: u8) -> int {
    (r * 299 + g * 587 + b * 114) / 1000
}

/// Grey value of pixel (`row`, `col`) of an RGBA frame of the given width,
/// or 0 where the frame is too short to hold it.
pub open spec fn pixel_gray(frame: Seq<u8>, width: u32, row: int, col: int) -> u8 {
    let idx = (row * width + col) * 4;
    if idx + 2 < frame.len() {
        gray_of(frame[idx], frame[idx + 1], frame[idx + 2]) as u8
    } else {
        0
    }
}

/// The column actually read: `col` clamped to the last column.
pub open spec fn clamp_col(width: u32, col: u32) -> int {
    if col < width { col as int } else { width - 1 }
}

/// The grey signal of column `col` (clamped), one value per row.
pub open spec fn column_signal(frame: Seq<u8>, width: u32, height: u32, col: u32) -> Seq<u8> {
    Seq::new(height as nat, |row: int| pixel_gray(frame, width, row, clamp_col(width, col)))
}

/// The byte offsets of column `col` stay within `u32` for every row.
pub open spec fn column_fits(width: u32, height: u32, col: u32) -> bool {
    height == 0 || ((height - 1) * width + clamp_col(width, col)) * 4 <= u32::MAX
}

proof fn lemma_gray_bound(r: u8, g: u8, b: u8)
    ensures
        0 <= gray_of(r, g, b) <= 255,
{
    assert(r * 299 + g * 587 + b * 114 <= 255000);
}

/// Extracts the grey signal of one full-height column.
pub fn extract_column(frame: &[u8], width: u32, height: u32, col: u32) -> (signal: Vec<u8>)
    requires
        width > 0,
        column_fits(width, height, col),
    ensures
        signal@ == column_signal(frame@, width, height, col),
{
    let column = if col < width { col } else { width - 1 };
    let ghost c = column as int;
    let mut signal: Vec<u8> = Vec::with_capacity(height as usize);
    let mut row: u32 = 0;
    while row < height
        invariant
            width > 0,
            c == column,
            c == clamp_col(width, col),
            0 <= c < width,
            height == 0 || ((height - 1) * width + c) * 4 <= u32::MAX,
            row <= height,
            signal@.len() == row,
            forall|k: int| 0 <= k < row ==> signal@[k] == pixel_gray(frame@, width, k, c),
        decreases height - row,
    {
        proof {
            lemma_mul_inequality(row as int, (height - 1) as int, width as int);
        }
        let idx = ((row * width + column) * 4) as usize;
        if idx + 2 < frame.len() {
            let r = frame[idx];
            let g = frame[idx + 1];
            let b = frame[idx + 2];
            let gray = (r as u32 * 299 + g as u32 * 587 + b as u32 * 114) / 1000;
            proof {
                lemma_gray_bound(r, g, b);
            }
            signal.push(gray as u8);
        } else {
            signal.push(0);
        }
        row = row + 1;
    }
    assert(signal@ =~= column_signal(frame@, width, height, col));
    signal
}

// ---------------------------------------------------------------------------
// MAD of the three columns for one scroll amount
// ---------------------------------------------------------------------------

pub open spec fn abs_diff(a: u8, b: u8) -> int {
    if a >= b { a - b } else { b - a }
}

/// Row `j` of the previous column is paired with row `j - s` of the next one
/// when both exist.
pub open spec fn pair_present(pc: Seq<u8>, nc: Seq<u8>, s: int, j: int) -> bool {
    j < pc.len() && j - s < nc.len()
}

/// Sum of `|pc[j] - nc[j - s]|` over the present pairs with `s <= j < end`.
pub open spec fn diff_sum(pc: Seq<u8>, nc: Seq<u8>, s: int, end: int) -> int
    decreases end - s,
{
    if end <= s {
        0
    } else {
        diff_sum(pc, nc, s, end - 1) + if pair_present(pc, nc, s, end - 1) {
            abs_diff(pc[end - 1], nc[end - 1 - s])
        } else {
            0
        }
    }
}

/// Number of present pairs with `s <= j < end`.
pub open spec fn pair_count(pc: Seq<u8>, nc: Seq<u8>, s: int, end: int) -> int
    decreases end - s,
{
    if end <= s {
        0
    } else {
        pair_count(pc, nc, s, end - 1) + if pair_present(pc, nc, s, end - 1) { 1int } else { 0 }
    }
}

/// The MAD of the three sampled columns for scroll amount `s`.
pub open spec fn mad_spec(prev_cols: Seq<Seq<u8>>, next_cols: Seq<Seq<u8>>, s: int, height: int) -> MadScore {
    MadScore {
        total: (diff_sum(prev_cols[0], next_cols[0], s, height) + diff_sum(
            prev_cols[1],
            next_cols[1],
            s,
            height,
        ) + diff_sum(prev_cols[2], next_cols[2], s, height)) as u64,
        count: (pair_count(prev_cols[0], next_cols[0], s, height) + pair_count(
            prev_cols[1],
            next_cols[1],
            s,
            height,
        ) + pair_count(prev_cols[2], next_cols[2], s, height)) as u64,
    }
}

proof fn lemma_diff_bounds(pc: Seq<u8>, nc: Seq<u8>, s: int, end: int)
    ensures
        0 <= pair_count(pc, nc, s, end) <= if end > s { end - s } else { 0 },
        0 <= diff_sum(pc, nc, s, end) <= 255 * pair_count(pc, nc, s, end),
    decreases end - s,
{
    if end > s {
        lemma_diff_bounds(pc, nc, s, end - 1);
    }
}

/// Sums one column pair into the running totals.
fn add_column_pair(pc: &Vec<u8>, nc: &Vec<u8>, s: u32, height: u32, total: &mut u64, n: &mut u64)
    requires
        *old(total) <= 255 * *old(n),
        *old(n) <= 2 * 0x1_0000_0000u64,
    ensures
        *final(total) == *old(total) + diff_sum(pc@, nc@, s as int, height as int),
        *final(n) == *old(n) + pair_count(pc@, nc@, s as int, height as int),
        *final(total) <= 255 * *final(n),
        *final(n) <= *old(n) + 0x1_0000_0000u64,
{
    let ghost t0 = *total;
    let ghost n0 = *n;
    let mut j: u32 = s;
    proof {
        lemma_diff_bounds(pc@, nc@, s as int, height as int);
    }
    while j < height
        invariant
            s <= j,
            j <= height || j == s,
            t0 <= 255 * n0,
            n0 <= 2 * 0x1_0000_0000u64,
            *total == t0 + diff_sum(pc@, nc@, s as int, j as int),
            *n == n0 + pair_count(pc@, nc@, s as int, j as int),
        decreases height - j,
    {
        proof {
            lemma_diff_bounds(pc@, nc@, s as int, j as int);
        }
        let ji = j as usize;
        let nj = (j - s) as usize;
        if ji < pc.len() && nj < nc.len() {
            let a = pc[ji];
            let b = nc[nj];
            let d: u64 = if a >= b { (a - b) as u64 } else { (b - a) as u64 };
            *total = *total + d;
            *n = *n + 1;
        }
        j = j + 1;
    }
    proof {
        lemma_diff_bounds(pc@, nc@, s as int, j as int);
    }
}

/// MAD of the three sampled columns at scroll amount `s`: previous row `j`
/// against next row `j - s` for `j` in `[s, height)`.
pub fn mad_3cols(prev_cols: &[Vec<u8>], next_cols: &[Vec<u8>], s: u32, height: u32) -> (res: MadScore)
    requires
        prev_cols@.len() >= 3,
        next_cols@.len() >= 3,
    ensures
        res == mad_spec(column_views(prev_cols@), column_views(next_cols@), s as int, height as int),
        res.total <= 255 * res.count,
        res.count <= 3 * 0x1_0000_0000u64,
{
    let mut total: u64 = 0;
    let mut n: u64 = 0;
    add_column_pair(&prev_cols[0], &next_cols[0], s, height, &mut total, &mut n);
    add_column_pair(&prev_cols[1], &next_cols[1], s, height, &mut total, &mut n);
    add_column_pair(&prev_cols[2], &next_cols[2], s, height, &mut total, &mut n);
    MadScore { total, count: n }
}

// ---------------------------------------------------------------------------
// Comparing scores
// ---------------------------------------------------------------------------

/// The score with no compared pair: above every other score.
pub open spec fn no_score() -> MadScore {
    MadScore { total: 0, count: 0 }
}

/// `a < b` on exact MADs (a score without pairs is larger than all others).
pub open spec fn mad_less(a: MadScore, b: MadScore) -> bool {
    if a.count == 0 {
        false
    } else if b.count == 0 {
        true
    } else {
        a.total * b.count < b.total * a.count
    }
}

/// `mad < bound` for an integer bound.
pub open spec fn mad_below(a: MadScore, bound: int) -> bool {
    a.count != 0 && a.total < bound * a.count
}

/// Confidence (hundredths) attached to the best MAD found.
pub open spec fn confidence_for(m: MadScore) -> u32 {
    if mad_below(m, 3) {
        95
    } else if mad_below(m, 8) {
        85
    } else if mad_below(m, 15) {
        70
    } else if mad_below(m, 30) {
        50
    } else {
        30
    }
}

fn score_less(a: MadScore, b: MadScore) -> (res: bool)
    requires
        a.total <= 255 * a.count,
        b.total <= 255 * b.count,
        a.count <= 3 * 0x1_0000_0000u64,
        b.count <= 3 * 0x1_0000_0000u64,
    ensures
        res == mad_less(a, b),
{
    if a.count == 0 {
        false
    } else if b.count == 0 {
        true
    } else {
        proof {
            lemma_mul_upper_bound(a.total as int, 255int * 3 * 0x1_0000_0000, b.count as int, 3int * 0x1_0000_0000);
            lemma_mul_upper_bound(b.total as int, 255int * 3 * 0x1_0000_0000, a.count as int, 3int * 0x1_0000_0000);
        }
        (a.total as u128) * (b.count as u128) < (b.total as u128) * (a.count as u128)
    }
}

fn score_below(a: MadScore, bound: u64) -> (res: bool)
    requires
        a.count <= 3 * 0x1_0000_0000u64,
        bound <= 100,
    ensures
        res == mad_below(a, bound as int),
{
    proof {
        lemma_mul_upper_bound(bound as int, 100, a.count as int, 3int * 0x1_0000_0000);
    }
    a.count != 0 && a.total < bound * a.count
}

fn confidence_of(m: MadScore) -> (res: u32)
    requires
        m.count <= 3 * 0x1_0000_0000u64,
    ensures
        res == confidence_for(m),
{
    if score_below(m, 3) {
        95
    } else if score_below(m, 8) {
        85
    } else if score_below(m, 15) {
        70
    } else if score_below(m, 30) {
        50
    } else {
        30
    }
}

// ---------------------------------------------------------------------------
// Order in which candidates are tried
// ---------------------------------------------------------------------------

/// Sort key of candidate `s`: distance to the hint, ties broken towards the
/// smaller candidate (the order a stable sort by distance gives on an
/// ascending range).
pub open spec fn hint_key(s: int, hint: int) -> int {
    if s <= hint { 2 * (hint - s) } else { 2 * (s - hint) + 1 }
}

/// The `i`-th candidate of `[lo, hi]` in hint order.
pub open spec fn candidate_at(lo: int, hi: int, hint: int, i: int) -> int {
    if hint <= lo {
        lo + i
    } else if hint >= hi {
        hi - i
    } else {
        let m = if hint - lo <= hi - hint { hint - lo } else { hi - hint };
        if i == 0 {
            hint
        } else if i <= 2 * m {
            if i % 2 == 1 { hint - (i + 1) / 2 } else { hint + i / 2 }
        } else if hint - lo > hi - hint {
            hint - (i - m)
        } else {
            hint + (i - m)
        }
    }
}

/// All candidates of `[lo, hi]`, nearest to the hint first.
pub open spec fn candidate_order(lo: int, hi: int, hint: int) -> Seq<int> {
    Seq::new(if lo <= hi { (hi - lo + 1) as nat } else { 0 }, |i: int| candidate_at(lo, hi, hint, i))
}

proof fn lemma_candidate_key(lo: int, hi: int, hint: int, i: int)
    requires
        lo <= hi,
        0 <= i <= hi - lo,
    ensures
        lo <= candidate_at(lo, hi, hint, i) <= hi,
        hint <= lo ==> hint_key(candidate_at(lo, hi, hint, i), hint) == if hint == lo && i == 0 {
            0
        } else {
            2 * (lo - hint + i) + 1
        },
        hint >= hi ==> hint_key(candidate_at(lo, hi, hint, i), hint) == 2 * (hint - hi + i),
        lo < hint < hi ==> hint_key(candidate_at(lo, hi, hint, i), hint) == ({
            let m = if hint - lo <= hi - hint { hint - lo } else { hi - hint };
            if i == 0 { 0 } else if i <= 2 * m { i + 1 } else if hint - lo > hi - hint { 2 * (i - m) } else { 2 * (i - m) + 1 }
        }),
{
}

/// The candidate order is the range `[lo, hi]`, each value once, sorted by
/// distance to the hint with ties going to the smaller value.
pub proof fn lemma_candidate_order_sorted(lo: int, hi: int, hint: int)
    requires
        lo <= hi,
    ensures
        candidate_order(lo, hi, hint).len() == hi - lo + 1,
        forall|i: int|
            0 <= i < candidate_order(lo, hi, hint).len() ==> lo <= #[trigger] candidate_order(lo, hi, hint)[i]
                <= hi,
        forall|i: int, j: int|
            0 <= i < j < candidate_order(lo, hi, hint).len() ==> hint_key(
                #[trigger] candidate_order(lo, hi, hint)[i],
                hint,
            ) < hint_key(#[trigger] candidate_order(lo, hi, hint)[j], hint),
{
    let c = candidate_order(lo, hi, hint);
    assert forall|i: int| 0 <= i < c.len() implies lo <= #[trigger] c[i] <= hi by {
        lemma_candidate_key(lo, hi, hint, i);
    }
    assert forall|i: int, j: int| 0 <= i < j < c.len() implies hint_key(#[trigger] c[i], hint) < hint_key(
        #[trigger] c[j],
        hint,
    ) by {
        lemma_candidate_key(lo, hi, hint, i);
        lemma_candidate_key(lo, hi, hint, j);
    }
}

/// Builds the candidate list of `[lo, hi]` in hint order.
fn candidates_in_hint_order(lo: i32, hi: i32, hint: i32) -> (res: Vec<i32>)
    ensures
        res@.len() == candidate_order(lo as int, hi as int, hint as int).len(),
        forall|i: int|
            0 <= i < res@.len() ==> res@[i] as int == candidate_order(lo as int, hi as int, hint as int)[i],
{
    let mut res: Vec<i32> = Vec::new();
    if lo > hi {
        return res;
    }
    let lo64 = lo as i64;
    let hi64 = hi as i64;
    let h64 = hint as i64;
    let n: i64 = hi64 - lo64 + 1;
    let m: i64 = if h64 - lo64 <= hi64 - h64 { h64 - lo64 } else { hi64 - h64 };
    let mut i: i64 = 0;
    while i < n
        invariant
            lo <= hi,
            lo64 == lo,
            hi64 == hi,
            h64 == hint,
            n == hi - lo + 1,
            m == (if hint - lo <= hi - hint { hint - lo } else { hi - hint }),
            0 <= i <= n,
            res@.len() == i,
            forall|k: int| 0 <= k < i ==> res@[k] as int == candidate_at(lo as int, hi as int, hint as int, k),
        decreases n - i,
    {
        let v: i64 = if h64 <= lo64 {
            lo64 + i
        } else if h64 >= hi64 {
            hi64 - i
        } else if i == 0 {
            h64
        } else if i <= 2 * m {
            if i % 2 == 1 { h64 - (i + 1) / 2 } else { h64 + i / 2 }
        } else if h64 - lo64 > hi64 - h64 {
            h64 - (i - m)
        } else {
            h64 + (i - m)
        };
        proof {
            lemma_candidate_key(lo as int, hi as int, hint as int, i as int);
        }
        res.push(v as i32);
        i = i + 1;
    }
    res
}

/// The candidate order as the `i32` values the search runs over.
pub open spec fn candidate_list(lo: int, hi: int, hint: int) -> Seq<i32> {
    candidate_order(lo, hi, hint).map_values(|v: int| v as i32)
}

// ---------------------------------------------------------------------------
// The search
// ---------------------------------------------------------------------------

/// Tries the candidates in order, keeping the first strictly smallest MAD and
/// stopping early as soon as a candidate scores below 5.
pub open spec fn scan(
    prev_cols: Seq<Seq<u8>>,
    next_cols: Seq<Seq<u8>>,
    height: int,
    cands: Seq<i32>,
    best_s: i32,
    best: MadScore,
) -> (i32, MadScore)
    decreases cands.len(),
{
    if cands.len() == 0 {
        (best_s, best)
    } else {
        let s = cands[0];
        let m = mad_spec(prev_cols, next_cols, s as int, height);
        let bs = if mad_less(m, best) { s } else { best_s };
        let bm = if mad_less(m, best) { m } else { best };
        if mad_below(m, 5) {
            (bs, bm)
        } else {
            scan(prev_cols, next_cols, height, cands.drop_first(), bs, bm)
        }
    }
}

/// Candidate `s` ends up as the answer only if it was in the list or was the
/// starting guess.
proof fn lemma_scan_result_in(
    prev_cols: Seq<Seq<u8>>,
    next_cols: Seq<Seq<u8>>,
    height: int,
    cands: Seq<i32>,
    best_s: i32,
    best: MadScore,
    lo: int,
    hi: int,
)
    requires
        lo <= best_s <= hi,
        forall|i: int| 0 <= i < cands.len() ==> lo <= #[trigger] cands[i] <= hi,
        best.total <= 255 * best.count,
        0 <= lo,
        0 <= height <= u32::MAX,
    ensures
        lo <= scan(prev_cols, next_cols, height, cands, best_s, best).0 <= hi,
        scan(prev_cols, next_cols, height, cands, best_s, best).1.total <= 255 * scan(
            prev_cols,
            next_cols,
            height,
            cands,
            best_s,
            best,
        ).1.count,
    decreases cands.len(),
{
    if cands.len() > 0 {
        let s = cands[0];
        let m = mad_spec(prev_cols, next_cols, s as int, height);
        lemma_mad_spec_bounds(prev_cols, next_cols, s as int, height);
        let bs = if mad_less(m, best) { s } else { best_s };
        let bm = if mad_less(m, best) { m } else { best };
        if !mad_below(m, 5) {
            assert forall|i: int| 0 <= i < cands.drop_first().len() implies lo <= #[trigger] cands.drop_first()[i] <= hi by {
                assert(cands.drop_first()[i] == cands[i + 1]);
            }
            lemma_scan_result_in(prev_cols, next_cols, height, cands.drop_first(), bs, bm, lo, hi);
        }
    }
}

proof fn lemma_mad_spec_bounds(prev_cols: Seq<Seq<u8>>, next_cols: Seq<Seq<u8>>, s: int, height: int)
    requires
        0 <= s,
        0 <= height <= u32::MAX,
    ensures
        mad_spec(prev_cols, next_cols, s, height).total <= 255 * mad_spec(prev_cols, next_cols, s, height).count,
{
    lemma_diff_bounds(prev_cols[0], next_cols[0], s, height);
    lemma_diff_bounds(prev_cols[1], next_cols[1], s, height);
    lemma_diff_bounds(prev_cols[2], next_cols[2], s, height);
}

fn search(
    prev_cols: &Vec<Vec<u8>>,
    next_cols: &Vec<Vec<u8>>,
    height: u32,
    cands: &Vec<i32>,
    best_s: i32,
    best: MadScore,
) -> (res: (i32, MadScore))
    requires
        prev_cols@.len() >= 3,
        next_cols@.len() >= 3,
        forall|i: int| 0 <= i < cands@.len() ==> 0 <= #[trigger] cands@[i],
        best.total <= 255 * best.count,
        best.count <= 3 * 0x1_0000_0000u64,
    ensures
        res == scan(column_views(prev_cols@), column_views(next_cols@), height as int, cands@, best_s, best),
        res.1.total <= 255 * res.1.count,
        res.1.count <= 3 * 0x1_0000_0000u64,
{
    let mut i: usize = 0;
    let mut bs = best_s;
    let mut bm = best;
    assert(cands@.subrange(0, cands@.len() as int) =~= cands@);
    while i < cands.len()
        invariant
            prev_cols@.len() >= 3,
            next_cols@.len() >= 3,
            forall|k: int| 0 <= k < cands@.len() ==> 0 <= #[trigger] cands@[k],
            i <= cands@.len(),
            bm.total <= 255 * bm.count,
            bm.count <= 3 * 0x1_0000_0000u64,
            scan(column_views(prev_cols@), column_views(next_cols@), height as int, cands@, best_s, best) == scan(
                column_views(prev_cols@),
                column_views(next_cols@),
                height as int,
                cands@.subrange(i as int, cands@.len() as int),
                bs,
                bm,
            ),
        decreases cands@.len() - i,
    {
        let ghost rest = cands@.subrange(i as int, cands@.len() as int);
        let s = cands[i];
        assert(rest[0] == s);
        assert(rest.drop_first() =~= cands@.subrange(i + 1, cands@.len() as int));
        let mad = mad_3cols(prev_cols.as_slice(), next_cols.as_slice(), s as u32, height);
        if score_less(mad, bm) {
            bm = mad;
            bs = s;
        }
        if score_below(mad, 5) {
            return (bs, bm);
        }
        i = i + 1;
    }
    assert(cands@.subrange(i as int, cands@.len() as int).len() == 0);
    (bs, bm)
}

/// `i32::clamp` (with `lo <= hi`).
pub open spec fn clamp_i32(v: i32, lo: i32, hi: i32) -> i32 {
    if v < lo { lo } else if v > hi { hi } else { v }
}

fn clamp_to(v: i32, lo: i32, hi: i32) -> (res: i32)
    requires
        lo <= hi,
    ensures
        res == clamp_i32(v, lo, hi),
{
    if v < lo { lo } else if v > hi { hi } else { v }
}

/// The three sampled columns (a quarter, half and three quarters across).
pub open spec fn sampled_columns(frame: Seq<u8>, width: u32, height: u32) -> Seq<Seq<u8>> {
    seq![
        column_signal(frame, width, height, width / 4),
        column_signal(frame, width, height, width / 2),
        column_signal(frame, width, height, (width * 3 / 4) as u32),
    ]
}

/// The contents of a list of columns.
pub open spec fn column_views(cols: Seq<Vec<u8>>) -> Seq<Seq<u8>> {
    cols.map_values(|c: Vec<u8>| c@)
}

// ---------------------------------------------------------------------------
// compute_offset
// ---------------------------------------------------------------------------

/// Inputs on which the search runs without an arithmetic fault: frames below
/// 10x10 are refused at once; otherwise the height must leave a search range
/// of at least 16 rows and fit in `i32`, the sampled byte offsets must fit in
/// `u32`, and the distance of every candidate to the hint must fit in `i32`.
pub open spec fn offset_inputs_ok(width: u32, height: u32, hint_dy: i32) -> bool {
    width < 10 || height < 10 || {
        &&& 17 <= height <= i32::MAX
        &&& width * 3 <= u32::MAX
        &&& column_fits(width, height, width / 4)
        &&& column_fits(width, height, width / 2)
        &&& column_fits(width, height, (width * 3 / 4) as u32)
        &&& hint_dy >= height - 1 - i32::MAX
    }
}

/// The best scroll amount and its MAD: first within the overlap window
/// `[2, overlap]`, then, when that gave no MAD below 15 and the window is
/// smaller than the frame, over `(overlap, height - 1]` as well.
pub open spec fn best_shift(
    prev_frame: Seq<u8>,
    next_frame: Seq<u8>,
    width: u32,
    height: u32,
    hint_dy: i32,
    overlap_rows: i32,
) -> (i32, MadScore) {
    let pc = sampled_columns(prev_frame, width, height);
    let nc = sampled_columns(next_frame, width, height);
    let full = (height - 1) as i32;
    let overlap = clamp_i32(overlap_rows, 16, full);
    let first = scan(
        pc,
        nc,
        height as int,
        candidate_list(2, overlap as int, hint_dy as int),
        clamp_i32(hint_dy, 2, full),
        no_score(),
    );
    if !mad_below(first.1, 15) && overlap < full {
        scan(pc, nc, height as int, candidate_list(overlap + 1, full as int, hint_dy as int), first.0, first.1)
    } else {
        first
    }
}

/// What [`compute_offset`] returns.
pub open spec fn offset_spec(
    prev_frame: Seq<u8>,
    next_frame: Seq<u8>,
    width: u32,
    height: u32,
    hint_dy: i32,
    overlap_rows: i32,
    direction: Seq<char>,
) -> OffsetResult {
    if width < 10 || height < 10 {
        OffsetResult { dy: 0, dx: 0, confidence: 0, algorithm: OffsetAlgorithm::MadTooSmall }
    } else {
        let (s, m) = best_shift(prev_frame, next_frame, width, height, hint_dy, overlap_rows);
        OffsetResult {
            dy: if direction == "vertical"@ { s } else { 0 },
            dx: if direction == "horizontal"@ { s } else { 0 },
            confidence: confidence_for(m),
            algorithm: OffsetAlgorithm::Mad,
        }
    }
}

proof fn lemma_candidate_list(lo: int, hi: int, hint: int, v: Seq<i32>)
    requires
        0 <= lo <= hi <= i32::MAX,
        v.len() == candidate_order(lo, hi, hint).len(),
        forall|i: int| 0 <= i < v.len() ==> v[i] as int == candidate_order(lo, hi, hint)[i],
    ensures
        v == candidate_list(lo, hi, hint),
        forall|i: int| 0 <= i < v.len() ==> lo <= #[trigger] v[i] <= hi,
{
    lemma_candidate_order_sorted(lo, hi, hint);
    assert(v =~= candidate_list(lo, hi, hint));
}

fn sample_columns(frame: &[u8], width: u32, height: u32) -> (cols: Vec<Vec<u8>>)
    requires
        10 <= width,
        width * 3 <= u32::MAX,
        column_fits(width, height, width / 4),
        column_fits(width, height, width / 2),
        column_fits(width, height, (width * 3 / 4) as u32),
    ensures
        column_views(cols@) == sampled_columns(frame@, width, height),
        cols@.len() == 3,
{
    let mut cols: Vec<Vec<u8>> = Vec::new();
    cols.push(extract_column(frame, width, height, width / 4));
    cols.push(extract_column(frame, width, height, width / 2));
    cols.push(extract_column(frame, width, height, width * 3 / 4));
    assert(column_views(cols@) =~= sampled_columns(frame@, width, height));
    cols
}

/// Finds the scroll amount between two RGBA frames of the same size by the
/// column-sampled MAD match.  `overlap_rows` is the size of the first search
/// window (the caller's `height * overlap_ratio`); `hint_dy` is the expected
/// amount; `direction` is "vertical" or "horizontal".
pub fn compute_offset(
    prev_frame: &[u8],
    next_frame: &[u8],
    width: u32,
    height: u32,
    hint_dy: i32,
    overlap_rows: i32,
    direction: &str,
) -> (res: OffsetResult)
    requires
        offset_inputs_ok(width, height, hint_dy),
    ensures
        res == offset_spec(prev_frame@, next_frame@, width, height, hint_dy, overlap_rows, direction@),
        width >= 10 && height >= 10 ==> 2 <= best_shift(
            prev_frame@,
            next_frame@,
            width,
            height,
            hint_dy,
            overlap_rows,
        ).0 < height,
{
    if width < 10 || height < 10 {
        return OffsetResult { dy: 0, dx: 0, confidence: 0, algorithm: OffsetAlgorithm::MadTooSmall };
    }
    let prev_cols = sample_columns(prev_frame, width, height);
    let next_cols = sample_columns(next_frame, width, height);

    let full_range: i32 = height as i32 - 1;
    let overlap_range = clamp_to(overlap_rows, 16, full_range);
    let candidates = candidates_in_hint_order(2, overlap_range, hint_dy);
    proof {
        lemma_candidate_list(2, overlap_range as int, hint_dy as int, candidates@);
    }
    let start = clamp_to(hint_dy, 2, full_range);
    let first = search(&prev_cols, &next_cols, height, &candidates, start, MadScore { total: 0, count: 0 });
    proof {
        lemma_scan_result_in(
            column_views(prev_cols@),
            column_views(next_cols@),
            height as int,
            candidates@,
            start,
            no_score(),
            2,
            full_range as int,
        );
    }
    let (best_s, best_mad) = if !score_below(first.1, 15) && overlap_range < full_range {
        let rest = candidates_in_hint_order(overlap_range + 1, full_range, hint_dy);
        proof {
            lemma_candidate_list(overlap_range + 1, full_range as int, hint_dy as int, rest@);
            lemma_scan_result_in(
                column_views(prev_cols@),
                column_views(next_cols@),
                height as int,
                rest@,
                first.0,
                first.1,
                2,
                full_range as int,
            );
        }
        search(&prev_cols, &next_cols, height, &rest, first.0, first.1)
    } else {
        first
    };
    let confidence = confidence_of(best_mad);
    let dy = if str_equals(direction, "vertical") { best_s } else { 0 };
    let dx = if str_equals(direction, "horizontal") { best_s } else { 0 };
    OffsetResult { dy, dx, confidence, algorithm: OffsetAlgorithm::Mad }
}

// ---------------------------------------------------------------------------
// Laws
// ---------------------------------------------------------------------------

/// When the hint lies inside the overlap window and already matches with a
/// MAD below 5, it is tried first and returned at once.
pub proof fn lemma_good_hint_wins(
    prev_frame: Seq<u8>,
    next_frame: Seq<u8>,
    width: u32,
    height: u32,
    hint_dy: i32,
    overlap_rows: i32,
)
    requires
        10 <= width,
        17 <= height <= i32::MAX,
        2 <= hint_dy <= clamp_i32(overlap_rows, 16, (height - 1) as i32),
        mad_below(
            mad_spec(
                sampled_columns(prev_frame, width, height),
                sampled_columns(next_frame, width, height),
                hint_dy as int,
                height as int,
            ),
            5,
        ),
    ensures
        best_shift(prev_frame, next_frame, width, height, hint_dy, overlap_rows).0 == hint_dy,
{
    let full = (height - 1) as i32;
    let overlap = clamp_i32(overlap_rows, 16, full);
    let cands = candidate_list(2, overlap as int, hint_dy as int);
    assert(candidate_at(2, overlap as int, hint_dy as int, 0) == hint_dy);
    assert(cands[0] == hint_dy);
}

/// A smaller MAD never gets a lower confidence.
pub proof fn lemma_confidence_monotone(a: MadScore, b: MadScore)
    requires
        mad_less(a, b),
    ensures
        confidence_for(a) >= confidence_for(b),
{
    assert forall|k: int| 0 < k && mad_below(b, k) implies mad_below(a, k) by {
        if b.count != 0 {
            let (at, ac, bt, bc) = (a.total as int, a.count as int, b.total as int, b.count as int);
            assert(at * bc < bt * ac);
            assert(bt < k * bc);
            assert(at < k * ac) by (nonlinear_arith)
                requires
                    at * bc < bt * ac,
                    bt < k * bc,
                    ac > 0,
                    bc > 0,
                    at >= 0,
                    bt >= 0,
            {
                assert(bt * ac < k * bc * ac);
                assert(at * bc < k * ac * bc);
            }
        }
    }
    assert(mad_below(b, 3) ==> mad_below(a, 3));
    assert(mad_below(b, 8) ==> mad_below(a, 8));
    assert(mad_below(b, 15) ==> mad_below(a, 15));
    assert(mad_below(b, 30) ==> mad_below(a, 30));
}

/// Checks `column_fits`.
pub fn column_fits_check(width: u32, height: u32, col: u32) -> (res: bool)
    ensures
        res == column_fits(width, height, col),
{
    if height == 0 {
        return true;
    }
    let c: i128 = if col < width { col as i128 } else { width as i128 - 1 };
    proof {
        lemma_mul_upper_bound((height - 1) as int, u32::MAX as int, width as int, u32::MAX as int);
        lemma_mul_nonnegative((height - 1) as int, width as int);
    }
    ((height - 1) as i128 * width as i128 + c) * 4 <= u32::MAX as i128
}

/// Checks `offset_inputs_ok`: whether [`compute_offset`] may be called.
pub fn offset_inputs_valid(width: u32, height: u32, hint_dy: i32) -> (res: bool)
    ensures
        res == offset_inputs_ok(width, height, hint_dy),
{
    if width < 10 || height < 10 {
        return true;
    }
    if !(17 <= height && height <= i32::MAX as u32) {
        return false;
    }
    if width > u32::MAX / 3 {
        return false;
    }
    column_fits_check(width, height, width / 4) && column_fits_check(width, height, width / 2)
        && column_fits_check(width, height, width * 3 / 4) && hint_dy as i64 >= height as i64 - 1
        - i32::MAX as i64
}

/// Rows `[s, height)` of `pc` reappear `s` rows higher in `nc`.
pub open spec fn shifted_by(pc: Seq<u8>, nc: Seq<u8>, s: int, height: int) -> bool {
    &&& pc.len() == height
    &&& nc.len() == height
    &&& forall|j: int| s <= j < height ==> #[trigger] pc[j] == nc[j - s]
}

proof fn lemma_exact_shift_column(pc: Seq<u8>, nc: Seq<u8>, s: int, height: int, end: int)
    requires
        0 <= s <= end <= height,
        shifted_by(pc, nc, s, height),
    ensures
        diff_sum(pc, nc, s, end) == 0,
        pair_count(pc, nc, s, end) == end - s,
    decreases end - s,
{
    if end > s {
        lemma_exact_shift_column(pc, nc, s, height, end - 1);
        assert(pc[end - 1] == nc[end - 1 - s]);
    }
}

/// Exact scroll law: when the sampled columns of the next frame are those of
/// the previous one moved up by exactly the hinted amount (inside the overlap
/// window), the match reports that amount with the highest confidence.
pub proof fn lemma_exact_scroll_found(
    prev_frame: Seq<u8>,
    next_frame: Seq<u8>,
    width: u32,
    height: u32,
    hint_dy: i32,
    overlap_rows: i32,
)
    requires
        10 <= width,
        17 <= height <= i32::MAX,
        2 <= hint_dy <= clamp_i32(overlap_rows, 16, (height - 1) as i32),
        forall|c: int|
            0 <= c < 3 ==> shifted_by(
                #[trigger] sampled_columns(prev_frame, width, height)[c],
                sampled_columns(next_frame, width, height)[c],
                hint_dy as int,
                height as int,
            ),
    ensures
        offset_spec(prev_frame, next_frame, width, height, hint_dy, overlap_rows, "vertical"@).dy == hint_dy,
        offset_spec(prev_frame, next_frame, width, height, hint_dy, overlap_rows, "vertical"@).confidence == 95,
{
    let pc = sampled_columns(prev_frame, width, height);
    let nc = sampled_columns(next_frame, width, height);
    let s = hint_dy as int;
    let h = height as int;
    assert(shifted_by(pc[0], nc[0], s, h));
    assert(shifted_by(pc[1], nc[1], s, h));
    assert(shifted_by(pc[2], nc[2], s, h));
    lemma_exact_shift_column(pc[0], nc[0], s, h, h);
    lemma_exact_shift_column(pc[1], nc[1], s, h, h);
    lemma_exact_shift_column(pc[2], nc[2], s, h, h);
    let m = mad_spec(pc, nc, s, h);
    assert(m.total == 0);
    assert(m.count == 3 * (h - s));
    lemma_good_hint_wins(prev_frame, next_frame, width, height, hint_dy, overlap_rows);
    let full = (height - 1) as i32;
    let overlap = clamp_i32(overlap_rows, 16, full);
    let cands = candidate_list(2, overlap as int, hint_dy as int);
    assert(candidate_at(2, overlap as int, hint_dy as int, 0) == hint_dy);
    assert(cands[0] == hint_dy);
    assert(best_shift(prev_frame, next_frame, width, height, hint_dy, overlap_rows).1 == m);
}

/// Every value of `[lo, hi]` has a place in the candidate order.
proof fn lemma_candidate_index(lo: int, hi: int, hint: int, v: int) -> (i: int)
    requires
        lo <= v <= hi,
    ensures
        0 <= i <= hi - lo,
        candidate_at(lo, hi, hint, i) == v,
{
    if hint <= lo {
        v - lo
    } else if hint >= hi {
        hi - v
    } else {
        let m = if hint - lo <= hi - hint { hint - lo } else { hi - hint };
        if v == hint {
            0
        } else if v < hint && hint - v <= m {
            2 * (hint - v) - 1
        } else if v > hint && v - hint <= m {
            2 * (v - hint)
        } else if v < hint {
            m + (hint - v)
        } else {
            m + (v - hint)
        }
    }
}

/// A MAD below `bound` ends up in the scan only if one of the candidates
/// (or the starting score) has one.
proof fn lemma_scan_keeps_bad(
    prev_cols: Seq<Seq<u8>>,
    next_cols: Seq<Seq<u8>>,
    height: int,
    cands: Seq<i32>,
    best_s: i32,
    best: MadScore,
    bound: int,
)
    requires
        forall|i: int|
            0 <= i < cands.len() ==> !mad_below(mad_spec(prev_cols, next_cols, #[trigger] cands[i] as int, height), bound),
        !mad_below(best, bound),
    ensures
        !mad_below(scan(prev_cols, next_cols, height, cands, best_s, best).1, bound),
    decreases cands.len(),
{
    if cands.len() > 0 {
        let s = cands[0];
        let m = mad_spec(prev_cols, next_cols, s as int, height);
        let bs = if mad_less(m, best) { s } else { best_s };
        let bm = if mad_less(m, best) { m } else { best };
        if !mad_below(m, 5) {
            assert forall|i: int| 0 <= i < cands.drop_first().len() implies !mad_below(
                mad_spec(prev_cols, next_cols, #[trigger] cands.drop_first()[i] as int, height),
                bound,
            ) by {
                assert(cands.drop_first()[i] == cands[i + 1]);
            }
            lemma_scan_keeps_bad(prev_cols, next_cols, height, cands.drop_first(), bs, bm, bound);
        }
    }
}

/// A score below 5 always beats one that is not.
proof fn lemma_below_five_is_less(m: MadScore, best: MadScore)
    requires
        mad_below(m, 5),
        !mad_below(best, 5),
    ensures
        mad_less(m, best),
{
    if best.count != 0 {
        let (mt, mc, bt, bc) = (m.total as int, m.count as int, best.total as int, best.count as int);
        assert(mt * bc < bt * mc) by (nonlinear_arith)
            requires
                mt < 5 * mc,
                bt >= 5 * bc,
                mc > 0,
                bc > 0,
                mt >= 0,
        {
            assert(mt * bc < 5 * mc * bc);
            assert(5 * bc * mc <= bt * mc);
        }
    }
}

/// When some candidate `s` scores below 5 and the running best does not,
/// the scan stops on a candidate scoring below 5 and returns it with its own
/// score; when `s` is the only candidate below 5, that is `s`.
proof fn lemma_scan_finds(
    prev_cols: Seq<Seq<u8>>,
    next_cols: Seq<Seq<u8>>,
    height: int,
    cands: Seq<i32>,
    best_s: i32,
    best: MadScore,
    s: i32,
    k: int,
    lo: int,
    hi: int,
)
    requires
        0 <= k < cands.len(),
        cands[k] == s,
        mad_below(mad_spec(prev_cols, next_cols, s as int, height), 5),
        !mad_below(best, 5),
        forall|i: int| 0 <= i < cands.len() ==> lo <= #[trigger] cands[i] <= hi,
    ensures
        ({
            let r = scan(prev_cols, next_cols, height, cands, best_s, best);
            &&& lo <= r.0 <= hi
            &&& r.1 == mad_spec(prev_cols, next_cols, r.0 as int, height)
            &&& mad_below(r.1, 5)
            &&& (forall|i: int|
                0 <= i < cands.len() && #[trigger] cands[i] != s ==> !mad_below(
                    mad_spec(prev_cols, next_cols, cands[i] as int, height),
                    5,
                )) ==> r.0 == s
        }),
    decreases cands.len(),
{
    let c = cands[0];
    let m = mad_spec(prev_cols, next_cols, c as int, height);
    let bs = if mad_less(m, best) { c } else { best_s };
    let bm = if mad_less(m, best) { m } else { best };
    if mad_below(m, 5) {
        lemma_below_five_is_less(m, best);
    } else {
        assert(k > 0);
        let rest = cands.drop_first();
        assert(rest[k - 1] == s);
        assert forall|i: int| 0 <= i < rest.len() implies lo <= #[trigger] rest[i] <= hi by {
            assert(rest[i] == cands[i + 1]);
        }
        lemma_scan_finds(prev_cols, next_cols, height, rest, bs, bm, s, k - 1, lo, hi);
        if forall|i: int|
            0 <= i < cands.len() && #[trigger] cands[i] != s ==> !mad_below(
                mad_spec(prev_cols, next_cols, cands[i] as int, height),
                5,
            ) {
            assert forall|i: int|
                0 <= i < rest.len() && #[trigger] rest[i] != s implies !mad_below(
                    mad_spec(prev_cols, next_cols, rest[i] as int, height),
                    5,
                ) by {
                assert(rest[i] == cands[i + 1]);
            }
        }
    }
}

/// Exact scroll law for a fast scroll: when the sampled columns of the next
/// frame are those of the previous one moved up by `s` rows, anywhere in
/// `[2, height - 1]`, and no shift in the overlap window scores a MAD below
/// 15, the search widens past the window and returns a shift beyond it that
/// matches with a MAD below 5 (confidence at least 0.85); when no other shift
/// beyond the window scores below 5, it returns exactly `s` with confidence
/// 0.95.
pub proof fn lemma_fast_scroll_found(
    prev_frame: Seq<u8>,
    next_frame: Seq<u8>,
    width: u32,
    height: u32,
    hint_dy: i32,
    overlap_rows: i32,
    s: i32,
)
    requires
        10 <= width,
        17 <= height <= i32::MAX,
        2 <= s <= height - 1,
        forall|c: int|
            0 <= c < 3 ==> shifted_by(
                #[trigger] sampled_columns(prev_frame, width, height)[c],
                sampled_columns(next_frame, width, height)[c],
                s as int,
                height as int,
            ),
        forall|t: int|
            2 <= t <= clamp_i32(overlap_rows, 16, (height - 1) as i32) ==> !mad_below(
                #[trigger] mad_spec(
                    sampled_columns(prev_frame, width, height),
                    sampled_columns(next_frame, width, height),
                    t,
                    height as int,
                ),
                15,
            ),
    ensures
        ({
            let r = offset_spec(prev_frame, next_frame, width, height, hint_dy, overlap_rows, "vertical"@);
            let pc = sampled_columns(prev_frame, width, height);
            let nc = sampled_columns(next_frame, width, height);
            let ov = clamp_i32(overlap_rows, 16, (height - 1) as i32);
            &&& ov < r.dy <= height - 1
            &&& mad_below(mad_spec(pc, nc, r.dy as int, height as int), 5)
            &&& r.confidence == confidence_for(mad_spec(pc, nc, r.dy as int, height as int))
            &&& r.confidence >= 85
            &&& r.algorithm == OffsetAlgorithm::Mad
            &&& (forall|t: int|
                ov < t <= height - 1 && t != s ==> !mad_below(#[trigger] mad_spec(pc, nc, t, height as int), 5))
                ==> r.dy == s && r.confidence == 95
        }),
{
    let pc = sampled_columns(prev_frame, width, height);
    let nc = sampled_columns(next_frame, width, height);
    let h = height as int;
    let full = (height - 1) as i32;
    let ov = clamp_i32(overlap_rows, 16, full);
    assert(shifted_by(pc[0], nc[0], s as int, h));
    assert(shifted_by(pc[1], nc[1], s as int, h));
    assert(shifted_by(pc[2], nc[2], s as int, h));
    lemma_exact_shift_column(pc[0], nc[0], s as int, h, h);
    lemma_exact_shift_column(pc[1], nc[1], s as int, h, h);
    lemma_exact_shift_column(pc[2], nc[2], s as int, h, h);
    let ms = mad_spec(pc, nc, s as int, h);
    assert(ms.total == 0 && ms.count == 3 * (h - s));
    assert(mad_below(ms, 3));
    if s <= ov {
        assert(!mad_below(mad_spec(pc, nc, s as int, h), 15));
    }
    assert(ov < s);

    // The overlap window yields nothing below 15.
    let cands1 = candidate_list(2, ov as int, hint_dy as int);
    lemma_candidate_order_sorted(2, ov as int, hint_dy as int);
    assert forall|i: int| 0 <= i < cands1.len() implies !mad_below(
        mad_spec(pc, nc, #[trigger] cands1[i] as int, h),
        15,
    ) by {
        let v = candidate_order(2, ov as int, hint_dy as int)[i];
        assert(2 <= v <= ov);
        assert(cands1[i] as int == v);
    }
    let start = clamp_i32(hint_dy, 2, full);
    lemma_scan_keeps_bad(pc, nc, h, cands1, start, no_score(), 15);
    let first = scan(pc, nc, h, cands1, start, no_score());
    assert(!mad_below(first.1, 5));

    // The widened search finds the shift.
    let cands2 = candidate_list(ov + 1, full as int, hint_dy as int);
    lemma_candidate_order_sorted(ov + 1, full as int, hint_dy as int);
    let k = lemma_candidate_index(ov + 1, full as int, hint_dy as int, s as int);
    assert(cands2[k] == s);
    assert forall|i: int| 0 <= i < cands2.len() implies ov + 1 <= #[trigger] cands2[i] <= full by {
        let v = candidate_order(ov + 1, full as int, hint_dy as int)[i];
        assert(ov + 1 <= v <= full);
        assert(cands2[i] as int == v);
    }
    lemma_scan_finds(pc, nc, h, cands2, first.0, first.1, s, k, ov + 1, full as int);
    let r = scan(pc, nc, h, cands2, first.0, first.1);
    assert(best_shift(prev_frame, next_frame, width, height, hint_dy, overlap_rows) == r);
    assert(mad_below(r.1, 8));
    if forall|t: int|
        ov < t <= height - 1 && t != s ==> !mad_below(#[trigger] mad_spec(pc, nc, t, h), 5) {
        assert forall|i: int|
            0 <= i < cands2.len() && #[trigger] cands2[i] != s implies !mad_below(
                mad_spec(pc, nc, cands2[i] as int, h),
                5,
            ) by {
            assert(ov + 1 <= cands2[i] <= full);
        }
        assert(r.0 == s);
    }
}

} // verus!
