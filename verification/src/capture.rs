//! Screen-brightness analysis.
//!
//! A capture arrives as a packed-RGB image with a minimal positional text
//! header: a magic line, optional comment lines marked by `#`, a width
//! token, a height token and a max-value line, followed by raw byte
//! triples. The parser walks the header positionally; any malformed or
//! truncated input yields no result. Brightness is the perceived luma
//! `0.299 R + 0.587 G + 0.114 B`, held exactly in units of `1/255000`
//! (channel weight times the maximum channel value), accumulated into an
//! 8x8 grid of per-cell averages and one overall average.

use vstd::prelude::*;

verus! {

/// Newline byte.
pub const NL: u8 = 10;

/// Space byte.
pub const SP: u8 = 32;

/// Comment-marker byte (`#`).
pub const COMMENT: u8 = 35;

/// One whole brightness unit: the luma of a pure-white pixel.
pub const LUMA_ONE: u32 = 255000;

/// Brightness reported when no data exists: one half.
pub const LUMA_HALF: u32 = 127500;

/// Grid edge: the image is partitioned into `GRID x GRID` cells.
pub const GRID: usize = 8;

/// Number of grid cells.
pub const GRID_CELLS: usize = 64;

/// Largest header dimension accepted, so that the reported original size
/// (the captured size times 8) still fits the dimension field.
pub const MAX_DIM: u32 = 536870911;

/// Index of the first newline at or after `from`, or the end.
pub open spec fn scan_to_newline(s: Seq<u8>, from: int) -> int
    decreases s.len() - from when 0 <= from <= s.len()
{
    if from >= s.len() {
        s.len() as int
    } else if s[from] == NL {
        from
    } else {
        scan_to_newline(s, from + 1)
    }
}

/// Index of the first space or newline at or after `from`, or the end.
pub open spec fn scan_to_token_end(s: Seq<u8>, from: int) -> int
    decreases s.len() - from when 0 <= from <= s.len()
{
    if from >= s.len() {
        s.len() as int
    } else if s[from] == SP || s[from] == NL {
        from
    } else {
        scan_to_token_end(s, from + 1)
    }
}

/// One position forward, stopping at the end.
pub open spec fn advance(s: Seq<u8>, p: int) -> int {
    if p + 1 <= s.len() {
        p + 1
    } else {
        s.len() as int
    }
}

pub proof fn lemma_scan_to_newline_bounds(s: Seq<u8>, from: int)
    requires
        0 <= from <= s.len(),
    ensures
        from <= scan_to_newline(s, from) <= s.len(),
    decreases s.len() - from,
{
    if from < s.len() && s[from] != NL {
        lemma_scan_to_newline_bounds(s, from + 1);
    }
}

pub proof fn lemma_scan_to_token_end_bounds(s: Seq<u8>, from: int)
    requires
        0 <= from <= s.len(),
    ensures
        from <= scan_to_token_end(s, from) <= s.len(),
    decreases s.len() - from,
{
    if from < s.len() && s[from] != SP && s[from] != NL {
        lemma_scan_to_token_end_bounds(s, from + 1);
    }
}

/// Start of the first non-comment line at or after `from`.
pub open spec fn skip_comment_lines(s: Seq<u8>, from: int) -> int
    decreases s.len() - from when 0 <= from <= s.len() via skip_comment_lines_decreases
{
    if from >= s.len() || s[from] != COMMENT {
        from
    } else {
        skip_comment_lines(s, advance(s, scan_to_newline(s, from)))
    }
}

#[via_fn]
proof fn skip_comment_lines_decreases(s: Seq<u8>, from: int) {
    if !(from >= s.len() || s[from] != COMMENT) {
        lemma_scan_to_newline_bounds(s, from);
    }
}

/// Digit byte.
pub open spec fn is_digit(b: u8) -> bool {
    48 <= b <= 57
}

/// Value of a string of decimal digits.
pub open spec fn digits_value(s: Seq<u8>) -> int
    decreases s.len(),
{
    if s.len() == 0 {
        0
    } else {
        digits_value(s.drop_last()) * 10 + (s.last() - 48)
    }
}

/// A token with an optional leading plus sign stripped.
pub open spec fn token_digits(s: Seq<u8>) -> Seq<u8> {
    if s.len() > 0 && s[0] == 43 {
        s.skip(1)
    } else {
        s
    }
}

/// Every byte a digit.
pub open spec fn all_digits(s: Seq<u8>) -> bool {
    forall|i: int| 0 <= i < s.len() ==> is_digit(s[i])
}

/// The decimal number a token denotes, if it is one a 32-bit unsigned
/// parse accepts: optional leading plus sign, then one or more digits,
/// value within 32 bits.
pub open spec fn token_u32(s: Seq<u8>) -> Option<int> {
    let t = token_digits(s);
    if t.len() > 0 && all_digits(t) && digits_value(t) < 0x1_0000_0000 {
        Some(digits_value(t))
    } else {
        None
    }
}

/// Where the width token starts: past the magic line and any comment lines.
pub open spec fn width_start(s: Seq<u8>) -> int {
    skip_comment_lines(s, advance(s, scan_to_newline(s, 0)))
}

/// Where the height token starts: past the width token and its terminator.
pub open spec fn height_start(s: Seq<u8>) -> int {
    advance(s, scan_to_token_end(s, width_start(s)))
}

/// Where the pixel bytes start: past the height token, its terminator and
/// the max-value line.
pub open spec fn pixel_start(s: Seq<u8>) -> int {
    advance(s, scan_to_newline(s, advance(s, scan_to_token_end(s, height_start(s)))))
}

/// The parsed header: width, height and pixel-data offset — when both
/// dimension tokens parse as 32-bit numbers.
pub open spec fn ppm_header(s: Seq<u8>) -> Option<(int, int, int)> {
    let ws = width_start(s);
    let we = scan_to_token_end(s, ws);
    let hs = height_start(s);
    let he = scan_to_token_end(s, hs);
    match (token_u32(s.subrange(ws, we)), token_u32(s.subrange(hs, he))) {
        (Some(w), Some(h)) => Some((w, h, pixel_start(s))),
        _ => None,
    }
}

/// The smaller of two numbers.
pub open spec fn imin(a: int, b: int) -> int {
    if a <= b {
        a
    } else {
        b
    }
}

/// Perceived luma of one pixel, in units of `1/255000`: the channel
/// weights 299, 587 and 114 applied to the raw byte values.
pub open spec fn luma(r: u8, g: u8, b: u8) -> int {
    299 * r + 587 * g + 114 * b
}

/// Luma of pixel `p` of the packed triples starting at `base`.
pub open spec fn luma_at(s: Seq<u8>, base: int, p: int) -> int {
    luma(s[base + 3 * p], s[base + 3 * p + 1], s[base + 3 * p + 2])
}

/// Grid column of pixel `p`, for image width `w` and cell width `cw`.
pub open spec fn gx_of(p: int, w: int, cw: int) -> int {
    imin((p % w) / cw, 7)
}

/// Grid row of pixel `p`, for image width `w` and cell height `ch`.
pub open spec fn gy_of(p: int, w: int, ch: int) -> int {
    imin((p / w) / ch, 7)
}

/// Flat grid-cell index of pixel `p`.
pub open spec fn cell_idx_of(p: int, w: int, cw: int, ch: int) -> int {
    gy_of(p, w, ch) * 8 + gx_of(p, w, cw)
}

/// Sum of the lumas of the first `n` pixels that fall in cell `c`.
pub open spec fn cell_sum(s: Seq<u8>, base: int, w: int, cw: int, ch: int, c: int, n: int) -> int
    decreases n,
{
    if n <= 0 {
        0
    } else {
        cell_sum(s, base, w, cw, ch, c, n - 1) + if cell_idx_of(n - 1, w, cw, ch) == c {
            luma_at(s, base, n - 1)
        } else {
            0
        }
    }
}

/// How many of the first `n` pixels fall in cell `c`.
pub open spec fn cell_count(w: int, cw: int, ch: int, c: int, n: int) -> int
    decreases n,
{
    if n <= 0 {
        0
    } else {
        cell_count(w, cw, ch, c, n - 1) + if cell_idx_of(n - 1, w, cw, ch) == c {
            1int
        } else {
            0int
        }
    }
}

/// Sum of the lumas of the first `n` pixels.
pub open spec fn total_luma(s: Seq<u8>, base: int, n: int) -> int
    decreases n,
{
    if n <= 0 {
        0
    } else {
        total_luma(s, base, n - 1) + luma_at(s, base, n - 1)
    }
}

/// A capture whose header parses and whose dimensions the analyzer
/// accepts: at least one full 8x8 cell each way, and small enough that the
/// reported original size fits 32 bits.
pub open spec fn ppm_ok(s: Seq<u8>) -> bool {
    match ppm_header(s) {
        Some((w, h, base)) => 8 <= w <= MAX_DIM && 8 <= h <= MAX_DIM,
        None => false,
    }
}

/// How many pixels the analysis walks: the header's pixel count, cut to
/// the complete byte triples present.
pub open spec fn considered(s: Seq<u8>, w: int, h: int, base: int) -> int {
    imin(w * h, (s.len() - base) / 3)
}

/// The published value of grid cell `c`: the average luma over the
/// considered pixels of the cell, or 0 where the cell got none.
pub open spec fn grid_cell_value(s: Seq<u8>, c: int) -> int {
    match ppm_header(s) {
        Some((w, h, base)) => {
            let n = considered(s, w, h, base);
            let cnt = cell_count(w, w / 8, h / 8, c, n);
            if cnt > 0 {
                cell_sum(s, base, w, w / 8, h / 8, c, n) / cnt
            } else {
                0
            }
        },
        None => 0,
    }
}

/// The published overall average luma, or one half where no pixel was
/// considered.
pub open spec fn avg_value(s: Seq<u8>) -> int {
    match ppm_header(s) {
        Some((w, h, base)) => {
            let n = considered(s, w, h, base);
            if n > 0 {
                total_luma(s, base, n) / n
            } else {
                LUMA_HALF as int
            }
        },
        None => LUMA_HALF as int,
    }
}

/// Cell sums stay between zero and the cell's count of full-white pixels.
pub proof fn lemma_cell_sum_le_count(
    s: Seq<u8>,
    base: int,
    w: int,
    cw: int,
    ch: int,
    c: int,
    n: int,
)
    requires
        0 <= base,
        0 <= n,
        base + 3 * n <= s.len(),
    ensures
        0 <= cell_count(w, cw, ch, c, n) <= n,
        0 <= cell_sum(s, base, w, cw, ch, c, n) <= cell_count(w, cw, ch, c, n) * (LUMA_ONE as int),
    decreases n,
{
    if n > 0 {
        lemma_cell_sum_le_count(s, base, w, cw, ch, c, n - 1);
        assert(luma_at(s, base, n - 1) <= LUMA_ONE as int);
        assert((cell_count(w, cw, ch, c, n - 1) + 1) * (LUMA_ONE as int) == cell_count(
            w,
            cw,
            ch,
            c,
            n - 1,
        ) * (LUMA_ONE as int) + LUMA_ONE as int) by (nonlinear_arith);
    }
}

/// The total luma stays between zero and `n` full-white pixels.
pub proof fn lemma_total_luma_bound(s: Seq<u8>, base: int, n: int)
    requires
        0 <= base,
        0 <= n,
        base + 3 * n <= s.len(),
    ensures
        0 <= total_luma(s, base, n) <= n * (LUMA_ONE as int),
    decreases n,
{
    if n > 0 {
        lemma_total_luma_bound(s, base, n - 1);
        assert(n * (LUMA_ONE as int) == (n - 1) * (LUMA_ONE as int) + LUMA_ONE as int)
            by (nonlinear_arith);
    }
}

/// Walk to the first newline at or after `pos`.
fn run_to_newline(data: &Vec<u8>, pos: usize) -> (r: usize)
    requires
        pos <= data@.len(),
    ensures
        r == scan_to_newline(data@, pos as int),
        pos <= r <= data@.len(),
{
    let mut p = pos;
    while p < data.len() && data[p] != NL
        invariant
            pos <= p <= data@.len(),
            scan_to_newline(data@, pos as int) == scan_to_newline(data@, p as int),
        decreases data@.len() - p,
    {
        p = p + 1;
    }
    p
}

/// Walk to the first space or newline at or after `pos`.
fn run_to_token_end(data: &Vec<u8>, pos: usize) -> (r: usize)
    requires
        pos <= data@.len(),
    ensures
        r == scan_to_token_end(data@, pos as int),
        pos <= r <= data@.len(),
{
    let mut p = pos;
    while p < data.len() && data[p] != SP && data[p] != NL
        invariant
            pos <= p <= data@.len(),
            scan_to_token_end(data@, pos as int) == scan_to_token_end(data@, p as int),
        decreases data@.len() - p,
    {
        p = p + 1;
    }
    p
}

/// One position forward, stopping at the end.
fn step_past(data: &Vec<u8>, pos: usize) -> (r: usize)
    requires
        pos <= data@.len(),
    ensures
        r == advance(data@, pos as int),
        r <= data@.len(),
{
    if pos < data.len() {
        pos + 1
    } else {
        pos
    }
}

/// Parse a dimension token (the bytes of `[from, to)`) as a 32-bit number.
#[verifier::loop_isolation(false)]
fn parse_u32_token(data: &Vec<u8>, from: usize, to: usize) -> (r: Option<u32>)
    requires
        from <= to <= data@.len(),
    ensures
        match r {
            Some(v) => token_u32(data@.subrange(from as int, to as int)) == Some(v as int),
            None => token_u32(data@.subrange(from as int, to as int)) is None,
        },
{
    let ghost tok = data@.subrange(from as int, to as int);
    let mut p = from;
    if p < to && data[p] == 43 {
        p = p + 1;
    }
    let ghost t = token_digits(tok);
    proof {
        assert(t =~= data@.subrange(p as int, to as int));
    }
    if p == to {
        return None;
    }
    let mut acc: u64 = 0;
    let mut q = p;
    while q < to
        invariant
            p <= q <= to <= data@.len(),
            t =~= data@.subrange(p as int, to as int),
            forall|i: int| 0 <= i < q - p ==> is_digit(t[i]),
            acc == digits_value(t.subrange(0, q - p)),
            acc < 0x1_0000_0000,
        decreases to - q,
    {
        let b = data[q];
        if b < 48 || b > 57 {
            proof {
                assert(t[q - p] == data@[q as int]);
                assert(0 <= q - p < t.len() && !is_digit(t[q - p]));
                assert(!all_digits(t));
            }
            return None;
        }
        let d: u64 = (b - 48) as u64;
        let next: u64 = acc * 10 + d;
        proof {
            assert(t.subrange(0, q + 1 - p).drop_last() =~= t.subrange(0, q - p));
            assert(t.subrange(0, q + 1 - p).last() == t[q - p]);
            assert(t[q - p] == data@[q as int]);
        }
        if next >= 0x1_0000_0000 {
            proof {
                if all_digits(t) {
                    lemma_digits_value_grows(t, (q + 1 - p) as int);
                    assert(digits_value(t) >= 0x1_0000_0000);
                }
            }
            return None;
        }
        acc = next;
        q = q + 1;
    }
    proof {
        assert(t.subrange(0, (to - p) as int) =~= t);
        assert(all_digits(t));
    }
    Some(acc as u32)
}

/// A string of digits denotes a number.
proof fn lemma_digits_value_nonneg(s: Seq<u8>)
    requires
        forall|i: int| 0 <= i < s.len() ==> is_digit(s[i]),
    ensures
        digits_value(s) >= 0,
    decreases s.len(),
{
    if s.len() > 0 {
        lemma_digits_value_nonneg(s.drop_last());
    }
}

/// A longer digit prefix never denotes a smaller value.
proof fn lemma_digits_value_grows(t: Seq<u8>, k: int)
    requires
        0 <= k <= t.len(),
        forall|i: int| 0 <= i < k ==> is_digit(t[i]),
    ensures
        digits_value(t.subrange(0, k)) <= digits_value(t) || exists|i: int|
            k <= i < t.len() && !is_digit(t[i]),
    decreases t.len() - k,
{
    if k < t.len() {
        if is_digit(t[k]) {
            assert(t.subrange(0, k + 1).drop_last() =~= t.subrange(0, k));
            assert(forall|i: int|
                0 <= i < t.subrange(0, k).len() ==> is_digit(t.subrange(0, k)[i]));
            lemma_digits_value_nonneg(t.subrange(0, k));
            assert(digits_value(t.subrange(0, k)) <= digits_value(t.subrange(0, k + 1)));
            lemma_digits_value_grows(t, k + 1);
        } else {
            assert(!is_digit(t[k]));
        }
    } else {
        assert(t.subrange(0, k) =~= t);
    }
}

/// Parse the positional header, yielding width, height and the pixel-data
/// offset.
pub fn parse_ppm_header(data: &Vec<u8>) -> (r: Option<(u32, u32, usize)>)
    ensures
        match r {
            Some((w, h, base)) => ppm_header(data@) == Some((w as int, h as int, base as int))
                && base <= data@.len(),
            None => ppm_header(data@) is None,
        },
{
    let magic_end = run_to_newline(data, 0);
    let p1 = step_past(data, magic_end);
    let mut p2 = p1;
    while p2 < data.len() && data[p2] == COMMENT
        invariant
            p1 <= p2 <= data@.len(),
            skip_comment_lines(data@, p1 as int) == skip_comment_lines(data@, p2 as int),
        decreases data@.len() - p2,
    {
        let le = run_to_newline(data, p2);
        proof {
            lemma_scan_to_newline_bounds(data@, p2 as int);
        }
        p2 = step_past(data, le);
    }
    let ws = p2;
    let we = run_to_token_end(data, ws);
    let w = parse_u32_token(data, ws, we);
    let hs = step_past(data, we);
    let he = run_to_token_end(data, hs);
    let h = parse_u32_token(data, hs, he);
    let maxval_end = run_to_newline(data, step_past(data, he));
    let base = step_past(data, maxval_end);
    match (w, h) {
        (Some(wv), Some(hv)) => Some((wv, hv, base)),
        _ => None,
    }
}

/// One analysis snapshot: the 8x8 brightness grid (row-major, units of
/// `1/255000`), the overall average, the original (pre-downsample) screen
/// dimensions and the capture time.
pub struct AnalysisData {
    pub brightness_grid: Vec<u32>,
    pub avg_brightness: u32,
    pub width: u32,
    pub height: u32,
    pub timestamp_ms: u64,
}

impl AnalysisData {
    /// A full grid of in-range brightness values.
    pub open spec fn wf(self) -> bool {
        &&& self.brightness_grid@.len() == GRID_CELLS
        &&& forall|c: int|
            0 <= c < GRID_CELLS ==> 0 <= #[trigger] self.brightness_grid@[c] <= LUMA_ONE
        &&& self.avg_brightness <= LUMA_ONE
    }

    /// The grid cell at column `gx`, row `gy`.
    pub fn cell(&self, gx: usize, gy: usize) -> (r: u32)
        requires
            self.wf(),
            gx < GRID,
            gy < GRID,
        ensures
            r == self.brightness_grid@[gy as int * 8 + gx as int],
    {
        self.brightness_grid[gy * 8 + gx]
    }
}

/// Decode one capture: parse the positional header, then fold every
/// complete pixel triple into the brightness grid and the overall
/// average. Yields nothing when the header is malformed or the
/// dimensions are out of the accepted band.
#[verifier::loop_isolation(false)]
pub fn parse_ppm_brightness(data: &Vec<u8>, now_ms: u64) -> (r: Option<AnalysisData>)
    ensures
        r is Some <==> ppm_ok(data@),
        match r {
            Some(ad) => {
                &&& ad.wf()
                &&& ad.timestamp_ms == now_ms
                &&& ppm_header(data@) matches Some((w, h, base)) && ad.width == 8 * w
                    && ad.height == 8 * h
                &&& forall|c: int|
                    0 <= c < GRID_CELLS ==> ad.brightness_grid@[c] == grid_cell_value(data@, c)
                &&& ad.avg_brightness == avg_value(data@)
            },
            None => true,
        },
{
    let header = parse_ppm_header(data);
    let (w, h, base) = match header {
        Some(t) => t,
        None => {
            return None;
        },
    };
    if w < 8 || h < 8 || w > MAX_DIM || h > MAX_DIM {
        return None;
    }
    let ghost s = data@;
    let w64: u64 = w as u64;
    let h64: u64 = h as u64;
    proof {
        assert((w64 as int) * (h64 as int) <= (MAX_DIM as int) * (MAX_DIM as int))
            by (nonlinear_arith)
            requires
                0 <= w64 as int <= MAX_DIM as int,
                0 <= h64 as int <= MAX_DIM as int,
        ;
    }
    let cw: u64 = w64 / 8;
    let ch: u64 = h64 / 8;
    let navail: u64 = ((data.len() - base) / 3) as u64;
    let wh: u64 = w64 * h64;
    let total: u64 = if wh <= navail {
        wh
    } else {
        navail
    };
    proof {
        assert(total as int == considered(s, w as int, h as int, base as int));
    }
    let mut sums: Vec<u128> = Vec::new();
    let mut counts: Vec<u64> = Vec::new();
    let mut c0: usize = 0;
    while c0 < GRID_CELLS
        invariant
            c0 <= GRID_CELLS,
            sums@.len() == c0,
            counts@.len() == c0,
            forall|c: int| 0 <= c < c0 ==> sums@[c] == 0 && counts@[c] == 0,
        decreases GRID_CELLS - c0,
    {
        sums.push(0);
        counts.push(0);
        c0 = c0 + 1;
    }
    let mut tot: u128 = 0;
    let mut p: u64 = 0;
    while p < total
        invariant
            p <= total,
            sums@.len() == GRID_CELLS,
            counts@.len() == GRID_CELLS,
            forall|c: int|
                0 <= c < GRID_CELLS ==> sums@[c] == cell_sum(
                    s,
                    base as int,
                    w as int,
                    cw as int,
                    ch as int,
                    c,
                    p as int,
                ) && counts@[c] == cell_count(w as int, cw as int, ch as int, c, p as int),
            tot == total_luma(s, base as int, p as int),
        decreases total - p,
    {
        proof {
            assert(3 * (p as int) + 2 < s.len() - base as int) by {
                assert(p < navail);
                assert(navail as int == (s.len() - base as int) / 3);
            };
        }
        let idx: usize = base + 3 * (p as usize);
        let rr: u32 = data[idx] as u32;
        let gg: u32 = data[idx + 1] as u32;
        let bb: u32 = data[idx + 2] as u32;
        let lum: u32 = 299 * rr + 587 * gg + 114 * bb;
        let x: u64 = p % w64;
        let y: u64 = p / w64;
        let gx: u64 = if x / cw <= 7 {
            x / cw
        } else {
            7
        };
        let gy: u64 = if y / ch <= 7 {
            y / ch
        } else {
            7
        };
        let g: usize = (gy * 8 + gx) as usize;
        proof {
            assert(g as int == cell_idx_of(p as int, w as int, cw as int, ch as int));
            assert(lum as int == luma_at(s, base as int, p as int));
            lemma_cell_sum_le_count(
                s,
                base as int,
                w as int,
                cw as int,
                ch as int,
                g as int,
                p as int,
            );
            lemma_total_luma_bound(s, base as int, p as int);
            assert((p as int) * (LUMA_ONE as int) <= (total as int) * (LUMA_ONE as int))
                by (nonlinear_arith)
                requires
                    0 <= p <= total,
            ;
            assert((cell_count(w as int, cw as int, ch as int, g as int, p as int)) * (
            LUMA_ONE as int) <= (p as int) * (LUMA_ONE as int)) by (nonlinear_arith)
                requires
                    0 <= cell_count(w as int, cw as int, ch as int, g as int, p as int)
                        <= p as int,
            ;
        }
        let prev_sum: u128 = sums[g];
        sums[g] = prev_sum + lum as u128;
        let prev_count: u64 = counts[g];
        counts[g] = prev_count + 1;
        tot = tot + lum as u128;
        p = p + 1;
        proof {
            assert(forall|c: int|
                0 <= c < GRID_CELLS ==> sums@[c] == cell_sum(
                    s,
                    base as int,
                    w as int,
                    cw as int,
                    ch as int,
                    c,
                    p as int,
                ) && counts@[c] == cell_count(w as int, cw as int, ch as int, c, p as int));
        }
    }
    let mut grid: Vec<u32> = Vec::new();
    let mut c: usize = 0;
    while c < GRID_CELLS
        invariant
            c <= GRID_CELLS,
            grid@.len() == c,
            forall|i: int|
                0 <= i < c ==> #[trigger] grid@[i] == grid_cell_value(s, i) && grid@[i]
                    <= LUMA_ONE,
        decreases GRID_CELLS - c,
    {
        let cnt = counts[c];
        let v: u32 = if cnt > 0 {
            proof {
                lemma_cell_sum_le_count(
                    s,
                    base as int,
                    w as int,
                    cw as int,
                    ch as int,
                    c as int,
                    total as int,
                );
                let cs = cell_sum(s, base as int, w as int, cw as int, ch as int, c as int,
                    total as int);
                let cc = cell_count(w as int, cw as int, ch as int, c as int, total as int);
                vstd::arithmetic::div_mod::lemma_div_is_ordered(cs, cc * (LUMA_ONE as int), cc);
                vstd::arithmetic::div_mod::lemma_div_multiples_vanish(LUMA_ONE as int, cc);
                assert(cc * (LUMA_ONE as int) == (LUMA_ONE as int) * cc) by (nonlinear_arith);
                vstd::arithmetic::div_mod::lemma_div_pos_is_pos(cs, cc);
            }
            (sums[c] / (cnt as u128)) as u32
        } else {
            0
        };
        proof {
            assert(v as int == grid_cell_value(s, c as int));
        }
        grid.push(v);
        c = c + 1;
    }
    let avg: u32 = if total > 0 {
        proof {
            lemma_total_luma_bound(s, base as int, total as int);
            let ts = total_luma(s, base as int, total as int);
            vstd::arithmetic::div_mod::lemma_div_is_ordered(
                ts,
                (total as int) * (LUMA_ONE as int),
                total as int,
            );
            vstd::arithmetic::div_mod::lemma_div_multiples_vanish(LUMA_ONE as int, total as int);
            assert((total as int) * (LUMA_ONE as int) == (LUMA_ONE as int) * (total as int))
                by (nonlinear_arith);
            vstd::arithmetic::div_mod::lemma_div_pos_is_pos(ts, total as int);
        }
        (tot / (total as u128)) as u32
    } else {
        LUMA_HALF
    };
    Some(
        AnalysisData {
            brightness_grid: grid,
            avg_brightness: avg,
            width: 8 * w,
            height: 8 * h,
            timestamp_ms: now_ms,
        },
    )
}

/// Cell counts never go negative.
proof fn lemma_cell_count_nonneg(w: int, cw: int, ch: int, c: int, n: int)
    ensures
        cell_count(w, cw, ch, c, n) >= 0,
    decreases n,
{
    if n > 0 {
        lemma_cell_count_nonneg(w, cw, ch, c, n - 1);
    }
}

/// A cell with a member among the first `n` pixels has a positive count.
proof fn lemma_cell_count_from_member(w: int, cw: int, ch: int, c: int, p0: int, n: int)
    requires
        0 <= p0 < n,
        cell_idx_of(p0, w, cw, ch) == c,
    ensures
        cell_count(w, cw, ch, c, n) > 0,
    decreases n,
{
    lemma_cell_count_nonneg(w, cw, ch, c, n - 1);
    if p0 < n - 1 {
        lemma_cell_count_from_member(w, cw, ch, c, p0, n - 1);
    }
}

/// Over an all-white pixel area, each cell's sum is its count of pixels
/// times one whole brightness unit.
proof fn lemma_uniform_cell_sum(s: Seq<u8>, base: int, w: int, cw: int, ch: int, c: int, n: int)
    requires
        0 <= base,
        0 <= n,
        base + 3 * n <= s.len(),
        forall|i: int| base <= i < s.len() ==> s[i] == 255,
    ensures
        cell_sum(s, base, w, cw, ch, c, n) == cell_count(w, cw, ch, c, n) * (LUMA_ONE as int),
    decreases n,
{
    if n > 0 {
        lemma_uniform_cell_sum(s, base, w, cw, ch, c, n - 1);
        assert(luma_at(s, base, n - 1) == LUMA_ONE as int);
        assert((cell_count(w, cw, ch, c, n - 1) + 1) * (LUMA_ONE as int) == cell_count(
            w,
            cw,
            ch,
            c,
            n - 1,
        ) * (LUMA_ONE as int) + LUMA_ONE as int) by (nonlinear_arith);
    }
}

/// Over an all-white pixel area the total luma is `n` whole units.
proof fn lemma_uniform_total_luma(s: Seq<u8>, base: int, n: int)
    requires
        0 <= base,
        0 <= n,
        base + 3 * n <= s.len(),
        forall|i: int| base <= i < s.len() ==> s[i] == 255,
    ensures
        total_luma(s, base, n) == n * (LUMA_ONE as int),
    decreases n,
{
    if n > 0 {
        lemma_uniform_total_luma(s, base, n - 1);
        assert(luma_at(s, base, n - 1) == LUMA_ONE as int);
        assert(n * (LUMA_ONE as int) == (n - 1) * (LUMA_ONE as int) + LUMA_ONE as int)
            by (nonlinear_arith);
    }
}

/// Each grid cell holds at least the pixel at its top-left corner.
proof fn lemma_cell_has_member(w: int, h: int, c: int)
    requires
        8 <= w,
        8 <= h,
        0 <= c < 64,
    ensures
        exists|p0: int|
            0 <= p0 < w * h && #[trigger] cell_idx_of(p0, w, w / 8, h / 8) == c,
{
    let cw = w / 8;
    let ch = h / 8;
    let gx = c % 8;
    let gy = c / 8;
    let x0 = gx * cw;
    let y0 = gy * ch;
    let p0 = y0 * w + x0;
    vstd::arithmetic::div_mod::lemma_div_pos_is_pos(w, 8);
    vstd::arithmetic::div_mod::lemma_div_pos_is_pos(h, 8);
    assert(cw >= 1 && ch >= 1);
    assert(0 <= gx <= 7 && 0 <= gy <= 7);
    assert(8 * cw <= w) by {
        vstd::arithmetic::div_mod::lemma_fundamental_div_mod(w, 8);
        vstd::arithmetic::div_mod::lemma_mod_bound(w, 8);
    };
    assert(8 * ch <= h) by {
        vstd::arithmetic::div_mod::lemma_fundamental_div_mod(h, 8);
        vstd::arithmetic::div_mod::lemma_mod_bound(h, 8);
    };
    assert(0 <= x0 && x0 + cw <= 8 * cw) by (nonlinear_arith)
        requires
            0 <= gx <= 7,
            cw >= 1,
            x0 == gx * cw,
    ;
    assert(0 <= y0 && y0 + ch <= 8 * ch) by (nonlinear_arith)
        requires
            0 <= gy <= 7,
            ch >= 1,
            y0 == gy * ch,
    ;
    assert(p0 == w * y0 + x0) by (nonlinear_arith)
        requires
            p0 == y0 * w + x0,
    ;
    vstd::arithmetic::div_mod::lemma_mod_multiples_vanish(y0, x0, w);
    vstd::arithmetic::div_mod::lemma_small_mod(x0 as nat, w as nat);
    assert(p0 % w == x0);
    vstd::arithmetic::div_mod::lemma_div_multiples_vanish_fancy(y0, x0, w);
    assert(p0 / w == y0);
    assert(x0 / cw == gx) by {
        assert(x0 == cw * gx) by (nonlinear_arith)
            requires
                x0 == gx * cw,
        ;
        vstd::arithmetic::div_mod::lemma_div_multiples_vanish(gx, cw);
    };
    assert(y0 / ch == gy) by {
        assert(y0 == ch * gy) by (nonlinear_arith)
            requires
                y0 == gy * ch,
        ;
        vstd::arithmetic::div_mod::lemma_div_multiples_vanish(gy, ch);
    };
    assert(cell_idx_of(p0, w, cw, ch) == gy * 8 + gx);
    assert(gy * 8 + gx == c);
    assert(p0 < w * h) by (nonlinear_arith)
        requires
            0 <= y0,
            y0 + 1 <= h,
            0 <= x0 < w,
            p0 == y0 * w + x0,
    ;
    assert(0 <= p0 < w * h && cell_idx_of(p0, w, w / 8, h / 8) == c);
}

/// A uniform full-white capture analyzes to a grid of exact ones and an
/// exact overall average of one.
pub proof fn lemma_uniform_white_brightness(s: Seq<u8>, w: int, h: int, base: int)
    requires
        ppm_header(s) == Some((w, h, base)),
        8 <= w <= MAX_DIM,
        8 <= h <= MAX_DIM,
        0 <= base,
        base + 3 * (w * h) <= s.len(),
        forall|i: int| base <= i < s.len() ==> s[i] == 255,
    ensures
        forall|c: int| 0 <= c < GRID_CELLS ==> grid_cell_value(s, c) == LUMA_ONE,
        avg_value(s) == LUMA_ONE,
{
    let n = considered(s, w, h, base);
    assert(n == w * h) by {
        vstd::arithmetic::div_mod::lemma_div_is_ordered(3 * (w * h), s.len() - base, 3);
        assert(3 * (w * h) == (w * h) * 3) by (nonlinear_arith);
        vstd::arithmetic::div_mod::lemma_div_by_multiple(w * h, 3);
        assert(w * h >= 0) by (nonlinear_arith)
            requires
                w >= 8,
                h >= 8,
        ;
    };
    assert(n >= 64) by (nonlinear_arith)
        requires
            n == w * h,
            w >= 8,
            h >= 8,
    ;
    assert forall|c: int| 0 <= c < GRID_CELLS implies grid_cell_value(s, c) == LUMA_ONE by {
        lemma_cell_has_member(w, h, c);
        let p0 = choose|p0: int|
            0 <= p0 < w * h && #[trigger] cell_idx_of(p0, w, w / 8, h / 8) == c;
        lemma_cell_count_from_member(w, w / 8, h / 8, c, p0, n);
        lemma_uniform_cell_sum(s, base, w, w / 8, h / 8, c, n);
        let cnt = cell_count(w, w / 8, h / 8, c, n);
        assert(cnt * (LUMA_ONE as int) == (LUMA_ONE as int) * cnt) by (nonlinear_arith);
        vstd::arithmetic::div_mod::lemma_div_multiples_vanish(LUMA_ONE as int, cnt);
    };
    lemma_uniform_total_luma(s, base, n);
    assert(n * (LUMA_ONE as int) == (LUMA_ONE as int) * n) by (nonlinear_arith);
    vstd::arithmetic::div_mod::lemma_div_multiples_vanish(LUMA_ONE as int, n);
}

/// Minimum spacing between successful captures, in milliseconds.
pub const CAPTURE_INTERVAL_MS: u64 = 500;

/// Screen-brightness analyzer state. The surrounding program runs the
/// actual capture on a worker; this state decides when a request may
/// start a capture and keeps the latest published snapshot. A request is
/// rejected while a capture is in flight, and for
/// `CAPTURE_INTERVAL_MS` after the last successful capture.
pub struct ScreenAnalyzer {
    pub data: Option<AnalysisData>,
    pub busy: bool,
    pub last_capture_ms: Option<u64>,
}

impl ScreenAnalyzer {
    /// Any published snapshot is well formed.
    pub open spec fn wf(self) -> bool {
        match self.data {
            Some(ad) => ad.wf(),
            None => true,
        }
    }

    /// Whether a request arriving at `now_ms` may start a capture: no
    /// capture in flight, and the last successful capture (if any) at
    /// least the capture interval ago.
    pub open spec fn may_capture(self, now_ms: u64) -> bool {
        &&& !self.busy
        &&& match self.last_capture_ms {
            Some(t) => now_ms >= t + CAPTURE_INTERVAL_MS,
            None => true,
        }
    }

    /// A fresh analyzer: nothing published, nothing in flight, first
    /// request allowed at once.
    pub fn new() -> (r: ScreenAnalyzer)
        ensures
            r.wf(),
            r.data is None,
            !r.busy,
            r.last_capture_ms is None,
    {
        ScreenAnalyzer { data: None, busy: false, last_capture_ms: None }
    }

    /// Take a capture request arriving at `now_ms`: marks a capture in
    /// flight and reports acceptance exactly when `may_capture` holds,
    /// otherwise a no-op.
    pub fn request_update(&mut self, now_ms: u64) -> (accepted: bool)
        requires
            old(self).wf(),
        ensures
            final(self).wf(),
            request_transition(*old(self), now_ms, *final(self), accepted),
    {
        let allowed = if self.busy {
            false
        } else {
            match self.last_capture_ms {
                Some(t) => t <= now_ms && now_ms - t >= CAPTURE_INTERVAL_MS,
                None => true,
            }
        };
        if allowed {
            self.busy = true;
        }
        allowed
    }

    /// Fold in the outcome of a finished capture attempt at `now_ms`: the
    /// in-flight mark is cleared whatever happened; a successful result
    /// replaces the snapshot wholesale and stamps the success time; a
    /// failed attempt leaves the published snapshot untouched.
    pub fn finish_capture(&mut self, now_ms: u64, result: Option<AnalysisData>)
        requires
            old(self).wf(),
            result matches Some(ad) ==> ad.wf(),
        ensures
            final(self).wf(),
            finish_transition(*old(self), now_ms, result, *final(self)),
    {
        self.busy = false;
        match result {
            Some(ad) => {
                self.data = Some(ad);
                self.last_capture_ms = Some(now_ms);
            },
            None => {},
        }
    }

    /// The most recent published snapshot, or nothing if no capture has
    /// ever succeeded.
    pub fn get_data(&self) -> (r: Option<&AnalysisData>)
        ensures
            match r {
                Some(ad) => self.data == Some(*ad),
                None => self.data is None,
            },
    {
        self.data.as_ref()
    }

    /// Brightness at a normalized screen position (each coordinate in
    /// milli-units of `[0, 1]`): the nearest grid cell's value, or one
    /// half if no data exists yet.
    pub fn brightness_at(&self, nx_milli: u32, ny_milli: u32) -> (r: u32)
        requires
            self.wf(),
            nx_milli <= 1000,
            ny_milli <= 1000,
        ensures
            r as int == match self.data {
                Some(ad) => ad.brightness_grid@[grid_coord(ny_milli as int) * 8 + grid_coord(
                    nx_milli as int,
                )] as int,
                None => LUMA_HALF as int,
            },
            r <= LUMA_ONE,
    {
        match &self.data {
            Some(ad) => {
                let gx: u32 = if nx_milli * 8 / 1000 <= 7 {
                    nx_milli * 8 / 1000
                } else {
                    7
                };
                let gy: u32 = if ny_milli * 8 / 1000 <= 7 {
                    ny_milli * 8 / 1000
                } else {
                    7
                };
                ad.brightness_grid[(gy * 8 + gx) as usize]
            },
            None => LUMA_HALF,
        }
    }
}

/// The grid coordinate a normalized milli-position maps to.
pub open spec fn grid_coord(n_milli: int) -> int {
    imin(n_milli * 8 / 1000, 7)
}

/// What a capture request does to the analyzer.
pub open spec fn request_transition(
    pre: ScreenAnalyzer,
    now_ms: u64,
    post: ScreenAnalyzer,
    accepted: bool,
) -> bool {
    &&& accepted == pre.may_capture(now_ms)
    &&& post.data == pre.data
    &&& post.last_capture_ms == pre.last_capture_ms
    &&& post.busy == (pre.busy || accepted)
}

/// What a finished capture attempt does to the analyzer.
pub open spec fn finish_transition(
    pre: ScreenAnalyzer,
    now_ms: u64,
    result: Option<AnalysisData>,
    post: ScreenAnalyzer,
) -> bool {
    &&& !post.busy
    &&& match result {
        Some(ad) => post.data == Some(ad) && post.last_capture_ms == Some(now_ms),
        None => post.data == pre.data && post.last_capture_ms == pre.last_capture_ms,
    }
}

/// While an accepted capture is still in flight, any further request is
/// rejected, whenever it arrives.
pub proof fn lemma_overlapping_request_rejected(
    a0: ScreenAnalyzer,
    t1: u64,
    a1: ScreenAnalyzer,
    t2: u64,
    a2: ScreenAnalyzer,
    acc2: bool,
)
    requires
        request_transition(a0, t1, a1, true),
        request_transition(a1, t2, a2, acc2),
    ensures
        !acc2,
{
}

/// After an accepted capture finishes successfully, a second request less
/// than the capture interval after the first is rejected: at most one
/// capture starts.
pub proof fn lemma_rapid_request_rejected(
    a0: ScreenAnalyzer,
    t1: u64,
    a1: ScreenAnalyzer,
    tf: u64,
    result: Option<AnalysisData>,
    a1f: ScreenAnalyzer,
    t2: u64,
    a2: ScreenAnalyzer,
    acc2: bool,
)
    requires
        request_transition(a0, t1, a1, true),
        finish_transition(a1, tf, result, a1f),
        result is Some,
        t1 <= tf,
        t2 < t1 + CAPTURE_INTERVAL_MS,
        request_transition(a1f, t2, a2, acc2),
    ensures
        !acc2,
{
}

/// Once the accepted capture has finished and the capture interval has
/// passed since any success, the next request is accepted again: spaced
/// requests both start a capture.
pub proof fn lemma_spaced_request_accepted(
    a0: ScreenAnalyzer,
    t1: u64,
    a1: ScreenAnalyzer,
    tf: u64,
    result: Option<AnalysisData>,
    a1f: ScreenAnalyzer,
    t2: u64,
    a2: ScreenAnalyzer,
    acc2: bool,
)
    requires
        request_transition(a0, t1, a1, true),
        finish_transition(a1, tf, result, a1f),
        t1 <= tf,
        t1 <= t2,
        result is Some ==> t2 >= tf + CAPTURE_INTERVAL_MS,
        request_transition(a1f, t2, a2, acc2),
    ensures
        acc2,
{
}

/// A failed or malformed capture publishes nothing: the previous snapshot
/// and the last success time stay as they were.
pub proof fn lemma_failed_capture_keeps_snapshot(
    pre: ScreenAnalyzer,
    now_ms: u64,
    post: ScreenAnalyzer,
)
    requires
        finish_transition(pre, now_ms, None, post),
    ensures
        post.data == pre.data,
        post.last_capture_ms == pre.last_capture_ms,
{
}

} // verus!
