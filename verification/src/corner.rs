//! Comparing the upper left corners of two frames, to see whether the cursor is there.

use vstd::prelude::*;

verus! {

/// The bytes of a pixel.
pub const BYTES_PER_PIXEL: usize = 4;

/// The width and the height of the compared corner, where the frame is that large.
pub const CORNER_SIDE: usize = 36;

/// The least number of differing pixels that makes two corners different.
pub const MIN_DIFF_PIXELS: usize = 8;

/// Corners differ only where at least this part of their pixels does.
pub const DIFF_THRESHOLD_DIVISOR: usize = 8;

/// The smaller of two numbers.
pub open spec fn least(a: int, b: int) -> int {
    if a <= b {
        a
    } else {
        b
    }
}

/// The bytes of a row of `w` pixels, bounded by what the machine can count.
pub open spec fn row_bytes(w: int) -> int {
    least(4 * w, usize::MAX as int)
}

/// Whether the pixels that start at byte `i` differ.
pub open spec fn pixel_differs(d1: Seq<u8>, d2: Seq<u8>, i: int) -> bool {
    d1.subrange(i, i + 4) != d2.subrange(i, i + 4)
}

/// How many of the `n` pixels from byte `from` on differ.
pub open spec fn row_diffs(d1: Seq<u8>, d2: Seq<u8>, from: int, n: nat) -> nat
    decreases n,
{
    if n == 0 {
        0
    } else {
        row_diffs(d1, d2, from, (n - 1) as nat) + if pixel_differs(d1, d2, from + 4 * (n - 1)) {
            1nat
        } else {
            0nat
        }
    }
}

/// How many pixels differ in the corner of `rows` rows with `n` pixels each.
pub open spec fn corner_diffs(d1: Seq<u8>, d2: Seq<u8>, stride: int, n: nat, rows: nat) -> nat
    decreases rows,
{
    if rows == 0 {
        0
    } else {
        corner_diffs(d1, d2, stride, n, (rows - 1) as nat) + row_diffs(
            d1,
            d2,
            (rows - 1) * stride,
            n,
        )
    }
}

/// How many differing pixels make corners of this many pixels different.
pub open spec fn diff_threshold(pixels: int) -> int {
    if pixels / 8 >= 8 {
        pixels / 8
    } else {
        8
    }
}

/// Whether the upper left corners of two frames of width `w` differ. Frames of different length,
/// without width or without a whole row never do.
pub open spec fn corners_differ(w: int, d1: Seq<u8>, d2: Seq<u8>) -> bool {
    let stride = row_bytes(w);
    &&& w > 0
    &&& d1.len() == d2.len()
    &&& d1.len() >= stride
    &&& {
        let n = least(36, w);
        let rows = least(36, d1.len() as int / stride);
        corner_diffs(d1, d2, stride, n as nat, rows as nat) >= diff_threshold(n * rows)
    }
}

/// The count of a row does not shrink with more pixels.
proof fn lemma_row_diffs_grow(d1: Seq<u8>, d2: Seq<u8>, from: int, n: nat, m: nat)
    requires
        n <= m,
    ensures
        row_diffs(d1, d2, from, n) <= row_diffs(d1, d2, from, m),
    decreases m,
{
    if n < m {
        lemma_row_diffs_grow(d1, d2, from, n, (m - 1) as nat);
    }
}

/// The count of a corner does not shrink with more rows.
proof fn lemma_corner_diffs_grow(
    d1: Seq<u8>,
    d2: Seq<u8>,
    stride: int,
    n: nat,
    rows: nat,
    more: nat,
)
    requires
        rows <= more,
    ensures
        corner_diffs(d1, d2, stride, n, rows) <= corner_diffs(d1, d2, stride, n, more),
    decreases more,
{
    if rows < more {
        lemma_corner_diffs_grow(d1, d2, stride, n, rows, (more - 1) as nat);
    }
}

/// Whether the pixels that start at byte `i` differ.
fn differs_at(d1: &[u8], d2: &[u8], i: usize) -> (r: bool)
    requires
        i + 4 <= d1@.len(),
        i + 4 <= d2@.len(),
    ensures
        r == pixel_differs(d1@, d2@, i as int),
{
    let ghost a = d1@.subrange(i as int, i + 4);
    let ghost b = d2@.subrange(i as int, i + 4);
    assert(i + 3 < d1.len());
    let r = d1[i] != d2[i] || d1[i + 1] != d2[i + 1] || d1[i + 2] != d2[i + 2] || d1[i + 3] != d2[i
        + 3];
    proof {
        assert(a[0] == d1@[i as int] && a[1] == d1@[i + 1] && a[2] == d1@[i + 2] && a[3] == d1@[i
            + 3]);
        assert(b[0] == d2@[i as int] && b[1] == d2@[i + 1] && b[2] == d2@[i + 2] && b[3] == d2@[i
            + 3]);
        if !r {
            assert(a =~= b);
        }
    }
    r
}

/// Compares the upper left corners of two frames of width `w`.
pub fn compare_left_up_corner(w: usize, d1: &[u8], d2: &[u8]) -> (r: bool)
    ensures
        r == corners_differ(w as int, d1@, d2@),
{
    if w == 0 || d1.len() != d2.len() {
        return false;
    }
    let stride: usize = if w <= usize::MAX / BYTES_PER_PIXEL {
        w * BYTES_PER_PIXEL
    } else {
        usize::MAX
    };
    if d1.len() < stride {
        return false;
    }
    let h: usize = d1.len() / stride;
    let roi_w: usize = if w < CORNER_SIDE {
        w
    } else {
        CORNER_SIDE
    };
    let roi_h: usize = if h < CORNER_SIDE {
        h
    } else {
        CORNER_SIDE
    };
    assert(h * stride <= d1.len()) by (nonlinear_arith)
        requires
            stride > 0,
            h == d1.len() / stride,
    ;
    assert(roi_w * roi_h <= 36 * 36) by (nonlinear_arith)
        requires
            roi_w <= 36,
            roi_h <= 36,
    ;
    let total_px: usize = roi_w * roi_h;
    let threshold: usize = if total_px / DIFF_THRESHOLD_DIVISOR > MIN_DIFF_PIXELS {
        total_px / DIFF_THRESHOLD_DIVISOR
    } else {
        MIN_DIFF_PIXELS
    };
    let ghost total = corner_diffs(d1@, d2@, stride as int, roi_w as nat, roi_h as nat);
    let mut diff_px: usize = 0;
    let mut row_off: usize = 0;
    let mut y: usize = 0;
    assert(0 * stride == 0) by (nonlinear_arith);
    while y < roi_h
        invariant
            y <= roi_h <= h,
            h * stride <= d1.len(),
            d1.len() == d2.len(),
            stride > 0,
            roi_w * 4 <= stride,
            roi_w <= 36,
            row_off == y * stride,
            diff_px == corner_diffs(d1@, d2@, stride as int, roi_w as nat, y as nat),
            total == corner_diffs(d1@, d2@, stride as int, roi_w as nat, roi_h as nat),
            diff_px < threshold <= 1000,
            corners_differ(w as int, d1@, d2@) == (total >= threshold),
        decreases roi_h - y,
    {
        let ghost before = diff_px;
        assert((y + 1) * stride == row_off + stride && (y + 1) * stride <= h * stride)
            by (nonlinear_arith)
            requires
                row_off == y * stride,
                y + 1 <= h,
                stride > 0,
        ;
        let mut x: usize = 0;
        while x < roi_w
            invariant
                x <= roi_w,
                y < roi_h,
                roi_w * 4 <= stride,
                roi_w <= 36,
                row_off + stride <= d1.len(),
                row_off == y * stride,
                d1.len() == d2.len(),
                before == corner_diffs(d1@, d2@, stride as int, roi_w as nat, y as nat),
                diff_px == before + row_diffs(d1@, d2@, row_off as int, x as nat),
                total == corner_diffs(d1@, d2@, stride as int, roi_w as nat, roi_h as nat),
                diff_px < threshold <= 1000,
                corners_differ(w as int, d1@, d2@) == (total >= threshold),
            decreases roi_w - x,
        {
            if differs_at(d1, d2, row_off + x * BYTES_PER_PIXEL) {
                diff_px += 1;
                if diff_px >= threshold {
                    proof {
                        lemma_row_diffs_grow(d1@, d2@, row_off as int, (x + 1) as nat, roi_w as nat);
                        lemma_corner_diffs_grow(
                            d1@,
                            d2@,
                            stride as int,
                            roi_w as nat,
                            (y + 1) as nat,
                            roi_h as nat,
                        );
                    }
                    return true;
                }
            }
            x += 1;
        }
        row_off += stride;
        y += 1;
    }
    false
}

/// Rows count the same whichever frame comes first, and not at all on equal frames.
proof fn lemma_row_diffs_symmetric(d1: Seq<u8>, d2: Seq<u8>, from: int, n: nat)
    ensures
        row_diffs(d1, d2, from, n) == row_diffs(d2, d1, from, n),
        row_diffs(d1, d1, from, n) == 0,
        row_diffs(d1, d2, from, n) <= n,
    decreases n,
{
    if n > 0 {
        lemma_row_diffs_symmetric(d1, d2, from, (n - 1) as nat);
    }
}

/// Corners count the same whichever frame comes first, and not at all on equal frames.
proof fn lemma_corner_diffs_symmetric(d1: Seq<u8>, d2: Seq<u8>, stride: int, n: nat, rows: nat)
    ensures
        corner_diffs(d1, d2, stride, n, rows) == corner_diffs(d2, d1, stride, n, rows),
        corner_diffs(d1, d1, stride, n, rows) == 0,
        corner_diffs(d1, d2, stride, n, rows) <= n * rows,
    decreases rows,
{
    if rows > 0 {
        lemma_corner_diffs_symmetric(d1, d2, stride, n, (rows - 1) as nat);
        lemma_row_diffs_symmetric(d1, d2, (rows - 1) * stride, n);
        assert(n * (rows - 1) + n == n * rows) by (nonlinear_arith);
    } else {
        assert(n * 0 == 0) by (nonlinear_arith);
    }
}

/// The comparison does not depend on which frame came first.
pub proof fn law_corners_symmetric(w: int, d1: Seq<u8>, d2: Seq<u8>)
    ensures
        corners_differ(w, d1, d2) == corners_differ(w, d2, d1),
{
    let stride = row_bytes(w);
    if w > 0 && d1.len() == d2.len() && d1.len() >= stride {
        let n = least(36, w);
        let rows = least(36, d1.len() as int / stride);
        lemma_corner_diffs_symmetric(d1, d2, stride, n as nat, rows as nat);
        lemma_corner_diffs_symmetric(d2, d1, stride, n as nat, rows as nat);
    }
}

/// A frame does not differ from itself.
pub proof fn law_corners_irreflexive(w: int, d: Seq<u8>)
    ensures
        !corners_differ(w, d, d),
{
    let stride = row_bytes(w);
    if w > 0 && d.len() >= stride {
        let n = least(36, w);
        let rows = least(36, d.len() as int / stride);
        lemma_corner_diffs_symmetric(d, d, stride, n as nat, rows as nat);
    }
}

/// Whether one of the four bytes of the pixel in column `x` and row `y` differs between two frames
/// whose rows are `w` pixels wide.
pub open spec fn byte_differs(w: int, d1: Seq<u8>, d2: Seq<u8>, x: int, y: int) -> bool {
    let at = 4 * (w * y + x);
    ||| d1[at] != d2[at]
    ||| d1[at + 1] != d2[at + 1]
    ||| d1[at + 2] != d2[at + 2]
    ||| d1[at + 3] != d2[at + 3]
}

/// Pixels differ where a byte does.
proof fn lemma_pixel_bytes(w: int, d1: Seq<u8>, d2: Seq<u8>, x: int, y: int)
    requires
        0 <= 4 * (w * y + x),
        4 * (w * y + x) + 4 <= d1.len(),
        d1.len() == d2.len(),
    ensures
        pixel_differs(d1, d2, 4 * (w * y + x)) == byte_differs(w, d1, d2, x, y),
{
    let at = 4 * (w * y + x);
    let a = d1.subrange(at, at + 4);
    let b = d2.subrange(at, at + 4);
    assert(a[0] == d1[at] && a[1] == d1[at + 1] && a[2] == d1[at + 2] && a[3] == d1[at + 3]);
    assert(b[0] == d2[at] && b[1] == d2[at + 1] && b[2] == d2[at + 2] && b[3] == d2[at + 3]);
    if !byte_differs(w, d1, d2, x, y) {
        assert(a =~= b);
    }
}

/// The differing pixels among the first `n` of row `y`.
spec fn differing_in_row(w: int, d1: Seq<u8>, d2: Seq<u8>, y: int, n: nat) -> Set<(int, int)> {
    Set::new(|p: (int, int)| p.1 == y && 0 <= p.0 < n && byte_differs(w, d1, d2, p.0, p.1))
}

/// The differing pixels among the first `n` of the first `rows` rows.
spec fn differing_in_rows(w: int, d1: Seq<u8>, d2: Seq<u8>, n: nat, rows: nat) -> Set<(int, int)> {
    Set::new(|p: (int, int)| 0 <= p.1 < rows && 0 <= p.0 < n && byte_differs(w, d1, d2, p.0, p.1))
}

/// The count of a row is that of its differing pixels.
proof fn lemma_count_row(w: int, d1: Seq<u8>, d2: Seq<u8>, y: int, n: nat)
    requires
        0 <= y,
        n <= w,
        (y + 1) * (4 * w) <= d1.len(),
        d1.len() == d2.len(),
    ensures
        differing_in_row(w, d1, d2, y, n).finite(),
        differing_in_row(w, d1, d2, y, n).len() == row_diffs(d1, d2, y * (4 * w), n),
    decreases n,
{
    let s = differing_in_row(w, d1, d2, y, n);
    if n == 0 {
        assert(s =~= Set::empty());
    } else {
        let x = n - 1;
        lemma_count_row(w, d1, d2, y, (n - 1) as nat);
        let rest = differing_in_row(w, d1, d2, y, (n - 1) as nat);
        assert(4 * (w * y + x) == y * (4 * w) + 4 * x) by (nonlinear_arith);
        assert((y + 1) * (4 * w) == y * (4 * w) + 4 * w) by (nonlinear_arith);
        assert(0 <= y * (4 * w)) by (nonlinear_arith)
            requires
                0 <= y,
                0 <= w,
        ;
        lemma_pixel_bytes(w, d1, d2, x, y);
        if byte_differs(w, d1, d2, x, y) {
            assert(s =~= rest.insert((x, y)));
        } else {
            assert(s =~= rest);
        }
    }
}

/// The count of a corner is that of its differing pixels.
proof fn lemma_count_rows(w: int, d1: Seq<u8>, d2: Seq<u8>, n: nat, rows: nat)
    requires
        0 < w,
        n <= w,
        rows * (4 * w) <= d1.len(),
        d1.len() == d2.len(),
    ensures
        differing_in_rows(w, d1, d2, n, rows).finite(),
        differing_in_rows(w, d1, d2, n, rows).len() == corner_diffs(d1, d2, 4 * w, n, rows),
    decreases rows,
{
    let s = differing_in_rows(w, d1, d2, n, rows);
    if rows == 0 {
        assert(s =~= Set::empty());
    } else {
        let y = rows - 1;
        assert((rows - 1) * (4 * w) <= rows * (4 * w)) by (nonlinear_arith)
            requires
                0 < w,
        ;
        lemma_count_rows(w, d1, d2, n, (rows - 1) as nat);
        lemma_count_row(w, d1, d2, y, n);
        let above = differing_in_rows(w, d1, d2, n, (rows - 1) as nat);
        let row = differing_in_row(w, d1, d2, y, n);
        assert(s =~= above + row);
        assert(above.disjoint(row));
        vstd::set_lib::lemma_set_disjoint_lens(above, row);
    }
}

/// Corners differ if and only if enough of their pixels do: at least eight, and at least an eighth
/// of the pixels among the first 36 columns and rows. A pixel differs if any of its four bytes
/// does. `differing` holds the columns and rows of just the differing pixels.
pub proof fn law_corners_differ_by_their_pixels(
    w: int,
    d1: Seq<u8>,
    d2: Seq<u8>,
    differing: Set<(int, int)>,
)
    requires
        0 < w,
        4 * w <= usize::MAX,
        d1.len() == d2.len(),
        4 * w <= d1.len(),
        forall|x: int, y: int| #[trigger]
            differing.contains((x, y)) <==> {
                &&& 0 <= x < 36 && x < w
                &&& 0 <= y < 36 && (y + 1) * (4 * w) <= d1.len()
                &&& {
                    let at = 4 * (w * y + x);
                    ||| d1[at] != d2[at]
                    ||| d1[at + 1] != d2[at + 1]
                    ||| d1[at + 2] != d2[at + 2]
                    ||| d1[at + 3] != d2[at + 3]
                }
            },
    ensures
        ({
            let columns = if w < 36 {
                w
            } else {
                36
            };
            let rows = if d1.len() as int / (4 * w) < 36 {
                d1.len() as int / (4 * w)
            } else {
                36
            };
            corners_differ(w, d1, d2) <==> differing.len() >= 8 && differing.len() >= (columns
                * rows) / 8
        }),
{
    let n = least(36, w);
    let h = d1.len() as int / (4 * w);
    let rows = least(36, h);
    assert(h * (4 * w) <= d1.len() && d1.len() < (h + 1) * (4 * w) && h >= 0) by (nonlinear_arith)
        requires
            w > 0,
            h == d1.len() as int / (4 * w),
            d1.len() >= 0,
    ;
    assert(rows * (4 * w) <= h * (4 * w)) by (nonlinear_arith)
        requires
            rows <= h,
            w > 0,
    ;
    lemma_count_rows(w, d1, d2, n as nat, rows as nat);
    let all = differing_in_rows(w, d1, d2, n as nat, rows as nat);
    assert forall|p: (int, int)| differing.contains(p) == all.contains(p) by {
        let (x, y) = p;
        assert(differing.contains((x, y)) == differing.contains(p));
        if y < h {
            assert((y + 1) * (4 * w) <= h * (4 * w)) by (nonlinear_arith)
                requires
                    y + 1 <= h,
                    w > 0,
            ;
        } else {
            assert((y + 1) * (4 * w) >= (h + 1) * (4 * w)) by (nonlinear_arith)
                requires
                    y >= h,
                    w > 0,
            ;
        }
    }
    assert(differing =~= all);
}

/// Frames without width, of different length or without a whole row do not differ.
pub proof fn law_unusable_frames_do_not_differ(w: int, d1: Seq<u8>, d2: Seq<u8>)
    requires
        w <= 0 || d1.len() != d2.len() || (4 * w <= usize::MAX && d1.len() < 4 * w),
    ensures
        !corners_differ(w, d1, d2),
{
}

} // verus!
