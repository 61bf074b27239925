//! Byte-level transforms of RGBA frames.

use vstd::prelude::*;
use crate::sinks::at_least_one;

verus! {

/// Number of pixels of a frame of `w` by `h`; a side below one counts as
/// one.
pub open spec fn spec_pixel_count(w: int, h: int) -> int {
    at_least_one(w) * at_least_one(h)
}

/// Whether pixel `i` of `dst` is pixel `i` of `src` with red and blue
/// exchanged.
pub open spec fn spec_swapped_pixel(dst: Seq<u8>, src: Seq<u8>, i: int) -> bool {
    &&& dst[4 * i] == src[4 * i + 2]
    &&& dst[4 * i + 1] == src[4 * i + 1]
    &&& dst[4 * i + 2] == src[4 * i]
    &&& dst[4 * i + 3] == src[4 * i + 3]
}

/// Copies the first `w * h` pixels of `src` to `dst` with red and blue
/// exchanged. The rest of `dst` is left as it is.
pub fn rgba_to_bgra(src: &Vec<u8>, dst: &mut Vec<u8>, w: i32, h: i32)
    requires
        src.len() >= 4 * spec_pixel_count(w as int, h as int),
        old(dst).len() >= 4 * spec_pixel_count(w as int, h as int),
    ensures
        final(dst).len() == old(dst).len(),
        forall|i: int|
            0 <= i < spec_pixel_count(w as int, h as int) ==> #[trigger] spec_swapped_pixel(
                final(dst)@,
                src@,
                i,
            ),
        forall|k: int|
            4 * spec_pixel_count(w as int, h as int) <= k < final(dst).len() ==> final(dst)[k] == old(dst)[k],
{
    let ww: usize = if w < 1 {
        1
    } else {
        w as usize
    };
    let hh: usize = if h < 1 {
        1
    } else {
        h as usize
    };
    assert(ww * hh == spec_pixel_count(w as int, h as int));
    assert(ww * hh <= src.len()) by (nonlinear_arith)
        requires
            src.len() >= 4 * (ww * hh),
    ;
    let n: usize = ww * hh;
    let mut i: usize = 0;
    while i < n
        invariant
            i <= n,
            4 * n <= src.len(),
            4 * n <= dst.len(),
            dst.len() == old(dst).len(),
            forall|j: int| 0 <= j < i ==> #[trigger] spec_swapped_pixel(dst@, src@, j),
            forall|k: int| 4 * i <= k < dst.len() ==> dst[k] == old(dst)[k],
        decreases n - i,
    {
        let ghost prev = dst@;
        let si = i * 4;
        let r = src[si];
        let g = src[si + 1];
        let b = src[si + 2];
        let a = src[si + 3];
        dst.set(si, b);
        dst.set(si + 1, g);
        dst.set(si + 2, r);
        dst.set(si + 3, a);
        proof {
            assert forall|j: int| 0 <= j < i + 1 implies #[trigger] spec_swapped_pixel(
                dst@,
                src@,
                j,
            ) by {
                if j < i {
                    assert(spec_swapped_pixel(prev, src@, j));
                }
            }
        }
        i += 1;
    }
}

/// The byte at column `x` of row `y` in a buffer whose rows are `stride`
/// bytes long.
pub open spec fn spec_byte(buf: Seq<u8>, stride: int, y: int, x: int) -> u8 {
    buf[y * stride + x]
}

/// Turns the first `h` rows of a frame of `w` pixels a row upside down: row
/// `y` gets what row `h - 1 - y` held. The rest of the buffer is left as it
/// is.
pub fn vflip_inplace(buf: &mut Vec<u8>, w: i32, h: i32)
    requires
        old(buf).len() >= 4 * spec_pixel_count(w as int, h as int),
    ensures
        final(buf).len() == old(buf).len(),
        forall|y: int, x: int|
            0 <= y < at_least_one(h as int) && 0 <= x < 4 * at_least_one(w as int) ==> #[trigger] spec_byte(
                final(buf)@,
                4 * at_least_one(w as int),
                y,
                x,
            ) == spec_byte(old(buf)@, 4 * at_least_one(w as int), at_least_one(h as int) - 1 - y, x),
        forall|k: int|
            4 * spec_pixel_count(w as int, h as int) <= k < final(buf).len() ==> final(buf)[k] == old(buf)[k],
{
    let ww: usize = if w < 1 {
        1
    } else {
        w as usize
    };
    let hh: usize = if h < 1 {
        1
    } else {
        h as usize
    };
    assert(ww * hh == spec_pixel_count(w as int, h as int));
    assert(4 * ww <= buf.len() && ww * 4 * hh == 4 * (ww * hh)) by (nonlinear_arith)
        requires
            buf.len() >= 4 * (ww * hh),
            hh >= 1,
    ;
    let row: usize = ww * 4;
    let half: usize = hh / 2;
    let mut y: usize = 0;
    while y < half
        invariant
            y <= half,
            half == hh / 2,
            hh >= 1,
            row == 4 * ww,
            row * hh <= buf.len(),
            buf.len() == old(buf).len(),
            forall|r: int, x: int|
                (0 <= r < y || hh - y <= r < hh) && 0 <= x < row ==> #[trigger] spec_byte(
                    buf@,
                    row as int,
                    r,
                    x,
                ) == spec_byte(old(buf)@, row as int, hh - 1 - r, x),
            forall|r: int, x: int|
                y <= r < hh - y && 0 <= x < row ==> #[trigger] spec_byte(buf@, row as int, r, x)
                    == spec_byte(old(buf)@, row as int, r, x),
            forall|k: int| row * hh <= k < buf.len() ==> buf[k] == old(buf)[k],
        decreases half - y,
    {
        let ghost top = y as int;
        let ghost bottom = hh - 1 - y;
        proof {
            lemma_row_bounds(top, hh as int, row as int);
            lemma_row_bounds(bottom, hh as int, row as int);
            lemma_rows_apart(top, bottom, row as int);
        }
        let a0 = y * row;
        let b0 = (hh - 1 - y) * row;
        let ghost before = buf@;
        let mut x: usize = 0;
        while x < row
            invariant
                x <= row,
                a0 + row <= b0,
                b0 + row <= buf.len(),
                buf.len() == before.len(),
                forall|k: int| a0 <= k < a0 + x ==> buf[k] == before[k - a0 + b0],
                forall|k: int| b0 <= k < b0 + x ==> buf[k] == before[k - b0 + a0],
                forall|k: int|
                    0 <= k < buf.len() && !(a0 <= k < a0 + x) && !(b0 <= k < b0 + x) ==> buf[k]
                        == before[k],
            decreases row - x,
        {
            let p = buf[a0 + x];
            let q = buf[b0 + x];
            buf.set(a0 + x, q);
            buf.set(b0 + x, p);
            x += 1;
        }
        proof {
            assert forall|r: int, x: int|
                (0 <= r < y + 1 || hh - (y + 1) <= r < hh) && 0 <= x < row implies #[trigger] spec_byte(
                buf@,
                row as int,
                r,
                x,
            ) == spec_byte(old(buf)@, row as int, hh - 1 - r, x) by {
                lemma_row_bounds(r, hh as int, row as int);
                lemma_row_bounds(hh - 1 - r, hh as int, row as int);
                lemma_rows_apart(r, top, row as int);
                lemma_rows_apart(r, bottom, row as int);
                if r == top {
                    assert(buf[a0 + x] == before[b0 + x]);
                    assert(spec_byte(before, row as int, bottom, x) == spec_byte(
                        old(buf)@,
                        row as int,
                        bottom,
                        x,
                    ));
                } else if r == bottom {
                    assert(buf[b0 + x] == before[a0 + x]);
                    assert(spec_byte(before, row as int, top, x) == spec_byte(
                        old(buf)@,
                        row as int,
                        top,
                        x,
                    ));
                } else {
                    assert(buf[r * row + x] == before[r * row + x]);
                    assert(spec_byte(before, row as int, r, x) == spec_byte(
                        old(buf)@,
                        row as int,
                        hh - 1 - r,
                        x,
                    ));
                }
            }
            assert forall|r: int, x: int| y + 1 <= r < hh - (y + 1) && 0 <= x < row implies #[trigger] spec_byte(
                buf@,
                row as int,
                r,
                x,
            ) == spec_byte(old(buf)@, row as int, r, x) by {
                lemma_row_bounds(r, hh as int, row as int);
                lemma_rows_apart(r, top, row as int);
                lemma_rows_apart(r, bottom, row as int);
                assert(buf[r * row + x] == before[r * row + x]);
                assert(spec_byte(before, row as int, r, x) == spec_byte(old(buf)@, row as int, r, x));
            }
            assert forall|k: int| row * hh <= k < buf.len() implies buf[k] == old(buf)[k] by {
                assert(buf[k] == before[k]);
            }
        }
        y += 1;
    }
    proof {
        assert forall|r: int, x: int|
            0 <= r < at_least_one(h as int) && 0 <= x < 4 * at_least_one(w as int) implies #[trigger] spec_byte(
            buf@,
            4 * at_least_one(w as int),
            r,
            x,
        ) == spec_byte(old(buf)@, 4 * at_least_one(w as int), at_least_one(h as int) - 1 - r, x) by {
            if half <= r < hh - half {
                assert(hh - 1 - r == r);
                assert(spec_byte(buf@, row as int, r, x) == spec_byte(old(buf)@, row as int, r, x));
            } else {
                assert(spec_byte(buf@, row as int, r, x) == spec_byte(
                    old(buf)@,
                    row as int,
                    hh - 1 - r,
                    x,
                ));
            }
        }
        assert(row * hh == 4 * spec_pixel_count(w as int, h as int)) by (nonlinear_arith)
            requires
                row == 4 * ww,
                ww * hh == spec_pixel_count(w as int, h as int),
        ;
    }
}

/// Row `r` of `rows` rows lies inside the first `rows * row` bytes.
proof fn lemma_row_bounds(r: int, rows: int, row: int)
    by (nonlinear_arith)
    requires
        0 <= r < rows,
        0 <= row,
    ensures
        0 <= r * row,
        r * row + row <= rows * row,
{
}

/// Two different rows do not overlap.
proof fn lemma_rows_apart(a: int, b: int, row: int)
    by (nonlinear_arith)
    requires
        0 <= row,
    ensures
        a < b ==> a * row + row <= b * row,
        b < a ==> b * row + row <= a * row,
        a == b ==> a * row == b * row,
{
}

} // verus!
