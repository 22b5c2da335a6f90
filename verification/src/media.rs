//! Wallpaper frames: the size to decode to, and rows packed tightly.

use vstd::prelude::*;

verus! {

/// A decoded frame, four bytes a pixel, row after row without padding.
#[derive(Debug)]
pub struct Frame {
    pub width: u32,
    pub height: u32,
    pub rgba: Vec<u8>,
}

/// A side with at least one pixel.
pub open spec fn at_least_one(v: int) -> int {
    if v < 1 {
        1
    } else {
        v
    }
}

/// The size at which a picture fits a square: unchanged where it fits or where
/// there is no limit, else with its longer side at the limit and the other in
/// proportion, rounded down, and no side below one pixel.
pub open spec fn fitted(w: int, h: int, max: int) -> (int, int) {
    let (w1, h1) = (at_least_one(w), at_least_one(h));
    let longest = if w1 >= h1 {
        w1
    } else {
        h1
    };
    if max == 0 || longest <= max {
        (w1, h1)
    } else {
        (at_least_one(w1 * max / longest), at_least_one(h1 * max / longest))
    }
}

/// The size at which a picture fits a square of side `max`.
pub fn fit_within(w: u32, h: u32, max: u32) -> (r: (u32, u32))
    ensures
        (r.0 as int, r.1 as int) == fitted(w as int, h as int, max as int),
{
    let w1: u32 = if w < 1 {
        1
    } else {
        w
    };
    let h1: u32 = if h < 1 {
        1
    } else {
        h
    };
    let longest: u32 = if w1 >= h1 {
        w1
    } else {
        h1
    };
    if max == 0 || longest <= max {
        return (w1, h1);
    }
    proof {
        scaled_side(w1 as int, max as int, longest as int);
        scaled_side(h1 as int, max as int, longest as int);
    }
    let sw: u64 = w1 as u64 * max as u64 / (longest as u64);
    let sh: u64 = h1 as u64 * max as u64 / (longest as u64);
    (
        if sw < 1 {
            1
        } else {
            sw as u32
        },
        if sh < 1 {
            1
        } else {
            sh as u32
        },
    )
}

proof fn scaled_side(v: int, max: int, longest: int)
    requires
        1 <= v <= longest <= u32::MAX,
        0 <= max < longest,
    ensures
        0 <= v * max <= u32::MAX * u32::MAX,
        0 <= v * max / longest <= max,
        v == longest ==> v * max / longest == max,
{
    assert(0 <= v * max <= 0xffff_ffff * 0xffff_ffff) by (nonlinear_arith)
        requires
            1 <= v <= 0xffff_ffff,
            0 <= max <= 0xffff_ffff,
    ;
    assert(0 <= v * max / longest <= max) by (nonlinear_arith)
        requires
            1 <= v <= longest,
            0 <= max,
    ;
    if v == longest {
        assert(v * max / longest == max) by (nonlinear_arith)
            requires
                v == longest,
                1 <= v,
        ;
    }
}

/// A fitted picture stays within the limit, never grows, and has a pixel at
/// least; where it shrinks, its longer side is exactly the limit.
pub proof fn fitting_stays_within(w: int, h: int, max: int)
    requires
        0 <= w <= u32::MAX,
        0 <= h <= u32::MAX,
        0 < max <= u32::MAX,
    ensures
        1 <= fitted(w, h, max).0 <= max,
        1 <= fitted(w, h, max).1 <= max,
        fitted(w, h, max).0 <= at_least_one(w),
        fitted(w, h, max).1 <= at_least_one(h),
        at_least_one(w) > max && w >= h ==> fitted(w, h, max).0 == max,
        at_least_one(h) > max && h >= w ==> fitted(w, h, max).1 == max,
{
    let (w1, h1) = (at_least_one(w), at_least_one(h));
    let longest = if w1 >= h1 {
        w1
    } else {
        h1
    };
    if longest > max {
        scaled_side(w1, max, longest);
        scaled_side(h1, max, longest);
        assert(w1 * max / longest <= w1 && h1 * max / longest <= h1) by (nonlinear_arith)
            requires
                1 <= w1,
                1 <= h1,
                0 < max < longest,
        ;
    }
}

/// The rows of a padded frame without their padding.
pub open spec fn packed(data: Seq<u8>, row: int, stride: int, rows: int) -> Seq<u8>
    decreases rows,
{
    if rows <= 0 {
        Seq::empty()
    } else {
        packed(data, row, stride, rows - 1) + data.subrange(
            (rows - 1) * stride,
            (rows - 1) * stride + row,
        )
    }
}

/// Packs the rows of a decoded frame, which start `stride` bytes apart.
pub fn pack(data: &Vec<u8>, stride: usize, width: u32, height: u32) -> (r: Frame)
    requires
        width * 4 <= usize::MAX,
        height > 0 ==> (height - 1) * stride + width * 4 <= data@.len(),
    ensures
        r.width == width,
        r.height == height,
        r.rgba@ == packed(data@, width * 4, stride as int, height as int),
{
    let row: usize = width as usize * 4;
    let mut rgba: Vec<u8> = Vec::new();
    let mut y: u32 = 0;
    while y < height
        invariant
            y <= height,
            row == width * 4,
            height > 0 ==> (height - 1) * stride + width * 4 <= data@.len(),
            rgba@ =~= packed(data@, width * 4, stride as int, y as int),
        decreases height - y,
    {
        let len: usize = data.len();
        let ghost (gy, st, h) = (y as int, stride as int, height as int);
        assert(0 <= gy * st <= (h - 1) * st) by (nonlinear_arith)
            requires
                0 <= gy <= h - 1,
                0 <= st,
        ;
        assert(gy * st == y * stride);
        let start: usize = y as usize * stride;
        let ghost before = rgba@;
        let mut i: usize = 0;
        while i < row
            invariant
                i <= row,
                start + row <= data@.len(),
                rgba@ =~= before + data@.subrange(start as int, start + i),
            decreases row - i,
        {
            let len: usize = data.len();
            rgba.push(data[start + i]);
            i += 1;
        }
        y += 1;
    }
    Frame { width, height, rgba }
}

/// A packed frame has exactly the bytes of its pixels.
pub proof fn packed_frames_have_no_padding(data: Seq<u8>, row: int, stride: int, rows: int)
    requires
        0 <= row <= stride,
        0 <= rows,
        rows > 0 ==> (rows - 1) * stride + row <= data.len(),
    ensures
        packed(data, row, stride, rows).len() == rows * row,
    decreases rows,
{
    if rows > 0 {
        assert(0 <= (rows - 1) * stride && (rows - 2) * stride + row <= (rows - 1) * stride + row
            && rows * row == (rows - 1) * row + row) by (nonlinear_arith)
            requires
                0 < rows,
                0 <= row <= stride,
        ;
        packed_frames_have_no_padding(data, row, stride, rows - 1);
    } else {
        assert(rows * row == 0) by (nonlinear_arith)
            requires
                rows == 0,
        ;
    }
}

/// A picture that fits, or has no limit, keeps its size; a side of nothing
/// counts as one pixel.
pub proof fn pictures_that_fit_are_not_scaled(w: int, h: int, max: int)
    requires
        0 <= w,
        0 <= h,
        0 <= max,
    ensures
        w >= 1 && h >= 1 && (max == 0 || w <= max && h <= max) ==> fitted(w, h, max) == (w, h),
        w == 0 && 1 <= h && (max == 0 || h <= max) ==> fitted(w, h, max) == (1int, h),
        h == 0 && 1 <= w && (max == 0 || w <= max) ==> fitted(w, h, max) == (w, 1int),
{
}

/// A picture that is too large keeps its proportions: the shorter side is to
/// the limit as it was to the longer one, rounded down to whole pixels.
pub proof fn scaled_pictures_keep_their_proportions(w: int, h: int, max: int)
    requires
        1 <= h <= w,
        0 < max < w,
    ensures
        fitted(w, h, max).0 == max,
        fitted(h, w, max).1 == max,
        fitted(w, h, max).1 == fitted(h, w, max).0,
        h * max >= w ==> fitted(w, h, max).1 * w <= h * max < (fitted(w, h, max).1 + 1) * w,
        h * max < w ==> fitted(w, h, max).1 == 1,
{
    let q = h * max / w;
    assert(w * max / w == max) by (nonlinear_arith)
        requires
            w > 0,
    ;
    assert(q * w <= h * max < (q + 1) * w && (h * max >= w ==> q >= 1) && (h * max < w && h * max
        >= 0 ==> q == 0)) by (nonlinear_arith)
        requires
            w > 0,
            q == h * max / w,
    ;
    assert(h * max >= 0) by (nonlinear_arith)
        requires
            h >= 0,
            max >= 0,
    ;
}

/// The rows of a packed frame follow each other, each as it was.
pub proof fn packed_rows_are_as_they_were(
    data: Seq<u8>,
    row: int,
    stride: int,
    rows: int,
    y: int,
    x: int,
)
    requires
        0 <= row <= stride,
        0 <= y < rows,
        0 <= x < row,
        (rows - 1) * stride + row <= data.len(),
    ensures
        packed(data, row, stride, rows)[y * row + x] == data[y * stride + x],
    decreases rows,
{
    assert(0 <= (rows - 1) * stride && (rows - 2) * stride + row <= (rows - 1) * stride + row)
        by (nonlinear_arith)
        requires
            0 < rows,
            0 <= row <= stride,
    ;
    packed_frames_have_no_padding(data, row, stride, rows - 1);
    if y < rows - 1 {
        packed_rows_are_as_they_were(data, row, stride, rows - 1, y, x);
        assert(y * row + x < (rows - 1) * row && 0 <= y * row) by (nonlinear_arith)
            requires
                0 <= y < rows - 1,
                0 <= x < row,
        ;
    } else {
        assert(0 <= (rows - 1) * row) by (nonlinear_arith)
            requires
                0 < rows,
                0 <= row,
        ;
        let last = data.subrange((rows - 1) * stride, (rows - 1) * stride + row);
        assert(last[x] == data[(rows - 1) * stride + x]);
    }
}

} // verus!
