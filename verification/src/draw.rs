//! Bounds-checked drawing primitives on a flat RGBA pixel buffer.
//!
//! The buffer is row-major, four bytes per pixel, origin top-left: pixel
//! `(x, y)` starts at byte `4 * (y * width + x)`. Every primitive clips
//! against the buffer's dimensions before computing an index, so no write
//! can ever land outside the buffer.

use vstd::prelude::*;

verus! {

/// Byte offset of a pixel's first channel.
pub open spec fn pixel_index(fw: int, x: int, y: int) -> int {
    4 * (y * fw + x)
}

/// The four channels of pixel `(x, y)`.
pub open spec fn pixel_at(frame: Seq<u8>, fw: int, x: int, y: int) -> (u8, u8, u8, u8) {
    (
        frame[pixel_index(fw, x, y)],
        frame[pixel_index(fw, x, y) + 1],
        frame[pixel_index(fw, x, y) + 2],
        frame[pixel_index(fw, x, y) + 3],
    )
}

/// Whether `(x, y)` lies in the axis-aligned rectangle at `(x0, y0)` of size
/// `w` by `h`.
pub open spec fn in_rect(x0: int, y0: int, w: int, h: int, x: int, y: int) -> bool {
    x0 <= x < x0 + w && y0 <= y < y0 + h
}

/// Distinct in-bounds pixels occupy distinct byte ranges.
pub proof fn lemma_pixel_index_distinct(fw: int, x1: int, y1: int, x2: int, y2: int)
    requires
        0 <= x1 < fw,
        0 <= x2 < fw,
        0 <= y1,
        0 <= y2,
        !(x1 == x2 && y1 == y2),
    ensures
        y1 * fw + x1 != y2 * fw + x2,
{
    assert(y1 * fw + x1 != y2 * fw + x2) by (nonlinear_arith)
        requires
            0 <= x1 < fw,
            0 <= x2 < fw,
            0 <= y1,
            0 <= y2,
            !(x1 == x2 && y1 == y2),
    ;
}

/// A pixel of an in-bounds cell starts strictly inside the buffer.
pub proof fn lemma_pixel_index_bounds(fw: int, fh: int, x: int, y: int)
    requires
        0 <= x < fw <= 10_000,
        0 <= y < fh <= 10_000,
    ensures
        0 <= pixel_index(fw, x, y),
        pixel_index(fw, x, y) + 4 <= 4 * fw * fh,
        y * fw + x < 100_000_000,
    {
    assert(0 <= y * fw + x && y * fw + x + 1 <= fw * fh && fw * fh <= 100_000_000)
        by (nonlinear_arith)
        requires
            0 <= x < fw <= 10_000,
            0 <= y < fh <= 10_000,
    ;
    assert(4 * fw * fh == 4 * (fw * fh)) by (nonlinear_arith);
}

/// Writes one pixel, bounds already established by the caller's ranges.
pub fn put_pixel(
    frame: &mut Vec<u8>,
    fw: usize,
    fh: usize,
    x: usize,
    y: usize,
    red: u8,
    green: u8,
    blue: u8,
    alpha: u8,
)
    requires
        old(frame)@.len() == 4 * fw * fh,
        fw <= 10_000,
        fh <= 10_000,
        x < fw,
        y < fh,
    ensures
        final(frame)@.len() == old(frame)@.len(),
        pixel_at(final(frame)@, fw as int, x as int, y as int) == (red, green, blue, alpha),
        forall|i: int|
            0 <= i < old(frame)@.len() && !(pixel_index(fw as int, x as int, y as int) <= i
                < pixel_index(fw as int, x as int, y as int) + 4) ==> final(frame)@[i] == old(
                frame,
            )@[i],
        forall|xx: int, yy: int|
            0 <= xx < fw && 0 <= yy < fh && !(xx == x && yy == y) ==> pixel_at(
                final(frame)@,
                fw as int,
                xx,
                yy,
            ) == pixel_at(old(frame)@, fw as int, xx, yy),
{
    proof {
        lemma_pixel_index_bounds(fw as int, fh as int, x as int, y as int);
    }
    let idx = 4 * (y * fw + x);
    frame.set(idx, red);
    frame.set(idx + 1, green);
    frame.set(idx + 2, blue);
    frame.set(idx + 3, alpha);
    proof {
        assert forall|xx: int, yy: int|
            0 <= xx < fw && 0 <= yy < fh && !(xx == x && yy == y) implies pixel_at(
            frame@,
            fw as int,
            xx,
            yy,
        ) == pixel_at(old(frame)@, fw as int, xx, yy) by {
            lemma_pixel_index_distinct(fw as int, xx, yy, x as int, y as int);
            lemma_pixel_index_bounds(fw as int, fh as int, xx, yy);
            lemma_pixel_index_bounds(fw as int, fh as int, x as int, y as int);
        }
    }
}

/// Fills the in-bounds part of a rectangle with one RGBA value and touches
/// nothing else.
pub fn fill_rect(
    frame: &mut Vec<u8>,
    fw: usize,
    fh: usize,
    x0: usize,
    y0: usize,
    w: usize,
    h: usize,
    red: u8,
    green: u8,
    blue: u8,
    alpha: u8,
)
    requires
        old(frame)@.len() == 4 * fw * fh,
        fw <= 10_000,
        fh <= 10_000,
        w <= 1_000_000,
        h <= 1_000_000,
        x0 <= 1_000_000,
        y0 <= 1_000_000,
    ensures
        final(frame)@.len() == old(frame)@.len(),
        forall|x: int, y: int|
            0 <= x < fw && 0 <= y < fh && in_rect(x0 as int, y0 as int, w as int, h as int, x, y)
                ==> pixel_at(final(frame)@, fw as int, x, y) == (red, green, blue, alpha),
        forall|x: int, y: int|
            0 <= x < fw && 0 <= y < fh && !in_rect(x0 as int, y0 as int, w as int, h as int, x, y)
                ==> pixel_at(final(frame)@, fw as int, x, y) == pixel_at(
                old(frame)@,
                fw as int,
                x,
                y,
            ),
{
    let y_end = if y0 + h < fh {
        y0 + h
    } else {
        fh
    };
    let x_end = if x0 + w < fw {
        x0 + w
    } else {
        fw
    };
    let mut y = y0;
    while y < y_end
        invariant
            frame@.len() == 4 * fw * fh,
            fw <= 10_000,
            fh <= 10_000,
            y0 <= y,
            y <= y_end || y == y0,
            y_end <= fh,
            x_end <= fw,
            y_end <= y0 + h,
            x_end <= x0 + w,
            (y0 + h <= fh ==> y_end == y0 + h) && (y0 + h > fh ==> y_end == fh),
            (x0 + w <= fw ==> x_end == x0 + w) && (x0 + w > fw ==> x_end == fw),
            forall|xx: int, yy: int|
                0 <= xx < fw && 0 <= yy < fh && in_rect(
                    x0 as int,
                    y0 as int,
                    w as int,
                    h as int,
                    xx,
                    yy,
                ) && yy < y ==> pixel_at(frame@, fw as int, xx, yy) == (red, green, blue, alpha),
            forall|xx: int, yy: int|
                0 <= xx < fw && 0 <= yy < fh && !(in_rect(
                    x0 as int,
                    y0 as int,
                    w as int,
                    h as int,
                    xx,
                    yy,
                ) && yy < y) ==> pixel_at(frame@, fw as int, xx, yy) == pixel_at(
                    old(frame)@,
                    fw as int,
                    xx,
                    yy,
                ),
        decreases y_end - y,
    {
        let mut x = x0;
        while x < x_end
            invariant
                frame@.len() == 4 * fw * fh,
                fw <= 10_000,
                fh <= 10_000,
                y0 <= y < y_end,
                y_end <= fh,
                x_end <= fw,
                y_end <= y0 + h,
                x_end <= x0 + w,
                (x0 + w <= fw ==> x_end == x0 + w) && (x0 + w > fw ==> x_end == fw),
                x0 <= x,
                x <= x_end || x == x0,
                forall|xx: int, yy: int|
                    0 <= xx < fw && 0 <= yy < fh && in_rect(
                        x0 as int,
                        y0 as int,
                        w as int,
                        h as int,
                        xx,
                        yy,
                    ) && (yy < y || (yy == y && xx < x)) ==> pixel_at(frame@, fw as int, xx, yy)
                        == (red, green, blue, alpha),
                forall|xx: int, yy: int|
                    0 <= xx < fw && 0 <= yy < fh && !(in_rect(
                        x0 as int,
                        y0 as int,
                        w as int,
                        h as int,
                        xx,
                        yy,
                    ) && (yy < y || (yy == y && xx < x))) ==> pixel_at(frame@, fw as int, xx, yy)
                        == pixel_at(old(frame)@, fw as int, xx, yy),
            decreases x_end - x,
        {
            put_pixel(frame, fw, fh, x, y, red, green, blue, alpha);
            x = x + 1;
        }
        y = y + 1;
    }
}

/// Copies a source RGBA image into the frame at an offset, clipping at the
/// frame's edges and touching nothing outside the image's footprint.
pub fn blit_image(
    frame: &mut Vec<u8>,
    fw: usize,
    fh: usize,
    src: &Vec<u8>,
    sw: usize,
    sh: usize,
    ox: usize,
    oy: usize,
)
    requires
        old(frame)@.len() == 4 * fw * fh,
        src@.len() == 4 * sw * sh,
        fw <= 10_000,
        fh <= 10_000,
        sw <= 10_000,
        sh <= 10_000,
        ox <= 1_000_000,
        oy <= 1_000_000,
    ensures
        final(frame)@.len() == old(frame)@.len(),
        forall|x: int, y: int|
            0 <= x < fw && 0 <= y < fh && in_rect(ox as int, oy as int, sw as int, sh as int, x, y)
                ==> pixel_at(final(frame)@, fw as int, x, y) == pixel_at(
                src@,
                sw as int,
                x - ox,
                y - oy,
            ),
        forall|x: int, y: int|
            0 <= x < fw && 0 <= y < fh && !in_rect(ox as int, oy as int, sw as int, sh as int, x, y)
                ==> pixel_at(final(frame)@, fw as int, x, y) == pixel_at(
                old(frame)@,
                fw as int,
                x,
                y,
            ),
{
    let mut sy: usize = 0;
    while sy < sh
        invariant
            frame@.len() == 4 * fw * fh,
            src@.len() == 4 * sw * sh,
            fw <= 10_000,
            fh <= 10_000,
            sw <= 10_000,
            sh <= 10_000,
            ox <= 1_000_000,
            oy <= 1_000_000,
            0 <= sy <= sh,
            forall|x: int, y: int|
                0 <= x < fw && 0 <= y < fh && in_rect(
                    ox as int,
                    oy as int,
                    sw as int,
                    sh as int,
                    x,
                    y,
                ) && y - oy < sy ==> pixel_at(frame@, fw as int, x, y) == pixel_at(
                    src@,
                    sw as int,
                    x - ox,
                    y - oy,
                ),
            forall|x: int, y: int|
                0 <= x < fw && 0 <= y < fh && !(in_rect(
                    ox as int,
                    oy as int,
                    sw as int,
                    sh as int,
                    x,
                    y,
                ) && y - oy < sy) ==> pixel_at(frame@, fw as int, x, y) == pixel_at(
                    old(frame)@,
                    fw as int,
                    x,
                    y,
                ),
        decreases sh - sy,
    {
        let mut sx: usize = 0;
        while sx < sw
            invariant
                frame@.len() == 4 * fw * fh,
                src@.len() == 4 * sw * sh,
                fw <= 10_000,
                fh <= 10_000,
                sw <= 10_000,
                sh <= 10_000,
                ox <= 1_000_000,
                oy <= 1_000_000,
                0 <= sy < sh,
                0 <= sx <= sw,
                forall|x: int, y: int|
                    0 <= x < fw && 0 <= y < fh && in_rect(
                        ox as int,
                        oy as int,
                        sw as int,
                        sh as int,
                        x,
                        y,
                    ) && (y - oy < sy || (y - oy == sy && x - ox < sx)) ==> pixel_at(
                        frame@,
                        fw as int,
                        x,
                        y,
                    ) == pixel_at(src@, sw as int, x - ox, y - oy),
                forall|x: int, y: int|
                    0 <= x < fw && 0 <= y < fh && !(in_rect(
                        ox as int,
                        oy as int,
                        sw as int,
                        sh as int,
                        x,
                        y,
                    ) && (y - oy < sy || (y - oy == sy && x - ox < sx))) ==> pixel_at(
                        frame@,
                        fw as int,
                        x,
                        y,
                    ) == pixel_at(old(frame)@, fw as int, x, y),
            decreases sw - sx,
        {
            if ox + sx < fw && oy + sy < fh {
                proof {
                    lemma_pixel_index_bounds(sw as int, sh as int, sx as int, sy as int);
                }
                let base = 4 * (sy * sw + sx);
                let red = src[base];
                let green = src[base + 1];
                let blue = src[base + 2];
                let alpha = src[base + 3];
                put_pixel(frame, fw, fh, ox + sx, oy + sy, red, green, blue, alpha);
            }
            sx = sx + 1;
        }
        sy = sy + 1;
    }
}

/// The largest dimensions with the image's aspect ratio that fit in the
/// output, rounding the scaled side to the nearest pixel: height-bound when
/// the output is wider than the image, width-bound otherwise.
pub open spec fn fit_dimensions_spec(img_w: int, img_h: int, out_w: int, out_h: int) -> (
    int,
    int,
) {
    if out_w * img_h > out_h * img_w {
        ((img_w * out_h + img_h / 2) / img_h, out_h)
    } else {
        (out_w, (img_h * out_w + img_w / 2) / img_w)
    }
}

/// Scales an image's dimensions to fit the output while keeping its aspect
/// ratio.
pub fn fit_dimensions(img_w: u32, img_h: u32, out_w: u32, out_h: u32) -> (r: (u32, u32))
    requires
        1 <= img_w <= 100_000,
        1 <= img_h <= 100_000,
        1 <= out_w <= 100_000,
        1 <= out_h <= 100_000,
    ensures
        (r.0 as int, r.1 as int) == fit_dimensions_spec(
            img_w as int,
            img_h as int,
            out_w as int,
            out_h as int,
        ),
{
    proof {
        assert((out_w as u64) * (img_h as u64) <= 10_000_000_000 && (out_h as u64) * (img_w
            as u64) <= 10_000_000_000 && (img_w as u64) * (out_h as u64) <= 10_000_000_000 && (
        img_h as u64) * (out_w as u64) <= 10_000_000_000) by (nonlinear_arith)
            requires
                img_w <= 100_000,
                img_h <= 100_000,
                out_w <= 100_000,
                out_h <= 100_000,
        ;
    }
    let wide = (out_w as u64) * (img_h as u64) > (out_h as u64) * (img_w as u64);
    if wide {
        let num: u64 = (img_w as u64) * (out_h as u64) + (img_h as u64) / 2;
        let den: u64 = img_h as u64;
        proof {
            assert(num < (out_w as u64 + 1) * den && num / den < out_w as u64 + 1)
                by (nonlinear_arith)
                requires
                    (img_w as u64) * (out_h as u64) < (out_w as u64) * (img_h as u64),
                    den == img_h as u64,
                    num == (img_w as u64) * (out_h as u64) + (img_h as u64) / 2,
                    den >= 1,
            ;
        }
        ((num / den) as u32, out_h)
    } else {
        let num: u64 = (img_h as u64) * (out_w as u64) + (img_w as u64) / 2;
        let den: u64 = img_w as u64;
        proof {
            assert(num < (out_h as u64 + 1) * den && num / den < out_h as u64 + 1)
                by (nonlinear_arith)
                requires
                    (out_w as u64) * (img_h as u64) <= (out_h as u64) * (img_w as u64),
                    den == img_w as u64,
                    num == (img_h as u64) * (out_w as u64) + (img_w as u64) / 2,
                    den >= 1,
            ;
        }
        (out_w, (num / den) as u32)
    }
}

} // verus!
