//! Finding the part of a canvas that holds writing, so that a download can be
//! cut down to it.
//!
//! Pixels come as the RGBA bytes of a canvas (four bytes per pixel, rows top
//! to bottom). A pixel holds writing unless it is fully transparent or pure white.
use vstd::prelude::*;

verus! {

/// A rectangle of pixels: columns `left..right` of rows `top..bottom`.
#[derive(PartialEq, Eq, Structural, Debug, Clone, Copy)]
pub struct Bounds {
    pub left: u32,
    pub top: u32,
    pub right: u32,
    pub bottom: u32,
}

/// Whether the pixel whose bytes start at `o` holds writing.
pub open spec fn is_ink(pixels: Seq<u8>, o: int) -> bool {
    pixels[o + 3] != 0 && !(pixels[o] == 255 && pixels[o + 1] == 255 && pixels[o + 2] == 255)
}

/// Whether pixel `(x, y)` of a `width` × `height` canvas holds writing.
pub open spec fn written_at(pixels: Seq<u8>, width: int, height: int, x: int, y: int) -> bool {
    &&& 0 <= x < width
    &&& 0 <= y < height
    &&& is_ink(pixels, (y * width + x) * 4)
}

/// Every pixel that can be seen and is not pure white counts as writing
/// (pen strokes and text in any colour); transparent and white pixels do not.
pub proof fn lemma_visible_non_white_is_writing(
    pixels: Seq<u8>,
    width: int,
    height: int,
    x: int,
    y: int,
)
    requires
        0 <= x < width,
        0 <= y < height,
    ensures
        written_at(pixels, width, height, x, y) <==> ({
            let o = (y * width + x) * 4;
            &&& pixels[o + 3] != 0
            &&& (pixels[o] != 255 || pixels[o + 1] != 255 || pixels[o + 2] != 255)
        }),
{
}

/// Whether `b` is the smallest rectangle holding every written pixel.
pub open spec fn is_tight_bounds(pixels: Seq<u8>, width: int, height: int, b: Bounds) -> bool {
    &&& b.left < b.right <= width
    &&& b.top < b.bottom <= height
    &&& forall|x: int, y: int|
        #[trigger] written_at(pixels, width, height, x, y) ==> b.left <= x < b.right && b.top <= y
            < b.bottom
    &&& exists|y: int| #[trigger] written_at(pixels, width, height, b.left as int, y)
    &&& exists|y: int| #[trigger] written_at(pixels, width, height, b.right - 1, y)
    &&& exists|x: int| #[trigger] written_at(pixels, width, height, x, b.top as int)
    &&& exists|x: int| #[trigger] written_at(pixels, width, height, x, b.bottom - 1)
}

/// The smallest rectangle holding every written pixel of a `width` × `height`
/// canvas, or `None` when nothing is written.
pub fn written_bounds(pixels: &Vec<u8>, width: u32, height: u32) -> (r: Option<Bounds>)
    requires
        pixels@.len() == width * height * 4,
    ensures
        r is None ==> forall|x: int, y: int| !written_at(pixels@, width as int, height as int, x, y),
        r matches Some(b) ==> is_tight_bounds(pixels@, width as int, height as int, b),
{
    let ghost w = width as int;
    let ghost h = height as int;
    let total: usize = pixels.len();
    let mut found = false;
    let mut left: u32 = 0;
    let mut top: u32 = 0;
    let mut right: u32 = 0;
    let mut bottom: u32 = 0;
    let ghost mut yl: int = 0;
    let ghost mut yr: int = 0;
    let ghost mut xt: int = 0;
    let ghost mut xb: int = 0;
    let mut y: u32 = 0;
    let mut row: usize = 0;
    while y < height
        invariant
            w == width,
            h == height,
            pixels@.len() == w * h * 4,
            total == pixels@.len(),
            y <= height,
            row == y * w * 4,
            !found ==> forall|x: int, yy: int|
                yy < y ==> !#[trigger] written_at(pixels@, w, h, x, yy),
            found ==> {
                &&& left < right <= width
                &&& top < bottom <= y
                &&& forall|x: int, yy: int|
                    yy < y && #[trigger] written_at(pixels@, w, h, x, yy) ==> left <= x < right && top
                        <= yy < bottom
                &&& written_at(pixels@, w, h, left as int, yl)
                &&& written_at(pixels@, w, h, right - 1, yr)
                &&& written_at(pixels@, w, h, xt, top as int)
                &&& written_at(pixels@, w, h, xb, bottom - 1)
            },
        decreases height - y,
    {
        assert((y + 1) * w * 4 == y * w * 4 + w * 4) by (nonlinear_arith);
        assert(y * w * 4 + w * 4 <= w * h * 4) by (nonlinear_arith)
            requires
                y < h,
                0 <= w,
        ;
        let mut x: u32 = 0;
        let mut o: usize = row;
        while x < width
            invariant
                w == width,
                h == height,
                pixels@.len() == w * h * 4,
                total == pixels@.len(),
                y < height,
                row == y * w * 4,
                x <= width,
                o == row + x * 4,
                row + w * 4 <= w * h * 4,
                !found ==> forall|xx: int, yy: int|
                    (yy < y || (yy == y && xx < x)) ==> !#[trigger] written_at(pixels@, w, h, xx, yy),
                found ==> {
                    &&& left < right <= width
                    &&& top < bottom <= y + 1
                    &&& forall|xx: int, yy: int|
                        (yy < y || (yy == y && xx < x)) && #[trigger] written_at(pixels@, w, h, xx, yy)
                            ==> left <= xx < right && top <= yy < bottom
                    &&& written_at(pixels@, w, h, left as int, yl)
                    &&& written_at(pixels@, w, h, right - 1, yr)
                    &&& written_at(pixels@, w, h, xt, top as int)
                    &&& written_at(pixels@, w, h, xb, bottom - 1)
                },
            decreases width - x,
        {
            assert(o == (y * w + x) * 4);
            let ink = pixels[o + 3] != 0 && !(pixels[o] == 255 && pixels[o + 1] == 255 && pixels[o + 2]
                == 255);
            assert(ink == written_at(pixels@, w, h, x as int, y as int));
            if ink {
                if !found {
                    found = true;
                    left = x;
                    right = x + 1;
                    top = y;
                    bottom = y + 1;
                    proof {
                        yl = y as int;
                        yr = y as int;
                        xt = x as int;
                        xb = x as int;
                    }
                } else {
                    if x < left {
                        left = x;
                        proof {
                            yl = y as int;
                        }
                    }
                    if x + 1 > right {
                        right = x + 1;
                        proof {
                            yr = y as int;
                        }
                    }
                    if y + 1 > bottom {
                        bottom = y + 1;
                        proof {
                            xb = x as int;
                        }
                    }
                }
            }
            assert(o + 4 <= pixels@.len());
            x += 1;
            o += 4;
        }
        row = o;
        y += 1;
    }
    if found {
        let b = Bounds { left, top, right, bottom };
        assert(written_at(pixels@, w, h, b.left as int, yl));
        assert(written_at(pixels@, w, h, b.right - 1, yr));
        assert(written_at(pixels@, w, h, xt, b.top as int));
        assert(written_at(pixels@, w, h, xb, b.bottom - 1));
        assert forall|x: int, yy: int| #[trigger] written_at(pixels@, w, h, x, yy) implies b.left <= x
            < b.right && b.top <= yy < b.bottom by {
            assert(yy < y);
        }
        Some(b)
    } else {
        assert forall|x: int, yy: int| !written_at(pixels@, w, h, x, yy) by {
            if written_at(pixels@, w, h, x, yy) {
                assert(yy < y);
            }
        }
        None
    }
}

} // verus!
