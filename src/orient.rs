use vstd::prelude::*;
use crate::raster::{Frame, Raster};

verus! {

/// The frame of size `width x height` whose pixel `(x, y)` is pixel
/// `(sx(x, y), sy(x, y))` of `f`.
pub open spec fn pixel_map(
    f: Frame,
    width: nat,
    height: nat,
    sx: spec_fn(int, int) -> int,
    sy: spec_fn(int, int) -> int,
) -> Frame {
    Frame {
        width,
        height,
        data: Seq::new(
            width * height * 4,
            |i: int|
                {
                    let p = i / 4;
                    let x = p % (width as int);
                    let y = p / (width as int);
                    f.at(sx(x, y), sy(x, y), i % 4)
                },
        ),
    }
}

/// Mirrored left to right.
pub open spec fn flipped_h(f: Frame) -> Frame {
    pixel_map(f, f.width, f.height, |x: int, y: int| f.width - 1 - x, |x: int, y: int| y)
}

/// Mirrored top to bottom.
pub open spec fn flipped_v(f: Frame) -> Frame {
    pixel_map(f, f.width, f.height, |x: int, y: int| x, |x: int, y: int| f.height - 1 - y)
}

/// Turned a quarter clockwise.
pub open spec fn rotated_90(f: Frame) -> Frame {
    pixel_map(f, f.height, f.width, |x: int, y: int| y, |x: int, y: int| f.height - 1 - x)
}

/// Turned half a turn.
pub open spec fn rotated_180(f: Frame) -> Frame {
    pixel_map(
        f,
        f.width,
        f.height,
        |x: int, y: int| f.width - 1 - x,
        |x: int, y: int| f.height - 1 - y,
    )
}

/// Turned three quarters clockwise.
pub open spec fn rotated_270(f: Frame) -> Frame {
    pixel_map(f, f.height, f.width, |x: int, y: int| f.width - 1 - y, |x: int, y: int| x)
}

/// The upright picture for an EXIF orientation tag: 2 mirror, 3 half turn,
/// 4 vertical mirror, 5 quarter turn then mirror, 6 quarter turn, 7 three
/// quarters then mirror, 8 three quarters; anything else as it is.
pub open spec fn oriented(f: Frame, tag: Option<u32>) -> Frame {
    match tag {
        Some(2) => flipped_h(f),
        Some(3) => rotated_180(f),
        Some(4) => flipped_v(f),
        Some(5) => flipped_h(rotated_90(f)),
        Some(6) => rotated_90(f),
        Some(7) => flipped_h(rotated_270(f)),
        Some(8) => rotated_270(f),
        _ => f,
    }
}

/// Relies on image::imageops::flip_horizontal: pixel `(x, y)` of the result
/// is pixel `(w - 1 - x, y)` of the source.
#[verifier::external_body]
fn flip_h(img: &Raster) -> (r: Raster)
    requires
        img.wf(),
    ensures
        r.width == img.width,
        r.height == img.height,
        r@ == flipped_h(img@),
{
    let buf = image::RgbaImage::from_raw(img.width, img.height, img.pixels.clone()).unwrap();
    let out = image::imageops::flip_horizontal(&buf);
    Raster { width: out.width(), height: out.height(), pixels: out.into_raw() }
}

/// Relies on image::imageops::flip_vertical: pixel `(x, y)` of the result is
/// pixel `(x, h - 1 - y)` of the source.
#[verifier::external_body]
fn flip_v(img: &Raster) -> (r: Raster)
    requires
        img.wf(),
    ensures
        r.width == img.width,
        r.height == img.height,
        r@ == flipped_v(img@),
{
    let buf = image::RgbaImage::from_raw(img.width, img.height, img.pixels.clone()).unwrap();
    let out = image::imageops::flip_vertical(&buf);
    Raster { width: out.width(), height: out.height(), pixels: out.into_raw() }
}

/// Relies on image::imageops::rotate90: source pixel `(x, y)` goes to
/// `(h - 1 - y, x)` of an `h x w` result.
#[verifier::external_body]
fn rotate_90(img: &Raster) -> (r: Raster)
    requires
        img.wf(),
    ensures
        r.width == img.height,
        r.height == img.width,
        r@ == rotated_90(img@),
{
    let buf = image::RgbaImage::from_raw(img.width, img.height, img.pixels.clone()).unwrap();
    let out = image::imageops::rotate90(&buf);
    Raster { width: out.width(), height: out.height(), pixels: out.into_raw() }
}

/// Relies on image::imageops::rotate180: source pixel `(x, y)` goes to
/// `(w - 1 - x, h - 1 - y)`.
#[verifier::external_body]
fn rotate_180(img: &Raster) -> (r: Raster)
    requires
        img.wf(),
    ensures
        r.width == img.width,
        r.height == img.height,
        r@ == rotated_180(img@),
{
    let buf = image::RgbaImage::from_raw(img.width, img.height, img.pixels.clone()).unwrap();
    let out = image::imageops::rotate180(&buf);
    Raster { width: out.width(), height: out.height(), pixels: out.into_raw() }
}

/// Relies on image::imageops::rotate270: source pixel `(x, y)` goes to
/// `(y, w - 1 - x)` of an `h x w` result.
#[verifier::external_body]
fn rotate_270(img: &Raster) -> (r: Raster)
    requires
        img.wf(),
    ensures
        r.width == img.height,
        r.height == img.width,
        r@ == rotated_270(img@),
{
    let buf = image::RgbaImage::from_raw(img.width, img.height, img.pixels.clone()).unwrap();
    let out = image::imageops::rotate270(&buf);
    Raster { width: out.width(), height: out.height(), pixels: out.into_raw() }
}

/// Turns a decoded image upright according to its EXIF orientation tag;
/// an absent or unknown tag leaves it as it is.
pub fn apply_orientation(img: Raster, tag: Option<u32>) -> (r: Raster)
    requires
        img.wf(),
    ensures
        r.wf(),
        r@ == oriented(img@, tag),
{
    match tag {
        Some(2) => flip_h(&img),
        Some(3) => rotate_180(&img),
        Some(4) => flip_v(&img),
        Some(5) => {
            let t = rotate_90(&img);
            flip_h(&t)
        },
        Some(6) => rotate_90(&img),
        Some(7) => {
            let t = rotate_270(&img);
            flip_h(&t)
        },
        Some(8) => rotate_270(&img),
        _ => img,
    }
}

/// The size of an image of `width x height` once turned upright by its
/// EXIF tag: the quarter turns (tags 5 to 8) swap the sides.
pub fn upright_size(width: u32, height: u32, tag: Option<u32>) -> (r: (u32, u32))
    ensures
        r == if tag matches Some(t) && 5 <= t <= 8 { (height, width) } else { (width, height) },
        forall|f: Frame|
            f.width == width && f.height == height ==> #[trigger] oriented(f, tag).width == r.0
                && oriented(f, tag).height == r.1,
{
    match tag {
        Some(t) => {
            if 5 <= t && t <= 8 {
                (height, width)
            } else {
                (width, height)
            }
        },
        None => (width, height),
    }
}

} // verus!
