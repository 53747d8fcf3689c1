use vstd::prelude::*;
use crate::codec::{
    decode_rgba, dpi_to_ppm, encode_png, exact_kernel, exif_orientation, png_file, ppm_of,
    read_orientation, resampled, resize_raster, Resample,
};
use crate::error::LowresError;
use crate::mosaic::{mosaic, pixelate, side};
use crate::orient::{apply_orientation, oriented};
use crate::raster::{Frame, Raster};
use crate::size::{lemma_width_keeps_aspect, resolve, resolved_size, ResizeMode};

verus! {

/// The density written when none is requested.
pub const DEFAULT_DPI: u32 = 300;

/// One conversion's settings. A block size selects pixelation; without one
/// the image is resized. `pixel_down_filter` is accepted and kept, but the
/// block mean does not use it.
#[derive(Clone, Copy, Debug, PartialEq, Eq)]
pub struct LowresConfig {
    pub width: Option<u32>,
    pub height: Option<u32>,
    pub mode: Option<ResizeMode>,
    pub filter: Option<Resample>,
    pub block: Option<u32>,
    pub pixel_down_filter: Option<Resample>,
    pub dpi: Option<u32>,
}

/// The density field, in pixels per metre, for the requested DPI (300 when
/// unset), capped at the largest `u32`.
pub open spec fn density(dpi: Option<u32>) -> u32 {
    let d = match dpi {
        Some(d) => d,
        None => DEFAULT_DPI,
    };
    if ppm_of(d as nat) > u32::MAX {
        u32::MAX
    } else {
        ppm_of(d as nat) as u32
    }
}

/// The kernel for plain resizing: nearest when unset.
pub open spec fn kernel_of(filter: Option<Resample>) -> Resample {
    match filter {
        Some(k) => k,
        None => Resample::Nearest,
    }
}

/// The size of the picture that a conversion hands to the encoder, given
/// the upright source: the source's own size when a block is set, else the
/// resolved size; or the error that stops the conversion first.
pub open spec fn planned_size(src: Frame, config: LowresConfig) -> Result<(nat, nat), LowresError> {
    match config.block {
        Some(_) => Ok((src.width, src.height)),
        None => match resolved_size(src.width as u32, src.height as u32, config.width, config.height) {
            None => Err(LowresError::ZeroDimension),
            Some((w, h)) => if w == 0 || h == 0 {
                Err(LowresError::ZeroDimension)
            } else if w * h * 4 > usize::MAX {
                Err(LowresError::TooLarge)
            } else {
                Ok((w as nat, h as nat))
            },
        },
    }
}

/// The bytes of that picture where they are determined: the mosaic when a
/// block is set, or the resampling with an exact kernel.
pub open spec fn planned_data(src: Frame, config: LowresConfig) -> Option<Seq<u8>> {
    match config.block {
        Some(b) => Some(mosaic(src, side(b))),
        None => match resolved_size(src.width as u32, src.height as u32, config.width, config.height) {
            Some((w, h)) => if exact_kernel(kernel_of(config.filter)) {
                Some(resampled(src, w, h, kernel_of(config.filter)))
            } else {
                None
            },
            None => None,
        },
    }
}

/// Resizing with the width alone gives a picture of that width whose height
/// keeps the source's aspect ratio to within one pixel, unless the picture is
/// too large to address; the ratio must fit in a `u32`.
pub proof fn lemma_resize_by_width(src: Frame, config: LowresConfig)
    requires
        src.width >= 1,
        src.width <= u32::MAX,
        src.height <= u32::MAX,
        config.block is None,
        config.width matches Some(w) && w >= 1 && src.height * w <= u32::MAX * src.width,
        config.height is None,
    ensures
        planned_size(src, config) is Ok || planned_size(src, config) == Err::<(nat, nat), LowresError>(LowresError::TooLarge),
        planned_size(src, config) matches Ok((pw, ph)) ==> {
            &&& Some(pw as u32) == config.width
            &&& src.height * pw - src.width <= ph * src.width <= src.height * pw + src.width
        },
{
    let w = config.width->Some_0;
    lemma_width_keeps_aspect(src.width as u32, src.height as u32, w);
}

/// What converting the upright source `src` with `config` returns: the
/// planning error; or the PNG, at the requested density, of a picture of the
/// planned size holding the planned bytes where those are determined, which
/// succeeds exactly when that size has no zero side.
pub open spec fn conversion_result(src: Frame, config: LowresConfig, r: Result<Vec<u8>, LowresError>) -> bool {
    match planned_size(src, config) {
        Err(e) => r == Err::<Vec<u8>, LowresError>(e),
        Ok((w, h)) => {
            &&& (w >= 1 && h >= 1 ==> r is Ok)
            &&& (w == 0 || h == 0 ==> r matches Err(LowresError::Encode(_)))
            &&& exists|out: Frame|
                {
                    &&& out.wf()
                    &&& out.width == w
                    &&& out.height == h
                    &&& (planned_data(src, config) matches Some(d) ==> out.data == d)
                    &&& match #[trigger] png_file(out, density(config.dpi)) {
                        Some(bytes) => r matches Ok(v) && v@ == bytes,
                        None => r matches Err(LowresError::Encode(_)),
                    }
                }
        },
    }
}

/// Converts an upright-to-be raster: turns it by its EXIF tag, pixelates or
/// resizes it as the settings say, and encodes the result as a PNG tagged
/// with the requested density.
pub fn convert_raster(img: Raster, tag: Option<u32>, config: &LowresConfig) -> (r: Result<Vec<u8>, LowresError>)
    requires
        img.wf(),
    ensures
        conversion_result(oriented(img@, tag), *config, r),
{
    let img = apply_orientation(img, tag);
    let ghost src = img@;
    let out: Raster = match config.block {
        Some(b) => pixelate(&img, b),
        None => {
            let mode = match config.mode {
                Some(m) => m,
                None => ResizeMode::Auto,
            };
            let kernel = match config.filter {
                Some(k) => k,
                None => Resample::Nearest,
            };
            let (w, h) = match resolve(img.width, img.height, config.width, config.height, mode) {
                Ok(size) => size,
                Err(e) => {
                    return Err(e);
                },
            };
            if w == 0 || h == 0 {
                return Err(LowresError::ZeroDimension);
            }
            assert(w * h * 4 <= 4 * 0xffff_ffff_ffff_ffff) by (nonlinear_arith)
                requires
                    w <= u32::MAX,
                    h <= u32::MAX,
            ;
            if w as u128 * h as u128 * 4 > usize::MAX as u128 {
                return Err(LowresError::TooLarge);
            }
            resize_raster(&img, w, h, kernel)
        },
    };
    let dpi = match config.dpi {
        Some(d) => d,
        None => DEFAULT_DPI,
    };
    let ppm = dpi_to_ppm(dpi);
    assert(ppm == density(config.dpi));
    let r = match encode_png(&out, ppm) {
        Ok(bytes) => Ok(bytes),
        Err(e) => Err(LowresError::Encode(e)),
    };
    assert(planned_data(src, *config) matches Some(d) ==> out@.data == d);
    assert(png_file(out@, density(config.dpi)) == png_file(out@, ppm));
    r
}

/// Orchestrator: decodes an image, then converts it as `convert_raster`
/// does, with the orientation tag read from the same bytes. A decoder failure
/// is a decode error; otherwise the result is that of converting some
/// well-formed raster, as the decoder's output is not fixed by the bytes.
pub fn process_bytes(data: &Vec<u8>, config: &LowresConfig) -> (r: Result<Vec<u8>, LowresError>)
    ensures
        r matches Err(LowresError::Decode(_)) || exists|f: Frame|
            f.wf() && #[trigger] conversion_result(
                oriented(f, exif_orientation(data@)),
                *config,
                r,
            ),
{
    let tag = read_orientation(data);
    match decode_rgba(data) {
        Ok(img) => {
            let ghost f = img@;
            let r = convert_raster(img, tag, config);
            assert(conversion_result(oriented(f, exif_orientation(data@)), *config, r));
            r
        },
        Err(e) => Err(LowresError::Decode(e)),
    }
}

} // verus!
