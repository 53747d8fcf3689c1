use vstd::prelude::*;
use crate::raster::{Frame, Raster};

verus! {

/// A resampling kernel for plain resizing.
#[derive(Clone, Copy, Debug, PartialEq, Eq, Structural)]
pub enum Resample {
    Nearest,
    Triangle,
    CatmullRom,
    Gaussian,
    Lanczos3,
}

impl Resample {
    /// The kernel's name as written on a command line.
    pub fn name(&self) -> (r: &'static str)
        ensures
            *self == Resample::Nearest ==> r@ == "nearest"@,
            *self == Resample::Triangle ==> r@ == "triangle"@,
            *self == Resample::CatmullRom ==> r@ == "catmullrom"@,
            *self == Resample::Gaussian ==> r@ == "gaussian"@,
            *self == Resample::Lanczos3 ==> r@ == "lanczos3"@,
    {
        match self {
            Resample::Nearest => "nearest",
            Resample::Triangle => "triangle",
            Resample::CatmullRom => "catmullrom",
            Resample::Gaussian => "gaussian",
            Resample::Lanczos3 => "lanczos3",
        }
    }
}

/// Pixels per metre for a density in dots per inch: `dpi / 0.0254`, that is
/// `dpi * 10000 / 254`, rounded to the nearest integer (the quotient is never
/// exactly halfway).
pub open spec fn ppm_of(dpi: nat) -> nat {
    (dpi * 10000 + 127) / 254
}

/// The PNG density field for `dpi`, capped at the largest `u32`.
pub fn dpi_to_ppm(dpi: u32) -> (r: u32)
    ensures
        r == if ppm_of(dpi as nat) > u32::MAX { u32::MAX as nat } else { ppm_of(dpi as nat) },
{
    let q: u64 = (dpi as u64 * 10000 + 127) / 254;
    if q > u32::MAX as u64 {
        u32::MAX
    } else {
        q as u32
    }
}

/// Relies on image::load_from_memory followed by DynamicImage::to_rgba8:
/// an image comes back as a well-formed RGBA8 raster. Which bytes it holds
/// is not stated: the JPEG decoder picks its transform by the CPU it runs on.
#[verifier::external_body]
pub(crate) fn decode_rgba(data: &Vec<u8>) -> (r: Result<Raster, image::ImageError>)
    ensures
        r matches Ok(img) ==> img.wf(),
{
    let rgba = image::load_from_memory(data)?.to_rgba8();
    Ok(Raster { width: rgba.width(), height: rgba.height(), pixels: rgba.into_raw() })
}

/// The orientation tag that the EXIF block of a byte string holds, if any.
pub uninterp spec fn exif_orientation(data: Seq<u8>) -> Option<u32>;

/// Relies on kamadak-exif: Reader::read_from_container, Exif::get_field for
/// the primary image's Orientation tag, and Value::get_uint(0). Bytes without
/// a readable tag give `None`.
#[verifier::external_body]
pub(crate) fn read_orientation(data: &Vec<u8>) -> (r: Option<u32>)
    ensures
        r == exif_orientation(data@),
{
    let exif = exif::Reader::new().read_from_container(&mut std::io::Cursor::new(data)).ok()?;
    let field = exif.get_field(exif::Tag::Orientation, exif::In::PRIMARY)?;
    field.value.get_uint(0)
}

/// The kernels whose weights use only basic floating-point operations
/// (the box and the triangle), so that a resampling with them gives the same
/// bytes on every machine.
pub open spec fn exact_kernel(kernel: Resample) -> bool {
    kernel == Resample::Nearest || kernel == Resample::Triangle
}

/// The EXIF orientation tag of an image file's bytes, if it has one.
pub fn orientation_tag(data: &Vec<u8>) -> (r: Option<u32>)
    ensures
        r == exif_orientation(data@),
{
    read_orientation(data)
}

/// The bytes of a `width x height` resampling of a frame with one of the
/// exact kernels.
pub uninterp spec fn resampled(f: Frame, width: u32, height: u32, kernel: Resample) -> Seq<u8>;

/// Relies on image::imageops::resize: the result has exactly the requested
/// size, whatever the source's aspect ratio. With an exact kernel it depends
/// on its arguments alone. CatmullRom, Gaussian and Lanczos3 weights come
/// from `powi`, `exp` and `sin`, whose precision varies by platform, so of
/// those only the size is stated.
#[verifier::external_body]
pub(crate) fn resize_raster(img: &Raster, width: u32, height: u32, kernel: Resample) -> (r: Raster)
    requires
        img.wf(),
        width >= 1,
        height >= 1,
        width * height * 4 <= usize::MAX,
    ensures
        r.wf(),
        r.width == width,
        r.height == height,
        exact_kernel(kernel) ==> r.pixels@ == resampled(img@, width, height, kernel),
{
    let filter = match kernel {
        Resample::Nearest => image::imageops::FilterType::Nearest,
        Resample::Triangle => image::imageops::FilterType::Triangle,
        Resample::CatmullRom => image::imageops::FilterType::CatmullRom,
        Resample::Gaussian => image::imageops::FilterType::Gaussian,
        Resample::Lanczos3 => image::imageops::FilterType::Lanczos3,
    };
    let buf = image::RgbaImage::from_raw(img.width, img.height, img.pixels.clone()).unwrap();
    let out = image::imageops::resize(&buf, width, height, filter);
    Raster { width, height, pixels: out.into_raw() }
}

/// The PNG file for a frame, RGBA with eight bits per channel, fast
/// compression, and a pHYs density of `ppm` pixels per metre on both axes;
/// `None` where the encoder refuses the frame.
pub uninterp spec fn png_file(f: Frame, ppm: u32) -> Option<Seq<u8>>;

/// Relies on png's Encoder (set_color, set_depth, set_compression,
/// set_pixel_dims, write_header) and Writer (write_image_data, finish),
/// writing into memory: the bytes depend on the arguments alone, and only a
/// zero side or a buffer of the wrong length is refused.
#[verifier::external_body]
pub(crate) fn encode_png(img: &Raster, ppm: u32) -> (r: Result<Vec<u8>, png::EncodingError>)
    ensures
        r is Ok <==> png_file(img@, ppm) is Some,
        r matches Ok(bytes) ==> Some(bytes@) == png_file(img@, ppm),
        img.wf() && img.width >= 1 && img.height >= 1 ==> r is Ok,
        img.width == 0 || img.height == 0 ==> r is Err,
{
    let mut out: Vec<u8> = Vec::new();
    let mut encoder = png::Encoder::new(&mut out, img.width, img.height);
    encoder.set_color(png::ColorType::Rgba);
    encoder.set_depth(png::BitDepth::Eight);
    encoder.set_compression(png::Compression::Fast);
    let dims = png::PixelDimensions { xppu: ppm, yppu: ppm, unit: png::Unit::Meter };
    encoder.set_pixel_dims(Some(dims));
    let mut writer = encoder.write_header()?;
    writer.write_image_data(&img.pixels)?;
    writer.finish()?;
    Ok(out)
}

} // verus!
