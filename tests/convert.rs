use lowres::codec::Resample;
use lowres::config::LowresConfig;
use lowres::error::LowresError;
use lowres::orient::{apply_orientation, upright_size};
use lowres::raster::Raster;
use lowres::size::ResizeMode;
use lowres::uri::{file_data_uri, mime_for_extension};

fn config() -> LowresConfig {
    LowresConfig {
        width: None,
        height: None,
        mode: None,
        filter: None,
        block: None,
        pixel_down_filter: None,
        dpi: None,
    }
}

fn png_of(width: u32, height: u32, pixels: Vec<u8>) -> Vec<u8> {
    let img = image::RgbaImage::from_raw(width, height, pixels).unwrap();
    let mut out = std::io::Cursor::new(Vec::new());
    img.write_to(&mut out, image::ImageFormat::Png).unwrap();
    out.into_inner()
}

fn read_png(bytes: &[u8]) -> (u32, u32, Vec<u8>, Option<png::PixelDimensions>) {
    let decoder = png::Decoder::new(bytes);
    let mut reader = decoder.read_info().unwrap();
    let dims = reader.info().pixel_dims;
    let mut buf = vec![0; reader.output_buffer_size()];
    let frame = reader.next_frame(&mut buf).unwrap();
    buf.truncate(frame.buffer_size());
    (frame.width, frame.height, buf, dims)
}

/// A 3 x 2 image whose pixel (x, y) has red 10 * x + y.
fn small() -> Raster {
    let mut pixels = Vec::new();
    for y in 0..2u8 {
        for x in 0..3u8 {
            pixels.extend_from_slice(&[10 * x + y, 0, 0, 255]);
        }
    }
    Raster { width: 3, height: 2, pixels }
}

fn reds(img: &Raster) -> Vec<u8> {
    img.pixels.chunks(4).map(|p| p[0]).collect()
}

#[test]
fn orientation_tags() {
    // source rows: [0 10 20] [1 11 21]
    let none = apply_orientation(small(), None);
    assert_eq!(reds(&none), vec![0, 10, 20, 1, 11, 21]);
    assert_eq!(reds(&apply_orientation(small(), Some(1))), vec![0, 10, 20, 1, 11, 21]);
    assert_eq!(reds(&apply_orientation(small(), Some(9))), vec![0, 10, 20, 1, 11, 21]);
    assert_eq!(reds(&apply_orientation(small(), Some(2))), vec![20, 10, 0, 21, 11, 1]);
    assert_eq!(reds(&apply_orientation(small(), Some(3))), vec![21, 11, 1, 20, 10, 0]);
    assert_eq!(reds(&apply_orientation(small(), Some(4))), vec![1, 11, 21, 0, 10, 20]);
    let r90 = apply_orientation(small(), Some(6));
    assert_eq!((r90.width, r90.height), (2, 3));
    assert_eq!(reds(&r90), vec![1, 0, 11, 10, 21, 20]);
    let r270 = apply_orientation(small(), Some(8));
    assert_eq!((r270.width, r270.height), (2, 3));
    assert_eq!(reds(&r270), vec![20, 21, 10, 11, 0, 1]);
    assert_eq!(reds(&apply_orientation(small(), Some(5))), vec![0, 1, 10, 11, 20, 21]);
    assert_eq!(reds(&apply_orientation(small(), Some(7))), vec![21, 20, 11, 10, 1, 0]);
}

#[test]
fn pixelation_keeps_size_and_tags_density() {
    let mut pixels = Vec::new();
    for i in 0..16u8 {
        pixels.extend_from_slice(&[i * 10, 0, 0, 255]);
    }
    let data = png_of(4, 4, pixels);
    let mut c = config();
    c.block = Some(4);
    c.dpi = Some(72);
    let out = lowres::config::process_bytes(&data, &c).unwrap();
    let (w, h, buf, dims) = read_png(&out);
    assert_eq!((w, h), (4, 4));
    // mean of 0, 10, ..., 150 is 75
    assert!(buf.chunks(4).all(|p| p == [75, 0, 0, 255]));
    let dims = dims.unwrap();
    assert_eq!((dims.xppu, dims.yppu), (2835, 2835));
    assert_eq!(dims.unit, png::Unit::Meter);
}

#[test]
fn resize_uses_resolved_size_and_default_dpi() {
    let data = png_of(4, 2, vec![200; 4 * 2 * 4]);
    let mut c = config();
    c.width = Some(2);
    c.filter = Some(Resample::Nearest);
    c.mode = Some(ResizeMode::Auto);
    let out = lowres::config::process_bytes(&data, &c).unwrap();
    let (w, h, buf, dims) = read_png(&out);
    assert_eq!((w, h), (2, 1));
    assert_eq!(buf, vec![200; 2 * 1 * 4]);
    assert_eq!(dims.unwrap().xppu, 11811);
}

#[test]
fn exact_size_may_distort() {
    let data = png_of(4, 2, vec![7; 4 * 2 * 4]);
    let mut c = config();
    c.width = Some(3);
    c.height = Some(3);
    c.mode = Some(ResizeMode::Exact);
    let out = lowres::config::process_bytes(&data, &c).unwrap();
    let (w, h, _, _) = read_png(&out);
    assert_eq!((w, h), (3, 3));
}

#[test]
fn no_size_gives_default_side() {
    let data = png_of(4, 2, vec![7; 4 * 2 * 4]);
    let out = lowres::config::process_bytes(&data, &config()).unwrap();
    let (w, h, _, _) = read_png(&out);
    assert_eq!((w, h), (64, 64));
}

#[test]
fn undecodable_bytes_fail_to_decode() {
    let r = lowres::config::process_bytes(&vec![1, 2, 3], &config());
    assert!(matches!(r, Err(LowresError::Decode(_))));
}

#[test]
fn zero_requested_side_is_an_error() {
    let data = png_of(4, 2, vec![7; 4 * 2 * 4]);
    let mut c = config();
    c.width = Some(0);
    let r = lowres::config::process_bytes(&data, &c);
    assert!(matches!(r, Err(LowresError::ZeroDimension)));
}

#[test]
fn mime_types() {
    assert_eq!(mime_for_extension("png"), "image/png");
    assert_eq!(mime_for_extension("PNG"), "image/png");
    assert_eq!(mime_for_extension("JPeg"), "image/jpeg");
    assert_eq!(mime_for_extension("jpg"), "image/jpeg");
    assert_eq!(mime_for_extension("gif"), "image/gif");
    assert_eq!(mime_for_extension("WEBP"), "image/webp");
    assert_eq!(mime_for_extension("txt"), "application/octet-stream");
    assert_eq!(mime_for_extension(""), "application/octet-stream");
}

#[test]
fn data_uri_holds_base64() {
    assert_eq!(file_data_uri("Png", &vec![1, 2, 3]), "data:image/png;base64,AQID");
    assert_eq!(file_data_uri("bin", &vec![0xff, 0xfe]), "data:application/octet-stream;base64,//4=");
}

#[test]
fn convert_raster_orients_then_pixelates() {
    // the 3 x 2 image turned a quarter (tag 6) is 2 x 3; a block of 3 covers it
    let mut c = config();
    c.block = Some(3);
    let out = lowres::config::convert_raster(small(), Some(6), &c).unwrap();
    let (w, h, buf, dims) = read_png(&out);
    assert_eq!((w, h), (2, 3));
    // mean of 0, 10, 20, 1, 11, 21 is 63 / 6 = 10
    assert!(buf.chunks(4).all(|p| p == [10, 0, 0, 255]));
    assert_eq!(dims.unwrap().xppu, 11811);
}

#[test]
fn convert_raster_reports_zero_source_side() {
    let mut c = config();
    c.height = Some(5);
    let empty = Raster { width: 4, height: 0, pixels: vec![] };
    let r = lowres::config::convert_raster(empty, None, &c);
    assert!(matches!(r, Err(LowresError::ZeroDimension)));
}

#[test]
fn smooth_kernels_give_the_resolved_size() {
    for kernel in [Resample::Lanczos3, Resample::Gaussian, Resample::Triangle, Resample::CatmullRom] {
        let mut c = config();
        c.height = Some(1);
        c.filter = Some(kernel);
        let out = lowres::config::convert_raster(small(), None, &c).unwrap();
        let (w, h, buf, _) = read_png(&out);
        assert_eq!((w, h), (2, 1), "{:?}", kernel);
        assert_eq!(buf.len(), 8);
    }
}

#[test]
fn upright_size_swaps_for_quarter_turns() {
    for tag in [None, Some(1), Some(2), Some(3), Some(4), Some(9)] {
        assert_eq!(upright_size(3, 2, tag), (3, 2));
    }
    for tag in [5, 6, 7, 8] {
        assert_eq!(upright_size(3, 2, Some(tag)), (2, 3));
    }
}

#[test]
fn plain_png_has_no_orientation_tag() {
    let data = png_of(2, 2, vec![1; 16]);
    assert_eq!(lowres::codec::orientation_tag(&data), None);
    assert_eq!(lowres::codec::orientation_tag(&vec![0, 1, 2]), None);
}
