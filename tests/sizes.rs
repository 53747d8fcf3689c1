use lowres::codec::{dpi_to_ppm, Resample};
use lowres::error::LowresError;
use lowres::size::{resolve, ResizeMode};

#[test]
fn dpi_conversion_is_reasonable() {
    assert_eq!(dpi_to_ppm(300), 11811);
    assert_eq!(dpi_to_ppm(72), 2835);
}

#[test]
fn lowres_dpi_conversion_is_reasonable() {
    assert_eq!(dpi_to_ppm(300), 11811);
    assert_eq!(dpi_to_ppm(72), 2835);
}

#[test]
fn dpi_edges() {
    assert_eq!(dpi_to_ppm(0), 0);
    assert_eq!(dpi_to_ppm(1), 39);
    assert_eq!(dpi_to_ppm(96), 3780);
    assert_eq!(dpi_to_ppm(u32::MAX), u32::MAX);
}

#[test]
fn resolve_scenarios() {
    assert_eq!(resolve(100, 50, None, None, ResizeMode::Auto).unwrap(), (64, 64));
    assert_eq!(resolve(100, 50, None, None, ResizeMode::Exact).unwrap(), (64, 64));
    assert_eq!(resolve(100, 50, Some(50), None, ResizeMode::Auto).unwrap(), (50, 25));
    assert_eq!(resolve(100, 50, None, Some(25), ResizeMode::Auto).unwrap(), (50, 25));
    assert_eq!(resolve(100, 50, Some(30), Some(30), ResizeMode::Exact).unwrap(), (30, 30));
    assert_eq!(resolve(100, 50, Some(30), Some(30), ResizeMode::Auto).unwrap(), (30, 30));
}

#[test]
fn width_only_keeps_aspect_within_a_pixel() {
    assert_eq!(resolve(1000, 333, Some(100), None, ResizeMode::Auto).unwrap(), (100, 33));
    assert_eq!(resolve(3, 2, Some(4), None, ResizeMode::Exact).unwrap(), (4, 3));
    // 2 * 3 / 4 = 1.5 rounds up
    assert_eq!(resolve(4, 2, Some(3), None, ResizeMode::Auto).unwrap(), (3, 2));
    // never below one pixel
    assert_eq!(resolve(1000, 1, Some(10), None, ResizeMode::Auto).unwrap(), (10, 1));
    assert_eq!(resolve(1, 1000, None, Some(10), ResizeMode::Auto).unwrap(), (1, 10));
    // capped at the largest u32
    assert_eq!(resolve(1, u32::MAX, Some(2), None, ResizeMode::Auto).unwrap(), (2, u32::MAX));
}

#[test]
fn zero_source_side_is_an_error() {
    assert!(matches!(resolve(0, 50, Some(10), None, ResizeMode::Auto), Err(LowresError::ZeroDimension)));
    assert!(matches!(resolve(50, 0, None, Some(10), ResizeMode::Auto), Err(LowresError::ZeroDimension)));
    assert_eq!(resolve(0, 0, Some(3), Some(4), ResizeMode::Auto).unwrap(), (3, 4));
}

#[test]
fn names() {
    assert_eq!(ResizeMode::Auto.name(), "auto");
    assert_eq!(ResizeMode::Exact.name(), "exact");
    assert_eq!(Resample::Nearest.name(), "nearest");
    assert_eq!(Resample::Triangle.name(), "triangle");
    assert_eq!(Resample::CatmullRom.name(), "catmullrom");
    assert_eq!(Resample::Gaussian.name(), "gaussian");
    assert_eq!(Resample::Lanczos3.name(), "lanczos3");
}
