use lowres::mosaic::{average_blocks, pixelate, reconstruct};
use lowres::raster::{Color, Raster};

fn image_from(width: u32, height: u32, f: impl Fn(u32, u32) -> [u8; 4]) -> Raster {
    let mut pixels = Vec::new();
    for y in 0..height {
        for x in 0..width {
            pixels.extend_from_slice(&f(x, y));
        }
    }
    Raster { width, height, pixels }
}

fn pixel(img: &Raster, x: u32, y: u32) -> [u8; 4] {
    let i = ((y * img.width + x) * 4) as usize;
    [img.pixels[i], img.pixels[i + 1], img.pixels[i + 2], img.pixels[i + 3]]
}

#[test]
fn uniform_image_round_trips_for_any_block() {
    let img = image_from(7, 5, |_, _| [12, 200, 77, 130]);
    for block in [0u32, 1, 2, 3, 4, 6, 7, 100] {
        let out = pixelate(&img, block);
        assert_eq!(out.width, 7);
        assert_eq!(out.height, 5);
        assert_eq!(out.pixels, img.pixels, "block {}", block);
    }
}

#[test]
fn filled_raster_round_trips() {
    let fill = Color { r: 1, g: 2, b: 3, a: 4 };
    let img = Raster::filled(9, 4, fill);
    assert_eq!(img.pixels.len(), 9 * 4 * 4);
    assert_eq!(pixel(&img, 8, 3), [1, 2, 3, 4]);
    assert_eq!(pixelate(&img, 4).pixels, img.pixels);
}

#[test]
fn four_quadrants_stay_sharp() {
    let colors = [[255, 0, 0, 255], [0, 255, 0, 255], [0, 0, 255, 255], [9, 9, 9, 9]];
    let img = image_from(4, 4, |x, y| colors[((y / 2) * 2 + x / 2) as usize]);
    let out = pixelate(&img, 2);
    assert_eq!(out.pixels, img.pixels);
    assert_eq!(pixel(&out, 1, 1), [255, 0, 0, 255]);
    assert_eq!(pixel(&out, 2, 1), [0, 255, 0, 255]);
    assert_eq!(pixel(&out, 1, 2), [0, 0, 255, 255]);
    assert_eq!(pixel(&out, 3, 3), [9, 9, 9, 9]);
}

#[test]
fn non_multiple_width_gives_a_narrow_last_block() {
    let img = image_from(5, 1, |x, _| [(x * 10) as u8, 0, 0, 255]);
    let (colors, bx, by) = average_blocks(&img, 2);
    assert_eq!(bx, 3);
    assert_eq!(by, 1);
    assert_eq!(colors.len(), 3);
    assert_eq!(colors[0], Color { r: 5, g: 0, b: 0, a: 255 });
    assert_eq!(colors[1], Color { r: 25, g: 0, b: 0, a: 255 });
    assert_eq!(colors[2], Color { r: 40, g: 0, b: 0, a: 255 });
    let out = pixelate(&img, 2);
    let reds: Vec<u8> = (0..5).map(|x| pixel(&out, x, 0)[0]).collect();
    assert_eq!(reds, vec![5, 5, 25, 25, 40]);
}

#[test]
fn mean_truncates() {
    let img = image_from(2, 1, |x, _| if x == 0 { [0, 1, 254, 3] } else { [1, 2, 255, 4] });
    let out = pixelate(&img, 2);
    assert_eq!(pixel(&out, 0, 0), [0, 1, 254, 3]);
    assert_eq!(pixel(&out, 1, 0), [0, 1, 254, 3]);
}

#[test]
fn large_block_collapses_to_one_colour() {
    let img = image_from(3, 2, |x, y| [(x * 30 + y * 3) as u8, 60, (y * 90) as u8, 255]);
    // red: 0,30,60,3,33,63 -> 189/6 = 31; blue: 0,0,0,90,90,90 -> 45
    let out = pixelate(&img, 3);
    for y in 0..2 {
        for x in 0..3 {
            assert_eq!(pixel(&out, x, y), [31, 60, 45, 255]);
        }
    }
    assert_eq!(pixelate(&img, 1000).pixels, out.pixels);
}

#[test]
fn pixelation_is_deterministic() {
    let img = image_from(37, 23, |x, y| [(x * 7 + y) as u8, (x ^ y) as u8, (y * 11) as u8, 200]);
    let a = pixelate(&img, 4);
    let b = pixelate(&img, 4);
    assert_eq!(a.pixels, b.pixels);
}

#[test]
fn reconstruct_expands_the_table() {
    let red = Color { r: 255, g: 0, b: 0, a: 255 };
    let blue = Color { r: 0, g: 0, b: 255, a: 128 };
    let out = reconstruct(&vec![red, blue], 2, 3, 1, 2);
    assert_eq!(out, vec![255, 0, 0, 255, 255, 0, 0, 255, 0, 0, 255, 128]);
}

#[test]
fn empty_image_gives_empty_table() {
    let img = Raster { width: 0, height: 3, pixels: vec![] };
    let (colors, bx, by) = average_blocks(&img, 2);
    assert!(colors.is_empty());
    assert_eq!((bx, by), (0, 2));
    assert!(pixelate(&img, 2).pixels.is_empty());
}
