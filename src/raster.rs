use vstd::prelude::*;

verus! {

/// One RGBA colour, eight bits per channel.
#[derive(Clone, Copy, Debug, PartialEq, Eq, Structural)]
pub struct Color {
    pub r: u8,
    pub g: u8,
    pub b: u8,
    pub a: u8,
}

impl Color {
    /// Channel `c` of the colour: 0 red, 1 green, 2 blue, 3 alpha.
    pub open spec fn channel(self, c: int) -> u8 {
        if c == 0 {
            self.r
        } else if c == 1 {
            self.g
        } else if c == 2 {
            self.b
        } else {
            self.a
        }
    }
}

/// The mathematical picture of a raster: its size and its bytes, four per
/// pixel in row-major order.
pub struct Frame {
    pub width: nat,
    pub height: nat,
    pub data: Seq<u8>,
}

impl Frame {
    pub open spec fn wf(self) -> bool {
        self.data.len() == self.width * self.height * 4
    }

    /// Channel `c` of the pixel at column `x`, row `y`.
    pub open spec fn at(self, x: int, y: int, c: int) -> u8 {
        self.data[(y * self.width + x) * 4 + c]
    }
}

/// A grid of RGBA8 pixels, stored row-major with the four channels of each
/// pixel interleaved.
pub struct Raster {
    pub width: u32,
    pub height: u32,
    pub pixels: Vec<u8>,
}

impl View for Raster {
    type V = Frame;

    open spec fn view(&self) -> Frame {
        Frame { width: self.width as nat, height: self.height as nat, data: self.pixels@ }
    }
}

impl Raster {
    /// The buffer holds exactly four bytes for every pixel.
    pub open spec fn wf(&self) -> bool {
        self@.wf()
    }

    /// A raster of the given size with every pixel set to `fill`.
    pub fn filled(width: u32, height: u32, fill: Color) -> (r: Raster)
        requires
            width * height * 4 <= usize::MAX,
        ensures
            r.wf(),
            r.width == width,
            r.height == height,
            forall|x: int, y: int, c: int|
                0 <= x < width && 0 <= y < height && 0 <= c < 4 ==> #[trigger] r@.at(x, y, c)
                    == fill.channel(c),
    {
        let n: usize = width as usize * height as usize;
        let mut pixels: Vec<u8> = Vec::with_capacity(n * 4);
        let mut i: usize = 0;
        while i < n
            invariant
                n == width * height,
                n * 4 <= usize::MAX,
                i <= n,
                pixels@.len() == i * 4,
                forall|j: int| 0 <= j < i * 4 ==> #[trigger] pixels@[j] == fill.channel(j % 4),
            decreases n - i,
        {
            pixels.push(fill.r);
            pixels.push(fill.g);
            pixels.push(fill.b);
            pixels.push(fill.a);
            i = i + 1;
        }
        let r = Raster { width, height, pixels };
        assert forall|x: int, y: int, c: int|
            0 <= x < width && 0 <= y < height && 0 <= c < 4 implies #[trigger] r@.at(x, y, c)
                == fill.channel(c) by {
            lemma_pixel_index(x, y, c, width as int, height as int);
            assert(((y * width + x) * 4 + c) % 4 == c) by (nonlinear_arith)
                requires
                    0 <= c < 4,
                    0 <= y * width + x,
            ;
        }
        r
    }
}

/// The byte of channel `c` at `(x, y)` lies inside a buffer of `w * h` pixels.
pub proof fn lemma_pixel_index(x: int, y: int, c: int, w: int, h: int)
    requires
        0 <= x < w,
        0 <= y < h,
        0 <= c < 4,
    ensures
        0 <= y * w + x < w * h,
        0 <= (y * w + x) * 4 + c < w * h * 4,
{
    assert(0 <= y * w + x < w * h) by (nonlinear_arith)
        requires
            0 <= x < w,
            0 <= y < h,
    ;
}

} // verus!
