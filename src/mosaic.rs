use vstd::prelude::*;
use rayon::iter::{IndexedParallelIterator, IntoParallelIterator, ParallelIterator};
use rayon::slice::ParallelSliceMut;
use crate::raster::{Color, Frame, Raster, lemma_pixel_index};

verus! {

/// `ceil(n / b)`: how many blocks of side `b` cover `n` pixels.
pub open spec fn blocks_along(n: nat, b: nat) -> nat
    recommends
        b >= 1,
{
    ((n + b - 1) / b as int) as nat
}

/// The first and one-past-last coordinate, along one axis of length `n`, of
/// block number `k` of side `b`, clamped to the image.
pub open spec fn extent(n: nat, b: nat, k: nat) -> (nat, nat) {
    let lo = k * b;
    let hi = if lo + b <= n { lo + b } else { n };
    (lo, hi)
}

/// Sum of channel `c` over the pixels `x0 <= x < x1` of row `y`.
pub open spec fn row_sum(f: Frame, y: int, x0: int, x1: int, c: int) -> nat
    decreases x1 - x0,
{
    if x1 <= x0 {
        0
    } else {
        row_sum(f, y, x0, x1 - 1, c) + f.at(x1 - 1, y, c) as nat
    }
}

/// Sum of channel `c` over the rectangle `[x0, x1) x [y0, y1)`.
pub open spec fn rect_sum(f: Frame, x0: int, x1: int, y0: int, y1: int, c: int) -> nat
    decreases y1 - y0,
{
    if y1 <= y0 {
        0
    } else {
        rect_sum(f, x0, x1, y0, y1 - 1, c) + row_sum(f, y1 - 1, x0, x1, c)
    }
}

/// The truncated mean of channel `c` over the rectangle, or the channel of
/// opaque black where the rectangle holds no pixel.
pub open spec fn mean_channel(f: Frame, x0: nat, x1: nat, y0: nat, y1: nat, c: int) -> u8 {
    let count: int = (x1 - x0) * (y1 - y0);
    if x0 < x1 && y0 < y1 {
        (rect_sum(f, x0 as int, x1 as int, y0 as int, y1 as int, c) as int / count) as u8
    } else if c == 3 {
        255
    } else {
        0
    }
}

/// The average colour of block `idx` (row-major over the block grid) of
/// side `b`.
pub open spec fn block_color(f: Frame, b: nat, idx: nat) -> Color {
    let bx = blocks_along(f.width, b);
    let (x0, x1) = extent(f.width, b, idx % bx);
    let (y0, y1) = extent(f.height, b, idx / bx);
    Color {
        r: mean_channel(f, x0, x1, y0, y1, 0),
        g: mean_channel(f, x0, x1, y0, y1, 1),
        b: mean_channel(f, x0, x1, y0, y1, 2),
        a: mean_channel(f, x0, x1, y0, y1, 3),
    }
}

/// The table of block colours of a frame, one per block in row-major order.
pub open spec fn block_table(f: Frame, b: nat) -> Seq<Color> {
    Seq::new(
        blocks_along(f.width, b) * blocks_along(f.height, b),
        |i: int| block_color(f, b, i as nat),
    )
}

/// The full-size buffer in which pixel `(x, y)` takes the colour of block
/// `(x / b, y / b)` of the table.
pub open spec fn expand(colors: Seq<Color>, bx: nat, w: nat, h: nat, b: nat) -> Seq<u8> {
    Seq::new(
        w * h * 4,
        |i: int|
            {
                let p = i / 4;
                colors[(p / w as int) / b as int * bx + (p % w as int) / b as int].channel(i % 4)
            },
    )
}

/// One row of `expand`: row `y`, `w` pixels wide.
pub open spec fn expand_row(colors: Seq<Color>, bx: nat, w: nat, b: nat, y: nat) -> Seq<u8> {
    Seq::new(
        w * 4,
        |j: int| colors[(y / b) as int * bx + (j / 4) / b as int].channel(j % 4),
    )
}

/// The pixelated picture: every pixel replaced by the average colour of its
/// block.
pub open spec fn mosaic(f: Frame, b: nat) -> Seq<u8> {
    expand(block_table(f, b), blocks_along(f.width, b), f.width, f.height, b)
}

proof fn lemma_row_sum_bound(f: Frame, y: int, x0: int, x1: int, c: int)
    requires
        x0 <= x1,
    ensures
        row_sum(f, y, x0, x1, c) <= 255 * (x1 - x0),
    decreases x1 - x0,
{
    if x0 < x1 {
        lemma_row_sum_bound(f, y, x0, x1 - 1, c);
    }
}

proof fn lemma_rect_sum_bound(f: Frame, x0: int, x1: int, y0: int, y1: int, c: int)
    requires
        x0 <= x1,
        y0 <= y1,
    ensures
        rect_sum(f, x0, x1, y0, y1, c) <= 255 * ((x1 - x0) * (y1 - y0)),
    decreases y1 - y0,
{
    if y0 < y1 {
        lemma_rect_sum_bound(f, x0, x1, y0, y1 - 1, c);
        lemma_row_sum_bound(f, y1 - 1, x0, x1, c);
        assert(255 * ((x1 - x0) * (y1 - 1 - y0)) + 255 * (x1 - x0) == 255 * ((x1 - x0) * (y1
            - y0))) by (nonlinear_arith);
    }
}

/// Block `k` along an axis of length `n` starts inside it, and the block
/// grid has no more cells than the axis has pixels.
proof fn lemma_extent(n: nat, b: nat, k: nat)
    requires
        b >= 1,
        k < blocks_along(n, b),
    ensures
        extent(n, b, k).0 < extent(n, b, k).1 <= n,
        blocks_along(n, b) <= n,
{
    let nb = blocks_along(n, b);
    assert(nb * b <= n + b - 1) by (nonlinear_arith)
        requires
            nb == (n + b - 1) / b as int,
            b >= 1,
    ;
    assert(k * b + b <= nb * b) by (nonlinear_arith)
        requires
            k < nb,
    ;
    assert(nb <= n) by (nonlinear_arith)
        requires
            nb == (n + b - 1) / b as int,
            b >= 1,
    ;
}

/// The average colour of block `idx`: sums each channel over the block in a
/// wide accumulator and divides by the pixel count.
pub fn average_block(img: &Raster, b: usize, blocks_x: usize, idx: usize) -> (r: Color)
    requires
        img.wf(),
        b >= 1,
        blocks_x == blocks_along(img.width as nat, b as nat),
        idx < blocks_x * blocks_along(img.height as nat, b as nat),
    ensures
        r == block_color(img@, b as nat, idx as nat),
{
    let f = Ghost(img@);
    let len = img.pixels.len();
    let w = img.width as usize;
    let h = img.height as usize;
    let bxi = idx % blocks_x;
    let byi = idx / blocks_x;
    proof {
        lemma_extent(w as nat, b as nat, bxi as nat);
        assert(byi < blocks_along(h as nat, b as nat)) by (nonlinear_arith)
            requires
                idx < blocks_x * blocks_along(h as nat, b as nat),
                byi == idx as int / blocks_x as int,
                blocks_x > 0,
        ;
        lemma_extent(h as nat, b as nat, byi as nat);
        assert(bxi * b < w);
        assert(byi * b < h);
    }
    let x0 = bxi * b;
    let y0 = byi * b;
    let x1 = if w - x0 >= b { x0 + b } else { w };
    let y1 = if h - y0 >= b { y0 + b } else { h };
    assert(x1 == extent(w as nat, b as nat, bxi as nat).1);
    assert(y1 == extent(h as nat, b as nat, byi as nat).1);
    let mut sr: u128 = 0;
    let mut sg: u128 = 0;
    let mut sb: u128 = 0;
    let mut sa: u128 = 0;
    let mut y = y0;
    while y < y1
        invariant
            img.wf(),
            f@ == img@,
            len == img.pixels@.len(),
            w == img.width,
            h == img.height,
            x0 < x1 <= w,
            y0 <= y <= y1 <= h,
            sr == rect_sum(f@, x0 as int, x1 as int, y0 as int, y as int, 0),
            sg == rect_sum(f@, x0 as int, x1 as int, y0 as int, y as int, 1),
            sb == rect_sum(f@, x0 as int, x1 as int, y0 as int, y as int, 2),
            sa == rect_sum(f@, x0 as int, x1 as int, y0 as int, y as int, 3),
        decreases y1 - y,
    {
        let mut x = x0;
        let ghost sr0 = sr;
        let ghost sg0 = sg;
        let ghost sb0 = sb;
        let ghost sa0 = sa;
        proof {
            lemma_rect_sum_bound(f@, x0 as int, x1 as int, y0 as int, y as int, 0);
            lemma_rect_sum_bound(f@, x0 as int, x1 as int, y0 as int, y as int, 1);
            lemma_rect_sum_bound(f@, x0 as int, x1 as int, y0 as int, y as int, 2);
            lemma_rect_sum_bound(f@, x0 as int, x1 as int, y0 as int, y as int, 3);
            assert(255 * ((x1 - x0) * (y - y0)) <= 255 * w * h) by (nonlinear_arith)
                requires
                    x0 < x1 <= w,
                    y0 <= y <= h,
            ;
        }
        while x < x1
            invariant
                img.wf(),
                f@ == img@,
                len == img.pixels@.len(),
                w == img.width,
                h == img.height,
                x0 <= x <= x1 <= w,
                y0 <= y < y1 <= h,
                sr0 <= 255 * w * h,
                sg0 <= 255 * w * h,
                sb0 <= 255 * w * h,
                sa0 <= 255 * w * h,
                sr == sr0 + row_sum(f@, y as int, x0 as int, x as int, 0),
                sg == sg0 + row_sum(f@, y as int, x0 as int, x as int, 1),
                sb == sb0 + row_sum(f@, y as int, x0 as int, x as int, 2),
                sa == sa0 + row_sum(f@, y as int, x0 as int, x as int, 3),
            decreases x1 - x,
        {
            proof {
                lemma_pixel_index(x as int, y as int, 3, w as int, h as int);
                lemma_row_sum_bound(f@, y as int, x0 as int, x as int, 0);
                lemma_row_sum_bound(f@, y as int, x0 as int, x as int, 1);
                lemma_row_sum_bound(f@, y as int, x0 as int, x as int, 2);
                lemma_row_sum_bound(f@, y as int, x0 as int, x as int, 3);
                assert(w * h * 4 == len);
                assert(255 * w * h <= 255 * 0x1_0000_0000_0000_0000) by (nonlinear_arith)
                    requires
                        w * h * 4 <= usize::MAX,
                        usize::MAX <= 0xffff_ffff_ffff_ffff,
                ;
            }
            let i = (y * w + x) * 4;
            sr = sr + img.pixels[i] as u128;
            sg = sg + img.pixels[i + 1] as u128;
            sb = sb + img.pixels[i + 2] as u128;
            sa = sa + img.pixels[i + 3] as u128;
            x = x + 1;
        }
        y = y + 1;
    }
    if x0 < x1 && y0 < y1 {
        proof {
            assert(1 <= (x1 - x0) * (y1 - y0) <= w * h) by (nonlinear_arith)
                requires
                    x0 < x1 <= w,
                    y0 < y1 <= h,
            ;
        }
        let count = ((x1 - x0) * (y1 - y0)) as u128;
        proof {
            lemma_rect_sum_bound(f@, x0 as int, x1 as int, y0 as int, y1 as int, 0);
            lemma_rect_sum_bound(f@, x0 as int, x1 as int, y0 as int, y1 as int, 1);
            lemma_rect_sum_bound(f@, x0 as int, x1 as int, y0 as int, y1 as int, 2);
            lemma_rect_sum_bound(f@, x0 as int, x1 as int, y0 as int, y1 as int, 3);
            lemma_mean_fits(sr as nat, count as nat);
            lemma_mean_fits(sg as nat, count as nat);
            lemma_mean_fits(sb as nat, count as nat);
            lemma_mean_fits(sa as nat, count as nat);
        }
        Color {
            r: (sr / count) as u8,
            g: (sg / count) as u8,
            b: (sb / count) as u8,
            a: (sa / count) as u8,
        }
    } else {
        Color { r: 0, g: 0, b: 0, a: 255 }
    }
}

proof fn lemma_mean_fits(s: nat, n: nat)
    requires
        n >= 1,
        s <= 255 * n,
    ensures
        s / n <= 255,
{
    assert(s / n <= 255) by (nonlinear_arith)
        requires
            n >= 1,
            s <= 255 * n,
    ;
}

/// Relies on rayon: `collect` of an indexed parallel iterator into a `Vec`
/// keeps the items in index order, whatever thread computed each one. Item
/// `idx` is `average_block(img, b, blocks_x, idx)`.
#[verifier::external_body]
fn par_block_colors(img: &Raster, b: usize, blocks_x: usize, n: usize) -> (r: Vec<Color>)
    requires
        img.wf(),
        b >= 1,
        blocks_x == blocks_along(img.width as nat, b as nat),
        n == blocks_x * blocks_along(img.height as nat, b as nat),
    ensures
        r@.len() == n,
        forall|i: int| 0 <= i < n ==> #[trigger] r@[i] == block_color(img@, b as nat, i as nat),
{
    (0..n).into_par_iter().map(|idx| average_block(img, b, blocks_x, idx)).collect()
}

/// BlockAverager: the average colour of every block of side `max(block, 1)`,
/// in row-major block order, with the grid's width and height in blocks.
pub fn average_blocks(img: &Raster, block: u32) -> (r: (Vec<Color>, usize, usize))
    requires
        img.wf(),
    ensures
        r.1 == blocks_along(img.width as nat, side(block)),
        r.2 == blocks_along(img.height as nat, side(block)),
        r.0@ == block_table(img@, side(block)),
{
    let b: usize = if block == 0 { 1 } else { block as usize };
    let w = img.width as usize;
    let h = img.height as usize;
    let len = img.pixels.len();
    let blocks_x = ((img.width as u64 + (b as u64 - 1)) / b as u64) as usize;
    let blocks_y = ((img.height as u64 + (b as u64 - 1)) / b as u64) as usize;
    proof {
        lemma_blocks_along(w as nat, b as nat);
        lemma_blocks_along(h as nat, b as nat);
        assert(blocks_x * blocks_y <= w * h) by (nonlinear_arith)
            requires
                blocks_x <= w,
                blocks_y <= h,
        ;
        assert(w * h <= len);
    }
    let colors = par_block_colors(img, b, blocks_x, blocks_x * blocks_y);
    assert(colors@ =~= block_table(img@, b as nat));
    (colors, blocks_x, blocks_y)
}

/// The block side that a requested size gives: at least one pixel.
pub open spec fn side(block: u32) -> nat {
    if block == 0 {
        1
    } else {
        block as nat
    }
}

/// Writes row `y` of the mosaic into `row`, four bytes per pixel.
pub fn fill_row(row: &mut [u8], y: usize, colors: &Vec<Color>, blocks_x: usize, width: usize, b: usize)
    requires
        b >= 1,
        old(row)@.len() == width * 4,
        width >= 1,
        (y / b) * blocks_x + (width - 1) / (b as int) < colors@.len(),
    ensures
        final(row)@ == expand_row(colors@, blocks_x as nat, width as nat, b as nat, y as nat),
{
    let ghost n = colors@.len();
    assert(colors.len() == n);
    assert(row.len() == width * 4);
    let start = y / b * blocks_x;
    let mut x: usize = 0;
    while x < width
        invariant
            b >= 1,
            row@.len() == width * 4,
            width * 4 <= usize::MAX,
            colors@.len() <= usize::MAX,
            start == (y / b) * blocks_x,
            start + (width - 1) / (b as int) < colors@.len(),
            x <= width,
            forall|j: int|
                0 <= j < x * 4 ==> #[trigger] row@[j] == expand_row(
                    colors@,
                    blocks_x as nat,
                    width as nat,
                    b as nat,
                    y as nat,
                )[j],
        decreases width - x,
    {
        proof {
            assert(x / b <= (width - 1) / (b as int)) by (nonlinear_arith)
                requires
                    x < width,
                    b >= 1,
            ;
        }
        let color = colors[start + x / b];
        let i = x * 4;
        row[i] = color.r;
        row[i + 1] = color.g;
        row[i + 2] = color.b;
        row[i + 3] = color.a;
        proof {
            assert forall|j: int| i <= j < i + 4 implies (j / 4 == x as int && #[trigger] (j % 4)
                == j - i) by {}
        }
        x = x + 1;
    }
    assert(row@ =~= expand_row(colors@, blocks_x as nat, width as nat, b as nat, y as nat));
}

/// Relies on rayon: `par_chunks_exact_mut(row_len)` cuts the buffer into
/// its consecutive rows and `enumerate` numbers them from 0; each row `y` is
/// filled by `fill_row`, and no two rows share a byte.
#[verifier::external_body]
fn par_fill_rows(buffer: &mut Vec<u8>, colors: &Vec<Color>, blocks_x: usize, width: usize, height: usize, b: usize, row_len: usize)
    requires
        b >= 1,
        width >= 1,
        row_len == width * 4,
        old(buffer)@.len() == width * height * 4,
        height == 0 || ((height - 1) / (b as int)) * blocks_x + (width - 1) / (b as int) < colors@.len(),
    ensures
        final(buffer)@ == expand(colors@, blocks_x as nat, width as nat, height as nat, b as nat),
{
    buffer.par_chunks_exact_mut(row_len).enumerate().for_each(
        |(y, row)| fill_row(row, y, colors, blocks_x, width, b),
    );
}

/// MosaicReconstructor: a `width x height` buffer in which every pixel
/// takes the colour of its block from the table.
pub fn reconstruct(colors: &Vec<Color>, blocks_x: usize, width: u32, height: u32, block: u32) -> (r: Vec<u8>)
    requires
        width * height * 4 <= usize::MAX,
        blocks_x == blocks_along(width as nat, side(block)),
        colors@.len() == blocks_x * blocks_along(height as nat, side(block)),
    ensures
        r@ == expand(colors@, blocks_x as nat, width as nat, height as nat, side(block)),
{
    let b: usize = if block == 0 { 1 } else { block as usize };
    let w = width as usize;
    let h = height as usize;
    let mut buffer: Vec<u8> = vec![0u8; w * h * 4];
    if w == 0 || h == 0 {
        assert(w * h * 4 == 0) by (nonlinear_arith)
            requires
                w == 0 || h == 0,
        ;
        assert(buffer@ =~= expand(colors@, blocks_x as nat, w as nat, h as nat, b as nat));
        return buffer;
    }
    proof {
        if h > 0 {
            let nby = blocks_along(h as nat, b as nat);
            lemma_blocks_along(w as nat, b as nat);
            lemma_blocks_along(h as nat, b as nat);
            lemma_last_block(w as nat, b as nat);
            lemma_last_block(h as nat, b as nat);
            assert(((h - 1) / b as int) * blocks_x + (w - 1) / (b as int) < blocks_x * nby) by (nonlinear_arith)
                requires
                    (h - 1) / b as int <= nby - 1,
                    (w - 1) / b as int <= blocks_x - 1,
                    nby >= 1,
            ;
        }
    }
    proof {
        assert(w * 4 <= w * h * 4) by (nonlinear_arith)
            requires
                h >= 1,
        ;
    }
    par_fill_rows(&mut buffer, colors, blocks_x, w, h, b, w * 4);
    buffer
}

/// The block grid along an axis has at least one cell for a non-empty axis,
/// and no more cells than the axis has pixels.
proof fn lemma_blocks_along(n: nat, b: nat)
    requires
        b >= 1,
    ensures
        blocks_along(n, b) <= n,
        n >= 1 ==> blocks_along(n, b) >= 1,
{
    assert((n + b - 1) / b as int <= n) by (nonlinear_arith)
        requires
            b >= 1,
    ;
    if n >= 1 {
        assert((n + b - 1) / b as int >= 1) by (nonlinear_arith)
            requires
                b >= 1,
                n >= 1,
        ;
    }
}

/// The last pixel of an axis lies in the last block.
proof fn lemma_last_block(n: nat, b: nat)
    requires
        n >= 1,
        b >= 1,
    ensures
        (n - 1) / b as int <= blocks_along(n, b) - 1,
{
    assert((n - 1) / b as int + 1 <= (n + b - 1) / b as int) by (nonlinear_arith)
        requires
            n >= 1,
            b >= 1,
    ;
}

/// Pixelation: the image at its own size, every pixel replaced by the
/// average colour of its block of side `max(block, 1)`.
pub fn pixelate(img: &Raster, block: u32) -> (r: Raster)
    requires
        img.wf(),
    ensures
        r.wf(),
        r.width == img.width,
        r.height == img.height,
        r.pixels@ == mosaic(img@, side(block)),
{
    let ghost len = img.pixels@.len();
    assert(img.pixels.len() == len);
    let (colors, blocks_x, _blocks_y) = average_blocks(img, block);
    let pixels = reconstruct(&colors, blocks_x, img.width, img.height, block);
    Raster { width: img.width, height: img.height, pixels }
}

} // verus!
