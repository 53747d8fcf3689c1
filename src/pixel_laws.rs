use vstd::prelude::*;
use vstd::arithmetic::div_mod::{
    lemma_div_is_ordered, lemma_div_multiples_vanish, lemma_fundamental_div_mod,
    lemma_fundamental_div_mod_converse, lemma_mod_pos_bound,
};
use crate::raster::{Color, Frame, lemma_pixel_index};
use crate::mosaic::{
    block_color, blocks_along, extent, mean_channel, mosaic, rect_sum, row_sum, side,
};

verus! {

/// Byte `i` of a `w`-wide frame is channel `i % 4` of pixel
/// `((i / 4) % w, (i / 4) / w)`.
proof fn lemma_byte_position(i: int, w: int, h: int)
    requires
        w >= 1,
        0 <= i < w * h * 4,
    ensures
        0 <= (i / 4) % w < w,
        0 <= (i / 4) / w < h,
        0 <= i % 4 < 4,
        (((i / 4) / w) * w + (i / 4) % w) * 4 + i % 4 == i,
{
    let p = i / 4;
    lemma_fundamental_div_mod(i, 4);
    lemma_fundamental_div_mod(p, w);
    let x = p % w;
    let y = p / w;
    assert(0 <= p < w * h) by (nonlinear_arith)
        requires
            i == 4 * p + i % 4,
            0 <= i % 4 < 4,
            0 <= i < w * h * 4,
    ;
    assert(0 <= y < h) by (nonlinear_arith)
        requires
            p == w * y + x,
            0 <= x < w,
            0 <= p < w * h,
    ;
}

/// Pixel coordinate `x` of an axis of length `n` lies in block `x / b`,
/// which is a cell of the grid and covers `x`.
proof fn lemma_block_covers(n: nat, b: nat, x: int)
    requires
        b >= 1,
        0 <= x < n,
    ensures
        0 <= x / (b as int) < blocks_along(n, b),
        extent(n, b, (x / (b as int)) as nat).0 <= x < extent(n, b, (x / (b as int)) as nat).1,
{
    let k = x / (b as int);
    lemma_fundamental_div_mod(x, b as int);
    lemma_mod_pos_bound(x, b as int);
    assert(k * b <= x < k * b + b) by (nonlinear_arith)
        requires
            x == b * k + x % (b as int),
            0 <= x % (b as int) < b,
    ;
    lemma_div_is_ordered(x, n - 1, b as int);
    assert((n - 1) / (b as int) + 1 <= (n + b - 1) / (b as int)) by (nonlinear_arith)
        requires
            n >= 1,
            b >= 1,
    ;
    assert(0 <= k) by (nonlinear_arith)
        requires
            x >= 0,
            b >= 1,
            k == x / (b as int),
    ;
}

/// The pixel at `(x, y)` takes, in the mosaic, the colour of the block that
/// covers it, whose extent holds the pixel.
proof fn lemma_pixel_block(f: Frame, b: nat, x: int, y: int)
    requires
        b >= 1,
        0 <= x < f.width,
        0 <= y < f.height,
    ensures
        ({
            let bx = blocks_along(f.width, b);
            let k = (y / (b as int)) * bx + x / (b as int);
            &&& 0 <= k < bx * blocks_along(f.height, b)
            &&& k % (bx as int) == x / (b as int)
            &&& k / (bx as int) == y / (b as int)
        }),
{
    let bx = blocks_along(f.width, b);
    let nby = blocks_along(f.height, b);
    lemma_block_covers(f.width, b, x);
    lemma_block_covers(f.height, b, y);
    let kx = x / (b as int);
    let ky = y / (b as int);
    let k = ky * bx + kx;
    lemma_fundamental_div_mod_converse(k, bx as int, ky, kx);
    assert(0 <= k < bx * nby) by (nonlinear_arith)
        requires
            0 <= kx < bx,
            0 <= ky < nby,
            k == ky * bx + kx,
    ;
}

proof fn lemma_row_sum_uniform(f: Frame, y: int, x0: int, x1: int, c: int, v: nat)
    requires
        0 <= x0 <= x1,
        forall|x: int| x0 <= x < x1 ==> #[trigger] f.at(x, y, c) as nat == v,
    ensures
        row_sum(f, y, x0, x1, c) == (x1 - x0) * v,
    decreases x1 - x0,
{
    if x0 < x1 {
        lemma_row_sum_uniform(f, y, x0, x1 - 1, c, v);
        assert(f.at(x1 - 1, y, c) as nat == v);
        assert(row_sum(f, y, x0, x1, c) == row_sum(f, y, x0, x1 - 1, c) + v);
        assert((x1 - 1 - x0) * v + v == (x1 - x0) * v) by (nonlinear_arith);
    } else {
        assert((x1 - x0) * v == 0) by (nonlinear_arith)
            requires
                x1 == x0,
        ;
    }
}

proof fn lemma_rect_sum_uniform(f: Frame, x0: int, x1: int, y0: int, y1: int, c: int, v: nat)
    requires
        0 <= x0 <= x1,
        0 <= y0 <= y1,
        forall|x: int, y: int|
            x0 <= x < x1 && y0 <= y < y1 ==> #[trigger] f.at(x, y, c) as nat == v,
    ensures
        rect_sum(f, x0, x1, y0, y1, c) == ((x1 - x0) * (y1 - y0)) * v,
    decreases y1 - y0,
{
    if y0 < y1 {
        lemma_rect_sum_uniform(f, x0, x1, y0, y1 - 1, c, v);
        assert forall|x: int| x0 <= x < x1 implies #[trigger] f.at(x, y1 - 1, c) as nat == v by {}
        lemma_row_sum_uniform(f, y1 - 1, x0, x1, c, v);
        assert(rect_sum(f, x0, x1, y0, y1, c) == rect_sum(f, x0, x1, y0, y1 - 1, c) + row_sum(
            f,
            y1 - 1,
            x0,
            x1,
            c,
        ));
        assert(((x1 - x0) * (y1 - 1 - y0)) * v + (x1 - x0) * v == ((x1 - x0) * (y1 - y0)) * v)
            by (nonlinear_arith);
    } else {
        assert(((x1 - x0) * (y1 - y0)) * v == 0) by (nonlinear_arith)
            requires
                y1 == y0,
        ;
    }
}

/// Every coordinate from the start of block `k` up to its clamped end lies
/// in block `k`.
proof fn lemma_in_block(n: nat, b: nat, k: nat, x: int)
    requires
        b >= 1,
        extent(n, b, k).0 <= x < extent(n, b, k).1,
    ensures
        x / (b as int) == k,
{
    lemma_fundamental_div_mod_converse(x, b as int, k as int, x - k * b);
}

/// Pixelating a frame that has one colour on each block of side
/// `max(block, 1)` gives the frame back unchanged: each block keeps its exact
/// colour, and the block edges stay at multiples of the side.
pub proof fn lemma_blockwise_round_trip(f: Frame, block: u32)
    requires
        f.wf(),
        forall|x: int, y: int, x2: int, y2: int, c: int|
            0 <= x < f.width && 0 <= y < f.height && 0 <= x2 < f.width && 0 <= y2 < f.height && 0
                <= c < 4 && x / (side(block) as int) == x2 / (side(block) as int) && y / (side(
                block,
            ) as int) == y2 / (side(block) as int) ==> #[trigger] f.at(x, y, c) == #[trigger] f.at(
                x2,
                y2,
                c,
            ),
    ensures
        mosaic(f, side(block)) == f.data,
{
    let b = side(block);
    let m = mosaic(f, b);
    assert forall|i: int| 0 <= i < f.data.len() implies m[i] == f.data[i] by {
        let w = f.width as int;
        lemma_byte_position(i, w, f.height as int);
        let x = (i / 4) % w;
        let y = (i / 4) / w;
        let c = i % 4;
        lemma_pixel_block(f, b, x, y);
        lemma_block_covers(f.width, b, x);
        lemma_block_covers(f.height, b, y);
        let kx = (x / (b as int)) as nat;
        let ky = (y / (b as int)) as nat;
        let (x0, x1) = extent(f.width, b, kx);
        let (y0, y1) = extent(f.height, b, ky);
        let v = f.at(x, y, c) as nat;
        assert forall|xx: int, yy: int|
            x0 <= xx < x1 && y0 <= yy < y1 implies #[trigger] f.at(xx, yy, c) as nat == v by {
            lemma_in_block(f.width, b, kx, xx);
            lemma_in_block(f.height, b, ky, yy);
            assert(f.at(xx, yy, c) == f.at(x, y, c));
        }
        lemma_rect_sum_uniform(f, x0 as int, x1 as int, y0 as int, y1 as int, c, v);
        let n: int = (x1 - x0) * (y1 - y0);
        assert(n > 0) by (nonlinear_arith)
            requires
                n == (x1 - x0) * (y1 - y0),
                x0 < x1,
                y0 < y1,
        ;
        lemma_div_multiples_vanish(v as int, n);
        assert(mean_channel(f, x0, x1, y0, y1, c) == f.at(x, y, c));
        let k = (y / (b as int)) * blocks_along(f.width, b) + x / (b as int);
        assert(block_color(f, b, k as nat).channel(c) == f.at(x, y, c));
        assert(f.data[i] == f.at(x, y, c));
        assert(m[i] == block_color(f, b, k as nat).channel(c));
    }
    assert(m =~= f.data);
}

/// Pixelating a frame whose pixels all have one colour gives the frame back
/// unchanged, for every block size: the mean of a constant is that constant.
pub proof fn lemma_uniform_round_trip(f: Frame, block: u32, color: Color)
    requires
        f.wf(),
        forall|x: int, y: int, c: int|
            0 <= x < f.width && 0 <= y < f.height && 0 <= c < 4 ==> #[trigger] f.at(x, y, c)
                == color.channel(c),
    ensures
        mosaic(f, side(block)) == f.data,
{
    lemma_blockwise_round_trip(f, block);
}

/// Along an axis whose length is not a multiple of the block side, the grid
/// has one block more than fit whole, and that last block is only
/// `n % b` pixels wide, ending at the edge.
pub proof fn lemma_narrow_last_block(n: nat, block: u32)
    requires
        n % side(block) != 0,
    ensures
        blocks_along(n, side(block)) == n / side(block) + 1,
        extent(n, side(block), (n / side(block)) as nat).0 == n - n % side(block),
        extent(n, side(block), (n / side(block)) as nat).1 == n,
{
    let b = side(block) as int;
    let q = n as int / b;
    let r = n as int % b;
    lemma_fundamental_div_mod(n as int, b);
    lemma_mod_pos_bound(n as int, b);
    assert(n + b - 1 == (q + 1) * b + (r - 1)) by (nonlinear_arith)
        requires
            n == b * q + r,
    ;
    lemma_fundamental_div_mod_converse(n + b - 1, b, q + 1, r - 1);
    assert(q * b == b * q) by (nonlinear_arith);
}

/// The mean of channel `c` over the whole frame.
pub open spec fn frame_mean(f: Frame, c: int) -> u8 {
    mean_channel(f, 0, f.width, 0, f.height, c)
}

/// With a block at least as large as both sides of the frame, the mosaic is
/// one colour: the mean of the whole frame.
pub proof fn lemma_single_block(f: Frame, block: u32)
    requires
        f.wf(),
        f.width >= 1,
        f.height >= 1,
        block >= f.width,
        block >= f.height,
    ensures
        blocks_along(f.width, side(block)) == 1,
        blocks_along(f.height, side(block)) == 1,
        forall|i: int| 0 <= i < f.data.len() ==> #[trigger] mosaic(f, side(block))[i]
            == frame_mean(f, i % 4),
{
    let b = side(block);
    let w = f.width as int;
    let h = f.height as int;
    assert((w + b - 1) / (b as int) == 1) by (nonlinear_arith)
        requires
            1 <= w <= b,
    ;
    assert((h + b - 1) / (b as int) == 1) by (nonlinear_arith)
        requires
            1 <= h <= b,
    ;
    assert forall|i: int| 0 <= i < f.data.len() implies #[trigger] mosaic(f, b)[i] == frame_mean(
        f,
        i % 4,
    ) by {
        lemma_byte_position(i, w, h);
        let x = (i / 4) % w;
        let y = (i / 4) / w;
        assert(x / (b as int) == 0) by (nonlinear_arith)
            requires
                0 <= x < w <= b,
        ;
        assert(y / (b as int) == 0) by (nonlinear_arith)
            requires
                0 <= y < h <= b,
        ;
        assert(extent(f.width, b, 0) == (0nat, f.width));
        assert(extent(f.height, b, 0) == (0nat, f.height));
        assert(block_color(f, b, 0).channel(i % 4) == frame_mean(f, i % 4));
    }
}

/// Pixelation is a function of the frame and the block size: two runs on
/// the same input give identical bytes, whatever order the blocks and rows
/// were computed in.
pub proof fn lemma_pixelate_deterministic(f: Frame, block: u32, first: Seq<u8>, second: Seq<u8>)
    requires
        first == mosaic(f, side(block)),
        second == mosaic(f, side(block)),
    ensures
        first == second,
{
}

/// Every pixel of the mosaic, whatever the frame's size, holds the
/// truncated mean of its block over the block's extent clamped to the frame;
/// where the width is not a multiple of the side, a pixel of the last block
/// column takes the mean over the narrow columns `w - w % b .. w`.
pub proof fn lemma_pixel_holds_block_mean(f: Frame, block: u32, x: int, y: int, c: int)
    requires
        f.wf(),
        0 <= x < f.width,
        0 <= y < f.height,
        0 <= c < 4,
    ensures
        ({
            let b = side(block);
            let (x0, x1) = extent(f.width, b, (x / (b as int)) as nat);
            let (y0, y1) = extent(f.height, b, (y / (b as int)) as nat);
            &&& mosaic(f, b)[(y * f.width + x) * 4 + c] == mean_channel(f, x0, x1, y0, y1, c)
            &&& (f.width % b != 0 && x / (b as int) == f.width / b ==> x0 == f.width - f.width % b
                && x1 == f.width)
        }),
{
    let b = side(block);
    let w = f.width as int;
    let p = y * w + x;
    let i = p * 4 + c;
    lemma_pixel_index(x, y, c, w, f.height as int);
    lemma_fundamental_div_mod_converse(i, 4, p, c);
    lemma_fundamental_div_mod_converse(p, w, y, x);
    lemma_pixel_block(f, b, x, y);
    let k = (y / (b as int)) * blocks_along(f.width, b) + x / (b as int);
    assert(mosaic(f, b)[i] == block_color(f, b, k as nat).channel(c));
    if f.width % b != 0 && x / (b as int) == f.width / b {
        lemma_narrow_last_block(f.width, block);
    }
}

} // verus!
