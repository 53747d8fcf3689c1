use vstd::prelude::*;
use crate::error::LowresError;

verus! {

/// How the output size follows from a partial width and height.
#[derive(Clone, Copy, Debug, PartialEq, Eq, Structural)]
pub enum ResizeMode {
    /// If one of width/height is missing, preserve aspect. If both provided, use them.
    Auto,
    /// Force exact width×height (may distort); both required.
    Exact,
}

impl ResizeMode {
    /// The mode's name as written on a command line.
    pub fn name(&self) -> (r: &'static str)
        ensures
            *self == ResizeMode::Auto ==> r@ == "auto"@,
            *self == ResizeMode::Exact ==> r@ == "exact"@,
    {
        match self {
            ResizeMode::Auto => "auto",
            ResizeMode::Exact => "exact",
        }
    }
}

/// The side used when neither width nor height is requested.
pub const DEFAULT_SIDE: u32 = 64;

/// `other * given / base`, rounded to the nearest integer with halves going
/// up, at least 1, and capped at the largest `u32`.
pub open spec fn scaled_side(other: nat, given: nat, base: nat) -> nat
    recommends
        base >= 1,
{
    let q = (2 * (other * given) + base) / (2 * base);
    if q < 1 {
        1
    } else if q > u32::MAX {
        u32::MAX as nat
    } else {
        q
    }
}

/// `scaled_side` computed without overflow.
fn scale_side(other: u32, given: u32, base: u32) -> (r: u32)
    requires
        base >= 1,
    ensures
        r == scaled_side(other as nat, given as nat, base as nat),
{
    assert(other * given <= 0xffff_ffff_ffff_ffff) by (nonlinear_arith)
        requires
            other <= u32::MAX,
            given <= u32::MAX,
    ;
    let prod: u128 = other as u128 * given as u128;
    let num: u128 = 2 * prod + base as u128;
    let q: u128 = num / (2 * base as u128);
    if q < 1 {
        1
    } else if q > u32::MAX as u128 {
        u32::MAX
    } else {
        q as u32
    }
}

/// The output size for an image of `orig_w x orig_h` from the requested
/// width and height; `None` where the ratio would divide by a zero side.
pub open spec fn resolved_size(orig_w: u32, orig_h: u32, width: Option<u32>, height: Option<u32>) -> Option<(u32, u32)> {
    match (width, height) {
        (Some(w), Some(h)) => Some((w, h)),
        (Some(w), None) => if orig_w == 0 {
            None
        } else {
            Some((w, scaled_side(orig_h as nat, w as nat, orig_w as nat) as u32))
        },
        (None, Some(h)) => if orig_h == 0 {
            None
        } else {
            Some((scaled_side(orig_w as nat, h as nat, orig_h as nat) as u32, h))
        },
        (None, None) => Some((DEFAULT_SIDE, DEFAULT_SIDE)),
    }
}

/// SizeResolver: both sides given are taken as they are, in either mode;
/// one side given fixes the other by the aspect ratio; none gives 64 x 64.
/// A zero original side that the ratio would divide by is an error.
pub fn resolve(orig_w: u32, orig_h: u32, width: Option<u32>, height: Option<u32>, mode: ResizeMode) -> (r: Result<(u32, u32), LowresError>)
    ensures
        match resolved_size(orig_w, orig_h, width, height) {
            Some(size) => r == Ok::<(u32, u32), LowresError>(size),
            None => r == Err::<(u32, u32), LowresError>(LowresError::ZeroDimension),
        },
{
    match (width, height) {
        (Some(w), Some(h)) => Ok((w, h)),
        (Some(w), None) => {
            if orig_w == 0 {
                Err(LowresError::ZeroDimension)
            } else {
                Ok((w, scale_side(orig_h, w, orig_w)))
            }
        },
        (None, Some(h)) => {
            if orig_h == 0 {
                Err(LowresError::ZeroDimension)
            } else {
                Ok((scale_side(orig_w, h, orig_h), h))
            }
        },
        (None, None) => Ok((DEFAULT_SIDE, DEFAULT_SIDE)),
    }
}

/// Asking for the width alone keeps the aspect ratio to within one pixel:
/// the derived height differs from `orig_h * width / orig_w` by at most 1,
/// as long as that ratio fits in a `u32`.
pub proof fn lemma_width_keeps_aspect(orig_w: u32, orig_h: u32, width: u32)
    requires
        orig_w >= 1,
        orig_h * width <= u32::MAX * orig_w,
    ensures
        ({
            let h = scaled_side(orig_h as nat, width as nat, orig_w as nat);
            &&& h >= 1
            &&& orig_h * width - orig_w <= h * orig_w <= orig_h * width + orig_w
        }),
{
    lemma_scaled_side_close(orig_h as nat, width as nat, orig_w as nat);
}

/// Asking for the height alone keeps the aspect ratio to within one pixel,
/// as long as the ratio fits in a `u32`.
pub proof fn lemma_height_keeps_aspect(orig_w: u32, orig_h: u32, height: u32)
    requires
        orig_h >= 1,
        orig_w * height <= u32::MAX * orig_h,
    ensures
        ({
            let w = scaled_side(orig_w as nat, height as nat, orig_h as nat);
            &&& w >= 1
            &&& orig_w * height - orig_h <= w * orig_h <= orig_w * height + orig_h
        }),
{
    lemma_scaled_side_close(orig_w as nat, height as nat, orig_h as nat);
}

proof fn lemma_scaled_side_close(other: nat, given: nat, base: nat)
    requires
        base >= 1,
        other * given <= u32::MAX * base,
    ensures
        scaled_side(other, given, base) >= 1,
        other * given - base <= scaled_side(other, given, base) * base <= other * given + base,
{
    let a = other * given;
    let q = (2 * a + base) / (2 * base);
    assert(2 * base * q <= 2 * a + base < 2 * base * q + 2 * base) by (nonlinear_arith)
        requires
            q == (2 * a + base) / (2 * base),
            base >= 1,
    ;
    assert(q <= u32::MAX) by (nonlinear_arith)
        requires
            2 * base * q <= 2 * a + base,
            a <= u32::MAX * base,
            base >= 1,
    ;
    assert(a - base <= q * base <= a + base) by (nonlinear_arith)
        requires
            2 * base * q <= 2 * a + base < 2 * base * q + 2 * base,
            base >= 1,
    ;
    if q < 1 {
        assert(a - base <= base) by (nonlinear_arith)
            requires
                q == 0,
                2 * base * q <= 2 * a + base < 2 * base * q + 2 * base,
        ;
    }
}

} // verus!
