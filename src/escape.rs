//! The escape-time kernel, its colour map, and the per-pixel evaluation of the
//! full-size exported pictures.
//!
//! The orbit `z -> z^2 + c` is iterated in fixed point: each product is
//! rounded toward zero to the scale of [`ONE`], so that mirrored points (the
//! complex conjugates) get the same depth. The depth is the number of steps
//! taken before `|z|^2` exceeds 4, or the budget when that never happens.

use vstd::prelude::*;
use crate::fixed::ONE;

verus! {

/// Largest magnitude of a coordinate of `c` or of the starting `z`, 2^21.
pub const MAX_KERNEL_COORD: i64 = 2305843009213693952;

/// Side of the square tile of pixels evaluated by one GPU workgroup.
pub const TILE: u32 = 8;

/// Width of an exported picture, in pixels.
pub const IMAGE_W: u32 = 4096;

/// Height of an exported picture, in pixels.
pub const IMAGE_H: u32 = 2160;

/// Largest magnitude of the pixel spacing of an exported Mandelbrot picture,
/// 512.0.
pub const MAX_SPACING: i64 = 562949953421312;

/// Pixel spacing of an exported Julia picture: 3.0 over the picture height.
pub const JULIA_SPACING: i64 = 1527099483;

/// Colour of a point of the Mandelbrot set.
pub const MANDELBROT_IN_SET: (u8, u8, u8) = (0, 0, 0);

/// Colour of a point of a Julia set.
pub const JULIA_IN_SET: (u8, u8, u8) = (255, 255, 255);

/// `|z|^2 > 4`, for `z` in fixed point.
pub open spec fn escaped(zr: int, zi: int) -> bool {
    zr * zr + zi * zi > 4 * ONE * ONE
}

/// `x / ONE`, rounded toward zero.
pub open spec fn scale_down(x: int) -> int {
    if x >= 0 {
        x / (ONE as int)
    } else {
        -((-x) / (ONE as int))
    }
}

/// Real part of `z^2 + c`, products rounded toward zero.
pub open spec fn next_re(cr: int, zr: int, zi: int) -> int {
    scale_down(zr * zr) - scale_down(zi * zi) + cr
}

/// Imaginary part of `z^2 + c`, products rounded toward zero.
pub open spec fn next_im(ci: int, zr: int, zi: int) -> int {
    scale_down(2 * zr * zi) + ci
}

/// The depth reached from `z` at step `depth` with budget `max`.
pub open spec fn escape_from(cr: int, ci: int, zr: int, zi: int, depth: int, max: int) -> int
    decreases max - depth,
{
    if depth >= max || escaped(zr, zi) {
        depth
    } else {
        escape_from(cr, ci, next_re(cr, zr, zi), next_im(ci, zr, zi), depth + 1, max)
    }
}

/// The escape depth of the orbit of `z` under `z -> z^2 + c`, within budget `max`.
pub open spec fn escape_depth_spec(cr: int, ci: int, zr: int, zi: int, max: int) -> int {
    escape_from(cr, ci, zr, zi, 0, max)
}

/// Colour of a pixel whose orbit reached `depth` of `budget`: `in_set` at the
/// budget, else a green-blue gradient in `depth / budget`.
pub open spec fn color_spec(depth: int, budget: int, in_set: (u8, u8, u8)) -> (u8, u8, u8) {
    if depth >= budget {
        in_set
    } else {
        (0u8, (255 * depth / budget) as u8, (153 * depth / budget) as u8)
    }
}

/// Plane coordinates of pixel `(x, y)` of an exported picture with the given
/// centre and spacing; row 0 is the top.
pub open spec fn image_re(center: int, spacing: int, x: int) -> int {
    center + (x - IMAGE_W / 2) * spacing
}

/// See [`image_re`].
pub open spec fn image_im(center: int, spacing: int, y: int) -> int {
    center + (IMAGE_H / 2 - 1 - y) * spacing
}

/// For a positive spacing, the pixel of an exported picture is recovered from
/// its plane point: the map from pixels to plane points is invertible.
pub proof fn lemma_image_map_invertible(center: int, spacing: int, x: int, y: int)
    requires
        spacing > 0,
    ensures
        (image_re(center, spacing, x) - center) / spacing + IMAGE_W / 2 == x,
        IMAGE_H / 2 - 1 - (image_im(center, spacing, y) - center) / spacing == y,
{
    let kx = x - IMAGE_W / 2;
    let ky = IMAGE_H / 2 - 1 - y;
    vstd::arithmetic::div_mod::lemma_fundamental_div_mod_converse(kx * spacing, spacing, kx, 0);
    vstd::arithmetic::div_mod::lemma_fundamental_div_mod_converse(ky * spacing, spacing, ky, 0);
}

/// A coordinate that the kernel can iterate without overflow.
pub open spec fn in_kernel_range(v: int) -> bool {
    -MAX_KERNEL_COORD <= v <= MAX_KERNEL_COORD
}

/// A point that has escaped at step 0 has depth 0; the orbit of 0 under
/// `c = 0` never escapes and uses the whole budget.
pub proof fn lemma_escape_boundary(cr: int, ci: int, zr: int, zi: int, max: int)
    requires
        0 <= max,
    ensures
        escaped(zr, zi) ==> escape_depth_spec(cr, ci, zr, zi, max) == 0,
        escape_depth_spec(0, 0, 0, 0, max) == max,
{
    lemma_origin_stays(0, max);
}

proof fn lemma_origin_stays(depth: int, max: int)
    requires
        0 <= depth <= max,
    ensures
        escape_from(0, 0, 0, 0, depth, max) == max,
    decreases max - depth,
{
    if depth < max {
        assert(next_re(0, 0, 0) == 0 && next_im(0, 0, 0) == 0);
        lemma_origin_stays(depth + 1, max);
    }
}

/// `x / ONE`, rounded toward zero.
fn scale_down_exec(x: i128) -> (r: i128)
    requires
        -8 * ONE * ONE <= x <= 8 * ONE * ONE,
    ensures
        r as int == scale_down(x as int),
        -8 * ONE <= r <= 8 * ONE,
        0 <= x <= 4 * ONE * ONE ==> 0 <= r <= 4 * ONE,
{
    let one = ONE as i128;
    if x >= 0 {
        proof {
            vstd::arithmetic::div_mod::lemma_div_is_ordered(0, x as int, ONE as int);
            vstd::arithmetic::div_mod::lemma_div_is_ordered(x as int, 8 * ONE * ONE, ONE as int);
            if x <= 4 * ONE * ONE {
                vstd::arithmetic::div_mod::lemma_div_is_ordered(x as int, 4 * ONE * ONE, ONE as int);
            }
        }
        x / one
    } else {
        proof {
            vstd::arithmetic::div_mod::lemma_div_is_ordered(0, -x, ONE as int);
            vstd::arithmetic::div_mod::lemma_div_is_ordered(-x, 8 * ONE * ONE, ONE as int);
        }
        -((-x) / one)
    }
}

/// Conjugating `z` and `c` from step `depth` on leaves the depth unchanged.
proof fn lemma_conjugate_from(cr: int, ci: int, zr: int, zi: int, depth: int, max: int)
    ensures
        escape_from(cr, -ci, zr, -zi, depth, max) == escape_from(cr, ci, zr, zi, depth, max),
    decreases max - depth,
{
    assert((-zi) * (-zi) == zi * zi) by (nonlinear_arith);
    assert(2 * zr * (-zi) == -(2 * zr * zi)) by (nonlinear_arith);
    if depth < max && !escaped(zr, zi) {
        lemma_conjugate_from(
            cr,
            ci,
            next_re(cr, zr, zi),
            next_im(ci, zr, zi),
            depth + 1,
            max,
        );
    }
}

/// Mirrored points escape alike: negating the imaginary parts of both `c` and
/// the starting `z` leaves the escape depth unchanged, as does negating the
/// starting `z`.
pub proof fn lemma_escape_conjugate(cr: int, ci: int, zr: int, zi: int, max: int)
    ensures
        escape_depth_spec(cr, -ci, zr, -zi, max) == escape_depth_spec(cr, ci, zr, zi, max),
        escape_depth_spec(cr, ci, -zr, -zi, max) == escape_depth_spec(cr, ci, zr, zi, max),
{
    lemma_conjugate_from(cr, ci, zr, zi, 0, max);
    assert((-zr) * (-zr) == zr * zr) by (nonlinear_arith);
    assert((-zi) * (-zi) == zi * zi) by (nonlinear_arith);
    assert(2 * (-zr) * (-zi) == 2 * zr * zi) by (nonlinear_arith);
}

/// `|v| <= 2 * ONE` whenever `v^2 <= 4 * ONE^2`.
proof fn lemma_square_bound(v: int, s: int)
    requires
        v * v <= 4 * ONE * ONE - s,
        s >= 0,
    ensures
        -2 * ONE <= v <= 2 * ONE,
{
    if v > 2 * ONE {
        assert(v * v > 4 * ONE * ONE) by (nonlinear_arith)
            requires
                v > 2 * ONE,
        ;
    }
    if v < -2 * ONE {
        assert(v * v > 4 * ONE * ONE) by (nonlinear_arith)
            requires
                v < -2 * ONE,
        ;
    }
}

/// Escape depth of the orbit of `(zr, zi)` under `z -> z^2 + (cr, ci)`, at
/// most `max_iterations`.
pub fn escape_depth(cr: i64, ci: i64, zr: i64, zi: i64, max_iterations: u32) -> (r: u32)
    requires
        in_kernel_range(cr as int),
        in_kernel_range(ci as int),
        in_kernel_range(zr as int),
        in_kernel_range(zi as int),
    ensures
        r == escape_depth_spec(cr as int, ci as int, zr as int, zi as int, max_iterations as int),
        r <= max_iterations,
{
    let bound: i128 = 4611686018427387904;
    let four: i128 = 4 * (ONE as i128) * (ONE as i128);
    let mut a: i128 = zr as i128;
    let mut b: i128 = zi as i128;
    let mut depth: u32 = 0;
    while depth < max_iterations
        invariant
            -bound <= a <= bound,
            -bound <= b <= bound,
            bound == 4611686018427387904,
            four == 4 * ONE * ONE,
            depth <= max_iterations,
            in_kernel_range(cr as int),
            in_kernel_range(ci as int),
            escape_from(cr as int, ci as int, a as int, b as int, depth as int, max_iterations as int)
                == escape_depth_spec(
                cr as int,
                ci as int,
                zr as int,
                zi as int,
                max_iterations as int,
            ),
        decreases max_iterations - depth,
    {
        proof {
            crate::arith::lemma_square_le(a as int, bound as int);
            crate::arith::lemma_square_le(b as int, bound as int);
        }
        let aa = a * a;
        let bb = b * b;
        if aa + bb > four {
            return depth;
        }
        proof {
            assert(aa >= 0 && bb >= 0) by (nonlinear_arith)
                requires
                    aa == a * a,
                    bb == b * b,
            ;
            lemma_square_bound(a as int, bb as int);
            lemma_square_bound(b as int, aa as int);
            assert(-8 * ONE * ONE <= 2 * a * b <= 8 * ONE * ONE) by (nonlinear_arith)
                requires
                    -2 * ONE <= a <= 2 * ONE,
                    -2 * ONE <= b <= 2 * ONE,
            ;
        }
        let ab2 = 2 * a * b;
        let sa = scale_down_exec(aa);
        let sb = scale_down_exec(bb);
        let sab = scale_down_exec(ab2);
        a = sa - sb + (cr as i128);
        b = sab + (ci as i128);
        depth = depth + 1;
    }
    depth
}

/// Colour of a pixel whose orbit reached `depth` with budget `budget`.
pub fn depth_color(depth: u32, budget: u32, in_set: (u8, u8, u8)) -> (r: (u8, u8, u8))
    ensures
        r == color_spec(depth as int, budget as int, in_set),
{
    if depth >= budget {
        in_set
    } else {
        proof {
            crate::arith::lemma_scaled_within(depth as int, 255, budget as int);
            crate::arith::lemma_scaled_within(depth as int, 153, budget as int);
            assert(depth * 255 == 255 * depth);
            assert(depth * 153 == 153 * depth);
        }
        let g = (255u64 * (depth as u64) / (budget as u64)) as u8;
        let b = (153u64 * (depth as u64) / (budget as u64)) as u8;
        (0u8, g, b)
    }
}

/// Number of tiles needed to cover `pixels` pixels along one axis: the last
/// tile may be only partly inside.
pub fn workgroup_count(pixels: u32) -> (r: u32)
    ensures
        r as int == (pixels as int + TILE - 1) / (TILE as int),
        r * TILE >= pixels,
        r == 0 || (r - 1) * TILE < pixels,
{
    let r = pixels / TILE + if pixels % TILE == 0 { 0 } else { 1 };
    r
}

/// Colour of pixel `(x, y)` of an exported Mandelbrot picture centred on
/// `(center_re, center_im)` with `spacing` between pixels: the orbit starts at
/// the pixel's own point `c`.
pub fn mandelbrot_pixel(
    max_iterations: u32,
    center_re: i64,
    center_im: i64,
    spacing: i64,
    x: u32,
    y: u32,
) -> (r: (u8, u8, u8))
    requires
        -crate::view::MAX_COORD <= center_re <= crate::view::MAX_COORD,
        -crate::view::MAX_COORD <= center_im <= crate::view::MAX_COORD,
        -MAX_SPACING <= spacing <= MAX_SPACING,
        x < IMAGE_W,
        y < IMAGE_H,
    ensures
        ({
            let cr = image_re(center_re as int, spacing as int, x as int);
            let ci = image_im(center_im as int, spacing as int, y as int);
            r == color_spec(
                escape_depth_spec(cr, ci, cr, ci, max_iterations as int),
                max_iterations as int,
                MANDELBROT_IN_SET,
            )
        }),
{
    let dx = (x as i64) - (IMAGE_W / 2) as i64;
    let dy = (IMAGE_H / 2 - 1) as i64 - (y as i64);
    proof {
        assert(-2048 * MAX_SPACING <= dx * spacing <= 2048 * MAX_SPACING) by (nonlinear_arith)
            requires
                -2048 <= dx <= 2048,
                -MAX_SPACING <= spacing <= MAX_SPACING,
        ;
        assert(-2048 * MAX_SPACING <= dy * spacing <= 2048 * MAX_SPACING) by (nonlinear_arith)
            requires
                -2048 <= dy <= 2048,
                -MAX_SPACING <= spacing <= MAX_SPACING,
        ;
    }
    let cr = center_re + dx * spacing;
    let ci = center_im + dy * spacing;
    let depth = escape_depth(cr, ci, cr, ci, max_iterations);
    depth_color(depth, max_iterations, MANDELBROT_IN_SET)
}

/// Colour of pixel `(x, y)` of an exported Julia picture for the constant
/// `(c_re, c_im)`: the orbit starts at the pixel's point.
pub fn julia_pixel(max_iterations: u32, c_re: i64, c_im: i64, x: u32, y: u32) -> (r: (u8, u8, u8))
    requires
        in_kernel_range(c_re as int),
        in_kernel_range(c_im as int),
        x < IMAGE_W,
        y < IMAGE_H,
    ensures
        ({
            let zr = image_re(0, JULIA_SPACING as int, x as int);
            let zi = image_im(0, JULIA_SPACING as int, y as int);
            r == color_spec(
                escape_depth_spec(c_re as int, c_im as int, zr, zi, max_iterations as int),
                max_iterations as int,
                JULIA_IN_SET,
            )
        }),
{
    let dx = (x as i64) - (IMAGE_W / 2) as i64;
    let dy = (IMAGE_H / 2 - 1) as i64 - (y as i64);
    assert(-2048 * JULIA_SPACING <= dx * JULIA_SPACING <= 2048 * JULIA_SPACING) by (nonlinear_arith)
        requires
            -2048 <= dx <= 2048,
    ;
    assert(-2048 * JULIA_SPACING <= dy * JULIA_SPACING <= 2048 * JULIA_SPACING) by (nonlinear_arith)
        requires
            -2048 <= dy <= 2048,
    ;
    let zr = dx * JULIA_SPACING;
    let zi = dy * JULIA_SPACING;
    let depth = escape_depth(c_re, c_im, zr, zi, max_iterations);
    depth_color(depth, max_iterations, JULIA_IN_SET)
}

} // verus!
