//! The view state: which region of the complex plane is shown, and with what
//! iteration budget.
//!
//! A viewport of `w` by `h` pixels shows the rectangle of the plane centred on
//! `(center_re, center_im)` that is `extent_x` wide and `extent_y` high. Pixel
//! rows grow downwards while the imaginary axis grows upwards. The height of
//! the rectangle is always derived from its width and the viewport's aspect
//! ratio, so the picture is never stretched.

use vstd::prelude::*;
use crate::arith::{lemma_product_bound, lemma_ratio_bounds, lemma_scale_round_trip, lemma_scaled_within};

verus! {

/// Largest viewport side, in pixels (the default two-dimensional texture limit
/// of the GPU back end).
pub const MAX_DIM: u32 = 8192;

/// Real part of the initial centre, -0.75.
pub const INITIAL_CENTER_RE: i64 = -824633720832;

/// Imaginary part of the initial centre, 0.0.
pub const INITIAL_CENTER_IM: i64 = 0;

/// Initial width of the shown region, 3.5.
pub const INITIAL_EXTENT_X: i64 = 3848290697216;

/// Smallest width of the shown region that a zoom may reach, about 6.2e-5.
/// Below it neighbouring pixels would no longer be told apart reliably.
pub const MIN_EXTENT_X: i64 = 68169720;

/// Largest width of the shown region, 32.0: a zoom out that would go wider
/// stops at it.
pub const MAX_EXTENT_X: i64 = 35184372088832;

/// Largest magnitude of either coordinate of the centre, 2^20: a zoom that
/// would move the centre further out stops at it.
pub const MAX_COORD: i64 = 1152921504606846976;

/// Iteration budget of the initial view.
pub const BASE_BUDGET: i32 = 500;

/// Smallest iteration budget.
pub const MIN_BUDGET: i32 = 128;

/// Largest iteration budget.
pub const MAX_BUDGET: i32 = 5000;

/// `BASE_BUDGET^3 * INITIAL_EXTENT_X`: a budget `b` is affordable at width `e`
/// when `b^3 * e` does not exceed it.
pub const BUDGET_SCALE: u128 = 481036337152000000000;

/// Zoom factor numerator and denominator of a left click (0.5).
pub const ZOOM_IN: (u16, u16) = (1, 2);

/// Zoom factor numerator and denominator of a right click (2.0).
pub const ZOOM_OUT: (u16, u16) = (2, 1);

/// Why a zoom was refused. The view is left as it was.
#[derive(Clone, Copy, Debug, PartialEq, Eq, Structural)]
pub enum ZoomError {
    /// Zooming in would make the region narrower than [`MIN_EXTENT_X`].
    PrecisionLimitReached,
}

/// The region of the plane on view and the iteration budget used for it.
#[derive(Clone, Copy, Debug, PartialEq, Eq, Structural)]
pub struct ViewState {
    pub center_re: i64,
    pub center_im: i64,
    pub extent_x: i64,
    pub extent_y: i64,
    pub iteration_budget: i32,
}

/// Real part of the plane point under pixel column `px` (of `w`), for a region
/// centred on `center` and `extent` wide.
pub open spec fn column_re(center: int, extent: int, px: int, w: int) -> int {
    center - extent / 2 + px * extent / w
}

/// Imaginary part of the plane point under pixel row `py` (of `h`), for a
/// region centred on `center` and `extent` high.
pub open spec fn row_im(center: int, extent: int, py: int, h: int) -> int {
    center + extent / 2 - py * extent / h
}

/// The pixel column whose plane point is `re`: the inverse of [`column_re`].
pub open spec fn column_of(center: int, extent: int, re: int, w: int) -> int {
    ((re - (center - extent / 2)) * w + extent - 1) / extent
}

/// The pixel row whose plane point is `im`: the inverse of [`row_im`].
pub open spec fn row_of(center: int, extent: int, im: int, h: int) -> int {
    (((center + extent / 2) - im) * h + extent - 1) / extent
}

/// Height of a region `extent_x` wide on a `w` by `h` viewport.
pub open spec fn derived_height(extent_x: int, w: int, h: int) -> int {
    extent_x * h / w
}

/// A budget `b` is affordable at width `e`: `b <= BASE_BUDGET * cbrt(INITIAL_EXTENT_X / e)`.
pub open spec fn fits_budget(b: int, e: int) -> bool {
    b * b * b * e <= BUDGET_SCALE
}

/// The largest affordable budget not above `b`, or `MIN_BUDGET` if none is.
pub open spec fn budget_search(b: int, e: int) -> int
    decreases b - MIN_BUDGET,
{
    if b <= MIN_BUDGET {
        MIN_BUDGET as int
    } else if fits_budget(b, e) {
        b
    } else {
        budget_search(b - 1, e)
    }
}

/// The iteration budget at width `e`: `BASE_BUDGET * (INITIAL_EXTENT_X / e)^(1/3)`,
/// rounded down and clamped to `[MIN_BUDGET, MAX_BUDGET]`.
pub open spec fn budget_of(e: int) -> int {
    budget_search(MAX_BUDGET as int, e)
}

/// A centre coordinate in the representable range.
pub open spec fn in_coord_range(c: int) -> bool {
    -MAX_COORD <= c <= MAX_COORD
}

/// `c` moved into the representable range.
pub open spec fn clamp_coord(c: int) -> int {
    if c < -MAX_COORD {
        -MAX_COORD as int
    } else if c > MAX_COORD {
        MAX_COORD as int
    } else {
        c
    }
}

/// A width no larger than [`MAX_EXTENT_X`].
pub open spec fn clamp_width(e: int) -> int {
    if e > MAX_EXTENT_X {
        MAX_EXTENT_X as int
    } else {
        e
    }
}

proof fn lemma_budget_search_range(b: int, e: int)
    requires
        b >= MIN_BUDGET,
    ensures
        MIN_BUDGET <= budget_search(b, e) <= b,
    decreases b - MIN_BUDGET,
{
    if b > MIN_BUDGET && !fits_budget(b, e) {
        lemma_budget_search_range(b - 1, e);
    }
}

proof fn lemma_budget_search_monotone(b: int, e1: int, e2: int)
    requires
        b >= MIN_BUDGET,
        0 < e1 <= e2,
    ensures
        budget_search(b, e2) <= budget_search(b, e1),
    decreases b - MIN_BUDGET,
{
    if b > MIN_BUDGET {
        if fits_budget(b, e2) {
            assert(b * b * b * e1 <= b * b * b * e2) by (nonlinear_arith)
                requires
                    b > 0,
                    e1 <= e2,
            ;
        } else {
            lemma_budget_search_monotone(b - 1, e1, e2);
            lemma_budget_search_range(b - 1, e1);
        }
    }
}

/// A narrower region never gets a smaller iteration budget: the budget is
/// non-decreasing as the width shrinks.
pub proof fn lemma_budget_monotone(e1: int, e2: int)
    requires
        0 < e1 <= e2,
    ensures
        budget_of(e2) <= budget_of(e1),
        MIN_BUDGET <= budget_of(e1) <= MAX_BUDGET,
{
    lemma_budget_search_monotone(MAX_BUDGET as int, e1, e2);
    lemma_budget_search_range(MAX_BUDGET as int, e1);
}

/// The iteration budget for a region `extent_x` wide (see [`budget_of`]).
pub fn iteration_budget_for(extent_x: i64) -> (r: i32)
    requires
        extent_x > 0,
    ensures
        r == budget_of(extent_x as int),
        MIN_BUDGET <= r <= MAX_BUDGET,
{
    let e = extent_x as u128;
    let mut b: i32 = MAX_BUDGET;
    while b > MIN_BUDGET
        invariant
            MIN_BUDGET <= b <= MAX_BUDGET,
            0 < e <= i64::MAX,
            e == extent_x,
            budget_search(b as int, e as int) == budget_of(e as int),
        decreases b,
    {
        let bb = b as u128;
        assert(bb * bb <= 25000000 && bb * bb * bb <= 125000000000 && bb * bb * bb * e
            <= 125000000000 * 9223372036854775807u128) by (nonlinear_arith)
            requires
                0 < bb <= 5000,
                0 < e <= 9223372036854775807u128,
        ;
        if bb * bb * bb * e <= BUDGET_SCALE {
            return b;
        }
        b = b - 1;
    }
    b
}

impl ViewState {
    /// The view is consistent with a `w` by `h` viewport.
    pub open spec fn wf(self, w: int, h: int) -> bool {
        &&& 1 <= w <= MAX_DIM
        &&& 1 <= h <= MAX_DIM
        &&& MIN_EXTENT_X <= self.extent_x <= MAX_EXTENT_X
        &&& self.extent_y == derived_height(self.extent_x as int, w, h)
        &&& in_coord_range(self.center_re as int)
        &&& in_coord_range(self.center_im as int)
        &&& self.iteration_budget == budget_of(self.extent_x as int)
    }

    /// Real part of the plane point under pixel column `px`.
    pub open spec fn re_at(self, px: int, w: int) -> int {
        column_re(self.center_re as int, self.extent_x as int, px, w)
    }

    /// Imaginary part of the plane point under pixel row `py`.
    pub open spec fn im_at(self, py: int, h: int) -> int {
        row_im(self.center_im as int, self.extent_y as int, py, h)
    }

    /// The starting view on a `w` by `h` viewport: centre (-0.75, 0), width
    /// 3.5, budget 500.
    pub open spec fn initial_spec(w: int, h: int) -> ViewState {
        ViewState {
            center_re: INITIAL_CENTER_RE,
            center_im: INITIAL_CENTER_IM,
            extent_x: INITIAL_EXTENT_X,
            extent_y: derived_height(INITIAL_EXTENT_X as int, w, h) as i64,
            iteration_budget: BASE_BUDGET,
        }
    }

    /// The starting view on a `width` by `height` viewport (see [`ViewState::initial_spec`]).
    pub fn initial(width: u32, height: u32) -> (r: ViewState)
        requires
            1 <= width <= MAX_DIM,
            1 <= height <= MAX_DIM,
        ensures
            r == ViewState::initial_spec(width as int, height as int),
            r.wf(width as int, height as int),
    {
        let extent_y = derive_height(INITIAL_EXTENT_X, width, height);
        let budget = iteration_budget_for(INITIAL_EXTENT_X);
        proof {
            assert forall|k: int| BASE_BUDGET < k <= MAX_BUDGET implies !fits_budget(
                k,
                INITIAL_EXTENT_X as int,
            ) by {
                assert(k * k >= 251001) by (nonlinear_arith)
                    requires
                        k >= 501,
                ;
                assert(k * k * k >= 125751501) by (nonlinear_arith)
                    requires
                        k >= 501,
                        k * k >= 251001,
                ;
                assert(k * k * k * INITIAL_EXTENT_X >= 125751501 * INITIAL_EXTENT_X) by (
                nonlinear_arith)
                    requires
                        k * k * k >= 125751501,
                ;
            }
            lemma_budget_not_above(MAX_BUDGET as int, BASE_BUDGET as int, INITIAL_EXTENT_X as int);
        }
        ViewState {
            center_re: INITIAL_CENTER_RE,
            center_im: INITIAL_CENTER_IM,
            extent_x: INITIAL_EXTENT_X,
            extent_y,
            iteration_budget: budget,
        }
    }
}

/// Searching down from `b` lands on `a` when `a` is affordable and no budget
/// above it, up to `b`, is.
proof fn lemma_budget_not_above(b: int, a: int, e: int)
    requires
        MIN_BUDGET < a <= b,
        fits_budget(a, e),
        forall|k: int| a < k <= b ==> !fits_budget(k, e),
    ensures
        budget_search(b, e) == a,
    decreases b - a,
{
    if b > a {
        lemma_budget_not_above(b - 1, a, e);
    }
}

/// The height of a region `extent_x` wide on a `width` by `height` viewport.
pub fn derive_height(extent_x: i64, width: u32, height: u32) -> (r: i64)
    requires
        MIN_EXTENT_X <= extent_x <= MAX_EXTENT_X,
        1 <= width <= MAX_DIM,
        1 <= height <= MAX_DIM,
    ensures
        r == derived_height(extent_x as int, width as int, height as int),
        height <= r <= (MAX_EXTENT_X as int) * (MAX_DIM as int),
{
    proof {
        lemma_ratio_bounds(extent_x as int, height as int, width as int);
        assert(extent_x * height <= (MAX_EXTENT_X as int) * (MAX_DIM as int)) by (nonlinear_arith)
            requires
                0 <= extent_x <= MAX_EXTENT_X,
                0 <= height <= MAX_DIM,
        ;
    }
    ((extent_x as u128) * (height as u128) / (width as u128)) as i64
}


impl ViewState {
    /// The width after zooming by `num / den`, before the clamp to [`MAX_EXTENT_X`].
    pub open spec fn scaled_width(self, num: int, den: int) -> int {
        self.extent_x * num / den
    }

    /// The centre that keeps the plane point under pixel `(px, py)` in place
    /// after zooming by `num / den`, before the clamp to the representable range.
    pub open spec fn anchored_center(self, px: int, py: int, w: int, h: int, num: int, den: int) -> (
        int,
        int,
    ) {
        let ex = clamp_width(self.scaled_width(num, den));
        let ey = derived_height(ex, w, h);
        (self.re_at(px, w) + ex / 2 - px * ex / w, self.im_at(py, h) - ey / 2 + py * ey / h)
    }

    /// The outcome of zooming by `num / den` about pixel `(px, py)`: refused
    /// only when zooming in would go below the precision floor; otherwise the
    /// width becomes `extent_x * num / den` (at most [`MAX_EXTENT_X`]), the
    /// height follows from the aspect ratio, and the centre is the one that
    /// keeps the plane point under the pixel in place, held in the
    /// representable range.
    pub open spec fn zoom_spec(self, px: int, py: int, w: int, h: int, num: int, den: int) -> Result<
        ViewState,
        ZoomError,
    > {
        let ex = clamp_width(self.scaled_width(num, den));
        let c = self.anchored_center(px, py, w, h, num, den);
        if num < den && self.scaled_width(num, den) < MIN_EXTENT_X {
            Err(ZoomError::PrecisionLimitReached)
        } else {
            Ok(
                ViewState {
                    center_re: clamp_coord(c.0) as i64,
                    center_im: clamp_coord(c.1) as i64,
                    extent_x: ex as i64,
                    extent_y: derived_height(ex, w, h) as i64,
                    iteration_budget: budget_of(ex) as i32,
                },
            )
        }
    }

    /// The plane point under pixel `(px, py)` of a `width` by `height` viewport.
    pub fn plane_point(&self, px: u32, py: u32, width: u32, height: u32) -> (r: (i64, i64))
        requires
            self.wf(width as int, height as int),
            px <= width,
            py <= height,
        ensures
            r.0 == self.re_at(px as int, width as int),
            r.1 == self.im_at(py as int, height as int),
            -MAX_COORD - MAX_EXTENT_X <= r.0 <= MAX_COORD + MAX_EXTENT_X,
            -MAX_COORD - MAX_EXTENT_X * MAX_DIM <= r.1 <= MAX_COORD + MAX_EXTENT_X * MAX_DIM,
    {
        proof {
            lemma_product_bound(px as int, self.extent_x as int, MAX_DIM as int, MAX_EXTENT_X as int);
            lemma_scaled_within(px as int, self.extent_x as int, width as int);
            lemma_scaled_within(py as int, self.extent_y as int, height as int);
            lemma_ratio_bounds(self.extent_x as int, height as int, width as int);
            assert(self.extent_x * height <= MAX_EXTENT_X * MAX_DIM) by (nonlinear_arith)
                requires
                    0 <= self.extent_x <= MAX_EXTENT_X,
                    0 <= height <= MAX_DIM,
            ;
            lemma_product_bound(py as int, self.extent_y as int, MAX_DIM as int, MAX_EXTENT_X * MAX_DIM);
        }
        let ox = ((px as u128) * (self.extent_x as u128) / (width as u128)) as i64;
        let oy = ((py as u128) * (self.extent_y as u128) / (height as u128)) as i64;
        (self.center_re - self.extent_x / 2 + ox, self.center_im + self.extent_y / 2 - oy)
    }

    /// Zooms by the factor `factor_num / factor_den` (below one zooms in) about
    /// the pixel `(px, py)` of a `width` by `height` viewport, keeping the plane
    /// point under that pixel in place (see [`ViewState::zoom_spec`]). The
    /// iteration budget follows the new width. Only a zoom in past the
    /// precision floor is refused.
    pub fn pan_zoom(
        &self,
        px: u32,
        py: u32,
        width: u32,
        height: u32,
        factor_num: u16,
        factor_den: u16,
    ) -> (r: Result<ViewState, ZoomError>)
        requires
            self.wf(width as int, height as int),
            px <= width,
            py <= height,
            factor_num > 0,
            factor_den > 0,
        ensures
            r == self.zoom_spec(
                px as int,
                py as int,
                width as int,
                height as int,
                factor_num as int,
                factor_den as int,
            ),
            r matches Ok(v) ==> v.wf(width as int, height as int),
            r is Err <==> factor_num < factor_den && self.scaled_width(
                factor_num as int,
                factor_den as int,
            ) < MIN_EXTENT_X,
            factor_num >= factor_den ==> r is Ok,
    {
        let (mre, mim) = self.plane_point(px, py, width, height);
        proof {
            assert(self.extent_x * factor_num <= MAX_EXTENT_X * 65535) by (nonlinear_arith)
                requires
                    0 <= self.extent_x <= MAX_EXTENT_X,
                    0 <= factor_num <= 65535,
            ;
            assert(self.extent_x * factor_num >= 0) by (nonlinear_arith)
                requires
                    0 <= self.extent_x,
                    0 <= factor_num,
            ;
        }
        let scaled = (self.extent_x as u128) * (factor_num as u128) / (factor_den as u128);
        if factor_num < factor_den && scaled < MIN_EXTENT_X as u128 {
            return Err(ZoomError::PrecisionLimitReached);
        }
        let ex = if scaled > MAX_EXTENT_X as u128 {
            MAX_EXTENT_X as u128
        } else {
            scaled
        };
        proof {
            if factor_num >= factor_den {
                lemma_ratio_bounds(factor_num as int, self.extent_x as int, factor_den as int);
                assert(factor_num * self.extent_x == self.extent_x * factor_num) by (nonlinear_arith);
            }
        }
        let ey = derive_height(ex as i64, width, height);
        proof {
            lemma_product_bound(px as int, ex as int, MAX_DIM as int, MAX_EXTENT_X as int);
            lemma_product_bound(py as int, ey as int, MAX_DIM as int, MAX_EXTENT_X * MAX_DIM);
            lemma_scaled_within(px as int, ex as int, width as int);
            lemma_scaled_within(py as int, ey as int, height as int);
        }
        let ox = (px as u128) * ex / (width as u128);
        let oy = (py as u128) * (ey as u128) / (height as u128);
        let cre = (mre as i128) + (ex / 2) as i128 - (ox as i128);
        let cim = (mim as i128) - (ey / 2) as i128 + (oy as i128);
        let budget = iteration_budget_for(ex as i64);
        Ok(
            ViewState {
                center_re: clamp_center(cre),
                center_im: clamp_center(cim),
                extent_x: ex as i64,
                extent_y: ey,
                iteration_budget: budget,
            },
        )
    }
}

/// `c` held in the representable range.
fn clamp_center(c: i128) -> (r: i64)
    ensures
        r == clamp_coord(c as int),
{
    if c < -(MAX_COORD as i128) {
        -MAX_COORD
    } else if c > MAX_COORD as i128 {
        MAX_COORD
    } else {
        c as i64
    }
}

/// What an accepted zoom's new width and height satisfy.
proof fn lemma_zoom_extents(v: ViewState, w: int, h: int, num: int, den: int)
    requires
        v.wf(w, h),
        0 < num,
        0 < den,
        !(num < den && v.scaled_width(num, den) < MIN_EXTENT_X),
    ensures
        MIN_EXTENT_X <= clamp_width(v.scaled_width(num, den)) <= MAX_EXTENT_X,
        h <= derived_height(clamp_width(v.scaled_width(num, den)), w, h) <= MAX_EXTENT_X * MAX_DIM,
{
    let e = v.extent_x as int;
    if num >= den {
        lemma_ratio_bounds(num, e, den);
        assert(num * e == e * num) by (nonlinear_arith);
    }
    let ex = clamp_width(e * num / den);
    lemma_ratio_bounds(ex, h, w);
    lemma_product_bound(ex, h, MAX_EXTENT_X as int, MAX_DIM as int);
}

impl ViewState {
    /// The pixel under plane point `(re, im)`, when the point lies in the shown
    /// region (edges included).
    pub open spec fn pixel_of_spec(self, re: int, im: int, w: int, h: int) -> Option<(int, int)> {
        let left = self.center_re - self.extent_x / 2;
        let top = self.center_im + self.extent_y / 2;
        if left <= re <= left + self.extent_x && top - self.extent_y <= im <= top {
            Some(
                (
                    column_of(self.center_re as int, self.extent_x as int, re, w),
                    row_of(self.center_im as int, self.extent_y as int, im, h),
                ),
            )
        } else {
            None
        }
    }

    /// The pixel of a `width` by `height` viewport under plane point
    /// `(re, im)`, or `None` when the point is outside the shown region.
    pub fn pixel_of(&self, re: i64, im: i64, width: u32, height: u32) -> (r: Option<(u32, u32)>)
        requires
            self.wf(width as int, height as int),
        ensures
            r matches Some(p) ==> self.pixel_of_spec(re as int, im as int, width as int, height as int)
                == Some((p.0 as int, p.1 as int)),
            r is None ==> self.pixel_of_spec(re as int, im as int, width as int, height as int) is None,
    {
        proof {
            lemma_ratio_bounds(self.extent_x as int, height as int, width as int);
            lemma_product_bound(self.extent_x as int, height as int, MAX_EXTENT_X as int, MAX_DIM as int);
        }
        let left = self.center_re as i128 - (self.extent_x / 2) as i128;
        let top = self.center_im as i128 + (self.extent_y / 2) as i128;
        let re = re as i128;
        let im = im as i128;
        if re < left || re > left + self.extent_x as i128 || im < top - self.extent_y as i128 || im > top {
            return None;
        }
        let qx = (re - left) as u128;
        let qy = (top - im) as u128;
        let ex = self.extent_x as u128;
        let ey = self.extent_y as u128;
        proof {
            lemma_product_bound(qx as int, width as int, MAX_EXTENT_X as int, MAX_DIM as int);
            lemma_product_bound(qy as int, height as int, MAX_EXTENT_X * MAX_DIM, MAX_DIM as int);
            lemma_steps_within(qx as int, ex as int, width as int);
            lemma_steps_within(qy as int, ey as int, height as int);
        }
        let x = (qx * (width as u128) + ex - 1) / ex;
        let y = (qy * (height as u128) + ey - 1) / ey;
        Some((x as u32, y as u32))
    }
}

/// `ceil(q * n / e)` lies in `[0, n]` when `0 <= q <= e`.
proof fn lemma_steps_within(q: int, e: int, n: int)
    requires
        0 <= q <= e,
        0 < e,
        0 < n,
    ensures
        0 <= (q * n + e - 1) / e <= n,
{
    vstd::arithmetic::mul::lemma_mul_inequality(q, e, n);
    lemma_product_bound(q, n, e, n);
    vstd::arithmetic::div_mod::lemma_div_is_ordered(q * n + e - 1, e * n + e - 1, e);
    vstd::arithmetic::div_mod::lemma_div_is_ordered(0, q * n + e - 1, e);
    assert(e * n == n * e) by (nonlinear_arith);
    vstd::arithmetic::div_mod::lemma_fundamental_div_mod_converse(e * n + e - 1, e, n, e - 1);
}

/// Mapping a pixel to the plane and back gives the same pixel.
pub proof fn lemma_pixel_round_trip(v: ViewState, w: int, h: int, px: int, py: int)
    requires
        v.wf(w, h),
        0 <= px <= w,
        0 <= py <= h,
    ensures
        column_of(v.center_re as int, v.extent_x as int, v.re_at(px, w), w) == px,
        row_of(v.center_im as int, v.extent_y as int, v.im_at(py, h), h) == py,
        v.pixel_of_spec(v.re_at(px, w), v.im_at(py, h), w, h) == Some((px, py)),
{
    lemma_scaled_within(px, v.extent_x as int, w);
    lemma_ratio_bounds(v.extent_x as int, h, w);
    lemma_scaled_within(py, v.extent_y as int, h);
    lemma_scale_round_trip(px, v.extent_x as int, w);
    lemma_scale_round_trip(py, v.extent_y as int, h);
}

/// Zooming keeps the plane point under the pointer where it was, unless the
/// centre that would keep it lies outside the representable range.
pub proof fn lemma_zoom_anchored(
    v: ViewState,
    px: int,
    py: int,
    w: int,
    h: int,
    num: int,
    den: int,
)
    requires
        v.wf(w, h),
        0 <= px <= w,
        0 <= py <= h,
        0 < num,
        0 < den,
    ensures
        v.zoom_spec(px, py, w, h, num, den) matches Ok(z) ==> (in_coord_range(
            v.anchored_center(px, py, w, h, num, den).0,
        ) ==> z.re_at(px, w) == v.re_at(px, w)) && (in_coord_range(
            v.anchored_center(px, py, w, h, num, den).1,
        ) ==> z.im_at(py, h) == v.im_at(py, h)),
{
    if v.zoom_spec(px, py, w, h, num, den) is Ok {
        lemma_zoom_extents(v, w, h, num, den);
    }
}

/// A zoom about the exact centre of an even-sized viewport keeps the centre.
pub proof fn lemma_zoom_at_center(v: ViewState, w: int, h: int, num: int, den: int)
    requires
        v.wf(w, h),
        w % 2 == 0,
        h % 2 == 0,
        0 < num,
        0 < den,
    ensures
        v.zoom_spec(w / 2, h / 2, w, h, num, den) matches Ok(z) ==> z.center_re == v.center_re
            && z.center_im == v.center_im,
{
    lemma_half_scale(w / 2, v.extent_x as int);
    lemma_half_scale(h / 2, v.extent_y as int);
    let ex = clamp_width(v.scaled_width(num, den));
    if v.zoom_spec(w / 2, h / 2, w, h, num, den) is Ok {
        lemma_zoom_extents(v, w, h, num, den);
    }
    if v.zoom_spec(w / 2, h / 2, w, h, num, den) is Ok {
        lemma_half_scale(w / 2, ex);
        lemma_half_scale(h / 2, derived_height(ex, w, h));
    }
}

/// Zooming in either is refused at the precision floor or makes the region
/// strictly narrower (by half exactly, rounded down, for a factor of a half),
/// so repeated zooming in reaches the floor and then changes nothing more.
pub proof fn lemma_zoom_in_narrows(
    v: ViewState,
    px: int,
    py: int,
    w: int,
    h: int,
    num: int,
    den: int,
)
    requires
        v.wf(w, h),
        0 <= px <= w,
        0 <= py <= h,
        0 < num < den,
    ensures
        v.zoom_spec(px, py, w, h, num, den) matches Ok(z) ==> MIN_EXTENT_X <= z.extent_x
            < v.extent_x,
        num == 1 && den == 2 ==> (v.zoom_spec(px, py, w, h, num, den) matches Ok(z)
            ==> z.extent_x == v.extent_x / 2),
        v.scaled_width(num, den) < MIN_EXTENT_X ==> v.zoom_spec(px, py, w, h, num, den) == Err::<
            ViewState,
            ZoomError,
        >(ZoomError::PrecisionLimitReached),
{
    let e = v.extent_x as int;
    if v.zoom_spec(px, py, w, h, num, den) is Ok {
        lemma_zoom_extents(v, w, h, num, den);
    }
    if num == 1 {
        assert(e * num == e) by (nonlinear_arith)
            requires
                num == 1,
        ;
    }
    assert(e * num < e * den) by (nonlinear_arith)
        requires
            e > 0,
            num < den,
    ;
    assert(e * num / den < e) by (nonlinear_arith)
        requires
            e * num < e * den,
            den > 0,
    ;
}

proof fn lemma_half_scale(k: int, e: int)
    requires
        0 < k,
        0 <= e,
    ensures
        k * e / (2 * k) == e / 2,
{
    vstd::arithmetic::div_mod::lemma_div_multiples_vanish_quotient(k, e, 2);
    assert(k * e == e * k) by (nonlinear_arith);
    assert(k * 2 == 2 * k);
}

} // verus!
