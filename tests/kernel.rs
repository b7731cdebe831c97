use fractal_view::escape::{
    depth_color, escape_depth, julia_pixel, mandelbrot_pixel, workgroup_count, JULIA_IN_SET,
    MANDELBROT_IN_SET,
};
use fractal_view::fixed::ONE;

#[test]
fn point_outside_radius_escapes_at_depth_zero() {
    assert_eq!(escape_depth(3 * ONE, 3 * ONE, 3 * ONE, 3 * ONE, 500), 0);
}

#[test]
fn origin_reaches_full_budget() {
    assert_eq!(escape_depth(0, 0, 0, 0, 500), 500);
    assert_eq!(escape_depth(0, 0, 0, 0, 0), 0);
}

#[test]
fn escape_depths_of_known_points() {
    assert_eq!(escape_depth(ONE, 0, ONE, 0, 100), 2);
    assert_eq!(escape_depth(ONE / 2, ONE / 2, ONE / 2, ONE / 2, 100), 4);
    assert_eq!(escape_depth(-2 * ONE, 0, -2 * ONE, 0, 50), 50);
    assert_eq!(escape_depth(-ONE, 0, -ONE, 0, 30), 30);
}

#[test]
fn colour_gradient_and_sentinel() {
    assert_eq!(depth_color(10, 100, MANDELBROT_IN_SET), (0, 25, 15));
    assert_eq!(depth_color(99, 100, MANDELBROT_IN_SET), (0, 252, 151));
    assert_eq!(depth_color(1, 3, MANDELBROT_IN_SET), (0, 85, 51));
    assert_eq!(depth_color(0, 3, MANDELBROT_IN_SET), (0, 0, 0));
    assert_eq!(depth_color(100, 100, MANDELBROT_IN_SET), (0, 0, 0));
    assert_eq!(depth_color(7, 7, JULIA_IN_SET), (255, 255, 255));
    assert_eq!(depth_color(0, 0, JULIA_IN_SET), (255, 255, 255));
}

#[test]
fn workgroups_cover_partial_tiles() {
    assert_eq!(workgroup_count(0), 0);
    assert_eq!(workgroup_count(1), 1);
    assert_eq!(workgroup_count(8), 1);
    assert_eq!(workgroup_count(9), 2);
    assert_eq!(workgroup_count(800), 100);
    assert_eq!(workgroup_count(801), 101);
    assert_eq!(workgroup_count(u32::MAX), 536870912);
}

#[test]
fn mandelbrot_pixels_of_exported_picture() {
    let spacing = 1018066322;
    assert_eq!(mandelbrot_pixel(10, -ONE, 0, spacing, 1500, 300), (0, 51, 30));
    assert_eq!(mandelbrot_pixel(10, -ONE, 0, spacing, 1200, 900), (0, 76, 45));
    assert_eq!(mandelbrot_pixel(10, -ONE, 0, spacing, 3000, 1079), MANDELBROT_IN_SET);
    assert_eq!(mandelbrot_pixel(10, -ONE, 0, spacing, 0, 0), (0, 0, 0));
}

#[test]
fn julia_pixels_of_exported_picture() {
    let (cr, ci) = (-879609302221, 171523813933);
    assert_eq!(julia_pixel(200, cr, ci, 2048, 1079), JULIA_IN_SET);
    assert_eq!(julia_pixel(200, cr, ci, 2500, 700), (0, 3, 2));
    assert_eq!(julia_pixel(200, cr, ci, 2300, 900), (0, 12, 7));
    assert_eq!(julia_pixel(200, cr, ci, 1700, 1000), (0, 59, 35));
    assert_eq!(julia_pixel(200, cr, ci, 2100, 1200), (0, 221, 133));
    assert_eq!(julia_pixel(200, cr, ci, 0, 0), (0, 0, 0));
}

#[test]
fn mandelbrot_interior_and_far_points() {
    assert_eq!(mandelbrot_pixel(500, 0, 0, 0, 10, 10), MANDELBROT_IN_SET);
    assert_eq!(mandelbrot_pixel(500, 3 * ONE, 3 * ONE, 0, 10, 10), depth_color(0, 500, MANDELBROT_IN_SET));
    assert_eq!(escape_depth(3 * ONE, 3 * ONE, 0, 0, 500), 1);
}

#[test]
fn mirrored_points_escape_alike() {
    assert_eq!(
        mandelbrot_pixel(3, 615981009939, 0, 1037017667748, 2048, 1078),
        mandelbrot_pixel(3, 615981009939, 0, 1037017667748, 2048, 1080)
    );
    assert_eq!(mandelbrot_pixel(3, 615981009939, 0, 1037017667748, 2048, 1078), (0, 170, 102));
    assert_eq!(
        julia_pixel(3, 0, 2199027497496, 2049, 1080),
        julia_pixel(3, 0, -2199027497496, 2049, 1078)
    );
    assert_eq!(julia_pixel(3, 0, 2199027497496, 2049, 1080), (0, 85, 51));
    assert_eq!(escape_depth(0, 2199027497496, 1527099483, -1527099483, 3), 1);
    assert_eq!(escape_depth(0, -2199027497496, 1527099483, 1527099483, 3), 1);
    assert_eq!(escape_depth(0, 2199027497496, -1527099483, 1527099483, 3), 1);
}

#[test]
fn negative_spacing_mirrors_the_picture() {
    let spacing = 1018066322;
    assert_eq!(
        mandelbrot_pixel(10, -ONE, 0, -spacing, 4096 - 1500, 2158 - 300),
        mandelbrot_pixel(10, -ONE, 0, spacing, 1500, 300)
    );
}
