use av1_test::color::{bt709, chroma_byte, luma_byte, rgb_to_yuv, YCbCr, RGB, SAMPLE_ONE};
use av1_test::scene::{FrameIterator, Vec2};

fn animator(position: Vec2, velocity: Vec2, radius: i64, delta_t: i64, width: usize, height: usize) -> FrameIterator {
    FrameIterator {
        width,
        height,
        position,
        velocity,
        circle_color: RGB { r: 10_000, g: 0, b: 0 },
        background: RGB { r: 0, g: 0, b: 0 },
        radius,
        delta_t,
    }
}

fn red() -> YCbCr {
    YCbCr { y: 21_260_000, cb: -11_460_000, cr: 50_000_000 }
}

fn black() -> YCbCr {
    YCbCr { y: 0, cb: 0, cr: 0 }
}

#[test]
fn convert_black_is_zero() {
    let out = rgb_to_yuv(RGB { r: 0, g: 0, b: 0 }, bt709());
    assert_eq!(out, black());
}

#[test]
fn convert_red_bt709() {
    let out = rgb_to_yuv(RGB { r: 10_000, g: 0, b: 0 }, bt709());
    assert_eq!(out, red());
}

#[test]
fn convert_white_and_blue() {
    let white = rgb_to_yuv(RGB { r: 10_000, g: 10_000, b: 10_000 }, bt709());
    assert_eq!(white, YCbCr { y: 100_000_000, cb: 0, cr: 0 });
    let blue = rgb_to_yuv(RGB { r: 0, g: 0, b: 10_000 }, bt709());
    assert_eq!(blue, YCbCr { y: 7_220_000, cb: 50_000_000, cr: -4_580_000 });
}

#[test]
fn convert_is_linear_on_values() {
    let p = RGB { r: 2_000, g: 5_000, b: 7_000 };
    let q = RGB { r: 9_000, g: -1_000, b: 3_000 };
    let (a, b) = (3i64, -2i64);
    let sum = RGB { r: a * p.r + b * q.r, g: a * p.g + b * q.g, b: a * p.b + b * q.b };
    let cp = rgb_to_yuv(p, bt709());
    let cq = rgb_to_yuv(q, bt709());
    let cs = rgb_to_yuv(sum, bt709());
    assert_eq!(cs.y, a * cp.y + b * cq.y);
    assert_eq!(cs.cb, a * cp.cb + b * cq.cb);
    assert_eq!(cs.cr, a * cp.cr + b * cq.cr);
}

#[test]
fn one_step_moves_without_bounce() {
    let mut s = animator(Vec2 { x: 50_000_000, y: 50_000_000 }, Vec2 { x: 3_000, y: 4_000 }, 10_000_000, 300, 8, 8);
    assert!(s.next().is_some());
    assert_eq!(s.position, Vec2 { x: 50_900_000, y: 51_200_000 });
    assert_eq!(s.velocity, Vec2 { x: 3_000, y: 4_000 });
}

#[test]
fn boundary_reflection_at_far_edge() {
    let mut s = animator(Vec2 { x: 99_000_000, y: 50_000_000 }, Vec2 { x: 10_000, y: 0 }, 10_000_000, 300, 8, 8);
    s.next();
    assert_eq!(s.position, Vec2 { x: 100_000_000, y: 50_000_000 });
    assert_eq!(s.velocity, Vec2 { x: -10_000, y: 0 });
}

#[test]
fn boundary_reflection_at_near_edge() {
    let mut s = animator(Vec2 { x: 50_000_000, y: 1_000_000 }, Vec2 { x: 0, y: -10_000 }, 10_000_000, 300, 8, 8);
    s.next();
    assert_eq!(s.position, Vec2 { x: 50_000_000, y: 0 });
    assert_eq!(s.velocity, Vec2 { x: 0, y: 10_000 });
    s.next();
    assert_eq!(s.position, Vec2 { x: 50_000_000, y: 3_000_000 });
    assert_eq!(s.velocity, Vec2 { x: 0, y: 10_000 });
}

#[test]
fn landing_exactly_on_edge_reflects() {
    let mut s = animator(Vec2 { x: 3_000_000, y: 50_000_000 }, Vec2 { x: -10_000, y: 0 }, 10_000_000, 300, 8, 8);
    s.next();
    assert_eq!(s.position, Vec2 { x: 0, y: 50_000_000 });
    assert_eq!(s.velocity, Vec2 { x: 10_000, y: 0 });
}

#[test]
fn boundary_cell_is_disc() {
    let mut s = animator(Vec2 { x: 50_000_000, y: 50_000_000 }, Vec2 { x: 0, y: 0 }, 20_000_000, 300, 10, 10);
    let frame = s.next().unwrap();
    assert_eq!(frame.grid[[5, 5]], red());
    assert_eq!(frame.grid[[7, 5]], red());
    assert_eq!(frame.grid[[3, 5]], red());
    assert_eq!(frame.grid[[5, 7]], red());
    assert_eq!(frame.grid[[8, 5]], black());
    assert_eq!(frame.grid[[7, 6]], black());
}

#[test]
fn rows_follow_x_and_columns_follow_y() {
    let mut s = animator(Vec2 { x: 0, y: 50_000_000 }, Vec2 { x: 0, y: 0 }, 10_000_000, 300, 4, 2);
    let frame = s.next().unwrap();
    assert_eq!(frame.grid.dim(), (2, 4));
    let expected = [[black(), black(), red(), black()], [black(), black(), black(), black()]];
    for row in 0..2 {
        for col in 0..4 {
            assert_eq!(frame.grid[[row, col]], expected[row][col]);
        }
    }
}

#[test]
fn radius_extremes() {
    let mut big = animator(Vec2 { x: 0, y: 0 }, Vec2 { x: 0, y: 0 }, 300_000_000, 300, 3, 3);
    let frame = big.next().unwrap();
    assert!(frame.grid.iter().all(|c| *c == red()));
    let mut negative = animator(Vec2 { x: 0, y: 0 }, Vec2 { x: 0, y: 0 }, -1, 300, 3, 3);
    let frame = negative.next().unwrap();
    assert!(frame.grid.iter().all(|c| *c == black()));
}

#[test]
fn empty_grid() {
    let mut s = animator(Vec2 { x: 50_000_000, y: 50_000_000 }, Vec2 { x: 0, y: 0 }, 10_000_000, 300, 0, 5);
    let frame = s.next().unwrap();
    assert_eq!(frame.grid.dim(), (5, 0));
}

#[test]
fn identical_animators_agree() {
    let mut a = animator(Vec2 { x: 20_000_000, y: 70_000_000 }, Vec2 { x: 9_000, y: -7_000 }, 15_000_000, 300, 6, 5);
    let mut b = animator(Vec2 { x: 20_000_000, y: 70_000_000 }, Vec2 { x: 9_000, y: -7_000 }, 15_000_000, 300, 6, 5);
    for _ in 0..40 {
        let fa = a.next().unwrap();
        let fb = b.next().unwrap();
        assert_eq!(fa.grid, fb.grid);
        assert_eq!(a.position, b.position);
        assert_eq!(a.velocity, b.velocity);
    }
}

#[test]
fn bytes_of_samples() {
    assert_eq!(luma_byte(0), 0);
    assert_eq!(luma_byte(-5), 0);
    assert_eq!(luma_byte(SAMPLE_ONE), 255);
    assert_eq!(luma_byte(2 * SAMPLE_ONE), 255);
    assert_eq!(luma_byte(50_000_000), 127);
    assert_eq!(luma_byte(21_260_000), 54);
    assert_eq!(chroma_byte(0), 127);
    assert_eq!(chroma_byte(50_000_000), 255);
    assert_eq!(chroma_byte(-50_000_000), 0);
    assert_eq!(chroma_byte(-11_460_000), 98);
}

#[test]
fn long_thin_frame() {
    let mut s = animator(Vec2 { x: 0, y: 50_000_000 }, Vec2 { x: 0, y: 0 }, 1_000_000, 300, 40_000, 1);
    let frame = s.next().unwrap();
    assert_eq!(frame.grid.dim(), (1, 40_000));
    assert_eq!(frame.grid[[0, 20_000]], red());
    assert_eq!(frame.grid[[0, 19_600]], red());
    assert_eq!(frame.grid[[0, 19_599]], black());
    assert_eq!(frame.grid[[0, 20_400]], red());
    assert_eq!(frame.grid[[0, 20_401]], black());
}
