use ptz_overlay::renderer::fixed::{isqrt, Point2};
use ptz_overlay::renderer::frame::Frame;

/// A point at whole or fractional pixel coordinates.
fn point(x: f64, y: f64) -> Point2 {
    Point2::new((x * 65536.0).round() as i32, (y * 65536.0).round() as i32)
}

fn alpha(frame: &Frame, x: u32, y: u32) -> u8 {
    let w = frame.width() as usize;
    let h = frame.height() as usize;
    frame.as_bytes()[2 * w * h + y as usize * w + x as usize]
}

fn luma(frame: &Frame, x: u32, y: u32) -> u8 {
    let w = frame.width() as usize;
    frame.as_bytes()[y as usize * 2 * w + (x as usize / 2) * 4 + 1 + (x as usize % 2) * 2]
}

fn chroma(frame: &Frame, x: u32, y: u32) -> (u8, u8) {
    let w = frame.width() as usize;
    let base = y as usize * 2 * w + (x as usize / 2) * 4;
    (frame.as_bytes()[base], frame.as_bytes()[base + 2])
}

/// Every pixel with an alpha that is not zero, row by row, as `(x, y, alpha)`.
fn painted(frame: &Frame) -> Vec<(u32, u32, u8)> {
    let mut out = Vec::new();
    for y in 0..frame.height() {
        for x in 0..frame.width() {
            if alpha(frame, x, y) != 0 {
                out.push((x, y, alpha(frame, x, y)));
            }
        }
    }
    out
}

fn sorted(mut samples: Vec<(u32, u32, u8)>) -> Vec<(u32, u32, u8)> {
    samples.sort_by_key(|s| (s.1, s.0));
    samples
}

#[test]
fn new_frame_is_zeroed_and_sized() {
    let frame = Frame::new(6, 4);
    assert_eq!(frame.width(), 6);
    assert_eq!(frame.height(), 4);
    assert_eq!(frame.stride(), 12);
    assert_eq!(frame.as_bytes().len(), 6 * 4 * 3);
    assert!(frame.as_bytes().iter().all(|b| *b == 0));
    assert_eq!(Frame::new(0, 5).as_bytes().len(), 0);
}

#[test]
fn set_pixel_even_column_addressing() {
    let mut frame = Frame::new(4, 2);
    frame.set_pixel(2, 1, 10, 20, 30, 40);
    let mut expected = vec![0u8; 24];
    expected[12] = 10;
    expected[13] = 30;
    expected[14] = 20;
    expected[16 + 4 + 2] = 40;
    assert_eq!(frame.as_bytes(), &expected[..]);
}

#[test]
fn set_pixel_odd_column_addressing() {
    let mut frame = Frame::new(4, 2);
    frame.set_pixel(3, 0, 10, 20, 30, 40);
    let mut expected = vec![0u8; 24];
    expected[4] = 10;
    expected[7] = 30;
    expected[6] = 20;
    expected[16 + 3] = 40;
    assert_eq!(frame.as_bytes(), &expected[..]);
}

#[test]
fn pixels_of_a_pair_share_chroma_and_keep_their_luma() {
    let mut frame = Frame::new(4, 1);
    frame.set_pixel(0, 0, 1, 2, 3, 4);
    frame.set_pixel(1, 0, 5, 6, 7, 8);
    assert_eq!(frame.as_bytes(), &[5, 3, 6, 7, 0, 0, 0, 0, 4, 8, 0, 0][..]);
    assert_eq!(chroma(&frame, 0, 0), (5, 6));
    assert_eq!(luma(&frame, 0, 0), 3);
    assert_eq!(luma(&frame, 1, 0), 7);
}

#[test]
fn set_pixel_outside_is_a_no_op() {
    let mut frame = Frame::new(4, 3);
    frame.set_pixel(1, 1, 9, 9, 9, 9);
    let before = frame.as_bytes().to_vec();
    frame.set_pixel(4, 0, 1, 2, 3, 4);
    frame.set_pixel(0, 3, 1, 2, 3, 4);
    frame.set_pixel(4, 3, 1, 2, 3, 4);
    frame.set_pixel(u32::MAX, 1, 1, 2, 3, 4);
    frame.set_pixel(1, u32::MAX, 1, 2, 3, 4);
    frame.set_pixel(u32::MAX, u32::MAX, 1, 2, 3, 4);
    assert_eq!(frame.as_bytes(), &before[..]);
    let mut empty = Frame::new(0, 0);
    empty.set_pixel(0, 0, 1, 2, 3, 4);
    assert_eq!(empty.as_bytes().len(), 0);
}

#[test]
fn clear_zeroes_both_planes() {
    let mut frame = Frame::new(5, 3);
    for y in 0..3 {
        for x in 0..5 {
            frame.set_pixel(x, y, 200, 201, 202, 203);
        }
    }
    assert!(frame.as_bytes().iter().any(|b| *b != 0));
    frame.clear();
    assert_eq!(frame.as_bytes(), &vec![0u8; 45][..]);
    assert_eq!((frame.width(), frame.height()), (5, 3));
}

#[test]
fn marker_is_an_eight_by_eight_square() {
    let mut frame = Frame::new(32, 32);
    frame.fill_circle(10, 12, 170, 171, 135, 255);
    let cells = painted(&frame);
    assert_eq!(cells.len(), 64);
    for y in 0..32 {
        for x in 0..32 {
            let inside = (6..14).contains(&x) && (8..16).contains(&y);
            assert_eq!(alpha(&frame, x, y), if inside { 255 } else { 0 });
            assert_eq!(luma(&frame, x, y), if inside { 135 } else { 0 });
            assert_eq!(chroma(&frame, x, y), if inside { (170, 171) } else { (0, 0) });
        }
    }
}

#[test]
fn marker_at_the_corner_is_clipped() {
    let mut frame = Frame::new(16, 16);
    frame.fill_circle(0, 0, 1, 2, 3, 4);
    let cells = painted(&frame);
    assert_eq!(cells.len(), 16);
    assert!(cells.iter().all(|c| c.0 < 4 && c.1 < 4 && c.2 == 4));
    let mut frame = Frame::new(16, 16);
    frame.fill_circle(15, 15, 1, 2, 3, 4);
    let cells = painted(&frame);
    assert_eq!(cells.len(), 25);
    assert!(cells.iter().all(|c| c.0 >= 11 && c.1 >= 11));
    let mut frame = Frame::new(16, 16);
    frame.fill_circle(u32::MAX, 100, 1, 2, 3, 4);
    assert!(painted(&frame).is_empty());
}

#[test]
fn horizontal_line_leaves_out_its_last_pixel() {
    let mut frame = Frame::new(8, 4);
    frame.draw_line(point(1.0, 1.0), point(5.0, 1.0));
    assert_eq!(painted(&frame), vec![(1, 1, 255), (2, 1, 255), (3, 1, 255), (4, 1, 255)]);
    assert_eq!(luma(&frame, 1, 1), 255);
    assert_eq!(chroma(&frame, 1, 1), (127, 127));
}

#[test]
fn shallow_line_steps_by_rounding() {
    let mut frame = Frame::new(8, 4);
    frame.draw_line(point(0.0, 0.0), point(6.0, 3.0));
    assert_eq!(
        painted(&frame),
        vec![(0, 0, 255), (1, 0, 255), (2, 1, 255), (3, 1, 255), (4, 2, 255), (5, 2, 255)]
    );
}

#[test]
fn shallow_line_going_up() {
    let mut frame = Frame::new(8, 4);
    frame.draw_line(point(0.0, 3.0), point(6.0, 1.0));
    assert_eq!(
        painted(&frame),
        vec![(5, 1, 255), (2, 2, 255), (3, 2, 255), (4, 2, 255), (0, 3, 255), (1, 3, 255)]
    );
}

#[test]
fn steep_line_steps_along_y() {
    let mut frame = Frame::new(4, 8);
    frame.draw_line(point(1.0, 0.0), point(3.0, 5.0));
    assert_eq!(
        painted(&frame),
        vec![(1, 0, 255), (1, 1, 255), (2, 2, 255), (2, 3, 255), (3, 4, 255)]
    );
}

#[test]
fn diagonal_counts_as_steep() {
    let mut frame = Frame::new(4, 4);
    frame.draw_line(point(0.0, 0.0), point(3.0, 3.0));
    assert_eq!(painted(&frame), vec![(0, 0, 255), (1, 1, 255), (2, 2, 255)]);
}

#[test]
fn line_does_not_depend_on_direction() {
    let ends = [
        (point(0.0, 0.0), point(6.0, 3.0)),
        (point(7.0, 1.0), point(2.0, 6.0)),
        (point(1.0, 7.0), point(3.0, 0.0)),
        (point(0.5, 0.25), point(6.75, 6.5)),
        (point(-3.0, 2.0), point(12.0, 5.0)),
    ];
    for (a, b) in ends {
        let mut forward = Frame::new(8, 8);
        forward.draw_line(a, b);
        let mut backward = Frame::new(8, 8);
        backward.draw_line(b, a);
        assert_eq!(forward.as_bytes(), backward.as_bytes());
        assert!(!painted(&forward).is_empty());
    }
}

#[test]
fn line_between_points_of_one_pixel_draws_nothing() {
    let mut frame = Frame::new(8, 8);
    frame.draw_line(point(2.25, 2.5), point(2.75, 2.0));
    assert!(painted(&frame).is_empty());
}

#[test]
fn line_outside_the_frame_is_clipped() {
    let mut frame = Frame::new(4, 4);
    frame.draw_line(point(-2.0, 1.0), point(10.0, 1.0));
    assert_eq!(painted(&frame), vec![(0, 1, 255), (1, 1, 255), (2, 1, 255), (3, 1, 255)]);
    let mut frame = Frame::new(4, 4);
    frame.draw_line(point(-20.0, -5.0), point(-1.0, -1.0));
    assert!(painted(&frame).is_empty());
}

#[test]
fn low_and_high_lines_run_one_way_only() {
    let mut frame = Frame::new(8, 8);
    frame.draw_line_low(point(5.0, 1.0), point(1.0, 1.0));
    frame.draw_line_high(point(1.0, 5.0), point(1.0, 1.0));
    assert!(painted(&frame).is_empty());
    frame.draw_line_low(point(1.0, 1.0), point(5.0, 3.0));
    assert_eq!(painted(&frame), vec![(1, 1, 255), (2, 1, 255), (3, 2, 255), (4, 2, 255)]);
    frame.clear();
    frame.draw_line_high(point(3.0, 1.0), point(1.0, 5.0));
    assert_eq!(painted(&frame), vec![(3, 1, 255), (3, 2, 255), (2, 3, 255), (2, 4, 255)]);
}

#[test]
fn low_line_handed_a_steep_line_moves_one_pixel_per_step() {
    let mut frame = Frame::new(8, 8);
    frame.draw_line_low(point(1.0, 0.0), point(4.0, 7.0));
    assert_eq!(painted(&frame), vec![(1, 0, 255), (2, 1, 255), (3, 2, 255)]);
}

#[test]
fn thick_horizontal_line() {
    let mut frame = Frame::new(16, 16);
    frame.draw_thick_line(point(2.0, 10.0), point(12.0, 10.0), 4 * 65536, (200, 50, 60));
    let mut expected = Vec::new();
    for x in 2..=12u32 {
        let edge = if x == 2 || x == 12 { 63 } else { 127 };
        expected.push((x, 8, edge));
        expected.push((x, 9, 255));
        expected.push((x, 10, 255));
        expected.push((x, 11, 255));
        expected.push((x, 12, edge));
    }
    assert_eq!(painted(&frame), sorted(expected));
    assert_eq!(luma(&frame, 5, 10), 200);
    assert_eq!(chroma(&frame, 5, 10), (50, 60));
}

#[test]
fn thick_line_has_full_alpha_between_two_fractional_edges() {
    let mut frame = Frame::new(16, 16);
    frame.draw_thick_line(point(1.25, 2.5), point(9.75, 6.0), 3 * 65536, (255, 127, 127));
    let expected = vec![
        (1, 1, 46),
        (1, 2, 255),
        (1, 3, 255),
        (1, 4, 17),
        (10, 4, 3),
        (10, 5, 255),
        (10, 6, 255),
        (10, 7, 187),
        (2, 1, 79),
        (2, 2, 255),
        (2, 3, 255),
        (2, 4, 175),
        (3, 2, 229),
        (3, 3, 255),
        (3, 4, 255),
        (3, 5, 25),
        (4, 2, 124),
        (4, 3, 255),
        (4, 4, 255),
        (4, 5, 130),
        (5, 2, 19),
        (5, 3, 255),
        (5, 4, 255),
        (5, 5, 235),
        (6, 3, 169),
        (6, 4, 255),
        (6, 5, 255),
        (6, 6, 85),
        (7, 3, 64),
        (7, 4, 255),
        (7, 5, 255),
        (7, 6, 190),
        (8, 4, 214),
        (8, 5, 255),
        (8, 6, 255),
        (8, 7, 40),
        (9, 4, 109),
        (9, 5, 255),
        (9, 6, 255),
        (9, 7, 145),
    ];
    assert_eq!(painted(&frame), sorted(expected));
    for x in 2..10u32 {
        let column: Vec<u8> =
            painted(&frame).iter().filter(|s| s.0 == x).map(|s| s.2).collect();
        assert_eq!(column.len(), 4);
        assert_eq!(column.iter().filter(|a| **a == 255).count(), 2);
        assert_eq!(column[1], 255);
        assert_eq!(column[2], 255);
    }
}

#[test]
fn thick_vertical_line_is_drawn_transposed() {
    let mut frame = Frame::new(12, 12);
    frame.draw_thick_line(point(5.0, 1.0), point(5.0, 7.0), 2 * 65536, (9, 8, 7));
    let mut expected = Vec::new();
    for y in 1..=7u32 {
        let edge = if y == 1 || y == 7 { 63 } else { 127 };
        expected.push((4, y, edge));
        expected.push((5, y, 255));
        expected.push((6, y, edge));
    }
    assert_eq!(painted(&frame), sorted(expected));
}

#[test]
fn thick_line_does_not_depend_on_direction() {
    let mut forward = Frame::new(16, 16);
    forward.draw_thick_line(point(1.25, 2.5), point(9.75, 6.0), 3 * 65536, (255, 127, 127));
    let mut backward = Frame::new(16, 16);
    backward.draw_thick_line(point(9.75, 6.0), point(1.25, 2.5), 3 * 65536, (255, 127, 127));
    assert_eq!(forward.as_bytes(), backward.as_bytes());
}

#[test]
fn thick_line_of_width_zero_draws_nothing() {
    let mut frame = Frame::new(16, 16);
    frame.draw_thick_line(point(1.0, 1.0), point(9.0, 6.0), 0, (255, 127, 127));
    assert!(frame.as_bytes().iter().all(|b| *b == 0));
}

#[test]
fn thick_line_between_equal_points_has_gradient_one() {
    let mut frame = Frame::new(16, 16);
    frame.draw_thick_line(point(4.0, 4.0), point(4.0, 4.0), 2 * 65536, (255, 127, 127));
    assert_eq!(painted(&frame), vec![(4, 3, 116), (4, 4, 255), (4, 5, 10)]);
}

#[test]
fn thin_line_writes_both_edges_to_one_pixel() {
    let mut frame = Frame::new(16, 16);
    frame.draw_thick_line(point(3.0, 3.0), point(7.0, 3.5), 32768, (255, 127, 127));
    assert_eq!(
        painted(&frame),
        vec![(3, 3, 31), (4, 3, 95), (5, 3, 127), (6, 3, 158), (7, 3, 95)]
    );
}

#[test]
fn thick_line_outside_the_frame_is_clipped() {
    let mut frame = Frame::new(8, 8);
    frame.draw_thick_line(point(-30.0, -30.0), point(-10.0, -20.0), 4 * 65536, (255, 127, 127));
    frame.draw_thick_line(point(20.0, 3.0), point(300.0, 3.0), 4 * 65536, (255, 127, 127));
    assert!(frame.as_bytes().iter().all(|b| *b == 0));
    frame.draw_thick_line(point(-5.0, 4.0), point(20.0, 4.0), 2 * 65536, (255, 127, 127));
    let cells = painted(&frame);
    assert_eq!(cells.len(), 24);
    assert_eq!(cells.iter().filter(|c| c.2 == 255).count(), 8);
}

#[test]
fn integer_square_root_rounds_down() {
    assert_eq!(isqrt(0), 0);
    assert_eq!(isqrt(1), 1);
    assert_eq!(isqrt(3), 1);
    assert_eq!(isqrt(4), 2);
    assert_eq!(isqrt(15), 3);
    assert_eq!(isqrt(16), 4);
    assert_eq!(isqrt(17), 4);
    assert_eq!(isqrt(1 << 64), 1 << 32);
    assert_eq!(isqrt((1 << 64) - 1), (1 << 32) - 1);
    assert_eq!(isqrt(u128::MAX), u64::MAX);
}

#[test]
fn pixel_of_a_point_rounds_down() {
    assert_eq!((point(2.75, 3.0).pixel_x(), point(2.75, 3.0).pixel_y()), (2, 3));
    assert_eq!((point(-0.25, -1.0).pixel_x(), point(-0.25, -1.0).pixel_y()), (-1, -1));
    assert_eq!(Point2::new(i32::MIN, i32::MAX).pixel_x(), -32768);
    assert_eq!(Point2::new(i32::MIN, i32::MAX).pixel_y(), 32767);
    assert_eq!(Point2::new(7, 9).yx(), Point2::new(9, 7));
}
