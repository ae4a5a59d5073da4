use canvas_scene::arith::{coord_delta, mul_wide, offset_coord};
use canvas_scene::geometry::{hit_box, Circle, Line, Point, Rectangle, Size, Text};
use canvas_scene::style::{Angle, ControlPoint, Style, ANGLE_UNIT};

fn plain() -> Style {
    Style::new()
}

fn stroked(width: i32) -> Style {
    let mut style = Style::new();
    style.stroke(width, String::from("black"));
    style
}

fn quarter_turn() -> Angle {
    Angle { cos: 0, sin: ANGLE_UNIT }
}

fn half_turn() -> Angle {
    Angle { cos: -ANGLE_UNIT, sin: 0 }
}

#[test]
fn offsets_stop_at_the_ends_of_the_range() {
    assert_eq!(offset_coord(5, 7), 12);
    assert_eq!(offset_coord(-5, 3), -2);
    assert_eq!(offset_coord(i32::MAX, 1), i32::MAX);
    assert_eq!(offset_coord(i32::MIN, -1), i32::MIN);
    assert_eq!(offset_coord(i32::MAX, i32::MIN), -1);
    assert_eq!(coord_delta(7, 5), 2);
    assert_eq!(coord_delta(i32::MAX, -1), i32::MAX);
    assert_eq!(coord_delta(i32::MIN, 1), i32::MIN);
    assert_eq!(coord_delta(-3, -3), 0);
}

#[test]
fn wide_products_are_exact() {
    assert_eq!(mul_wide(3, -4), -12);
    assert_eq!(
        mul_wide(0x4000_0000_0000_0000, 0x4000_0000_0000_0000),
        0x1000_0000_0000_0000_0000_0000_0000_0000
    );
    assert_eq!(mul_wide(-0x4000_0000_0000_0000, 2), -0x8000_0000_0000_0000);
}

#[test]
fn rectangle_holds_its_middle_and_not_what_lies_beyond() {
    let rect = Rectangle { top: 10, left: 10, width: 20, height: 20 };
    assert!(rect.is_hovered(20, 20, &plain()));
    assert!(rect.is_hovered(15, 15, &plain()));
    assert!(!rect.is_hovered(9, 20, &plain()));
    assert!(!rect.is_hovered(31, 20, &plain()));
    assert!(!rect.is_hovered(20, 9, &plain()));
    assert!(!rect.is_hovered(20, 31, &plain()));
    for stroke in [0, 1, 2, 7, 40] {
        let style = stroked(stroke);
        assert!(rect.is_hovered(20, 20, &style));
        assert!(!rect.is_hovered(10 - stroke / 2 - 1, 20, &style));
        assert!(!rect.is_hovered(30 + stroke / 2 + 1, 20, &style));
        assert!(!rect.is_hovered(20, 10 - stroke / 2 - 1, &style));
        assert!(!rect.is_hovered(20, 30 + stroke / 2 + 1, &style));
    }
}

#[test]
fn rectangle_counts_its_left_and_top_edge_and_not_its_right_and_bottom_edge() {
    let rect = Rectangle { top: 10, left: 10, width: 20, height: 20 };
    assert!(rect.is_hovered(10, 10, &plain()));
    assert!(rect.is_hovered(10, 29, &plain()));
    assert!(rect.is_hovered(29, 10, &plain()));
    assert!(!rect.is_hovered(30, 10, &plain()));
    assert!(!rect.is_hovered(10, 30, &plain()));
    assert!(!rect.is_hovered(30, 30, &plain()));
}

#[test]
fn rectangle_grows_by_half_its_stroke() {
    let rect = Rectangle { top: 10, left: 10, width: 20, height: 20 };
    let style = stroked(4);
    assert!(rect.is_hovered(8, 8, &style));
    assert!(!rect.is_hovered(7, 8, &style));
    assert!(rect.is_hovered(31, 31, &style));
    assert!(!rect.is_hovered(32, 31, &style));
    // An odd stroke reaches half a unit: the edge lies at 9.5 and at 30.5.
    let odd = stroked(1);
    assert!(rect.is_hovered(10, 10, &odd));
    assert!(!rect.is_hovered(9, 10, &odd));
    assert!(rect.is_hovered(30, 30, &odd));
    assert!(!rect.is_hovered(31, 30, &odd));
}

#[test]
fn rectangle_without_area_holds_nothing() {
    let flat = Rectangle { top: 10, left: 10, width: 0, height: 20 };
    assert!(!flat.is_hovered(10, 15, &plain()));
    let dot = Rectangle { top: 10, left: 10, width: 0, height: 0 };
    assert!(!dot.is_hovered(10, 10, &plain()));
    assert!(dot.is_hovered(10, 10, &stroked(2)));
}

#[test]
fn rectangle_with_a_negative_side_is_taken_from_its_far_edge() {
    let rect = Rectangle { top: 10, left: 30, width: -20, height: 20 };
    assert!(rect.is_hovered(20, 20, &plain()));
    assert!(rect.is_hovered(10, 20, &plain()));
    assert!(!rect.is_hovered(30, 20, &plain()));
    assert!(!rect.is_hovered(9, 20, &plain()));
}

#[test]
fn rectangle_follows_the_offset_of_its_style() {
    let rect = Rectangle { top: 10, left: 10, width: 20, height: 20 };
    let mut style = Style::new();
    style.translate(100, -5);
    assert!(rect.is_hovered(120, 15, &style));
    assert!(rect.is_hovered(110, 5, &style));
    assert!(!rect.is_hovered(20, 20, &style));
    assert!(!rect.is_hovered(130, 15, &style));
}

#[test]
fn rectangle_turned_a_quarter_about_its_middle() {
    // 40 wide and 10 high about the middle (20, 5): turned, 10 wide and 40 high.
    let rect = Rectangle { top: 0, left: 0, width: 40, height: 10 };
    let mut style = Style::new();
    style.rotation(quarter_turn(), Some(String::from("c")), None, None);
    assert!(rect.is_hovered(20, 5, &style));
    assert!(rect.is_hovered(20, 20, &style));
    assert!(rect.is_hovered(20, -10, &style));
    assert!(rect.is_hovered(16, -14, &style));
    assert!(!rect.is_hovered(35, 5, &style));
    assert!(!rect.is_hovered(5, 5, &style));
    assert!(!rect.is_hovered(20, 26, &style));
    assert!(!rect.is_hovered(14, 5, &style));
    assert!(!rect.is_hovered(26, 5, &style));
}

#[test]
fn rectangle_turned_a_quarter_about_its_top_left_corner() {
    // (x, y) goes to (-y, x): the box then spans x in -10..0 and y in 0..40.
    let rect = Rectangle { top: 0, left: 0, width: 40, height: 10 };
    let mut style = Style::new();
    style.rotation(quarter_turn(), Some(String::from("tl")), None, None);
    assert!(rect.is_hovered(-5, 20, &style));
    assert!(rect.is_hovered(-1, 39, &style));
    assert!(!rect.is_hovered(20, 5, &style));
    assert!(!rect.is_hovered(-11, 20, &style));
    assert!(!rect.is_hovered(-5, 41, &style));
}

#[test]
fn rectangle_turned_about_a_point_of_its_own_and_then_moved() {
    // Half a turn about (50, 50) sends (x, y) to (100 - x, 100 - y).
    let rect = Rectangle { top: 10, left: 10, width: 20, height: 20 };
    let mut style = Style::new();
    style.rotation(half_turn(), None, Some(50), Some(50));
    assert!(rect.is_hovered(80, 80, &style));
    assert!(rect.is_hovered(71, 89, &style));
    assert!(!rect.is_hovered(20, 20, &style));
    assert!(!rect.is_hovered(69, 80, &style));
    style.translate(-70, 0);
    assert!(rect.is_hovered(10, 80, &style));
    assert!(!rect.is_hovered(80, 80, &style));
}

#[test]
fn rectangle_turned_by_an_eighth() {
    // cos = sin = 11585 / 16384: a square of side 20 about its middle (10, 10)
    // becomes a diamond that reaches 14.14 from the middle along the axes.
    let rect = Rectangle { top: 0, left: 0, width: 20, height: 20 };
    let mut style = Style::new();
    style.rotation(Angle { cos: 11585, sin: 11585 }, Some(String::from("c")), None, None);
    assert!(rect.is_hovered(10, 10, &style));
    assert!(rect.is_hovered(10, 23, &style));
    assert!(rect.is_hovered(10, -3, &style));
    assert!(rect.is_hovered(23, 10, &style));
    assert!(rect.is_hovered(-3, 10, &style));
    assert!(!rect.is_hovered(10, 25, &style));
    assert!(!rect.is_hovered(25, 10, &style));
    assert!(!rect.is_hovered(1, 1, &style));
    assert!(!rect.is_hovered(19, 19, &style));
}

#[test]
fn corner_of_a_stroked_square_stays_on_it_when_turned() {
    let square = Rectangle { top: 10, left: 10, width: 20, height: 20 };
    let before = stroked(2);
    assert!(square.is_hovered(10, 10, &before));
    // A quarter turn about the middle (20, 20) takes the corner (10, 10) to (30, 10).
    let mut quarter = stroked(2);
    quarter.rotation(quarter_turn(), Some(String::from("c")), None, None);
    assert!(square.is_hovered(30, 10, &quarter));
    // Half a turn takes it to (30, 30).
    let mut half = stroked(2);
    half.rotation(half_turn(), Some(String::from("c")), None, None);
    assert!(square.is_hovered(30, 30, &half));
    // Three quarters take it to (10, 30).
    let mut three = stroked(2);
    three.rotation(Angle { cos: 0, sin: -ANGLE_UNIT }, Some(String::from("c")), None, None);
    assert!(square.is_hovered(10, 30, &three));
}

#[test]
fn corner_of_a_bare_square_is_on_its_edge() {
    let square = Rectangle { top: 10, left: 10, width: 20, height: 20 };
    assert!(square.is_hovered(10, 10, &plain()));
    // Without a stroke the turned corner lies on the outline itself; after
    // half a turn it lies on the two edges that do not count.
    let mut half = Style::new();
    half.rotation(half_turn(), Some(String::from("c")), None, None);
    assert!(!square.is_hovered(30, 30, &half));
    // After three quarters of a turn (cos 0, sin -1) it lies at the bottom-left.
    let mut three = Style::new();
    three.rotation(Angle { cos: 0, sin: -ANGLE_UNIT }, Some(String::from("c")), None, None);
    assert!(!square.is_hovered(10, 30, &three));
}

#[test]
fn hit_box_takes_edges_beyond_the_range_of_a_coordinate() {
    let left = i32::MAX as i64 + 10;
    assert!(!hit_box(left, 0, 20, 20, i32::MAX, 10, &plain()));
    assert!(hit_box(i32::MAX as i64 - 10, 0, 20, 20, i32::MAX, 10, &plain()));
    assert!(hit_box(i32::MIN as i64 - 5, i32::MIN as i64 - 5, 10, 10, i32::MIN, i32::MIN, &plain()));
}

#[test]
fn hit_box_at_the_ends_of_the_range() {
    let mut style = stroked(i32::MAX);
    style.translate(i32::MIN, i32::MAX);
    style.rotation(
        Angle { cos: i16::MIN, sin: i16::MAX },
        None,
        Some(i32::MAX),
        Some(i32::MIN),
    );
    let wide = 0x1_0000_0000i64;
    // Only that these do not overflow is looked for.
    let _ = hit_box(wide, wide, wide, wide, i32::MAX, i32::MIN, &style);
    let _ = hit_box(-wide, -wide, -wide, -wide, i32::MIN, i32::MAX, &style);
    let _ = hit_box(-wide, wide, wide, -wide, i32::MIN, i32::MIN, &style);
}

#[test]
fn circle_reaches_its_radius_and_half_its_stroke() {
    let circle = Circle { center: Point { x: 0, y: 0 }, radius: 5 };
    assert!(circle.is_hovered(0, 0, &plain()));
    assert!(circle.is_hovered(3, 4, &plain()));
    assert!(circle.is_hovered(5, 0, &plain()));
    assert!(!circle.is_hovered(4, 4, &plain()));
    assert!(!circle.is_hovered(6, 0, &plain()));
    let style = stroked(2);
    assert!(circle.is_hovered(6, 0, &style));
    assert!(!circle.is_hovered(7, 0, &style));
    // An odd stroke reaches half a unit further: 5.5 here.
    let odd = stroked(1);
    assert!(!circle.is_hovered(6, 0, &odd));
    assert!(circle.is_hovered(4, 3, &odd));
    assert!(!circle.is_hovered(4, 4, &odd));
}

#[test]
fn circle_follows_the_offset_and_not_the_turn_of_its_style() {
    let circle = Circle { center: Point { x: 10, y: 10 }, radius: 5 };
    let mut style = Style::new();
    style.translate(100, 0);
    assert!(circle.is_hovered(110, 10, &style));
    assert!(circle.is_hovered(113, 14, &style));
    assert!(!circle.is_hovered(10, 10, &style));
    style.rotation(quarter_turn(), Some(String::from("tl")), None, None);
    assert!(circle.is_hovered(110, 10, &style));
    assert!(!circle.is_hovered(10, 10, &style));
}

#[test]
fn circle_with_a_negative_reach_holds_nothing() {
    let circle = Circle { center: Point { x: 0, y: 0 }, radius: -3 };
    assert!(!circle.is_hovered(0, 0, &plain()));
    assert!(!circle.is_hovered(0, 0, &stroked(5)));
    assert!(circle.is_hovered(0, 0, &stroked(6)));
    let style = stroked(-11);
    let small = Circle { center: Point { x: 0, y: 0 }, radius: 5 };
    assert!(!small.is_hovered(0, 0, &style));
}

#[test]
fn circle_at_the_ends_of_the_range() {
    let circle = Circle { center: Point { x: i32::MIN, y: i32::MIN }, radius: i32::MAX };
    let mut style = stroked(i32::MAX);
    style.translate(i32::MIN, i32::MIN);
    assert!(!circle.is_hovered(i32::MAX, i32::MAX, &style));
    let near = Circle { center: Point { x: i32::MAX, y: i32::MAX }, radius: i32::MAX };
    assert!(near.is_hovered(i32::MAX, i32::MAX, &plain()));
}

#[test]
fn line_is_hit_within_half_its_stroke_on_the_side_it_counts() {
    let line = Line { start: Point { x: 0, y: 0 }, end: Point { x: 10, y: 0 } };
    let style = stroked(4);
    assert!(line.is_hovered(5, 0, &style));
    assert!(line.is_hovered(5, 2, &style));
    assert!(!line.is_hovered(5, 3, &style));
    assert!(line.is_hovered(0, 0, &style));
    assert!(line.is_hovered(10, 2, &style));
    assert!(!line.is_hovered(11, 0, &style));
    assert!(!line.is_hovered(-1, 0, &style));
    // The far side of the line is not counted.
    assert!(!line.is_hovered(5, -1, &style));
}

#[test]
fn line_without_a_stroke_is_hit_on_itself_alone() {
    let line = Line { start: Point { x: 0, y: 0 }, end: Point { x: 10, y: 10 } };
    assert!(line.is_hovered(5, 5, &plain()));
    assert!(line.is_hovered(10, 10, &plain()));
    assert!(!line.is_hovered(5, 6, &plain()));
    assert!(!line.is_hovered(11, 11, &plain()));
    assert!(!line.is_hovered(5, 5, &stroked(-2)));
}

#[test]
fn line_without_length_is_never_hit() {
    let line = Line { start: Point { x: 3, y: 3 }, end: Point { x: 3, y: 3 } };
    assert!(!line.is_hovered(3, 3, &plain()));
    assert!(!line.is_hovered(3, 3, &stroked(10)));
    assert!(!line.is_hovered(4, 3, &stroked(10)));
}

#[test]
fn line_whose_span_is_nothing_is_never_hit() {
    // From (0, 5) to (0, 10): the end's x times the way in x, less the
    // start's y times the way in y, is 0 * 0 - 5 * 5, which is negative;
    // from (5, 0) to (0, 5) it is 0 * -5 - 0 * 5, which is nothing.
    let line = Line { start: Point { x: 5, y: 0 }, end: Point { x: 0, y: 5 } };
    assert!(!line.is_hovered(3, 2, &stroked(4)));
    assert!(!line.is_hovered(5, 0, &stroked(4)));
}

#[test]
fn line_follows_the_offset_and_not_the_turn_of_its_style() {
    let line = Line { start: Point { x: 0, y: 0 }, end: Point { x: 10, y: 0 } };
    let mut style = stroked(4);
    style.translate(20, 30);
    assert!(line.is_hovered(25, 30, &style));
    assert!(line.is_hovered(25, 32, &style));
    assert!(!line.is_hovered(5, 0, &style));
    style.rotation(quarter_turn(), Some(String::from("tl")), None, None);
    assert!(line.is_hovered(25, 30, &style));
    assert!(!line.is_hovered(20, 35, &style));
}

#[test]
fn line_at_the_ends_of_the_range() {
    let line = Line {
        start: Point { x: i32::MIN, y: i32::MIN },
        end: Point { x: i32::MAX, y: i32::MAX },
    };
    let mut style = stroked(i32::MAX);
    assert!(line.is_hovered(0, 0, &style));
    assert!(line.is_hovered(i32::MAX, i32::MAX, &style));
    assert!(!line.is_hovered(i32::MAX, i32::MIN, &style));
    style.translate(i32::MAX, i32::MIN);
    let _ = line.is_hovered(i32::MIN, i32::MAX, &style);
    let back = Line {
        start: Point { x: i32::MAX, y: i32::MIN },
        end: Point { x: i32::MIN, y: i32::MAX },
    };
    let _ = back.is_hovered(i32::MIN, i32::MIN, &style);
}

#[test]
fn text_that_was_not_measured_is_hit_within_its_margin() {
    let text = Text { text: String::from("hello"), position: Point { x: 100, y: 50 }, shape: None };
    assert!(text.is_hovered(100, 50, &plain()));
    assert!(text.is_hovered(95, 45, &plain()));
    assert!(text.is_hovered(104, 54, &plain()));
    assert!(!text.is_hovered(105, 50, &plain()));
    assert!(!text.is_hovered(94, 50, &plain()));
    assert!(!text.is_hovered(100, 55, &plain()));
    let rect = text.get_rect();
    assert_eq!(rect, Rectangle { top: 50, left: 100, width: 0, height: 0 });
}

#[test]
fn text_that_was_measured_is_hit_within_its_box_and_margin() {
    let mut text =
        Text { text: String::from("hello"), position: Point { x: 100, y: 50 }, shape: None };
    text.set_measured(40, 16);
    assert_eq!(text.shape, Some(Size { width: 40, height: 16 }));
    assert_eq!(text.get_rect(), Rectangle { top: 50, left: 100, width: 40, height: 16 });
    assert!(text.is_hovered(120, 58, &plain()));
    assert!(text.is_hovered(95, 45, &plain()));
    assert!(text.is_hovered(144, 70, &plain()));
    assert!(!text.is_hovered(145, 58, &plain()));
    assert!(!text.is_hovered(120, 71, &plain()));
    // The frame is stroked and turned as a rectangle is.
    let mut style = stroked(2);
    assert!(text.is_hovered(145, 58, &style));
    style.rotation(quarter_turn(), Some(String::from("tl")), None, None);
    // The stroked frame spans 94..146 and 44..72; about (94, 44) it turns to
    // x in 66..94 and y in 44..96.
    assert!(text.is_hovered(80, 90, &style));
    assert!(!text.is_hovered(120, 58, &style));
}

#[test]
fn text_at_the_ends_of_the_range() {
    let mut text = Text {
        text: String::new(),
        position: Point { x: i32::MIN, y: i32::MAX },
        shape: None,
    };
    assert!(text.is_hovered(i32::MIN, i32::MAX, &plain()));
    text.set_measured(i32::MAX, i32::MAX);
    assert!(text.is_hovered(0, i32::MAX, &plain()));
    text.set_measured(i32::MIN, i32::MIN);
    let _ = text.is_hovered(0, 0, &stroked(i32::MIN));
}

#[test]
fn shapes_move_by_what_they_are_told() {
    let mut line = Line { start: Point { x: 1, y: 2 }, end: Point { x: 3, y: 4 } };
    line.translate(10, -10);
    assert_eq!(line, Line { start: Point { x: 11, y: -8 }, end: Point { x: 13, y: -6 } });
    let mut rect = Rectangle { top: 1, left: 2, width: 3, height: 4 };
    rect.translate(10, -10);
    assert_eq!(rect, Rectangle { top: -9, left: 12, width: 3, height: 4 });
    let mut circle = Circle { center: Point { x: 1, y: 2 }, radius: 3 };
    circle.translate(10, -10);
    assert_eq!(circle, Circle { center: Point { x: 11, y: -8 }, radius: 3 });
    let mut text = Text { text: String::from("t"), position: Point { x: 1, y: 2 }, shape: None };
    text.translate(10, -10);
    assert_eq!(text.position, Point { x: 11, y: -8 });
    assert_eq!(text.text, "t");
    assert_eq!(text.shape, None);
    assert_eq!(Point { x: 1, y: 2 }.translate(-1, -2), Point { x: 0, y: 0 });
}

#[test]
fn shapes_stop_at_the_ends_of_the_range_when_moved() {
    let mut rect = Rectangle { top: i32::MAX - 1, left: i32::MIN + 1, width: 3, height: 4 };
    rect.translate(-5, 5);
    assert_eq!(rect, Rectangle { top: i32::MAX, left: i32::MIN, width: 3, height: 4 });
    let mut line = Line { start: Point { x: i32::MAX - 1, y: 0 }, end: Point { x: 0, y: 0 } };
    line.translate(5, 0);
    assert_eq!(line, Line { start: Point { x: i32::MAX, y: 0 }, end: Point { x: 5, y: 0 } });
}

#[test]
fn shapes_span_their_boxes() {
    let line = Line { start: Point { x: 5, y: 20 }, end: Point { x: 1, y: 30 } };
    assert_eq!(line.get_rect(), Rectangle { top: 20, left: 5, width: -4, height: 10 });
    let far = Line { start: Point { x: i32::MIN, y: 0 }, end: Point { x: i32::MAX, y: 0 } };
    assert_eq!(far.get_rect(), Rectangle { top: 0, left: i32::MIN, width: i32::MAX, height: 0 });
    let circle = Circle { center: Point { x: 10, y: 20 }, radius: 4 };
    assert_eq!(circle.get_rect(), Rectangle { top: 16, left: 6, width: 8, height: 8 });
    let big = Circle { center: Point { x: i32::MIN, y: 0 }, radius: i32::MAX };
    assert_eq!(
        big.get_rect(),
        Rectangle { top: -i32::MAX, left: i32::MIN, width: i32::MAX, height: i32::MAX }
    );
    let rect = Rectangle { top: 1, left: 2, width: 3, height: 4 };
    assert_eq!(rect.get_rect(), rect);
}

#[test]
fn control_points_are_placed_in_quarters_on_a_box_in_halves() {
    assert_eq!(ControlPoint::TopLeft.resolve_coords(3, 5, 7, 9), (6, 10));
    assert_eq!(ControlPoint::TopRight.resolve_coords(3, 5, 7, 9), (20, 10));
    assert_eq!(ControlPoint::BottomLeft.resolve_coords(3, 5, 7, 9), (6, 28));
    assert_eq!(ControlPoint::BottomRight.resolve_coords(3, 5, 7, 9), (20, 28));
    assert_eq!(ControlPoint::Center.resolve_coords(3, 5, 7, 9), (13, 19));
    assert_eq!(ControlPoint::Custom(-2, 11).resolve_coords(3, 5, 7, 9), (-8, 44));
}

#[test]
fn box_and_point_moved_together_stay_as_they_were() {
    let mut style = stroked(3);
    style.rotation(Angle { cos: 14189, sin: 8192 }, Some(String::from("br")), None, None);
    style.translate(7, -9);
    let rect = Rectangle { top: 10, left: 20, width: 30, height: 16 };
    let mut moved = rect;
    moved.translate(1000, -2000);
    for x in 0..80 {
        for y in -20..60 {
            assert_eq!(
                rect.is_hovered(x, y, &style),
                moved.is_hovered(x + 1000, y - 2000, &style)
            );
        }
    }
}

#[test]
fn offset_of_the_style_moves_a_box_as_moving_the_box_does() {
    let mut style = stroked(3);
    style.rotation(Angle { cos: 14189, sin: 8192 }, None, Some(25), Some(30));
    let mut grown = style.clone();
    grown.translate(40, 50);
    let rect = Rectangle { top: 10, left: 20, width: 30, height: 16 };
    let mut hits = 0;
    for x in 0..80 {
        for y in -20..60 {
            let hit = rect.is_hovered(x, y, &style);
            assert_eq!(hit, rect.is_hovered(x + 40, y + 50, &grown));
            if hit {
                hits += 1;
            }
        }
    }
    // The stroked box is 33 by 19: the turn keeps its area, give or take its edge.
    assert!(hits > 33 * 19 - 60 && hits < 33 * 19 + 60);
}

#[test]
fn turned_box_holds_what_lies_inside_and_nothing_that_lies_outside() {
    // Turned by the angle with cosine 0.8 and sine 0.6 about the origin, the
    // point (x, y) of the box lies at (0.8 x - 0.6 y, 0.6 x + 0.8 y).
    let mut style = Style::new();
    style.rotation(Angle { cos: 13107, sin: 9830 }, None, Some(0), Some(0));
    let rect = Rectangle { top: 0, left: 0, width: 50, height: 25 };
    assert!(rect.is_hovered(8 - 6, 6 + 8, &style));
    assert!(rect.is_hovered(32 - 12, 24 + 16, &style));
    assert!(rect.is_hovered(36, 29, &style));
    assert!(!rect.is_hovered(41, 31, &style));
    assert!(!rect.is_hovered(10, 0, &style));
    assert!(!rect.is_hovered(-16, 20, &style));
    assert!(rect.is_hovered(-13, 20, &style));
    assert!(!rect.is_hovered(0, -1, &style));
}

#[test]
fn angle_without_a_direction_hits_nothing() {
    let mut style = stroked(4);
    style.rotation(Angle { cos: 0, sin: 0 }, Some(String::from("c")), None, None);
    let rect = Rectangle { top: 0, left: 0, width: 50, height: 25 };
    for x in -5..60 {
        for y in -5..30 {
            assert!(!rect.is_hovered(x, y, &style));
        }
    }
}
