use canvas_scene::style::{Angle, ControlPoint, Style, ANGLE_UNIT};

fn full() -> Style {
    let mut style = Style::new();
    style
        .fill_color(String::from("blue"))
        .stroke(3, String::from("black"))
        .font_size(12)
        .translate(4, 5)
        .rotation(Angle { cos: 0, sin: ANGLE_UNIT }, Some(String::from("br")), None, None);
    style
}

fn same(a: &Style, b: &Style) -> bool {
    a.fill_color == b.fill_color
        && a.stroke_width == b.stroke_width
        && a.stroke_color == b.stroke_color
        && a.font_size == b.font_size
        && a.rotation == b.rotation
        && a.translate == b.translate
}

#[test]
fn new_style_sets_nothing() {
    let style = Style::new();
    assert_eq!(style.fill_color, None);
    assert_eq!(style.stroke_width, None);
    assert_eq!(style.stroke_color, None);
    assert_eq!(style.font_size, None);
    assert_eq!(style.rotation, None);
    assert_eq!(style.translate, None);
}

#[test]
fn setters_set_their_own_field_and_chain() {
    let style = full();
    assert_eq!(style.fill_color, Some(String::from("blue")));
    assert_eq!(style.stroke_width, Some(3));
    assert_eq!(style.stroke_color, Some(String::from("black")));
    assert_eq!(style.font_size, Some(12));
    assert_eq!(style.translate, Some((4, 5)));
    assert_eq!(
        style.rotation,
        Some((Angle { cos: 0, sin: ANGLE_UNIT }, ControlPoint::BottomRight))
    );
}

#[test]
fn resets_unset_their_own_field_alone() {
    let mut style = full();
    style.reset_fill_color();
    assert_eq!(style.fill_color, None);
    assert_eq!(style.stroke_width, Some(3));
    style.reset_stroke();
    assert_eq!(style.stroke_width, None);
    assert_eq!(style.stroke_color, None);
    assert_eq!(style.font_size, Some(12));
    style.reset_font_size();
    assert_eq!(style.font_size, None);
    assert_eq!(style.translate, Some((4, 5)));
    style.reset_translate();
    assert_eq!(style.translate, None);
    assert!(style.rotation.is_some());
}

#[test]
fn clone_copies_every_field() {
    let style = full();
    assert!(same(&style.clone(), &style));
    assert!(same(&Style::new().clone(), &Style::new()));
}

#[test]
fn control_points_have_two_names_each() {
    assert_eq!(ControlPoint::from_str("tl"), ControlPoint::TopLeft);
    assert_eq!(ControlPoint::from_str("lt"), ControlPoint::TopLeft);
    assert_eq!(ControlPoint::from_str("tr"), ControlPoint::TopRight);
    assert_eq!(ControlPoint::from_str("rt"), ControlPoint::TopRight);
    assert_eq!(ControlPoint::from_str("bl"), ControlPoint::BottomLeft);
    assert_eq!(ControlPoint::from_str("lb"), ControlPoint::BottomLeft);
    assert_eq!(ControlPoint::from_str("br"), ControlPoint::BottomRight);
    assert_eq!(ControlPoint::from_str("rb"), ControlPoint::BottomRight);
    assert_eq!(ControlPoint::from_str("c"), ControlPoint::Center);
}

#[test]
fn unknown_names_stand_for_the_origin() {
    for name in ["", "t", "center", "TL", "tl ", "cc", "xy", "\u{e9}", "t\u{e9}"] {
        assert_eq!(ControlPoint::from_str(name), ControlPoint::Custom(0, 0));
    }
}

#[test]
fn rotation_takes_the_named_anchor_or_the_given_point() {
    let angle = Angle { cos: 100, sin: -200 };
    let mut style = Style::new();
    style.rotation(angle, Some(String::from("c")), Some(7), Some(8));
    assert_eq!(style.rotation, Some((angle, ControlPoint::Center)));
    style.rotation(angle, Some(String::from("nowhere")), Some(7), Some(8));
    assert_eq!(style.rotation, Some((angle, ControlPoint::Custom(7, 8))));
    style.rotation(angle, None, Some(7), None);
    assert_eq!(style.rotation, Some((angle, ControlPoint::Custom(7, 0))));
    style.rotation(angle, None, None, Some(-8));
    assert_eq!(style.rotation, Some((angle, ControlPoint::Custom(0, -8))));
    style.rotation(angle, None, None, None);
    assert_eq!(style.rotation, Some((angle, ControlPoint::Custom(0, 0))));
}

#[test]
fn patch_of_the_fill_colour_changes_the_fill_colour_alone() {
    let base = full();
    let mut patch = Style::new();
    patch.fill_color(String::from("red"));
    let merged = base.clone().patch(patch);
    assert_eq!(merged.fill_color, Some(String::from("red")));
    assert_eq!(merged.stroke_width, base.stroke_width);
    assert_eq!(merged.stroke_color, base.stroke_color);
    assert_eq!(merged.font_size, base.font_size);
    assert_eq!(merged.rotation, base.rotation);
    assert_eq!(merged.translate, base.translate);
}

#[test]
fn patch_that_sets_nothing_changes_nothing() {
    let base = full();
    assert!(same(&base.clone().patch(Style::new()), &base));
    assert!(same(&Style::new().patch(Style::new()), &Style::new()));
}

#[test]
fn patch_takes_every_field_that_it_sets() {
    let base = full();
    let mut patch = Style::new();
    patch.stroke(9, String::from("green")).translate(-1, -2);
    let merged = base.clone().patch(patch);
    assert_eq!(merged.fill_color, Some(String::from("blue")));
    assert_eq!(merged.stroke_width, Some(9));
    assert_eq!(merged.stroke_color, Some(String::from("green")));
    assert_eq!(merged.font_size, Some(12));
    assert_eq!(merged.translate, Some((-1, -2)));
    assert_eq!(merged.rotation, base.rotation);
    // The width and the colour of the stroke are fields of their own.
    let mut width_only = Style::new();
    width_only.stroke_width = Some(1);
    let merged = base.clone().patch(width_only);
    assert_eq!(merged.stroke_width, Some(1));
    assert_eq!(merged.stroke_color, Some(String::from("black")));
}

#[test]
fn patch_over_an_unset_style_is_the_patch() {
    assert!(same(&Style::new().patch(full()), &full()));
}
