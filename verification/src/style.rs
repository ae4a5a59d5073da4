use vstd::prelude::*;
use vstd::string::StrSliceExecFns;

verus! {

/// The value that stands for 1 in the two components of an [`Angle`].
pub const ANGLE_UNIT: i16 = 16384;

/// A rotation, held as the cosine and the sine of its angle, each in units
/// of 1/[`ANGLE_UNIT`]. Positive angles turn the x axis towards the y axis.
#[derive(Debug, Clone, Copy, PartialEq, Eq, Structural)]
pub struct Angle {
    pub cos: i16,
    pub sin: i16,
}

/// The point about which a rotation turns, relative to the box of the shape
/// that carries the style, or at a place of its own.
#[derive(Debug, Clone, Copy, PartialEq, Eq, Structural)]
pub enum ControlPoint {
    TopLeft,
    TopRight,
    BottomLeft,
    BottomRight,
    Center,
    Custom(i32, i32),
}

/// The control point that a short name stands for. Every name but the nine
/// listed here stands for the custom point at the origin.
pub open spec fn control_point_of(name: Seq<char>) -> ControlPoint {
    if name == seq!['t', 'l'] || name == seq!['l', 't'] {
        ControlPoint::TopLeft
    } else if name == seq!['t', 'r'] || name == seq!['r', 't'] {
        ControlPoint::TopRight
    } else if name == seq!['b', 'l'] || name == seq!['l', 'b'] {
        ControlPoint::BottomLeft
    } else if name == seq!['b', 'r'] || name == seq!['r', 'b'] {
        ControlPoint::BottomRight
    } else if name == seq!['c'] {
        ControlPoint::Center
    } else {
        ControlPoint::Custom(0, 0)
    }
}

/// Four times the control point's coordinates, for a box whose left and top
/// edge, width and height are given doubled. Working in quarters keeps the
/// centre of a box with an odd side, grown by an odd stroke, a whole number.
pub open spec fn pivot_quarters(
    cp: ControlPoint,
    left2: int,
    top2: int,
    width2: int,
    height2: int,
) -> (int, int) {
    match cp {
        ControlPoint::TopLeft => (2 * left2, 2 * top2),
        ControlPoint::TopRight => (2 * left2 + 2 * width2, 2 * top2),
        ControlPoint::BottomLeft => (2 * left2, 2 * top2 + 2 * height2),
        ControlPoint::BottomRight => (2 * left2 + 2 * width2, 2 * top2 + 2 * height2),
        ControlPoint::Center => (2 * left2 + width2, 2 * top2 + height2),
        ControlPoint::Custom(x, y) => (4 * x, 4 * y),
    }
}

/// The largest magnitude of a doubled box measure that
/// [`ControlPoint::resolve_coords`] takes.
pub open spec fn pivot_input_limit() -> int {
    0x10_0000_0000
}

fn two_chars(s: &str, a: char, b: char) -> (r: bool)
    ensures
        r == (s@ == seq![a, b]),
{
    if s.unicode_len() != 2 {
        return false;
    }
    let r = s.get_char(0) == a && s.get_char(1) == b;
    proof {
        if r {
            assert(s@ =~= seq![a, b]);
        }
    }
    r
}

fn one_char(s: &str, a: char) -> (r: bool)
    ensures
        r == (s@ == seq![a]),
{
    if s.unicode_len() != 1 {
        return false;
    }
    let r = s.get_char(0) == a;
    proof {
        if r {
            assert(s@ =~= seq![a]);
        }
    }
    r
}

impl ControlPoint {
    /// Reads a control point from its short name.
    pub fn from_str(s: &str) -> (r: Self)
        ensures
            r == control_point_of(s@),
    {
        if two_chars(s, 't', 'l') || two_chars(s, 'l', 't') {
            ControlPoint::TopLeft
        } else if two_chars(s, 't', 'r') || two_chars(s, 'r', 't') {
            ControlPoint::TopRight
        } else if two_chars(s, 'b', 'l') || two_chars(s, 'l', 'b') {
            ControlPoint::BottomLeft
        } else if two_chars(s, 'b', 'r') || two_chars(s, 'r', 'b') {
            ControlPoint::BottomRight
        } else if one_char(s, 'c') {
            ControlPoint::Center
        } else {
            ControlPoint::Custom(0, 0)
        }
    }

    /// Places the control point on a box. The box comes in halves of a unit
    /// and the point is returned in quarters.
    pub fn resolve_coords(&self, left2: i64, top2: i64, width2: i64, height2: i64) -> (r: (
        i64,
        i64,
    ))
        requires
            -pivot_input_limit() <= left2 <= pivot_input_limit(),
            -pivot_input_limit() <= top2 <= pivot_input_limit(),
            -pivot_input_limit() <= width2 <= pivot_input_limit(),
            -pivot_input_limit() <= height2 <= pivot_input_limit(),
        ensures
            (r.0 as int, r.1 as int) == pivot_quarters(
                *self,
                left2 as int,
                top2 as int,
                width2 as int,
                height2 as int,
            ),
    {
        match *self {
            ControlPoint::TopLeft => (2 * left2, 2 * top2),
            ControlPoint::TopRight => (2 * left2 + 2 * width2, 2 * top2),
            ControlPoint::BottomLeft => (2 * left2, 2 * top2 + 2 * height2),
            ControlPoint::BottomRight => (2 * left2 + 2 * width2, 2 * top2 + 2 * height2),
            ControlPoint::Center => (2 * left2 + width2, 2 * top2 + height2),
            ControlPoint::Custom(x, y) => (4 * (x as i64), 4 * (y as i64)),
        }
    }
}

/// How a shape is painted and placed. Every field may be unset, and an
/// unset field leaves that aspect alone.
#[derive(Debug, PartialEq, Eq)]
pub struct Style {
    pub fill_color: Option<String>,
    pub stroke_width: Option<i32>,
    pub stroke_color: Option<String>,
    pub font_size: Option<i32>,
    pub rotation: Option<(Angle, ControlPoint)>,
    pub translate: Option<(i32, i32)>,
}

/// `over` where it is set, else `under`.
pub open spec fn or_else<T>(over: Option<T>, under: Option<T>) -> Option<T> {
    match over {
        Some(_) => over,
        None => under,
    }
}

/// The field-by-field merge of two styles: each field of `patch` that is set
/// wins, each that is unset leaves the field of `base` as it is.
pub open spec fn patched(base: Style, patch: Style) -> Style {
    Style {
        fill_color: or_else(patch.fill_color, base.fill_color),
        stroke_width: or_else(patch.stroke_width, base.stroke_width),
        stroke_color: or_else(patch.stroke_color, base.stroke_color),
        font_size: or_else(patch.font_size, base.font_size),
        rotation: or_else(patch.rotation, base.rotation),
        translate: or_else(patch.translate, base.translate),
    }
}

/// The style with every field unset.
pub open spec fn unset_style() -> Style {
    Style {
        fill_color: None,
        stroke_width: None,
        stroke_color: None,
        font_size: None,
        rotation: None,
        translate: None,
    }
}

fn copy_text(s: &Option<String>) -> (r: Option<String>)
    ensures
        r == *s,
{
    match s {
        Some(t) => Some(t.clone()),
        None => None,
    }
}

impl Clone for Style {
    fn clone(&self) -> (r: Self)
        ensures
            r == *self,
    {
        Style {
            fill_color: copy_text(&self.fill_color),
            stroke_width: self.stroke_width,
            stroke_color: copy_text(&self.stroke_color),
            font_size: self.font_size,
            rotation: self.rotation,
            translate: self.translate,
        }
    }
}

impl Style {
    /// A style with every field unset.
    pub fn new() -> (r: Self)
        ensures
            r == unset_style(),
    {
        Style {
            fill_color: None,
            stroke_width: None,
            stroke_color: None,
            font_size: None,
            rotation: None,
            translate: None,
        }
    }

    /// Sets the fill colour.
    pub fn fill_color(&mut self, color: String) -> (ret: &mut Self)
        ensures
            *ret == (Style { fill_color: Some(color), ..*old(self) }),
            *final(self) == *final(ret),
    {
        self.fill_color = Some(color);
        self
    }

    /// Unsets the fill colour.
    pub fn reset_fill_color(&mut self) -> (ret: &mut Self)
        ensures
            *ret == (Style { fill_color: None, ..*old(self) }),
            *final(self) == *final(ret),
    {
        self.fill_color = None;
        self
    }

    /// Sets the font size.
    pub fn font_size(&mut self, size: i32) -> (ret: &mut Self)
        ensures
            *ret == (Style { font_size: Some(size), ..*old(self) }),
            *final(self) == *final(ret),
    {
        self.font_size = Some(size);
        self
    }

    /// Unsets the font size.
    pub fn reset_font_size(&mut self) -> (ret: &mut Self)
        ensures
            *ret == (Style { font_size: None, ..*old(self) }),
            *final(self) == *final(ret),
    {
        self.font_size = None;
        self
    }

    /// Sets the stroke's width and colour.
    pub fn stroke(&mut self, width: i32, color: String) -> (ret: &mut Self)
        ensures
            *ret == (Style { stroke_width: Some(width), stroke_color: Some(color), ..*old(self) }),
            *final(self) == *final(ret),
    {
        self.stroke_width = Some(width);
        self.stroke_color = Some(color);
        self
    }

    /// Unsets the stroke's width and colour.
    pub fn reset_stroke(&mut self) -> (ret: &mut Self)
        ensures
            *ret == (Style { stroke_width: None, stroke_color: None, ..*old(self) }),
            *final(self) == *final(ret),
    {
        self.stroke_width = None;
        self.stroke_color = None;
        self
    }

    /// Sets the offset by which the shape is moved.
    pub fn translate(&mut self, x: i32, y: i32) -> (ret: &mut Self)
        ensures
            *ret == (Style { translate: Some((x, y)), ..*old(self) }),
            *final(self) == *final(ret),
    {
        self.translate = Some((x, y));
        self
    }

    /// Unsets the offset.
    pub fn reset_translate(&mut self) -> (ret: &mut Self)
        ensures
            *ret == (Style { translate: None, ..*old(self) }),
            *final(self) == *final(ret),
    {
        self.translate = None;
        self
    }

    /// Sets the rotation: the angle, and the control point that the name
    /// stands for. Where the name stands for a custom point, that point is
    /// `(x, y)`, each taken as zero where it is absent.
    pub fn rotation(
        &mut self,
        rotation: Angle,
        control_point: Option<String>,
        x: Option<i32>,
        y: Option<i32>,
    ) -> (ret: &mut Self)
        ensures
            *ret == (Style {
                rotation: Some((rotation, named_pivot(control_point, x, y))),
                ..*old(self)
            }),
            *final(self) == *final(ret),
    {
        let named = match &control_point {
            Some(name) => ControlPoint::from_str(name.as_str()),
            None => ControlPoint::Custom(0, 0),
        };
        let pivot = match named {
            ControlPoint::Custom(_, _) => ControlPoint::Custom(
                match x {
                    Some(v) => v,
                    None => 0,
                },
                match y {
                    Some(v) => v,
                    None => 0,
                },
            ),
            _ => named,
        };
        self.rotation = Some((rotation, pivot));
        self
    }

    /// Merges `other` over this style: every field that `other` sets is
    /// taken from it, every other field is kept.
    pub fn patch(self, other: Style) -> (r: Style)
        ensures
            r == patched(self, other),
    {
        Style {
            fill_color: match other.fill_color {
                Some(v) => Some(v),
                None => self.fill_color,
            },
            stroke_width: match other.stroke_width {
                Some(v) => Some(v),
                None => self.stroke_width,
            },
            stroke_color: match other.stroke_color {
                Some(v) => Some(v),
                None => self.stroke_color,
            },
            font_size: match other.font_size {
                Some(v) => Some(v),
                None => self.font_size,
            },
            rotation: match other.rotation {
                Some(v) => Some(v),
                None => self.rotation,
            },
            translate: match other.translate {
                Some(v) => Some(v),
                None => self.translate,
            },
        }
    }
}

/// The control point that an optional name and optional coordinates give:
/// the named one of the five anchors, else the custom point at the
/// coordinates, each taken as zero where it is absent.
pub open spec fn named_pivot(name: Option<String>, x: Option<i32>, y: Option<i32>) -> ControlPoint {
    let named = match name {
        Some(n) => control_point_of(n@),
        None => ControlPoint::Custom(0, 0),
    };
    match named {
        ControlPoint::Custom(_, _) => ControlPoint::Custom(
            match x {
                Some(v) => v,
                None => 0,
            },
            match y {
                Some(v) => v,
                None => 0,
            },
        ),
        _ => named,
    }
}

} // verus!
