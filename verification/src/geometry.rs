use crate::arith::{clamp_coord, coord_delta, lemma_product_bound, mul_wide, offset_coord};
use crate::style::{pivot_quarters, Style, ANGLE_UNIT};
use vstd::prelude::*;
use vstd::std_specs::convert::FromSpecImpl;

verus! {

/// The margin, on every side, between a text's measured box and the frame
/// that is hit-tested and drawn around it.
pub const BOUNDING_BOX_MARGIN: i32 = 5;

/// A place on the surface.
#[derive(Debug, Clone, Copy, PartialEq, Eq, Structural)]
pub struct Point {
    pub x: i32,
    pub y: i32,
}

/// A width and a height.
#[derive(Debug, Clone, Copy, PartialEq, Eq, Structural)]
pub struct Size {
    pub width: i32,
    pub height: i32,
}

/// The segment from `start` to `end`.
#[derive(Debug, Clone, Copy, PartialEq, Eq, Structural)]
pub struct Line {
    pub start: Point,
    pub end: Point,
}

/// The box with its top-left corner at `(left, top)`. A negative width
/// or height puts the corner on the other side.
#[derive(Debug, Clone, Copy, PartialEq, Eq, Structural)]
pub struct Rectangle {
    pub top: i32,
    pub left: i32,
    pub width: i32,
    pub height: i32,
}

/// The disc about `center`.
#[derive(Debug, Clone, Copy, PartialEq, Eq, Structural)]
pub struct Circle {
    pub center: Point,
    pub radius: i32,
}

/// A piece of text at a position. Its size is unknown until it has been
/// measured, and counts as zero until then.
#[derive(Debug, PartialEq, Eq)]
pub struct Text {
    pub text: String,
    pub position: Point,
    pub shape: Option<Size>,
}

/// The style's offset, or none.
pub open spec fn offset_of(style: Style) -> (int, int) {
    match style.translate {
        Some((tx, ty)) => (tx as int, ty as int),
        None => (0, 0),
    }
}

/// The style's stroke width, or none.
pub open spec fn stroke_of(style: Style) -> int {
    match style.stroke_width {
        Some(w) => w as int,
        None => 0,
    }
}

/// A point turned about a pivot and then moved.
///
/// The point and the pivot are given in quarters of a unit and the offset in
/// whole units. The angle's cosine and sine are `cos` and `sin` over
/// `ANGLE_UNIT`; the result is in quarters of a unit times `ANGLE_UNIT`, so
/// that nothing is rounded.
pub open spec fn placed(
    point: (int, int),
    pivot: (int, int),
    cos: int,
    sin: int,
    offset: (int, int),
) -> (int, int) {
    let dx = point.0 - pivot.0;
    let dy = point.1 - pivot.1;
    (
        ANGLE_UNIT * (pivot.0 + 4 * offset.0) + (cos * dx - sin * dy),
        ANGLE_UNIT * (pivot.1 + 4 * offset.1) + (sin * dx + cos * dy),
    )
}

/// Whether the ray that leaves `p` towards growing x crosses the edge from
/// `a` to `b`.
///
/// The edge is crossed when `p.1` separates the edge's ends (an end at the
/// height of `p` counts as above it) and `p.0` is less than the x at which
/// the edge reaches that height, `a.0 + (b.0 - a.0) * (p.1 - a.1) / (b.1 - a.1)`.
/// The comparison is stated multiplied through by `b.1 - a.1`.
pub open spec fn crosses(p: (int, int), a: (int, int), b: (int, int)) -> bool {
    &&& (p.1 < a.1) != (p.1 < b.1)
    &&& if b.1 > a.1 {
        (p.0 - a.0) * (b.1 - a.1) < (b.0 - a.0) * (p.1 - a.1)
    } else {
        (p.0 - a.0) * (b.1 - a.1) > (b.0 - a.0) * (p.1 - a.1)
    }
}

/// Whether the ray from `p` crosses an odd number of the four edges of the
/// outline `c0`, `c1`, `c2`, `c3`, taken in a ring.
pub open spec fn odd_crossings(
    p: (int, int),
    c0: (int, int),
    c1: (int, int),
    c2: (int, int),
    c3: (int, int),
) -> bool {
    (crosses(p, c0, c1) != crosses(p, c1, c2)) != (crosses(p, c2, c3) != crosses(p, c3, c0))
}

/// The cosine, the sine and the pivot (in quarters of a unit) by which the
/// style turns a box whose left and top edge, width and height are given
/// doubled. A style without a rotation turns by the angle zero.
pub open spec fn turn_of(style: Style, left2: int, top2: int, width2: int, height2: int) -> (
    int,
    int,
    (int, int),
) {
    match style.rotation {
        Some((angle, cp)) => (
            angle.cos as int,
            angle.sin as int,
            pivot_quarters(cp, left2, top2, width2, height2),
        ),
        None => (ANGLE_UNIT as int, 0, (0, 0)),
    }
}

/// The corner of the stroked box that lies at one of its two x edges and at
/// one of its two y edges, as the style places it.
///
/// The box is first grown by half the stroke width on every side, then
/// turned about the style's pivot, then moved by the style's offset.
pub open spec fn box_corner(
    left: int,
    top: int,
    width: int,
    height: int,
    style: Style,
    at_right: bool,
    at_bottom: bool,
) -> (int, int) {
    let stroke = stroke_of(style);
    let left2 = 2 * left - stroke;
    let top2 = 2 * top - stroke;
    let width2 = 2 * width + 2 * stroke;
    let height2 = 2 * height + 2 * stroke;
    let turn = turn_of(style, left2, top2, width2, height2);
    let x = if at_right {
        2 * left2 + 2 * width2
    } else {
        2 * left2
    };
    let y = if at_bottom {
        2 * top2 + 2 * height2
    } else {
        2 * top2
    };
    placed((x, y), turn.2, turn.0, turn.1, offset_of(style))
}

/// A query point in the units of [`placed`].
pub open spec fn probe(x: int, y: int) -> (int, int) {
    (4 * ANGLE_UNIT * x, 4 * ANGLE_UNIT * y)
}

/// Whether the point `(x, y)` is on the box with the given edges and sides,
/// as the style strokes, turns and moves it: the even-odd rule over the
/// four placed corners, taken top-left, top-right, bottom-right, bottom-left.
pub open spec fn box_hit(
    left: int,
    top: int,
    width: int,
    height: int,
    x: int,
    y: int,
    style: Style,
) -> bool {
    odd_crossings(
        probe(x, y),
        box_corner(left, top, width, height, style, false, false),
        box_corner(left, top, width, height, style, true, false),
        box_corner(left, top, width, height, style, true, true),
        box_corner(left, top, width, height, style, false, true),
    )
}

/// The largest magnitude of an edge or a side that [`hit_box`] takes.
pub open spec fn box_limit() -> int {
    0x1_0000_0000
}

/// The largest magnitude of a coordinate in the units of [`placed`] that
/// the hit test works with.
pub open spec fn placed_limit() -> int {
    0x40_0000_0000_0000
}

fn place(point: (i64, i64), pivot: (i64, i64), cos: i16, sin: i16, offset: (i32, i32)) -> (r: (
    i128,
    i128,
))
    requires
        -0x10_0000_0000 <= point.0 <= 0x10_0000_0000,
        -0x10_0000_0000 <= point.1 <= 0x10_0000_0000,
        -0x10_0000_0000 <= pivot.0 <= 0x10_0000_0000,
        -0x10_0000_0000 <= pivot.1 <= 0x10_0000_0000,
    ensures
        (r.0 as int, r.1 as int) == placed(
            (point.0 as int, point.1 as int),
            (pivot.0 as int, pivot.1 as int),
            cos as int,
            sin as int,
            (offset.0 as int, offset.1 as int),
        ),
        -placed_limit() <= r.0 <= placed_limit(),
        -placed_limit() <= r.1 <= placed_limit(),
{
    let dx: i128 = point.0 as i128 - pivot.0 as i128;
    let dy: i128 = point.1 as i128 - pivot.1 as i128;
    let c: i128 = cos as i128;
    let s: i128 = sin as i128;
    let unit: i128 = ANGLE_UNIT as i128;
    proof {
        lemma_product_bound(c as int, dx as int, 0x8000, 0x20_0000_0000);
        lemma_product_bound(s as int, dy as int, 0x8000, 0x20_0000_0000);
        lemma_product_bound(s as int, dx as int, 0x8000, 0x20_0000_0000);
        lemma_product_bound(c as int, dy as int, 0x8000, 0x20_0000_0000);
    }
    let base_x: i128 = unit * (pivot.0 as i128 + 4 * (offset.0 as i128));
    let base_y: i128 = unit * (pivot.1 as i128 + 4 * (offset.1 as i128));
    let x: i128 = base_x + (mul_wide(c, dx) - mul_wide(s, dy));
    let y: i128 = base_y + (mul_wide(s, dx) + mul_wide(c, dy));
    (x, y)
}

fn edge_crossed(p: (i128, i128), a: (i128, i128), b: (i128, i128)) -> (r: bool)
    requires
        -placed_limit() <= p.0 <= placed_limit(),
        -placed_limit() <= p.1 <= placed_limit(),
        -placed_limit() <= a.0 <= placed_limit(),
        -placed_limit() <= a.1 <= placed_limit(),
        -placed_limit() <= b.0 <= placed_limit(),
        -placed_limit() <= b.1 <= placed_limit(),
    ensures
        r == crosses(
            (p.0 as int, p.1 as int),
            (a.0 as int, a.1 as int),
            (b.0 as int, b.1 as int),
        ),
{
    if (p.1 < a.1) == (p.1 < b.1) {
        return false;
    }
    let lhs = mul_wide(p.0 - a.0, b.1 - a.1);
    let rhs = mul_wide(b.0 - a.0, p.1 - a.1);
    if b.1 > a.1 {
        lhs < rhs
    } else {
        lhs > rhs
    }
}

/// The hit test of a stroked, turned and moved box, for edges and sides
/// that may lie a little outside the range of a coordinate.
pub fn hit_box(left: i64, top: i64, width: i64, height: i64, x: i32, y: i32, style: &Style) -> (r:
    bool)
    requires
        -box_limit() <= left <= box_limit(),
        -box_limit() <= top <= box_limit(),
        -box_limit() <= width <= box_limit(),
        -box_limit() <= height <= box_limit(),
    ensures
        r == box_hit(left as int, top as int, width as int, height as int, x as int, y as int, *style),
{
    let stroke: i64 = match style.stroke_width {
        Some(w) => w as i64,
        None => 0,
    };
    let offset: (i32, i32) = match style.translate {
        Some(t) => t,
        None => (0, 0),
    };
    let left2: i64 = 2 * left - stroke;
    let top2: i64 = 2 * top - stroke;
    let width2: i64 = 2 * width + 2 * stroke;
    let height2: i64 = 2 * height + 2 * stroke;
    let (cos, sin, pivot): (i16, i16, (i64, i64)) = match style.rotation {
        Some((angle, cp)) => (angle.cos, angle.sin, cp.resolve_coords(left2, top2, width2, height2)),
        None => (ANGLE_UNIT, 0, (0, 0)),
    };
    let x_left: i64 = 2 * left2;
    let x_right: i64 = 2 * left2 + 2 * width2;
    let y_top: i64 = 2 * top2;
    let y_bottom: i64 = 2 * top2 + 2 * height2;
    let tl = place((x_left, y_top), pivot, cos, sin, offset);
    let tr = place((x_right, y_top), pivot, cos, sin, offset);
    let br = place((x_right, y_bottom), pivot, cos, sin, offset);
    let bl = place((x_left, y_bottom), pivot, cos, sin, offset);
    let p: (i128, i128) = (4 * (ANGLE_UNIT as i128) * (x as i128), 4 * (ANGLE_UNIT as i128) * (y as i128));
    let n0 = edge_crossed(p, tl, tr);
    let n1 = edge_crossed(p, tr, br);
    let n2 = edge_crossed(p, br, bl);
    let n3 = edge_crossed(p, bl, tl);
    (n0 != n1) != (n2 != n3)
}

impl Rectangle {
    /// Whether the point is on the rectangle as the style strokes, turns
    /// and moves it.
    pub fn is_hovered(&self, x: i32, y: i32, style: &Style) -> (r: bool)
        ensures
            r == box_hit(
                self.left as int,
                self.top as int,
                self.width as int,
                self.height as int,
                x as int,
                y as int,
                *style,
            ),
    {
        hit_box(self.left as i64, self.top as i64, self.width as i64, self.height as i64, x, y, style)
    }

    /// The rectangle itself.
    pub fn get_rect(&self) -> (r: Rectangle)
        ensures
            r == *self,
    {
        *self
    }

    /// Moves the top-left corner by `(x, y)`.
    pub fn translate(&mut self, x: i32, y: i32)
        ensures
            final(self).left == clamp_coord(old(self).left + x),
            final(self).top == clamp_coord(old(self).top + y),
            final(self).width == old(self).width,
            final(self).height == old(self).height,
    {
        self.left = offset_coord(self.left, x);
        self.top = offset_coord(self.top, y);
    }
}

/// Whether the point `(x, y)` is on the line as the style strokes and moves
/// it. A style's rotation does not turn a line.
///
/// With `d` the vector from the moved start to the moved end and `v` the
/// vector from the moved start to the point, the point is on the line when
/// - the line has a length;
/// - the foot of the point on the line lies between the two ends, that is
///   `v . d` lies between 0 and `d . d`;
/// - the point is no further from the line than half the stroke width, that
///   is `(d x v)^2 / (d . d)` is at most the square of half the stroke; and
/// - `d x v` lies between 0 and `span`, the product of the moved end's x
///   with `d`'s x less the product of the moved start's y with `d`'s y.
pub open spec fn line_hit(line: Line, x: int, y: int, style: Style) -> bool {
    let offset = offset_of(style);
    let stroke = stroke_of(style);
    let sx = line.start.x + offset.0;
    let sy = line.start.y + offset.1;
    let ex = line.end.x + offset.0;
    let ey = line.end.y + offset.1;
    let dx = ex - sx;
    let dy = ey - sy;
    let length2 = dx * dx + dy * dy;
    let along = (x - sx) * dx + (y - sy) * dy;
    let across = dx * (y - sy) - dy * (x - sx);
    let span = dx * ex - dy * sy;
    &&& length2 > 0
    &&& 0 <= along <= length2
    &&& stroke >= 0
    &&& (2 * across) * (2 * across) <= (stroke * stroke) * length2
    &&& (span > 0 && 0 <= across <= span) || (span < 0 && span <= across <= 0)
}

/// Whether the point `(x, y)` is on the circle as the style strokes and
/// moves it: no further from the moved centre than the radius and half the
/// stroke width together. A style's rotation does not turn a circle.
pub open spec fn circle_hit(circle: Circle, x: int, y: int, style: Style) -> bool {
    let offset = offset_of(style);
    let dx = x - circle.center.x - offset.0;
    let dy = y - circle.center.y - offset.1;
    let reach2 = 2 * circle.radius + stroke_of(style);
    reach2 >= 0 && 4 * (dx * dx + dy * dy) <= reach2 * reach2
}

/// The width and height that a text has been measured at, or zero.
pub open spec fn measured(text: Text) -> (int, int) {
    match text.shape {
        Some(size) => (size.width as int, size.height as int),
        None => (0, 0),
    }
}

/// Whether the point `(x, y)` is on the text's frame: its measured box,
/// grown by the margin on every side, as the style strokes, turns and
/// moves it.
pub open spec fn text_hit(text: Text, x: int, y: int, style: Style) -> bool {
    box_hit(
        text.position.x - BOUNDING_BOX_MARGIN,
        text.position.y - BOUNDING_BOX_MARGIN,
        measured(text).0 + 2 * BOUNDING_BOX_MARGIN,
        measured(text).1 + 2 * BOUNDING_BOX_MARGIN,
        x,
        y,
        style,
    )
}

/// A point moved by an offset, each coordinate stopping at the ends of the
/// range.
pub open spec fn moved(p: Point, dx: int, dy: int) -> Point {
    Point { x: clamp_coord(p.x + dx) as i32, y: clamp_coord(p.y + dy) as i32 }
}

impl From<(i32, i32)> for Point {
    fn from(pair: (i32, i32)) -> (r: Point) {
        Point { x: pair.0, y: pair.1 }
    }
}

impl FromSpecImpl<(i32, i32)> for Point {
    open spec fn obeys_from_spec() -> bool {
        true
    }

    open spec fn from_spec(pair: (i32, i32)) -> Point {
        Point { x: pair.0, y: pair.1 }
    }
}

impl Point {
    /// The point moved by `(tx, ty)`.
    pub fn translate(&self, tx: i32, ty: i32) -> (r: Point)
        ensures
            r == moved(*self, tx as int, ty as int),
    {
        Point { x: offset_coord(self.x, tx), y: offset_coord(self.y, ty) }
    }
}

impl Line {
    pub fn is_hovered(&self, x: i32, y: i32, style: &Style) -> (r: bool)
        ensures
            r == line_hit(*self, x as int, y as int, *style),
    {
        let offset: (i32, i32) = match style.translate {
            Some(t) => t,
            None => (0, 0),
        };
        let stroke: i128 = match style.stroke_width {
            Some(w) => w as i128,
            None => 0,
        };
        let sx: i128 = self.start.x as i128 + offset.0 as i128;
        let sy: i128 = self.start.y as i128 + offset.1 as i128;
        let ex: i128 = self.end.x as i128 + offset.0 as i128;
        let ey: i128 = self.end.y as i128 + offset.1 as i128;
        let dx: i128 = ex - sx;
        let dy: i128 = ey - sy;
        let vx: i128 = x as i128 - sx;
        let vy: i128 = y as i128 - sy;
        proof {
            lemma_product_bound(dx as int, dx as int, 0xffff_ffff, 0xffff_ffff);
            lemma_product_bound(dy as int, dy as int, 0xffff_ffff, 0xffff_ffff);
            lemma_product_bound(vx as int, dx as int, 0x2_0000_0000, 0xffff_ffff);
            lemma_product_bound(vy as int, dy as int, 0x2_0000_0000, 0xffff_ffff);
            lemma_product_bound(dx as int, vy as int, 0xffff_ffff, 0x2_0000_0000);
            lemma_product_bound(dy as int, vx as int, 0xffff_ffff, 0x2_0000_0000);
            lemma_product_bound(dx as int, ex as int, 0xffff_ffff, 0x1_0000_0000);
            lemma_product_bound(dy as int, sy as int, 0xffff_ffff, 0x1_0000_0000);
            lemma_product_bound(stroke as int, stroke as int, 0x8000_0000, 0x8000_0000);
        }
        let length2: i128 = mul_wide(dx, dx) + mul_wide(dy, dy);
        let along: i128 = mul_wide(vx, dx) + mul_wide(vy, dy);
        let across: i128 = mul_wide(dx, vy) - mul_wide(dy, vx);
        let span: i128 = mul_wide(dx, ex) - mul_wide(dy, sy);
        if length2 <= 0 || along < 0 || along > length2 || stroke < 0 {
            return false;
        }
        if !((span > 0 && 0 <= across && across <= span) || (span < 0 && span <= across && across
            <= 0)) {
            return false;
        }
        let twice: i128 = if across < 0 {
            -2 * across
        } else {
            2 * across
        };
        let stroke2: i128 = mul_wide(stroke, stroke);
        proof {
            lemma_product_bound(
                stroke2 as int,
                length2 as int,
                0x4000_0000_0000_0000,
                0x1_ffff_fffc_0000_0002,
            );
            assert((twice as int) * (twice as int) == (2 * across) * (2 * across))
                by (nonlinear_arith)
                requires
                    twice == 2 * across || twice == -2 * across,
            ;
        }
        let allowed: i128 = stroke2 * length2;
        if twice >= 0x1_0000_0000_0000_0000 {
            proof {
                assert((twice as int) * (twice as int) >= 0x1_0000_0000_0000_0000
                    * 0x1_0000_0000_0000_0000) by (nonlinear_arith)
                    requires
                        twice >= 0x1_0000_0000_0000_0000,
                ;
            }
            return false;
        }
        proof {
            lemma_product_bound(
                twice as int,
                twice as int,
                0xffff_ffff_ffff_ffff,
                0xffff_ffff_ffff_ffff,
            );
        }
        let reach: u128 = (twice as u128) * (twice as u128);
        reach <= allowed as u128
    }

    /// The box that the line spans from its start: the start as the
    /// top-left corner, and the way to the end as width and height, each
    /// stopping at the ends of the range.
    pub fn get_rect(&self) -> (r: Rectangle)
        ensures
            r.left == self.start.x,
            r.top == self.start.y,
            r.width == clamp_coord(self.end.x - self.start.x),
            r.height == clamp_coord(self.end.y - self.start.y),
    {
        Rectangle {
            top: self.start.y,
            left: self.start.x,
            width: coord_delta(self.end.x, self.start.x),
            height: coord_delta(self.end.y, self.start.y),
        }
    }

    /// Moves both ends by `(x, y)`.
    pub fn translate(&mut self, x: i32, y: i32)
        ensures
            final(self).start == moved(old(self).start, x as int, y as int),
            final(self).end == moved(old(self).end, x as int, y as int),
    {
        self.start = self.start.translate(x, y);
        self.end = self.end.translate(x, y);
    }
}

impl Circle {
    pub fn is_hovered(&self, x: i32, y: i32, style: &Style) -> (r: bool)
        ensures
            r == circle_hit(*self, x as int, y as int, *style),
    {
        let offset: (i32, i32) = match style.translate {
            Some(t) => t,
            None => (0, 0),
        };
        let stroke: i128 = match style.stroke_width {
            Some(w) => w as i128,
            None => 0,
        };
        let dx: i128 = x as i128 - self.center.x as i128 - offset.0 as i128;
        let dy: i128 = y as i128 - self.center.y as i128 - offset.1 as i128;
        let reach2: i128 = 2 * (self.radius as i128) + stroke;
        if reach2 < 0 {
            return false;
        }
        proof {
            lemma_product_bound(dx as int, dx as int, 0x2_0000_0000, 0x2_0000_0000);
            lemma_product_bound(dy as int, dy as int, 0x2_0000_0000, 0x2_0000_0000);
        }
        4 * (mul_wide(dx, dx) + mul_wide(dy, dy)) <= mul_wide(reach2, reach2)
    }

    /// The square box around the circle, each measure stopping at the ends
    /// of the range.
    pub fn get_rect(&self) -> (r: Rectangle)
        ensures
            r.left == clamp_coord(self.center.x - self.radius),
            r.top == clamp_coord(self.center.y - self.radius),
            r.width == clamp_coord(2 * self.radius),
            r.height == clamp_coord(2 * self.radius),
    {
        let side = offset_coord(self.radius, self.radius);
        Rectangle {
            top: coord_delta(self.center.y, self.radius),
            left: coord_delta(self.center.x, self.radius),
            width: side,
            height: side,
        }
    }

    /// Moves the centre by `(x, y)`.
    pub fn translate(&mut self, x: i32, y: i32)
        ensures
            final(self).center == moved(old(self).center, x as int, y as int),
            final(self).radius == old(self).radius,
    {
        self.center = self.center.translate(x, y);
    }
}

impl Clone for Text {
    fn clone(&self) -> (r: Self)
        ensures
            r == *self,
    {
        Text { text: self.text.clone(), position: self.position, shape: self.shape }
    }
}

impl Text {
    /// The text's box: its position, and its measured size or zero.
    pub fn get_rect(&self) -> (r: Rectangle)
        ensures
            r.left == self.position.x,
            r.top == self.position.y,
            (r.width as int, r.height as int) == measured(*self),
    {
        let (width, height): (i32, i32) = match self.shape {
            Some(size) => (size.width, size.height),
            None => (0, 0),
        };
        Rectangle { top: self.position.y, left: self.position.x, width, height }
    }

    pub fn is_hovered(&self, x: i32, y: i32, style: &Style) -> (r: bool)
        ensures
            r == text_hit(*self, x as int, y as int, *style),
    {
        let rect = self.get_rect();
        hit_box(
            rect.left as i64 - BOUNDING_BOX_MARGIN as i64,
            rect.top as i64 - BOUNDING_BOX_MARGIN as i64,
            rect.width as i64 + 2 * (BOUNDING_BOX_MARGIN as i64),
            rect.height as i64 + 2 * (BOUNDING_BOX_MARGIN as i64),
            x,
            y,
            style,
        )
    }

    /// Records the size that the text was measured at.
    pub fn set_measured(&mut self, width: i32, height: i32)
        ensures
            final(self).shape == Some(Size { width, height }),
            final(self).text == old(self).text,
            final(self).position == old(self).position,
    {
        self.shape = Some(Size { width, height });
    }

    /// Moves the position by `(x, y)`.
    pub fn translate(&mut self, x: i32, y: i32)
        ensures
            final(self).position == moved(old(self).position, x as int, y as int),
            final(self).text == old(self).text,
            final(self).shape == old(self).shape,
    {
        self.position = self.position.translate(x, y);
    }
}

} // verus!
