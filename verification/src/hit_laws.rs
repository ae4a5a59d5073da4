use crate::geometry::{
    box_corner, box_hit, circle_hit, crosses, line_hit, odd_crossings, offset_of, placed, probe,
    stroke_of, turn_of, Circle, Line, Point,
};
use crate::style::{ControlPoint, Style, ANGLE_UNIT};
use vstd::prelude::*;

verus! {

/// Whether `v` lies between `a` and `b`, whichever of the two is the
/// lesser: the lesser end counts, the greater does not.
pub open spec fn between(v: int, a: int, b: int) -> bool {
    (a <= v < b) || (b <= v < a)
}

/// A query point is its coordinates in quarters, times the angle unit.
pub proof fn lemma_probe_in_units(x: int, y: int)
    ensures
        probe(x, y) == (ANGLE_UNIT * (4 * x), ANGLE_UNIT * (4 * y)),
{
    assert(4 * ANGLE_UNIT * x == ANGLE_UNIT * (4 * x)) by (nonlinear_arith);
    assert(4 * ANGLE_UNIT * y == ANGLE_UNIT * (4 * y)) by (nonlinear_arith);
}

/// Two numbers times the angle unit compare as the numbers do.
pub proof fn lemma_units_keep_order(a: int, b: int)
    ensures
        ANGLE_UNIT * a < ANGLE_UNIT * b <==> a < b,
{
    assert(ANGLE_UNIT > 0);
    assert(ANGLE_UNIT * a < ANGLE_UNIT * b <==> a < b) by (nonlinear_arith)
        requires
            ANGLE_UNIT > 0,
    ;
}

/// An edge that runs level is crossed by no ray.
pub proof fn lemma_level_edge(p: (int, int), a: (int, int), b: (int, int))
    requires
        a.1 == b.1,
    ensures
        !crosses(p, a, b),
{
}

/// An edge that runs straight up or down is crossed by the ray from `p`
/// when `p` lies between its ends in height and at a lesser x.
pub proof fn lemma_upright_edge(p: (int, int), a: (int, int), b: (int, int))
    requires
        a.0 == b.0,
    ensures
        crosses(p, a, b) == (between(p.1, a.1, b.1) && p.0 < a.0),
{
    let run = p.0 - a.0;
    let rise = b.1 - a.1;
    assert((b.0 - a.0) * (p.1 - a.1) == 0) by (nonlinear_arith)
        requires
            b.0 - a.0 == 0,
    ;
    assert(rise > 0 ==> (run * rise < 0 <==> run < 0)) by (nonlinear_arith);
    assert(rise < 0 ==> (run * rise > 0 <==> run < 0)) by (nonlinear_arith);
}

/// A box that its style does not turn has its corners where its edges,
/// pushed out by half the stroke width and moved by the offset, meet.
pub proof fn lemma_unturned_corner(
    left: int,
    top: int,
    width: int,
    height: int,
    style: Style,
    at_right: bool,
    at_bottom: bool,
)
    requires
        style.rotation.is_none(),
    ensures
        box_corner(left, top, width, height, style, at_right, at_bottom) == (
            ANGLE_UNIT * (2 * (2 * (left + offset_of(style).0) - stroke_of(style)) + if at_right {
                4 * (width + stroke_of(style))
            } else {
                0
            }),
            ANGLE_UNIT * (2 * (2 * (top + offset_of(style).1) - stroke_of(style)) + if at_bottom {
                4 * (height + stroke_of(style))
            } else {
                0
            }),
        ),
{
    let stroke = stroke_of(style);
    let left2 = 2 * left - stroke;
    let top2 = 2 * top - stroke;
    let width2 = 2 * width + 2 * stroke;
    let height2 = 2 * height + 2 * stroke;
    let turn = turn_of(style, left2, top2, width2, height2);
    assert(turn == (ANGLE_UNIT as int, 0int, (0int, 0int)));
    let x = if at_right {
        2 * left2 + 2 * width2
    } else {
        2 * left2
    };
    let y = if at_bottom {
        2 * top2 + 2 * height2
    } else {
        2 * top2
    };
    assert(turn.1 * (x - 0) == 0) by (nonlinear_arith)
        requires
            turn.1 == 0,
    ;
    assert(turn.1 * (y - 0) == 0) by (nonlinear_arith)
        requires
            turn.1 == 0,
    ;
    assert(turn.0 * (x - 0) == ANGLE_UNIT * x) by (nonlinear_arith)
        requires
            turn.0 == ANGLE_UNIT,
    ;
    assert(turn.0 * (y - 0) == ANGLE_UNIT * y) by (nonlinear_arith)
        requires
            turn.0 == ANGLE_UNIT,
    ;
}

/// On a box that its style does not turn, the hit test is the test of a
/// box with level and upright edges: the point is on it when, taken back
/// by the style's offset, it lies between the left and the right edge and
/// between the top and the bottom edge, each pushed out by half the stroke
/// width. The comparison is stated doubled, so that half a stroke is whole.
pub proof fn lemma_unturned_box(
    left: int,
    top: int,
    width: int,
    height: int,
    x: int,
    y: int,
    style: Style,
)
    requires
        style.rotation.is_none(),
    ensures
        box_hit(left, top, width, height, x, y, style) == (between(
            2 * (x - offset_of(style).0),
            2 * left - stroke_of(style),
            2 * (left + width) + stroke_of(style),
        ) && between(
            2 * (y - offset_of(style).1),
            2 * top - stroke_of(style),
            2 * (top + height) + stroke_of(style),
        )),
{
    let p = probe(x, y);
    let tl = box_corner(left, top, width, height, style, false, false);
    let tr = box_corner(left, top, width, height, style, true, false);
    let br = box_corner(left, top, width, height, style, true, true);
    let bl = box_corner(left, top, width, height, style, false, true);
    lemma_unturned_corner(left, top, width, height, style, false, false);
    lemma_unturned_corner(left, top, width, height, style, true, false);
    lemma_unturned_corner(left, top, width, height, style, true, true);
    lemma_unturned_corner(left, top, width, height, style, false, true);
    lemma_level_edge(p, tl, tr);
    lemma_upright_edge(p, tr, br);
    lemma_level_edge(p, br, bl);
    lemma_upright_edge(p, bl, tl);
    lemma_probe_in_units(x, y);
    let px = 2 * (x - offset_of(style).0);
    let py = 2 * (y - offset_of(style).1);
    let x0 = 2 * left - stroke_of(style);
    let x1 = 2 * (left + width) + stroke_of(style);
    let y0 = 2 * top - stroke_of(style);
    let y1 = 2 * (top + height) + stroke_of(style);
    lemma_units_keep_order(4 * x, 2 * (2 * (left + offset_of(style).0) - stroke_of(style)));
    lemma_units_keep_order(
        4 * x,
        2 * (2 * (left + offset_of(style).0) - stroke_of(style)) + 4 * (width + stroke_of(style)),
    );
    lemma_units_keep_order(4 * y, 2 * (2 * (top + offset_of(style).1) - stroke_of(style)));
    lemma_units_keep_order(
        4 * y,
        2 * (2 * (top + offset_of(style).1) - stroke_of(style)) + 4 * (height + stroke_of(style)),
    );
    assert(p.0 < tl.0 <==> px < x0);
    assert(p.0 < tr.0 <==> px < x1);
    assert(p.1 < tl.1 <==> py < y0);
    assert(p.1 < bl.1 <==> py < y1);
    assert(between(p.1, tr.1, br.1) == between(py, y0, y1));
    assert(between(p.1, bl.1, tl.1) == between(py, y0, y1));
    assert(crosses(p, tr, br) == (between(py, y0, y1) && px < x1));
    assert(crosses(p, bl, tl) == (between(py, y0, y1) && px < x0));
    assert(odd_crossings(p, tl, tr, br, bl) == (crosses(p, tr, br) != crosses(p, bl, tl)));
}

/// The middle of a box that its style does not turn is on the box, for
/// every stroke width that leaves the stroked box a width and a height.
/// Where a side is odd the middle is taken half a unit towards the left or
/// the top.
pub proof fn lemma_middle_is_hit(left: int, top: int, width: int, height: int, style: Style)
    requires
        style.rotation.is_none(),
        width + stroke_of(style) > 0,
        height + stroke_of(style) > 0,
    ensures
        box_hit(
            left,
            top,
            width,
            height,
            left + width / 2 + offset_of(style).0,
            top + height / 2 + offset_of(style).1,
            style,
        ),
{
    lemma_unturned_box(
        left,
        top,
        width,
        height,
        left + width / 2 + offset_of(style).0,
        top + height / 2 + offset_of(style).1,
        style,
    );
}

/// A point that lies beyond an edge of a box that its style does not turn,
/// by more than half the stroke width, is not on the box.
pub proof fn lemma_beyond_is_missed(
    left: int,
    top: int,
    width: int,
    height: int,
    x: int,
    y: int,
    style: Style,
)
    requires
        style.rotation.is_none(),
        width + stroke_of(style) >= 0,
        height + stroke_of(style) >= 0,
        ({
            ||| 2 * (x - offset_of(style).0) < 2 * left - stroke_of(style)
            ||| 2 * (x - offset_of(style).0) > 2 * (left + width) + stroke_of(style)
            ||| 2 * (y - offset_of(style).1) < 2 * top - stroke_of(style)
            ||| 2 * (y - offset_of(style).1) > 2 * (top + height) + stroke_of(style)
        }),
    ensures
        !box_hit(left, top, width, height, x, y, style),
{
    lemma_unturned_box(left, top, width, height, x, y, style);
}

/// An edge that has `p` on the side of growing cross product is crossed
/// by the ray from `p` when it rises past the height of `p`: when it starts
/// at or below that height and ends above it.
pub proof fn lemma_edge_from_inside(p: (int, int), a: (int, int), b: (int, int))
    requires
        (b.0 - a.0) * (p.1 - a.1) - (b.1 - a.1) * (p.0 - a.0) > 0,
    ensures
        crosses(p, a, b) == (a.1 <= p.1 < b.1),
{
    assert((b.1 - a.1) * (p.0 - a.0) == (p.0 - a.0) * (b.1 - a.1)) by (nonlinear_arith);
}

/// A vector turned by the matrix of `cos` and `sin`.
pub open spec fn turned(cos: int, sin: int, v: (int, int)) -> (int, int) {
    (cos * v.0 - sin * v.1, sin * v.0 + cos * v.1)
}

/// A vector turned back: turned by the transposed matrix.
pub open spec fn turned_back(cos: int, sin: int, v: (int, int)) -> (int, int) {
    (cos * v.0 + sin * v.1, cos * v.1 - sin * v.0)
}

/// Turning a vector back and then forth gives the vector times
/// `cos * cos + sin * sin`.
pub proof fn lemma_back_and_forth(cos: int, sin: int, v: (int, int))
    ensures
        turned(cos, sin, turned_back(cos, sin, v)) == (
            (cos * cos + sin * sin) * v.0,
            (cos * cos + sin * sin) * v.1,
        ),
        turned_back(cos, sin, turned(cos, sin, v)) == (
            (cos * cos + sin * sin) * v.0,
            (cos * cos + sin * sin) * v.1,
        ),
{
    let x = v.0;
    let y = v.1;
    assert(cos * (cos * x + sin * y) - sin * (cos * y - sin * x) == (cos * cos + sin * sin) * x)
        by (nonlinear_arith);
    assert(sin * (cos * x + sin * y) + cos * (cos * y - sin * x) == (cos * cos + sin * sin) * y)
        by (nonlinear_arith);
    assert(cos * (cos * x - sin * y) + sin * (sin * x + cos * y) == (cos * cos + sin * sin) * x)
        by (nonlinear_arith);
    assert(cos * (sin * x + cos * y) - sin * (cos * x - sin * y) == (cos * cos + sin * sin) * y)
        by (nonlinear_arith);
}

/// Turning a difference back gives the difference of what is turned back.
pub proof fn lemma_turned_back_difference(cos: int, sin: int, a: (int, int), b: (int, int))
    ensures
        turned_back(cos, sin, (a.0 - b.0, a.1 - b.1)) == (
            turned_back(cos, sin, a).0 - turned_back(cos, sin, b).0,
            turned_back(cos, sin, a).1 - turned_back(cos, sin, b).1,
        ),
{
    assert(cos * (a.0 - b.0) + sin * (a.1 - b.1) == (cos * a.0 + sin * a.1) - (cos * b.0 + sin
        * b.1)) by (nonlinear_arith);
    assert(cos * (a.1 - b.1) - sin * (a.0 - b.0) == (cos * a.1 - sin * a.0) - (cos * b.1 - sin
        * b.0)) by (nonlinear_arith);
}

/// The cross product of a turned vector with another is the cross product
/// of the vector with the other turned back.
pub proof fn lemma_cross_turned(cos: int, sin: int, a: (int, int), r: (int, int))
    ensures
        turned(cos, sin, a).0 * r.1 - turned(cos, sin, a).1 * r.0 == a.0 * turned_back(
            cos,
            sin,
            r,
        ).1 - a.1 * turned_back(cos, sin, r).0,
{
    let ax = a.0;
    let ay = a.1;
    let rx = r.0;
    let ry = r.1;
    assert((cos * ax - sin * ay) * ry == (cos * ax) * ry - (sin * ay) * ry) by (nonlinear_arith);
    assert((sin * ax + cos * ay) * rx == (sin * ax) * rx + (cos * ay) * rx) by (nonlinear_arith);
    assert(ax * (cos * ry - sin * rx) == ax * (cos * ry) - ax * (sin * rx)) by (nonlinear_arith);
    assert(ay * (cos * rx + sin * ry) == ay * (cos * rx) + ay * (sin * ry)) by (nonlinear_arith);
    assert((cos * ax) * ry == ax * (cos * ry)) by (nonlinear_arith);
    assert((sin * ay) * ry == ay * (sin * ry)) by (nonlinear_arith);
    assert((sin * ax) * rx == ax * (sin * rx)) by (nonlinear_arith);
    assert((cos * ay) * rx == ay * (cos * rx)) by (nonlinear_arith);
}

/// The sign of a product, from the signs of its factors.
pub proof fn lemma_product_sign(a: int, b: int)
    ensures
        a > 0 && b > 0 ==> a * b > 0,
        a < 0 && b < 0 ==> a * b > 0,
        a > 0 && b < 0 ==> a * b < 0,
        a < 0 && b > 0 ==> a * b < 0,
        a == 0 || b == 0 ==> a * b == 0,
{
    assert(a > 0 && b > 0 ==> a * b > 0) by (nonlinear_arith);
    assert(a < 0 && b < 0 ==> a * b > 0) by (nonlinear_arith);
    assert(a > 0 && b < 0 ==> a * b < 0) by (nonlinear_arith);
    assert(a < 0 && b > 0 ==> a * b < 0) by (nonlinear_arith);
    assert(a == 0 || b == 0 ==> a * b == 0) by (nonlinear_arith);
}

/// The hit test on a turned box, for a point strictly inside it.
///
/// The box has its edges at `xl < xr` and `yt < yb`, seen from the pivot;
/// its corners are turned by `cos` and `sin` and set down at `base`. The
/// point lies at `q` from `base`. Where `q` turned back lies strictly
/// between the edges, each taken `cos * cos + sin * sin` times, the ray
/// from the point crosses an odd number of the four turned edges.
pub proof fn lemma_inside_turned_outline(
    cos: int,
    sin: int,
    xl: int,
    xr: int,
    yt: int,
    yb: int,
    q: (int, int),
    base: (int, int),
)
    requires
        (cos * cos + sin * sin) * xl < turned_back(cos, sin, q).0 < (cos * cos + sin * sin) * xr,
        (cos * cos + sin * sin) * yt < turned_back(cos, sin, q).1 < (cos * cos + sin * sin) * yb,
    ensures
        odd_crossings(
            (base.0 + q.0, base.1 + q.1),
            (base.0 + turned(cos, sin, (xl, yt)).0, base.1 + turned(cos, sin, (xl, yt)).1),
            (base.0 + turned(cos, sin, (xr, yt)).0, base.1 + turned(cos, sin, (xr, yt)).1),
            (base.0 + turned(cos, sin, (xr, yb)).0, base.1 + turned(cos, sin, (xr, yb)).1),
            (base.0 + turned(cos, sin, (xl, yb)).0, base.1 + turned(cos, sin, (xl, yb)).1),
        ),
{
    let n = cos * cos + sin * sin;
    let u = turned_back(cos, sin, q);
    let p = (base.0 + q.0, base.1 + q.1);
    let v0 = (base.0 + turned(cos, sin, (xl, yt)).0, base.1 + turned(cos, sin, (xl, yt)).1);
    let v1 = (base.0 + turned(cos, sin, (xr, yt)).0, base.1 + turned(cos, sin, (xr, yt)).1);
    let v2 = (base.0 + turned(cos, sin, (xr, yb)).0, base.1 + turned(cos, sin, (xr, yb)).1);
    let v3 = (base.0 + turned(cos, sin, (xl, yb)).0, base.1 + turned(cos, sin, (xl, yb)).1);
    // The measure of the turn is positive, and the box has a width and a height.
    assert(n >= 0) by (nonlinear_arith)
        requires
            n == cos * cos + sin * sin,
    ;
    assert(n > 0 && xl < xr && yt < yb) by (nonlinear_arith)
        requires
            n >= 0,
            n * xl < n * xr,
            n * yt < n * yb,
    ;
    // How far the point, turned back, lies inside each edge.
    let a = u.0 - n * xl;
    let b = u.0 - n * xr;
    let c = u.1 - n * yt;
    let d = u.1 - n * yb;
    assert(a > 0 && b < 0 && c > 0 && d < 0);
    lemma_turned_height(cos, sin, q, (xl, yt));
    lemma_turned_height(cos, sin, q, (xr, yt));
    lemma_turned_height(cos, sin, q, (xr, yb));
    lemma_turned_height(cos, sin, q, (xl, yb));
    let e0 = sin * a + cos * c;
    let e1 = sin * b + cos * c;
    let e2 = sin * b + cos * d;
    let e3 = sin * a + cos * d;
    assert(n * (p.1 - v0.1) == e0);
    assert(n * (p.1 - v1.1) == e1);
    assert(n * (p.1 - v2.1) == e2);
    assert(n * (p.1 - v3.1) == e3);
    lemma_product_sign(n, p.1 - v0.1);
    lemma_product_sign(n, p.1 - v1.1);
    lemma_product_sign(n, p.1 - v2.1);
    lemma_product_sign(n, p.1 - v3.1);
    assert((p.1 < v0.1) == (e0 < 0));
    assert((p.1 < v1.1) == (e1 < 0));
    assert((p.1 < v2.1) == (e2 < 0));
    assert((p.1 < v3.1) == (e3 < 0));
    // The point lies on the same side of all four edges.
    lemma_turned_edge(cos, sin, q, (xl, yt), (xr, yt));
    lemma_turned_edge(cos, sin, q, (xr, yt), (xr, yb));
    lemma_turned_edge(cos, sin, q, (xr, yb), (xl, yb));
    lemma_turned_edge(cos, sin, q, (xl, yb), (xl, yt));
    lemma_product_sign(xr - xl, c);
    lemma_product_sign(yb - yt, b);
    lemma_product_sign(xl - xr, d);
    lemma_product_sign(yt - yb, a);
    assert((yt - yt) * a == 0 && (xr - xr) * c == 0 && (yb - yb) * b == 0 && (xl - xl) * d == 0)
        by (nonlinear_arith);
    assert((v1.0 - v0.0) * (p.1 - v0.1) - (v1.1 - v0.1) * (p.0 - v0.0) == (xr - xl) * c);
    assert((v2.0 - v1.0) * (p.1 - v1.1) - (v2.1 - v1.1) * (p.0 - v1.0) == -((yb - yt) * b));
    assert((v3.0 - v2.0) * (p.1 - v2.1) - (v3.1 - v2.1) * (p.0 - v2.0) == (xl - xr) * d);
    assert((v0.0 - v3.0) * (p.1 - v3.1) - (v0.1 - v3.1) * (p.0 - v3.0) == -((yt - yb) * a));
    lemma_edge_from_inside(p, v0, v1);
    lemma_edge_from_inside(p, v1, v2);
    lemma_edge_from_inside(p, v2, v3);
    lemma_edge_from_inside(p, v3, v0);
    // Two corners that lie across from each other lie on two sides of the
    // point's height, so the ring of edges rises past that height once.
    lemma_product_sign(sin, a);
    lemma_product_sign(sin, b);
    lemma_product_sign(cos, c);
    lemma_product_sign(cos, d);
    assert(cos != 0 || sin != 0) by (nonlinear_arith)
        requires
            cos * cos + sin * sin > 0,
    ;
    assert((e0 < 0) != (e2 < 0) || (e1 < 0) != (e3 < 0));
}

/// How far a point lies above or below a turned corner, from how far the
/// point, turned back, lies from the corner before the turn.
pub proof fn lemma_turned_height(cos: int, sin: int, q: (int, int), corner: (int, int))
    ensures
        (cos * cos + sin * sin) * (q.1 - turned(cos, sin, corner).1) == sin * (turned_back(
            cos,
            sin,
            q,
        ).0 - (cos * cos + sin * sin) * corner.0) + cos * (turned_back(cos, sin, q).1 - (cos * cos
            + sin * sin) * corner.1),
{
    let qx = q.0;
    let qy = q.1;
    let dx = corner.0;
    let dy = corner.1;
    assert((cos * cos + sin * sin) * (qy - (sin * dx + cos * dy)) == sin * ((cos * qx + sin * qy)
        - (cos * cos + sin * sin) * dx) + cos * ((cos * qy - sin * qx) - (cos * cos + sin * sin)
        * dy)) by (nonlinear_arith);
}

/// The cross product of a turned edge with the way from its start to the
/// point, from the edge before the turn and the point turned back.
pub proof fn lemma_turned_edge(cos: int, sin: int, q: (int, int), from: (int, int), to: (int, int))
    ensures
        (turned(cos, sin, to).0 - turned(cos, sin, from).0) * (q.1 - turned(cos, sin, from).1) - (
        turned(cos, sin, to).1 - turned(cos, sin, from).1) * (q.0 - turned(cos, sin, from).0) == (
        to.0 - from.0) * (turned_back(cos, sin, q).1 - (cos * cos + sin * sin) * from.1) - (to.1
            - from.1) * (turned_back(cos, sin, q).0 - (cos * cos + sin * sin) * from.0),
{
    let n = cos * cos + sin * sin;
    let edge = (to.0 - from.0, to.1 - from.1);
    let r = (q.0 - turned(cos, sin, from).0, q.1 - turned(cos, sin, from).1);
    // The turned edge is the edge turned.
    assert(turned(cos, sin, edge) == (
        turned(cos, sin, to).0 - turned(cos, sin, from).0,
        turned(cos, sin, to).1 - turned(cos, sin, from).1,
    )) by {
        assert(cos * (to.0 - from.0) - sin * (to.1 - from.1) == (cos * to.0 - sin * to.1) - (cos
            * from.0 - sin * from.1)) by (nonlinear_arith);
        assert(sin * (to.0 - from.0) + cos * (to.1 - from.1) == (sin * to.0 + cos * to.1) - (sin
            * from.0 + cos * from.1)) by (nonlinear_arith);
    }
    lemma_cross_turned(cos, sin, edge, r);
    lemma_turned_back_difference(cos, sin, q, turned(cos, sin, from));
    lemma_back_and_forth(cos, sin, from);
    assert(turned_back(cos, sin, r) == (
        turned_back(cos, sin, q).0 - n * from.0,
        turned_back(cos, sin, q).1 - n * from.1,
    ));
}

/// The point about which the style turns a box, moved by the style's
/// offset, in the units of [`placed`]. Every placed corner is this point
/// and the turned way from the pivot to the corner.
pub open spec fn turn_base(left: int, top: int, width: int, height: int, style: Style) -> (
    int,
    int,
) {
    let stroke = stroke_of(style);
    let turn = turn_of(
        style,
        2 * left - stroke,
        2 * top - stroke,
        2 * width + 2 * stroke,
        2 * height + 2 * stroke,
    );
    (
        ANGLE_UNIT * (turn.2.0 + 4 * offset_of(style).0),
        ANGLE_UNIT * (turn.2.1 + 4 * offset_of(style).1),
    )
}

/// Whether the point `(x, y)` lies strictly inside the box as the style
/// strokes, turns and moves it.
///
/// The way from the moved pivot to the point is turned back, and must then
/// lie strictly between the ways from the pivot to the edges of the
/// stroked box. Turning back and forth multiplies by
/// `cos * cos + sin * sin`, so the edges are taken that many times.
pub open spec fn strictly_within(
    left: int,
    top: int,
    width: int,
    height: int,
    x: int,
    y: int,
    style: Style,
) -> bool {
    let stroke = stroke_of(style);
    let left2 = 2 * left - stroke;
    let top2 = 2 * top - stroke;
    let width2 = 2 * width + 2 * stroke;
    let height2 = 2 * height + 2 * stroke;
    let turn = turn_of(style, left2, top2, width2, height2);
    let n = turn.0 * turn.0 + turn.1 * turn.1;
    let base = turn_base(left, top, width, height, style);
    let back = turned_back(turn.0, turn.1, (probe(x, y).0 - base.0, probe(x, y).1 - base.1));
    &&& n * (2 * left2 - turn.2.0) < back.0 < n * (2 * left2 + 2 * width2 - turn.2.0)
    &&& n * (2 * top2 - turn.2.1) < back.1 < n * (2 * top2 + 2 * height2 - turn.2.1)
}

/// The hit test finds every point that lies strictly inside the box as
/// the style strokes, turns and moves it, whatever the angle and the pivot.
pub proof fn lemma_within_is_hit(
    left: int,
    top: int,
    width: int,
    height: int,
    x: int,
    y: int,
    style: Style,
)
    requires
        strictly_within(left, top, width, height, x, y, style),
    ensures
        box_hit(left, top, width, height, x, y, style),
{
    let stroke = stroke_of(style);
    let left2 = 2 * left - stroke;
    let top2 = 2 * top - stroke;
    let width2 = 2 * width + 2 * stroke;
    let height2 = 2 * height + 2 * stroke;
    let turn = turn_of(style, left2, top2, width2, height2);
    let base = turn_base(left, top, width, height, style);
    let q = (probe(x, y).0 - base.0, probe(x, y).1 - base.1);
    lemma_inside_turned_outline(
        turn.0,
        turn.1,
        2 * left2 - turn.2.0,
        2 * left2 + 2 * width2 - turn.2.0,
        2 * top2 - turn.2.1,
        2 * top2 + 2 * height2 - turn.2.1,
        q,
        base,
    );
}

/// A corner of the box itself, before any stroke pushes its edges out, as
/// the style turns and moves it, in the units of [`placed`].
pub open spec fn bare_corner(
    left: int,
    top: int,
    width: int,
    height: int,
    style: Style,
    at_right: bool,
    at_bottom: bool,
) -> (int, int) {
    let stroke = stroke_of(style);
    let turn = turn_of(
        style,
        2 * left - stroke,
        2 * top - stroke,
        2 * width + 2 * stroke,
        2 * height + 2 * stroke,
    );
    let x = if at_right {
        4 * (left + width)
    } else {
        4 * left
    };
    let y = if at_bottom {
        4 * (top + height)
    } else {
        4 * top
    };
    placed((x, y), turn.2, turn.0, turn.1, offset_of(style))
}

/// A corner of a box stays on the box however the style turns it: where
/// the box is stroked, a point that lies where the style places a corner
/// of the box itself is hit, for every angle and every pivot.
pub proof fn lemma_turned_corner_is_hit(
    left: int,
    top: int,
    width: int,
    height: int,
    x: int,
    y: int,
    style: Style,
    at_right: bool,
    at_bottom: bool,
)
    requires
        width >= 0,
        height >= 0,
        stroke_of(style) > 0,
        match style.rotation {
            Some((angle, _)) => angle.cos != 0 || angle.sin != 0,
            None => true,
        },
        probe(x, y) == bare_corner(left, top, width, height, style, at_right, at_bottom),
    ensures
        box_hit(left, top, width, height, x, y, style),
{
    let stroke = stroke_of(style);
    let left2 = 2 * left - stroke;
    let top2 = 2 * top - stroke;
    let width2 = 2 * width + 2 * stroke;
    let height2 = 2 * height + 2 * stroke;
    let turn = turn_of(style, left2, top2, width2, height2);
    let n = turn.0 * turn.0 + turn.1 * turn.1;
    let base = turn_base(left, top, width, height, style);
    let q = (probe(x, y).0 - base.0, probe(x, y).1 - base.1);
    let cx = if at_right {
        4 * (left + width)
    } else {
        4 * left
    };
    let cy = if at_bottom {
        4 * (top + height)
    } else {
        4 * top
    };
    let d = (cx - turn.2.0, cy - turn.2.1);
    assert(q == turned(turn.0, turn.1, d));
    lemma_back_and_forth(turn.0, turn.1, d);
    assert(turn.0 != 0 || turn.1 != 0);
    assert(n > 0) by (nonlinear_arith)
        requires
            n == turn.0 * turn.0 + turn.1 * turn.1,
            turn.0 != 0 || turn.1 != 0,
    ;
    lemma_product_sign(n, d.0 - (2 * left2 - turn.2.0));
    lemma_product_sign(n, (2 * left2 + 2 * width2 - turn.2.0) - d.0);
    lemma_product_sign(n, d.1 - (2 * top2 - turn.2.1));
    lemma_product_sign(n, (2 * top2 + 2 * height2 - turn.2.1) - d.1);
    assert(n * (d.0 - (2 * left2 - turn.2.0)) == n * d.0 - n * (2 * left2 - turn.2.0))
        by (nonlinear_arith);
    assert(n * ((2 * left2 + 2 * width2 - turn.2.0) - d.0) == n * (2 * left2 + 2 * width2
        - turn.2.0) - n * d.0) by (nonlinear_arith);
    assert(n * (d.1 - (2 * top2 - turn.2.1)) == n * d.1 - n * (2 * top2 - turn.2.1))
        by (nonlinear_arith);
    assert(n * ((2 * top2 + 2 * height2 - turn.2.1) - d.1) == n * (2 * top2 + 2 * height2
        - turn.2.1) - n * d.1) by (nonlinear_arith);
    assert(strictly_within(left, top, width, height, x, y, style));
    lemma_within_is_hit(left, top, width, height, x, y, style);
}

/// The hit test on a turned box, for the point at its top-left corner.
///
/// The corner lies on the outline, and the even-odd rule counts it for
/// some turns and not for others: it counts it when the cosine is positive
/// and the sine is not, that is for a turn of less than a quarter against
/// the sense in which angles grow, and for no turn at all.
pub proof fn lemma_corner_of_turned_outline(
    cos: int,
    sin: int,
    xl: int,
    xr: int,
    yt: int,
    yb: int,
    base: (int, int),
)
    requires
        xl < xr,
        yt < yb,
    ensures
        odd_crossings(
            (base.0 + turned(cos, sin, (xl, yt)).0, base.1 + turned(cos, sin, (xl, yt)).1),
            (base.0 + turned(cos, sin, (xl, yt)).0, base.1 + turned(cos, sin, (xl, yt)).1),
            (base.0 + turned(cos, sin, (xr, yt)).0, base.1 + turned(cos, sin, (xr, yt)).1),
            (base.0 + turned(cos, sin, (xr, yb)).0, base.1 + turned(cos, sin, (xr, yb)).1),
            (base.0 + turned(cos, sin, (xl, yb)).0, base.1 + turned(cos, sin, (xl, yb)).1),
        ) == (cos > 0 && sin <= 0),
{
    let n = cos * cos + sin * sin;
    let q = turned(cos, sin, (xl, yt));
    let u = turned_back(cos, sin, q);
    let p = (base.0 + q.0, base.1 + q.1);
    let v0 = p;
    let v1 = (base.0 + turned(cos, sin, (xr, yt)).0, base.1 + turned(cos, sin, (xr, yt)).1);
    let v2 = (base.0 + turned(cos, sin, (xr, yb)).0, base.1 + turned(cos, sin, (xr, yb)).1);
    let v3 = (base.0 + turned(cos, sin, (xl, yb)).0, base.1 + turned(cos, sin, (xl, yb)).1);
    // The point is the first corner: the two edges that meet there are not crossed.
    assert(!crosses(p, v0, v1)) by {
        assert((p.0 - v0.0) * (v1.1 - v0.1) == 0) by (nonlinear_arith)
            requires
                p.0 - v0.0 == 0,
        ;
        assert((v1.0 - v0.0) * (p.1 - v0.1) == 0) by (nonlinear_arith)
            requires
                p.1 - v0.1 == 0,
        ;
    }
    assert(!crosses(p, v3, v0)) by {
        assert((p.0 - v3.0) * (v0.1 - v3.1) == (v0.0 - v3.0) * (p.1 - v3.1));
    }
    assert(n >= 0) by (nonlinear_arith)
        requires
            n == cos * cos + sin * sin,
    ;
    if n == 0 {
        assert(cos == 0 && sin == 0) by (nonlinear_arith)
            requires
                cos * cos + sin * sin == 0,
        ;
        assert(v1.1 == v2.1 && v2.1 == v3.1) by (nonlinear_arith)
            requires
                cos == 0,
                sin == 0,
                v1.1 == base.1 + (sin * xr + cos * yt),
                v2.1 == base.1 + (sin * xr + cos * yb),
                v3.1 == base.1 + (sin * xl + cos * yb),
        ;
        lemma_level_edge(p, v1, v2);
        lemma_level_edge(p, v2, v3);
    } else {
        lemma_back_and_forth(cos, sin, (xl, yt));
        assert(u == (n * xl, n * yt));
        let b = u.0 - n * xr;
        let d = u.1 - n * yb;
        assert(b == n * (xl - xr) && d == n * (yt - yb)) by (nonlinear_arith)
            requires
                b == n * xl - n * xr,
                d == n * yt - n * yb,
        ;
        lemma_product_sign(n, xl - xr);
        lemma_product_sign(n, yt - yb);
        assert(b < 0 && d < 0);
        lemma_turned_height(cos, sin, q, (xr, yt));
        lemma_turned_height(cos, sin, q, (xr, yb));
        lemma_turned_height(cos, sin, q, (xl, yb));
        assert(sin * (u.0 - n * xl) == 0 && cos * (u.1 - n * yt) == 0) by (nonlinear_arith)
            requires
                u.0 - n * xl == 0,
                u.1 - n * yt == 0,
        ;
        let e1 = sin * b;
        let e3 = cos * d;
        assert(n * (p.1 - v1.1) == e1);
        assert(n * (p.1 - v2.1) == e1 + e3);
        assert(n * (p.1 - v3.1) == e3);
        lemma_product_sign(n, p.1 - v1.1);
        lemma_product_sign(n, p.1 - v2.1);
        lemma_product_sign(n, p.1 - v3.1);
        assert((p.1 < v1.1) == (e1 < 0));
        assert((p.1 < v2.1) == (e1 + e3 < 0));
        assert((p.1 < v3.1) == (e3 < 0));
        lemma_turned_edge(cos, sin, q, (xr, yt), (xr, yb));
        lemma_turned_edge(cos, sin, q, (xr, yb), (xl, yb));
        lemma_product_sign(yb - yt, b);
        lemma_product_sign(xl - xr, d);
        assert((xr - xr) * (u.1 - n * yt) == 0 && (yb - yb) * b == 0) by (nonlinear_arith);
        assert((v2.0 - v1.0) * (p.1 - v1.1) - (v2.1 - v1.1) * (p.0 - v1.0) == -((yb - yt) * b));
        assert((v3.0 - v2.0) * (p.1 - v2.1) - (v3.1 - v2.1) * (p.0 - v2.0) == (xl - xr) * d);
        lemma_edge_from_inside(p, v1, v2);
        lemma_edge_from_inside(p, v2, v3);
        lemma_product_sign(sin, b);
        lemma_product_sign(cos, d);
        assert((e1 < 0) == (sin > 0));
        assert((e3 < 0) == (cos > 0));
    }
}

/// The top-left corner of a box without a stroke lies on the outline, and
/// the hit test counts it for some turns only: where the style places that
/// corner, the point is hit when the turn's cosine is positive and its sine
/// is not. A style without a rotation is such a turn, so the corner of a
/// box that is not turned is always hit.
pub proof fn lemma_bare_corner(
    left: int,
    top: int,
    width: int,
    height: int,
    x: int,
    y: int,
    style: Style,
)
    requires
        width > 0,
        height > 0,
        stroke_of(style) == 0,
        probe(x, y) == bare_corner(left, top, width, height, style, false, false),
    ensures
        box_hit(left, top, width, height, x, y, style) == (match style.rotation {
            Some((angle, _)) => angle.cos > 0 && angle.sin <= 0,
            None => true,
        }),
{
    let turn = turn_of(style, 2 * left, 2 * top, 2 * width, 2 * height);
    let base = turn_base(left, top, width, height, style);
    lemma_corner_of_turned_outline(
        turn.0,
        turn.1,
        4 * left - turn.2.0,
        4 * left + 4 * width - turn.2.0,
        4 * top - turn.2.1,
        4 * top + 4 * height - turn.2.1,
        base,
    );
}

/// The verdict of the ray on an edge, from the side of the edge on which
/// the point lies: an edge that rises past the height of the point is
/// crossed when the point lies on the side of growing cross product, an
/// edge that falls past it when the point lies on the other side.
pub proof fn lemma_edge_by_side(p: (int, int), a: (int, int), b: (int, int))
    ensures
        crosses(p, a, b) == ({
            let side = (b.0 - a.0) * (p.1 - a.1) - (b.1 - a.1) * (p.0 - a.0);
            (a.1 <= p.1 < b.1 && side > 0) || (b.1 <= p.1 < a.1 && side < 0)
        }),
{
    assert((b.1 - a.1) * (p.0 - a.0) == (p.0 - a.0) * (b.1 - a.1)) by (nonlinear_arith);
}

/// The hit test on a turned box, for a point strictly outside it.
///
/// As in [`lemma_inside_turned_outline`], but `q` turned back lies beyond
/// one of the edges: the ray from the point then crosses an even number of
/// the four turned edges.
pub proof fn lemma_outside_turned_outline(
    cos: int,
    sin: int,
    xl: int,
    xr: int,
    yt: int,
    yb: int,
    q: (int, int),
    base: (int, int),
)
    requires
        xl < xr,
        yt < yb,
        cos != 0 || sin != 0,
        ({
            let n = cos * cos + sin * sin;
            ||| turned_back(cos, sin, q).0 < n * xl
            ||| turned_back(cos, sin, q).0 > n * xr
            ||| turned_back(cos, sin, q).1 < n * yt
            ||| turned_back(cos, sin, q).1 > n * yb
        }),
    ensures
        !odd_crossings(
            (base.0 + q.0, base.1 + q.1),
            (base.0 + turned(cos, sin, (xl, yt)).0, base.1 + turned(cos, sin, (xl, yt)).1),
            (base.0 + turned(cos, sin, (xr, yt)).0, base.1 + turned(cos, sin, (xr, yt)).1),
            (base.0 + turned(cos, sin, (xr, yb)).0, base.1 + turned(cos, sin, (xr, yb)).1),
            (base.0 + turned(cos, sin, (xl, yb)).0, base.1 + turned(cos, sin, (xl, yb)).1),
        ),
{
    let n = cos * cos + sin * sin;
    let u = turned_back(cos, sin, q);
    let p = (base.0 + q.0, base.1 + q.1);
    let v0 = (base.0 + turned(cos, sin, (xl, yt)).0, base.1 + turned(cos, sin, (xl, yt)).1);
    let v1 = (base.0 + turned(cos, sin, (xr, yt)).0, base.1 + turned(cos, sin, (xr, yt)).1);
    let v2 = (base.0 + turned(cos, sin, (xr, yb)).0, base.1 + turned(cos, sin, (xr, yb)).1);
    let v3 = (base.0 + turned(cos, sin, (xl, yb)).0, base.1 + turned(cos, sin, (xl, yb)).1);
    assert(n > 0) by (nonlinear_arith)
        requires
            n == cos * cos + sin * sin,
            cos != 0 || sin != 0,
    ;
    let a = u.0 - n * xl;
    let b = u.0 - n * xr;
    let c = u.1 - n * yt;
    let d = u.1 - n * yb;
    assert(a - b == n * (xr - xl) && c - d == n * (yb - yt)) by (nonlinear_arith)
        requires
            a - b == n * xr - n * xl,
            c - d == n * yb - n * yt,
    ;
    lemma_product_sign(n, xr - xl);
    lemma_product_sign(n, yb - yt);
    assert(a > b && c > d);
    lemma_turned_height(cos, sin, q, (xl, yt));
    lemma_turned_height(cos, sin, q, (xr, yt));
    lemma_turned_height(cos, sin, q, (xr, yb));
    lemma_turned_height(cos, sin, q, (xl, yb));
    let sa = sin * a;
    let sb = sin * b;
    let cc = cos * c;
    let cd = cos * d;
    assert(n * (p.1 - v0.1) == sa + cc);
    assert(n * (p.1 - v1.1) == sb + cc);
    assert(n * (p.1 - v2.1) == sb + cd);
    assert(n * (p.1 - v3.1) == sa + cd);
    lemma_product_sign(n, p.1 - v0.1);
    lemma_product_sign(n, p.1 - v1.1);
    lemma_product_sign(n, p.1 - v2.1);
    lemma_product_sign(n, p.1 - v3.1);
    lemma_product_sign(n, v1.1 - v0.1);
    lemma_product_sign(n, v2.1 - v1.1);
    lemma_product_sign(n, v3.1 - v2.1);
    lemma_product_sign(n, v0.1 - v3.1);
    assert((p.1 < v0.1) == (sa + cc < 0));
    assert((p.1 < v1.1) == (sb + cc < 0));
    assert((p.1 < v2.1) == (sb + cd < 0));
    assert((p.1 < v3.1) == (sa + cd < 0));
    lemma_turned_edge(cos, sin, q, (xl, yt), (xr, yt));
    lemma_turned_edge(cos, sin, q, (xr, yt), (xr, yb));
    lemma_turned_edge(cos, sin, q, (xr, yb), (xl, yb));
    lemma_turned_edge(cos, sin, q, (xl, yb), (xl, yt));
    lemma_product_sign(xr - xl, c);
    lemma_product_sign(yb - yt, b);
    lemma_product_sign(xl - xr, d);
    lemma_product_sign(yt - yb, a);
    assert((yt - yt) * a == 0 && (xr - xr) * c == 0 && (yb - yb) * b == 0 && (xl - xl) * d == 0)
        by (nonlinear_arith);
    let k01 = (v1.0 - v0.0) * (p.1 - v0.1) - (v1.1 - v0.1) * (p.0 - v0.0);
    let k12 = (v2.0 - v1.0) * (p.1 - v1.1) - (v2.1 - v1.1) * (p.0 - v1.0);
    let k23 = (v3.0 - v2.0) * (p.1 - v2.1) - (v3.1 - v2.1) * (p.0 - v2.0);
    let k30 = (v0.0 - v3.0) * (p.1 - v3.1) - (v0.1 - v3.1) * (p.0 - v3.0);
    assert(k01 == (xr - xl) * c);
    assert(k12 == -((yb - yt) * b));
    assert(k23 == (xl - xr) * d);
    assert(k30 == -((yt - yb) * a));
    assert((k01 > 0) == (c > 0) && (k01 < 0) == (c < 0));
    assert((k12 > 0) == (b < 0) && (k12 < 0) == (b > 0));
    assert((k23 > 0) == (d < 0) && (k23 < 0) == (d > 0));
    assert((k30 > 0) == (a > 0) && (k30 < 0) == (a < 0));
    lemma_edge_by_side(p, v0, v1);
    lemma_edge_by_side(p, v1, v2);
    lemma_edge_by_side(p, v2, v3);
    lemma_edge_by_side(p, v3, v0);
    lemma_product_sign(sin, a);
    lemma_product_sign(sin, b);
    lemma_product_sign(cos, c);
    lemma_product_sign(cos, d);
    assert(sa - sb == sin * (a - b)) by (nonlinear_arith)
        requires
            sa == sin * a,
            sb == sin * b,
    ;
    assert(cc - cd == cos * (c - d)) by (nonlinear_arith)
        requires
            cc == cos * c,
            cd == cos * d,
    ;
    lemma_product_sign(sin, a - b);
    lemma_product_sign(cos, c - d);
}

/// Whether the point `(x, y)` lies strictly outside the box as the style
/// strokes, turns and moves it: as [`strictly_within`], but the way from
/// the pivot to the point, turned back, lies beyond one of the edges.
pub open spec fn strictly_outside(
    left: int,
    top: int,
    width: int,
    height: int,
    x: int,
    y: int,
    style: Style,
) -> bool {
    let stroke = stroke_of(style);
    let left2 = 2 * left - stroke;
    let top2 = 2 * top - stroke;
    let width2 = 2 * width + 2 * stroke;
    let height2 = 2 * height + 2 * stroke;
    let turn = turn_of(style, left2, top2, width2, height2);
    let n = turn.0 * turn.0 + turn.1 * turn.1;
    let base = turn_base(left, top, width, height, style);
    let back = turned_back(turn.0, turn.1, (probe(x, y).0 - base.0, probe(x, y).1 - base.1));
    ||| back.0 < n * (2 * left2 - turn.2.0)
    ||| back.0 > n * (2 * left2 + 2 * width2 - turn.2.0)
    ||| back.1 < n * (2 * top2 - turn.2.1)
    ||| back.1 > n * (2 * top2 + 2 * height2 - turn.2.1)
}

/// The hit test finds no point that lies strictly outside the box as the
/// style strokes, turns and moves it, whatever the angle and the pivot,
/// where the stroked box has a width and a height and the angle is one:
/// its cosine and sine are not both nothing.
pub proof fn lemma_outside_is_missed(
    left: int,
    top: int,
    width: int,
    height: int,
    x: int,
    y: int,
    style: Style,
)
    requires
        width + stroke_of(style) > 0,
        height + stroke_of(style) > 0,
        match style.rotation {
            Some((angle, _)) => angle.cos != 0 || angle.sin != 0,
            None => true,
        },
        strictly_outside(left, top, width, height, x, y, style),
    ensures
        !box_hit(left, top, width, height, x, y, style),
{
    let stroke = stroke_of(style);
    let left2 = 2 * left - stroke;
    let top2 = 2 * top - stroke;
    let width2 = 2 * width + 2 * stroke;
    let height2 = 2 * height + 2 * stroke;
    let turn = turn_of(style, left2, top2, width2, height2);
    let base = turn_base(left, top, width, height, style);
    let q = (probe(x, y).0 - base.0, probe(x, y).1 - base.1);
    lemma_outside_turned_outline(
        turn.0,
        turn.1,
        2 * left2 - turn.2.0,
        2 * left2 + 2 * width2 - turn.2.0,
        2 * top2 - turn.2.1,
        2 * top2 + 2 * height2 - turn.2.1,
        q,
        base,
    );
}

/// An angle whose cosine and sine are both nothing draws the box together
/// into one point, and the hit test finds no point on it.
pub proof fn lemma_no_angle_hits_nothing(
    left: int,
    top: int,
    width: int,
    height: int,
    x: int,
    y: int,
    style: Style,
)
    requires
        match style.rotation {
            Some((angle, _)) => angle.cos == 0 && angle.sin == 0,
            None => false,
        },
    ensures
        !box_hit(left, top, width, height, x, y, style),
{
    let p = probe(x, y);
    let tl = box_corner(left, top, width, height, style, false, false);
    let tr = box_corner(left, top, width, height, style, true, false);
    let br = box_corner(left, top, width, height, style, true, true);
    let bl = box_corner(left, top, width, height, style, false, true);
    let base = turn_base(left, top, width, height, style);
    assert forall|cos: int, sin: int, dx: int, dy: int| cos == 0 && sin == 0 implies #[trigger] (sin
        * dx) + #[trigger] (cos * dy) == 0 by {
        assert(sin * dx == 0 && cos * dy == 0) by (nonlinear_arith)
            requires
                cos == 0,
                sin == 0,
        ;
    }
    assert(tl.1 == base.1 && tr.1 == base.1 && br.1 == base.1 && bl.1 == base.1);
    lemma_level_edge(p, tl, tr);
    lemma_level_edge(p, tr, br);
    lemma_level_edge(p, br, bl);
    lemma_level_edge(p, bl, tl);
}

/// The ray's verdict on an edge does not change when the point and the
/// edge are moved together.
pub proof fn lemma_crossing_moves_along(
    p: (int, int),
    a: (int, int),
    b: (int, int),
    by: (int, int),
)
    ensures
        crosses((p.0 + by.0, p.1 + by.1), (a.0 + by.0, a.1 + by.1), (b.0 + by.0, b.1 + by.1))
            == crosses(p, a, b),
{
    assert((p.0 + by.0) - (a.0 + by.0) == p.0 - a.0);
    assert((b.1 + by.1) - (a.1 + by.1) == b.1 - a.1);
    assert((b.0 + by.0) - (a.0 + by.0) == b.0 - a.0);
    assert((p.1 + by.1) - (a.1 + by.1) == p.1 - a.1);
}

/// Whether the style turns about a point that belongs to the box, and so
/// moves with it: it does not turn, or about one of the five anchors.
pub open spec fn pivot_on_box(style: Style) -> bool {
    match style.rotation {
        Some((_, ControlPoint::Custom(_, _))) => false,
        _ => true,
    }
}

/// A box and a point moved together stay as they were to each other: the
/// hit test gives the same answer, where the style turns about a point of
/// the box. (A pivot of its own stays where it is when the box moves.)
pub proof fn lemma_box_moves_with_point(
    left: int,
    top: int,
    width: int,
    height: int,
    x: int,
    y: int,
    style: Style,
    dx: int,
    dy: int,
)
    requires
        pivot_on_box(style),
    ensures
        box_hit(left + dx, top + dy, width, height, x + dx, y + dy, style) == box_hit(
            left,
            top,
            width,
            height,
            x,
            y,
            style,
        ),
{
    let by = (4 * ANGLE_UNIT * dx, 4 * ANGLE_UNIT * dy);
    let p = probe(x, y);
    let tl = box_corner(left, top, width, height, style, false, false);
    let tr = box_corner(left, top, width, height, style, true, false);
    let br = box_corner(left, top, width, height, style, true, true);
    let bl = box_corner(left, top, width, height, style, false, true);
    assert(probe(x + dx, y + dy) == (p.0 + by.0, p.1 + by.1)) by {
        assert(4 * ANGLE_UNIT * (x + dx) == 4 * ANGLE_UNIT * x + 4 * ANGLE_UNIT * dx)
            by (nonlinear_arith);
        assert(4 * ANGLE_UNIT * (y + dy) == 4 * ANGLE_UNIT * y + 4 * ANGLE_UNIT * dy)
            by (nonlinear_arith);
    }
    lemma_corner_moves_with_box(left, top, width, height, style, dx, dy, false, false);
    lemma_corner_moves_with_box(left, top, width, height, style, dx, dy, true, false);
    lemma_corner_moves_with_box(left, top, width, height, style, dx, dy, true, true);
    lemma_corner_moves_with_box(left, top, width, height, style, dx, dy, false, true);
    lemma_crossing_moves_along(p, tl, tr, by);
    lemma_crossing_moves_along(p, tr, br, by);
    lemma_crossing_moves_along(p, br, bl, by);
    lemma_crossing_moves_along(p, bl, tl, by);
}

/// A placed corner of a box moves as the box does, where the style turns
/// about a point of the box.
pub proof fn lemma_corner_moves_with_box(
    left: int,
    top: int,
    width: int,
    height: int,
    style: Style,
    dx: int,
    dy: int,
    at_right: bool,
    at_bottom: bool,
)
    requires
        pivot_on_box(style),
    ensures
        box_corner(left + dx, top + dy, width, height, style, at_right, at_bottom) == (
            box_corner(left, top, width, height, style, at_right, at_bottom).0 + 4 * ANGLE_UNIT
                * dx,
            box_corner(left, top, width, height, style, at_right, at_bottom).1 + 4 * ANGLE_UNIT
                * dy,
        ),
{
    let stroke = stroke_of(style);
    let width2 = 2 * width + 2 * stroke;
    let height2 = 2 * height + 2 * stroke;
    let was = turn_of(style, 2 * left - stroke, 2 * top - stroke, width2, height2);
    let now = turn_of(style, 2 * (left + dx) - stroke, 2 * (top + dy) - stroke, width2, height2);
    assert(now.0 == was.0 && now.1 == was.1);
    assert(style.rotation.is_some() ==> now.2 == (was.2.0 + 4 * dx, was.2.1 + 4 * dy));
    assert(ANGLE_UNIT * (was.2.0 + 4 * dx + 4 * offset_of(style).0) == ANGLE_UNIT * (was.2.0 + 4
        * offset_of(style).0) + 4 * ANGLE_UNIT * dx) by (nonlinear_arith);
    assert(ANGLE_UNIT * (was.2.1 + 4 * dy + 4 * offset_of(style).1) == ANGLE_UNIT * (was.2.1 + 4
        * offset_of(style).1) + 4 * ANGLE_UNIT * dy) by (nonlinear_arith);
    if style.rotation.is_none() {
        let x = if at_right {
            2 * (2 * left - stroke) + 2 * width2
        } else {
            2 * (2 * left - stroke)
        };
        let y = if at_bottom {
            2 * (2 * top - stroke) + 2 * height2
        } else {
            2 * (2 * top - stroke)
        };
        assert(was.0 * (x + 4 * dx - 0) == was.0 * (x - 0) + 4 * ANGLE_UNIT * dx)
            by (nonlinear_arith)
            requires
                was.0 == ANGLE_UNIT,
        ;
        assert(was.0 * (y + 4 * dy - 0) == was.0 * (y - 0) + 4 * ANGLE_UNIT * dy)
            by (nonlinear_arith)
            requires
                was.0 == ANGLE_UNIT,
        ;
        assert(was.1 * (x + 4 * dx - 0) == 0 && was.1 * (x - 0) == 0 && was.1 * (y + 4 * dy - 0)
            == 0 && was.1 * (y - 0) == 0) by (nonlinear_arith)
            requires
                was.1 == 0,
        ;
    }
}

/// A style's offset moves a box as moving the box itself does: the hit
/// test with the offset grown by `(dx, dy)` answers for a point what it
/// answers with the offset as it was for the point taken back by
/// `(dx, dy)`. So the offset of the style and a move of the shape add up.
pub proof fn lemma_offset_moves_box(
    left: int,
    top: int,
    width: int,
    height: int,
    x: int,
    y: int,
    style: Style,
    grown: Style,
    dx: int,
    dy: int,
)
    requires
        grown.stroke_width == style.stroke_width,
        grown.rotation == style.rotation,
        offset_of(grown) == (offset_of(style).0 + dx, offset_of(style).1 + dy),
    ensures
        box_hit(left, top, width, height, x + dx, y + dy, grown) == box_hit(
            left,
            top,
            width,
            height,
            x,
            y,
            style,
        ),
{
    let by = (4 * ANGLE_UNIT * dx, 4 * ANGLE_UNIT * dy);
    let p = probe(x, y);
    let tl = box_corner(left, top, width, height, style, false, false);
    let tr = box_corner(left, top, width, height, style, true, false);
    let br = box_corner(left, top, width, height, style, true, true);
    let bl = box_corner(left, top, width, height, style, false, true);
    assert(probe(x + dx, y + dy) == (p.0 + by.0, p.1 + by.1)) by {
        assert(4 * ANGLE_UNIT * (x + dx) == 4 * ANGLE_UNIT * x + 4 * ANGLE_UNIT * dx)
            by (nonlinear_arith);
        assert(4 * ANGLE_UNIT * (y + dy) == 4 * ANGLE_UNIT * y + 4 * ANGLE_UNIT * dy)
            by (nonlinear_arith);
    }
    let stroke = stroke_of(style);
    let turn = turn_of(
        style,
        2 * left - stroke,
        2 * top - stroke,
        2 * width + 2 * stroke,
        2 * height + 2 * stroke,
    );
    assert(ANGLE_UNIT * (turn.2.0 + 4 * (offset_of(style).0 + dx)) == ANGLE_UNIT * (turn.2.0 + 4
        * offset_of(style).0) + 4 * ANGLE_UNIT * dx) by (nonlinear_arith);
    assert(ANGLE_UNIT * (turn.2.1 + 4 * (offset_of(style).1 + dy)) == ANGLE_UNIT * (turn.2.1 + 4
        * offset_of(style).1) + 4 * ANGLE_UNIT * dy) by (nonlinear_arith);
    assert(box_corner(left, top, width, height, grown, false, false) == (tl.0 + by.0, tl.1 + by.1));
    assert(box_corner(left, top, width, height, grown, true, false) == (tr.0 + by.0, tr.1 + by.1));
    assert(box_corner(left, top, width, height, grown, true, true) == (br.0 + by.0, br.1 + by.1));
    assert(box_corner(left, top, width, height, grown, false, true) == (bl.0 + by.0, bl.1 + by.1));
    lemma_crossing_moves_along(p, tl, tr, by);
    lemma_crossing_moves_along(p, tr, br, by);
    lemma_crossing_moves_along(p, br, bl, by);
    lemma_crossing_moves_along(p, bl, tl, by);
}

/// A circle and a point moved together stay as they were to each other,
/// and a style's offset moves a circle as moving the circle itself does.
pub proof fn lemma_circle_moves_with_point(
    circle: Circle,
    moved: Circle,
    x: int,
    y: int,
    style: Style,
    grown: Style,
    dx: int,
    dy: int,
)
    requires
        moved.radius == circle.radius,
        grown.stroke_width == style.stroke_width,
        moved.center.x + offset_of(grown).0 == circle.center.x + offset_of(style).0 + dx,
        moved.center.y + offset_of(grown).1 == circle.center.y + offset_of(style).1 + dy,
    ensures
        circle_hit(moved, x + dx, y + dy, grown) == circle_hit(circle, x, y, style),
{
    assert((x + dx) - moved.center.x - offset_of(grown).0 == x - circle.center.x - offset_of(
        style,
    ).0);
    assert((y + dy) - moved.center.y - offset_of(grown).1 == y - circle.center.y - offset_of(
        style,
    ).1);
}

/// A style's rotation turns neither a line nor a circle: their hit tests
/// answer as they would without it.
pub proof fn lemma_turn_leaves_lines_and_circles(
    line: Line,
    circle: Circle,
    x: int,
    y: int,
    style: Style,
)
    ensures
        line_hit(line, x, y, style) == line_hit(line, x, y, Style { rotation: None, ..style }),
        circle_hit(circle, x, y, style) == circle_hit(
            circle,
            x,
            y,
            Style { rotation: None, ..style },
        ),
{
}

/// A line without length is on no point, whatever its stroke.
pub proof fn lemma_line_without_length(at: Point, x: int, y: int, style: Style)
    ensures
        !line_hit(Line { start: at, end: at }, x, y, style),
{
    let d = (at.x + offset_of(style).0) - (at.x + offset_of(style).0);
    assert(d * d == 0) by (nonlinear_arith)
        requires
            d == 0,
    ;
    let e = (at.y + offset_of(style).1) - (at.y + offset_of(style).1);
    assert(e * e == 0) by (nonlinear_arith)
        requires
            e == 0,
    ;
}

} // verus!
