use crate::arith::clamp_coord;
use crate::context::Context;
use crate::event::{of_pointer, Event};
use crate::geometry::{
    box_hit, circle_hit, line_hit, measured, moved, text_hit, Circle, Line, Rectangle, Size, Text,
};
use crate::style::{named_pivot, patched, Angle, Style};
use vstd::prelude::*;

verus! {

/// One shape of the scene with its style and its mark of needing a repaint.
#[derive(Debug, PartialEq, Eq)]
pub enum Node {
    Line(Line, Style, bool),
    Rect(Rectangle, Style, bool),
    Circle(Circle, Style, bool),
    Text(Text, Style, bool),
}

/// The node's style.
pub open spec fn style_of(node: Node) -> Style {
    match node {
        Node::Line(_, style, _) => style,
        Node::Rect(_, style, _) => style,
        Node::Circle(_, style, _) => style,
        Node::Text(_, style, _) => style,
    }
}

/// Whether the node is marked as needing a repaint.
pub open spec fn dirty_of(node: Node) -> bool {
    match node {
        Node::Line(_, _, dirty) => dirty,
        Node::Rect(_, _, dirty) => dirty,
        Node::Circle(_, _, dirty) => dirty,
        Node::Text(_, _, dirty) => dirty,
    }
}

/// The node with another style.
pub open spec fn with_style(node: Node, style: Style) -> Node {
    match node {
        Node::Line(line, _, dirty) => Node::Line(line, style, dirty),
        Node::Rect(rect, _, dirty) => Node::Rect(rect, style, dirty),
        Node::Circle(circle, _, dirty) => Node::Circle(circle, style, dirty),
        Node::Text(text, _, dirty) => Node::Text(text, style, dirty),
    }
}

/// The node with another mark.
pub open spec fn with_dirty(node: Node, dirty: bool) -> Node {
    match node {
        Node::Line(line, style, _) => Node::Line(line, style, dirty),
        Node::Rect(rect, style, _) => Node::Rect(rect, style, dirty),
        Node::Circle(circle, style, _) => Node::Circle(circle, style, dirty),
        Node::Text(text, style, _) => Node::Text(text, style, dirty),
    }
}

/// The node with its shape moved by `(dx, dy)`. The style, and with it the
/// style's own offset, stays as it is, and so does the mark.
pub open spec fn shifted(node: Node, dx: int, dy: int) -> Node {
    match node {
        Node::Line(line, style, dirty) => Node::Line(
            Line { start: moved(line.start, dx, dy), end: moved(line.end, dx, dy) },
            style,
            dirty,
        ),
        Node::Rect(rect, style, dirty) => Node::Rect(
            Rectangle {
                left: clamp_coord(rect.left + dx) as i32,
                top: clamp_coord(rect.top + dy) as i32,
                ..rect
            },
            style,
            dirty,
        ),
        Node::Circle(circle, style, dirty) => Node::Circle(
            Circle { center: moved(circle.center, dx, dy), ..circle },
            style,
            dirty,
        ),
        Node::Text(text, style, dirty) => Node::Text(
            Text { position: moved(text.position, dx, dy), ..text },
            style,
            dirty,
        ),
    }
}

/// Whether the point `(x, y)` is on the node's shape as the node's style
/// places it.
pub open spec fn shape_hit(node: Node, x: int, y: int) -> bool {
    match node {
        Node::Line(line, style, _) => line_hit(line, x, y, style),
        Node::Rect(rect, style, _) => box_hit(
            rect.left as int,
            rect.top as int,
            rect.width as int,
            rect.height as int,
            x,
            y,
            style,
        ),
        Node::Circle(circle, style, _) => circle_hit(circle, x, y, style),
        Node::Text(text, style, _) => text_hit(text, x, y, style),
    }
}

/// Whether the event's pointer is on the node. An event of the keyboard is
/// on no node.
pub open spec fn hovered_by(node: Node, event: Event) -> bool {
    of_pointer(event) && shape_hit(node, event.mouse_x as int, event.mouse_y as int)
}

/// The node after its text has been measured `width` wide: a text node
/// holds that width, and its style's font size (or zero) as its height;
/// any other node is as it was.
pub open spec fn measured_at(node: Node, width: i32) -> Node {
    match node {
        Node::Text(text, style, dirty) => Node::Text(
            Text {
                shape: Some(
                    Size {
                        width,
                        height: match style.font_size {
                            Some(size) => size,
                            None => 0,
                        },
                    },
                ),
                ..text
            },
            style,
            dirty,
        ),
        _ => node,
    }
}

/// The box that the node's shape spans, before the style places it.
pub open spec fn rect_of(node: Node) -> Rectangle {
    match node {
        Node::Line(line, _, _) => Rectangle {
            left: line.start.x,
            top: line.start.y,
            width: clamp_coord(line.end.x - line.start.x) as i32,
            height: clamp_coord(line.end.y - line.start.y) as i32,
        },
        Node::Rect(rect, _, _) => rect,
        Node::Circle(circle, _, _) => Rectangle {
            left: clamp_coord(circle.center.x - circle.radius) as i32,
            top: clamp_coord(circle.center.y - circle.radius) as i32,
            width: clamp_coord(2 * circle.radius) as i32,
            height: clamp_coord(2 * circle.radius) as i32,
        },
        Node::Text(text, _, _) => Rectangle {
            left: text.position.x,
            top: text.position.y,
            width: measured(text).0 as i32,
            height: measured(text).1 as i32,
        },
    }
}

impl Clone for Node {
    fn clone(&self) -> (r: Self)
        ensures
            r == *self,
    {
        match self {
            Node::Line(line, style, dirty) => Node::Line(*line, style.clone(), *dirty),
            Node::Rect(rect, style, dirty) => Node::Rect(*rect, style.clone(), *dirty),
            Node::Circle(circle, style, dirty) => Node::Circle(*circle, style.clone(), *dirty),
            Node::Text(text, style, dirty) => Node::Text(text.clone(), style.clone(), *dirty),
        }
    }
}

impl Node {
    /// The box that the node's shape spans, before the style places it.
    pub fn get_rect(&self) -> (r: Rectangle)
        ensures
            r == rect_of(*self),
    {
        match self {
            Node::Line(line, _, _) => line.get_rect(),
            Node::Rect(rect, _, _) => rect.get_rect(),
            Node::Circle(circle, _, _) => circle.get_rect(),
            Node::Text(text, _, _) => text.get_rect(),
        }
    }

    /// The node's style.
    pub fn get_style(&self) -> (r: &Style)
        ensures
            *r == style_of(*self),
    {
        match self {
            Node::Line(_, style, _) => style,
            Node::Rect(_, style, _) => style,
            Node::Circle(_, style, _) => style,
            Node::Text(_, style, _) => style,
        }
    }

    /// Records the width that the node's text was measured at. The height
    /// is the style's font size. A node that is no text is left alone.
    pub fn set_measured(&mut self, width: i32)
        ensures
            *final(self) == measured_at(*old(self), width),
    {
        match self {
            Node::Text(text, style, _) => {
                let height: i32 = match style.font_size {
                    Some(size) => size,
                    None => 0,
                };
                text.set_measured(width, height);
            },
            _ => {},
        }
    }

    /// The node's style, to be changed in place.
    pub fn get_style_mut(&mut self) -> (ret: &mut Style)
        ensures
            *ret == style_of(*old(self)),
            *final(self) == with_style(*old(self), *final(ret)),
    {
        match self {
            Node::Line(_, style, _) => style,
            Node::Rect(_, style, _) => style,
            Node::Circle(_, style, _) => style,
            Node::Text(_, style, _) => style,
        }
    }

    /// Merges `style` over the node's style and marks the node.
    pub fn set_style(&mut self, style: Style)
        ensures
            *final(self) == with_dirty(
                with_style(*old(self), patched(style_of(*old(self)), style)),
                true,
            ),
    {
        let slot = self.get_style_mut();
        let merged = slot.clone().patch(style);
        *slot = merged;
        self.set_is_dirty(true);
    }

    /// Whether the event's pointer is on the node.
    pub fn is_hovered(&self, event: &Event) -> (r: bool)
        ensures
            r == hovered_by(*self, *event),
    {
        if !(event.mouse_moved || event.mouse_down || event.mouse_up) {
            return false;
        }
        let (x, y) = (event.mouse_x, event.mouse_y);
        match self {
            Node::Line(line, style, _) => line.is_hovered(x, y, style),
            Node::Rect(rect, style, _) => rect.is_hovered(x, y, style),
            Node::Circle(circle, style, _) => circle.is_hovered(x, y, style),
            Node::Text(text, style, _) => text.is_hovered(x, y, style),
        }
    }

    /// Moves the node's shape by `(x, y)` and marks the node.
    pub fn translate(&mut self, x: i32, y: i32)
        ensures
            *final(self) == with_dirty(shifted(*old(self), x as int, y as int), true),
    {
        match self {
            Node::Line(line, _, _) => line.translate(x, y),
            Node::Rect(rect, _, _) => rect.translate(x, y),
            Node::Circle(circle, _, _) => circle.translate(x, y),
            Node::Text(text, _, _) => text.translate(x, y),
        }
        self.set_is_dirty(true);
    }

    /// Sets the node's mark.
    pub fn set_is_dirty(&mut self, is_dirty: bool)
        ensures
            *final(self) == with_dirty(*old(self), is_dirty),
    {
        match self {
            Node::Line(_, _, flag) => *flag = is_dirty,
            Node::Rect(_, _, flag) => *flag = is_dirty,
            Node::Circle(_, _, flag) => *flag = is_dirty,
            Node::Text(_, _, flag) => *flag = is_dirty,
        }
    }

    /// Whether the node is marked as needing a repaint.
    pub fn is_dirty(&self) -> (r: bool)
        ensures
            r == dirty_of(*self),
    {
        match self {
            Node::Line(_, _, flag) => *flag,
            Node::Rect(_, _, flag) => *flag,
            Node::Circle(_, _, flag) => *flag,
            Node::Text(_, _, flag) => *flag,
        }
    }
}

/// A handle on the node at one place of a scene's list. It holds the place,
/// not the node: once a node before it is removed it stands for the next
/// node, and once the list is too short it stands for none.
#[derive(Debug, Clone, Copy, PartialEq, Eq, Structural)]
pub struct NodeRef {
    pub id: usize,
}

/// The nodes with `change` in place of the node at `id`, or as they are
/// where the list has no such place.
pub open spec fn replaced(nodes: Seq<Node>, id: usize, change: Node) -> Seq<Node> {
    if id < nodes.len() {
        nodes.update(id as int, change)
    } else {
        nodes
    }
}

/// The nodes without the one at `id`, or as they are where the list has no
/// such place.
pub open spec fn without(nodes: Seq<Node>, id: usize) -> Seq<Node> {
    if id < nodes.len() {
        nodes.remove(id as int)
    } else {
        nodes
    }
}

impl NodeRef {
    /// A handle on the node at `id`.
    pub fn new(id: usize) -> (r: Self)
        ensures
            r.id == id,
    {
        NodeRef { id }
    }

    /// Sets the offset of the node's style to `(x, y)` and marks the node.
    /// Does nothing where the handle stands for no node.
    pub fn translate(&self, ctx: &mut Context, x: i32, y: i32)
        ensures
            *final(ctx) == (Context { nodes: final(ctx).nodes, ..*old(ctx) }),
            final(ctx).nodes@ == replaced(
                old(ctx).nodes@,
                self.id,
                with_dirty(
                    with_style(
                        old(ctx).nodes@[self.id as int],
                        Style {
                            translate: Some((x, y)),
                            ..style_of(old(ctx).nodes@[self.id as int])
                        },
                    ),
                    true,
                ),
            ),
    {
        if self.id < ctx.nodes.len() {
            let node = &mut ctx.nodes[self.id];
            node.get_style_mut().translate(x, y);
            node.set_is_dirty(true);
        }
    }

    /// Merges `style` over the node's style and marks the node. Does
    /// nothing where the handle stands for no node.
    pub fn set_style(&self, ctx: &mut Context, style: Style)
        ensures
            *final(ctx) == (Context { nodes: final(ctx).nodes, ..*old(ctx) }),
            final(ctx).nodes@ == replaced(
                old(ctx).nodes@,
                self.id,
                with_dirty(
                    with_style(
                        old(ctx).nodes@[self.id as int],
                        patched(style_of(old(ctx).nodes@[self.id as int]), style),
                    ),
                    true,
                ),
            ),
    {
        if self.id < ctx.nodes.len() {
            ctx.nodes[self.id].set_style(style);
        }
    }

    /// Sets the rotation of the node's style and marks the node. Does
    /// nothing where the handle stands for no node.
    pub fn rotation(
        &self,
        ctx: &mut Context,
        angle: Angle,
        control_point: Option<String>,
        x: Option<i32>,
        y: Option<i32>,
    )
        ensures
            *final(ctx) == (Context { nodes: final(ctx).nodes, ..*old(ctx) }),
            final(ctx).nodes@ == replaced(
                old(ctx).nodes@,
                self.id,
                with_dirty(
                    with_style(
                        old(ctx).nodes@[self.id as int],
                        Style {
                            rotation: Some((angle, named_pivot(control_point, x, y))),
                            ..style_of(old(ctx).nodes@[self.id as int])
                        },
                    ),
                    true,
                ),
            ),
    {
        if self.id < ctx.nodes.len() {
            let node = &mut ctx.nodes[self.id];
            node.get_style_mut().rotation(angle, control_point, x, y);
            node.set_is_dirty(true);
        }
    }

    /// Takes the node out of the scene; the nodes after it move down by
    /// one place. Does nothing where the handle stands for no node.
    pub fn remove(self, ctx: &mut Context)
        ensures
            *final(ctx) == (Context { nodes: final(ctx).nodes, ..*old(ctx) }),
            final(ctx).nodes@ == without(old(ctx).nodes@, self.id),
    {
        if self.id < ctx.nodes.len() {
            ctx.nodes.remove(self.id);
        }
    }

    /// Whether the point `(x, y)` is on the node. It is on no node where
    /// the handle stands for none.
    pub fn is_hovered(&self, ctx: &Context, x: i32, y: i32) -> (r: bool)
        ensures
            r == (self.id < ctx.nodes@.len() && shape_hit(
                ctx.nodes@[self.id as int],
                x as int,
                y as int,
            )),
    {
        if self.id < ctx.nodes.len() {
            ctx.nodes[self.id].is_hovered(&Event::from_mouse_move(x, y, 0))
        } else {
            false
        }
    }
}

} // verus!
