use crate::context::{enqueued, interaction_of, repaints, run, unmarked, Context, Repaint};
use crate::event::{key_event, pointer_event, Event};
use crate::geometry::{Circle, Line, Point, Rectangle, Text};
use crate::node::{Node, NodeRef};
use crate::style::Style;
use vstd::prelude::*;

verus! {

/// The scene as its users hold it: shapes go in and handles come out,
/// input comes in, and a frame is run when the user asks for one.
pub struct Canvas {
    pub inner: Context,
}

impl Canvas {
    /// A handle on the node that was added last.
    fn make_node_ref(&self) -> (r: NodeRef)
        requires
            self.inner.nodes@.len() > 0,
        ensures
            r.id == self.inner.nodes@.len() - 1,
    {
        let id = self.inner.nodes.len() - 1;
        NodeRef::new(id)
    }

    /// An empty scene.
    pub fn new(background_color: Option<String>) -> (r: Canvas)
        ensures
            r.inner.background_color == background_color,
            r.inner.nodes@ == Seq::<Node>::empty(),
            r.inner.selected_node.is_none(),
            r.inner.hovered_node.is_none(),
            r.inner.event@ == Seq::<Event>::empty(),
            r.inner.last_event.is_none(),
            r.inner.drag_start_event.is_none(),
            r.inner.is_dirty,
    {
        Canvas { inner: Context::new(background_color) }
    }

    /// Runs one frame of the scene.
    pub fn render(&mut self) -> (plan: Vec<Repaint>)
        ensures
            final(self).inner.nodes@ == unmarked(
                run(interaction_of(old(self).inner), old(self).inner.event@).nodes,
            ),
            final(self).inner.hovered_node == run(
                interaction_of(old(self).inner),
                old(self).inner.event@,
            ).hovered,
            final(self).inner.selected_node == run(
                interaction_of(old(self).inner),
                old(self).inner.event@,
            ).selected,
            final(self).inner.last_event == run(
                interaction_of(old(self).inner),
                old(self).inner.event@,
            ).last_event,
            final(self).inner.drag_start_event == run(
                interaction_of(old(self).inner),
                old(self).inner.event@,
            ).drag_anchor,
            final(self).inner.event@ == Seq::<Event>::empty(),
            final(self).inner.is_dirty,
            final(self).inner.background_color == old(self).inner.background_color,
            final(self).inner.bounding_box_color == old(self).inner.bounding_box_color,
            plan@ == repaints(
                run(interaction_of(old(self).inner), old(self).inner.event@).nodes,
                old(self).inner.is_dirty,
                final(self).inner.hovered_node,
                final(self).inner.selected_node,
                final(self).inner.nodes@.len() as int,
            ),
    {
        self.inner.render()
    }

    /// Puts a line on top of the scene and hands out a handle on it.
    pub fn add_line(&mut self, start_x: i32, start_y: i32, end_x: i32, end_y: i32, style: Style) -> (r:
        NodeRef)
        ensures
            r.id == old(self).inner.nodes@.len(),
            final(self).inner == (Context { nodes: final(self).inner.nodes, ..old(self).inner }),
            final(self).inner.nodes@ == old(self).inner.nodes@.push(
                Node::Line(
                    Line {
                        start: Point { x: start_x, y: start_y },
                        end: Point { x: end_x, y: end_y },
                    },
                    style,
                    true,
                ),
            ),
    {
        self.inner.add_line(
            Point { x: start_x, y: start_y },
            Point { x: end_x, y: end_y },
            style,
        );
        self.make_node_ref()
    }

    /// Puts a rectangle on top of the scene and hands out a handle on it.
    pub fn add_rect(&mut self, top: i32, left: i32, width: i32, height: i32, style: Style) -> (r:
        NodeRef)
        ensures
            r.id == old(self).inner.nodes@.len(),
            final(self).inner == (Context { nodes: final(self).inner.nodes, ..old(self).inner }),
            final(self).inner.nodes@ == old(self).inner.nodes@.push(
                Node::Rect(Rectangle { top, left, width, height }, style, true),
            ),
    {
        self.inner.add_rect(top, left, width, height, style);
        self.make_node_ref()
    }

    /// Puts a circle on top of the scene and hands out a handle on it.
    pub fn add_circle(&mut self, center_x: i32, center_y: i32, radius: i32, style: Style) -> (r:
        NodeRef)
        ensures
            r.id == old(self).inner.nodes@.len(),
            final(self).inner == (Context { nodes: final(self).inner.nodes, ..old(self).inner }),
            final(self).inner.nodes@ == old(self).inner.nodes@.push(
                Node::Circle(
                    Circle { center: Point { x: center_x, y: center_y }, radius },
                    style,
                    true,
                ),
            ),
    {
        self.inner.add_circle(Point { x: center_x, y: center_y }, radius, style);
        self.make_node_ref()
    }

    /// Puts a text on top of the scene and hands out a handle on it.
    pub fn add_text(&mut self, text: String, x: i32, y: i32, style: Style) -> (r: NodeRef)
        ensures
            r.id == old(self).inner.nodes@.len(),
            final(self).inner == (Context { nodes: final(self).inner.nodes, ..old(self).inner }),
            final(self).inner.nodes@ == old(self).inner.nodes@.push(
                Node::Text(Text { text, position: Point { x, y }, shape: None }, style, true),
            ),
    {
        self.inner.add_text(text, Point { x, y }, style);
        self.make_node_ref()
    }

    /// Takes in the pointer going down at `(x, y)`.
    pub fn on_mouse_down(&mut self, x: i32, y: i32, ts: u128)
        ensures
            final(self).inner.event@ == enqueued(
                old(self).inner.event@,
                (Event { mouse_down: true, ..pointer_event(x, y, ts) }),
            ),
            final(self).inner.is_dirty == (old(self).inner.is_dirty || final(self).inner.event@
                != old(self).inner.event@),
            final(self).inner == (Context {
                event: final(self).inner.event,
                is_dirty: final(self).inner.is_dirty,
                ..old(self).inner
            }),
    {
        self.inner.on_mouse_down(x, y, ts);
    }

    /// Takes in the pointer moving to `(x, y)`.
    pub fn on_mouse_move(&mut self, x: i32, y: i32, ts: u128)
        ensures
            final(self).inner.event@ == enqueued(
                old(self).inner.event@,
                (Event { mouse_moved: true, ..pointer_event(x, y, ts) }),
            ),
            final(self).inner.is_dirty == (old(self).inner.is_dirty || final(self).inner.event@
                != old(self).inner.event@),
            final(self).inner == (Context {
                event: final(self).inner.event,
                is_dirty: final(self).inner.is_dirty,
                ..old(self).inner
            }),
    {
        self.inner.on_mouse_move(x, y, ts);
    }

    /// Takes in the pointer coming up at `(x, y)`.
    pub fn on_mouse_up(&mut self, x: i32, y: i32, ts: u128)
        ensures
            final(self).inner.event@ == enqueued(
                old(self).inner.event@,
                (Event { mouse_up: true, ..pointer_event(x, y, ts) }),
            ),
            final(self).inner.is_dirty == (old(self).inner.is_dirty || final(self).inner.event@
                != old(self).inner.event@),
            final(self).inner == (Context {
                event: final(self).inner.event,
                is_dirty: final(self).inner.is_dirty,
                ..old(self).inner
            }),
    {
        self.inner.on_mouse_up(x, y, ts);
    }

    /// Takes in a key going down.
    pub fn on_key_down(&mut self, key: String, ts: u128)
        ensures
            final(self).inner.event@ == enqueued(
                old(self).inner.event@,
                (Event { key_down: true, ..key_event(key, ts) }),
            ),
            final(self).inner.is_dirty == (old(self).inner.is_dirty || final(self).inner.event@
                != old(self).inner.event@),
            final(self).inner == (Context {
                event: final(self).inner.event,
                is_dirty: final(self).inner.is_dirty,
                ..old(self).inner
            }),
    {
        self.inner.on_key_down(key, ts);
    }

    /// Takes in a key coming up.
    pub fn on_key_up(&mut self, key: String, ts: u128)
        ensures
            final(self).inner.event@ == enqueued(
                old(self).inner.event@,
                (Event { key_up: true, ..key_event(key, ts) }),
            ),
            final(self).inner.is_dirty == (old(self).inner.is_dirty || final(self).inner.event@
                != old(self).inner.event@),
            final(self).inner == (Context {
                event: final(self).inner.event,
                is_dirty: final(self).inner.is_dirty,
                ..old(self).inner
            }),
    {
        self.inner.on_key_up(key, ts);
    }

    /// Takes in a key press.
    pub fn on_key_press(&mut self, key: String, ts: u128)
        ensures
            final(self).inner.event@ == enqueued(
                old(self).inner.event@,
                (Event { key_pressed: true, ..key_event(key, ts) }),
            ),
            final(self).inner.is_dirty == (old(self).inner.is_dirty || final(self).inner.event@
                != old(self).inner.event@),
            final(self).inner == (Context {
                event: final(self).inner.event,
                is_dirty: final(self).inner.is_dirty,
                ..old(self).inner
            }),
    {
        self.inner.on_key_press(key, ts);
    }
}

} // verus!
