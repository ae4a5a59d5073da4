use crate::arith::{clamp_coord, coord_delta};
use crate::event::{
    completes_click, key_event, of_pointer, pointer_event, same_occurrence, Event,
};
use crate::geometry::{Circle, Line, Point, Rectangle, Text};
use crate::node::{dirty_of, hovered_by, measured_at, replaced, shifted, with_dirty, Node};
use crate::style::{or_else, Style};
use std::collections::VecDeque;
use vstd::prelude::*;

verus! {

/// One node to repaint in a frame, and how to decorate it.
#[derive(Debug, Clone, Copy, PartialEq, Eq, Structural)]
pub struct Repaint {
    /// The node's place in the scene's list.
    pub index: usize,
    /// Whether a frame is drawn around the node: the pointer is on it.
    pub has_bounding_box: bool,
    /// Whether that frame is drawn as the frame of the selected node.
    pub is_selected: bool,
}

/// A scene: its nodes in paint order, the input that waits to be resolved,
/// and what the pointer is doing.
pub struct Context {
    pub background_color: Option<String>,
    pub nodes: Vec<Node>,
    pub selected_node: Option<usize>,
    pub hovered_node: Option<usize>,
    pub bounding_box_color: String,
    pub event: VecDeque<Event>,
    pub last_event: Option<Event>,
    pub drag_start_event: Option<Event>,
    pub is_dirty: bool,
}

/// What the resolution of one event reads and changes.
pub struct Interaction {
    pub nodes: Seq<Node>,
    pub hovered: Option<usize>,
    pub selected: Option<usize>,
    pub last_event: Option<Event>,
    pub drag_anchor: Option<Event>,
}

/// The scene's interaction state.
pub open spec fn interaction_of(ctx: Context) -> Interaction {
    Interaction {
        nodes: ctx.nodes@,
        hovered: ctx.hovered_node,
        selected: ctx.selected_node,
        last_event: ctx.last_event,
        drag_anchor: ctx.drag_start_event,
    }
}

/// The topmost node under the event's pointer among the first `below`
/// nodes: the one with the greatest index.
pub open spec fn topmost_hit(nodes: Seq<Node>, event: Event, below: int) -> Option<usize>
    decreases below,
{
    if below <= 0 {
        None
    } else if hovered_by(nodes[below - 1], event) {
        Some((below - 1) as usize)
    } else {
        topmost_hit(nodes, event, below - 1)
    }
}

/// The hovered node after an event: for an event of the pointer the topmost
/// node under it, if any; for an event of the keyboard the node hovered
/// before.
pub open spec fn hover_after(s: Interaction, event: Event) -> Option<usize> {
    if of_pointer(event) {
        topmost_hit(s.nodes, event, s.nodes.len() as int)
    } else {
        s.hovered
    }
}

/// The selected node after an event, before any drag is looked at: the
/// hovered node if the event completes a click, else the node selected
/// before.
pub open spec fn selection_after_click(s: Interaction, event: Event) -> Option<usize> {
    if completes_click(event, s.last_event) {
        hover_after(s, event)
    } else {
        s.selected
    }
}

/// The drag anchor after an event, before the node is moved: the event
/// itself if it is the pointer going down; the anchor as it was if the
/// event is a move during a drag; none otherwise.
pub open spec fn anchor_after(s: Interaction, event: Event) -> Option<Event> {
    if event.mouse_down {
        Some(event)
    } else if event.mouse_moved && s.drag_anchor.is_some() {
        s.drag_anchor
    } else {
        None
    }
}

/// The selected node after an event: the hovered node if the pointer went
/// down; else the selection after the click rule, and during a drag the
/// hovered node where nothing is selected.
pub open spec fn selection_after(s: Interaction, event: Event) -> Option<usize> {
    let chosen = if event.mouse_down {
        hover_after(s, event)
    } else {
        selection_after_click(s, event)
    };
    if anchor_after(s, event).is_some() {
        or_else(chosen, hover_after(s, event))
    } else {
        chosen
    }
}

/// The node that an event drags: the selected node, if the event is a move
/// during a drag and the selection is a node of the scene.
pub open spec fn dragged(s: Interaction, event: Event) -> Option<usize> {
    match (anchor_after(s, event), selection_after(s, event)) {
        (Some(_), Some(k)) => if event.mouse_moved && k < s.nodes.len() {
            Some(k)
        } else {
            None
        },
        _ => None,
    }
}

/// The state after one event.
///
/// The dragged node, if there is one, is moved by the way from the anchor
/// to the event, is marked, and the event becomes the new anchor.
pub open spec fn step(s: Interaction, event: Event) -> Interaction {
    let hovered = hover_after(s, event);
    let selected = selection_after(s, event);
    match dragged(s, event) {
        Some(k) => {
            let anchor = anchor_after(s, event).unwrap();
            let dx = clamp_coord(event.mouse_x - anchor.mouse_x);
            let dy = clamp_coord(event.mouse_y - anchor.mouse_y);
            Interaction {
                nodes: s.nodes.update(k as int, with_dirty(shifted(s.nodes[k as int], dx, dy), true)),
                hovered,
                selected,
                last_event: Some(event),
                drag_anchor: Some(event),
            }
        },
        None => Interaction {
            nodes: s.nodes,
            hovered,
            selected,
            last_event: Some(event),
            drag_anchor: anchor_after(s, event),
        },
    }
}

/// The state after a queue of events, resolved one by one from the front.
pub open spec fn run(s: Interaction, events: Seq<Event>) -> Interaction
    decreases events.len(),
{
    if events.len() == 0 {
        s
    } else {
        run(step(s, events[0]), events.subrange(1, events.len() as int))
    }
}

/// The queue after an event has come in: as it was if the event reports
/// the same occurrence as the last one waiting, else with the event at its
/// end.
pub open spec fn enqueued(queue: Seq<Event>, event: Event) -> Seq<Event> {
    if queue.len() > 0 && same_occurrence(queue[queue.len() - 1], event) {
        queue
    } else {
        queue.push(event)
    }
}

/// Whether a node is repainted in a frame: it is marked, or the scene is.
pub open spec fn repainted(node: Node, scene_dirty: bool) -> bool {
    dirty_of(node) || scene_dirty
}

/// How the node at `index` is repainted.
pub open spec fn repaint_of(index: int, hovered: Option<usize>, selected: Option<usize>) -> Repaint {
    Repaint {
        index: index as usize,
        has_bounding_box: hovered == Some(index as usize),
        is_selected: selected == Some(index as usize),
    }
}

/// The repaints of a frame among the first `upto` nodes, in paint order.
pub open spec fn repaints(
    nodes: Seq<Node>,
    scene_dirty: bool,
    hovered: Option<usize>,
    selected: Option<usize>,
    upto: int,
) -> Seq<Repaint>
    decreases upto,
{
    if upto <= 0 {
        Seq::empty()
    } else {
        let before = repaints(nodes, scene_dirty, hovered, selected, upto - 1);
        if repainted(nodes[upto - 1], scene_dirty) {
            before.push(repaint_of(upto - 1, hovered, selected))
        } else {
            before
        }
    }
}

/// The nodes with every mark taken off.
pub open spec fn unmarked(nodes: Seq<Node>) -> Seq<Node> {
    Seq::new(nodes.len(), |i: int| with_dirty(nodes[i], false))
}

fn same_index(a: Option<usize>, i: usize) -> (r: bool)
    ensures
        r == (a == Some(i)),
{
    match a {
        Some(k) => k == i,
        None => false,
    }
}

impl Context {
    /// An empty scene.
    pub fn new(background_color: Option<String>) -> (r: Self)
        ensures
            r.background_color == background_color,
            r.nodes@ == Seq::<Node>::empty(),
            r.selected_node.is_none(),
            r.hovered_node.is_none(),
            r.event@ == Seq::<Event>::empty(),
            r.last_event.is_none(),
            r.drag_start_event.is_none(),
            r.is_dirty,
            r.bounding_box_color@ == "#0ea5e9"@,
    {
        Context {
            background_color,
            nodes: Vec::new(),
            selected_node: None,
            hovered_node: None,
            bounding_box_color: "#0ea5e9".to_string(),
            event: VecDeque::new(),
            last_event: None,
            drag_start_event: None,
            is_dirty: true,
        }
    }

    /// Takes an event into the queue, unless it reports the same occurrence
    /// as the last one waiting there.
    pub fn push_unique_event(&mut self, event: Event)
        ensures
            final(self).event@ == enqueued(old(self).event@, event),
            final(self).is_dirty == (old(self).is_dirty || final(self).event@ != old(self).event@),
            *final(self) == (Context {
                event: final(self).event,
                is_dirty: final(self).is_dirty,
                ..*old(self)
            }),
    {
        let n = self.event.len();
        if n > 0 {
            if self.event[n - 1] == event {
                return ;
            }
        }
        self.event.push_back(event);
        self.is_dirty = true;
    }

    /// The topmost node under the event's pointer.
    pub fn hover_scan(&self, event: &Event) -> (r: Option<usize>)
        ensures
            r == topmost_hit(self.nodes@, *event, self.nodes@.len() as int),
    {
        let mut i: usize = self.nodes.len();
        while i > 0
            invariant
                i <= self.nodes@.len(),
                topmost_hit(self.nodes@, *event, self.nodes@.len() as int) == topmost_hit(
                    self.nodes@,
                    *event,
                    i as int,
                ),
            decreases i,
        {
            i -= 1;
            if self.nodes[i].is_hovered(event) {
                return Some(i);
            }
        }
        None
    }

    /// Resolves one event against the scene.
    pub fn resolve(&mut self, event: &Event)
        ensures
            interaction_of(*final(self)) == step(interaction_of(*old(self)), *event),
            final(self).event == old(self).event,
            final(self).is_dirty == old(self).is_dirty,
            final(self).background_color == old(self).background_color,
            final(self).bounding_box_color == old(self).bounding_box_color,
    {
        if event.mouse_moved || event.mouse_down || event.mouse_up {
            self.hovered_node = self.hover_scan(event);
        }
        if event.is_click(&mut self.last_event) {
            self.selected_node = self.hovered_node;
        }
        self.last_event = Some(event.clone());
        if event.mouse_down {
            self.drag_start_event = Some(event.clone());
            self.selected_node = self.hovered_node;
        } else if event.mouse_moved && self.drag_start_event.is_some() {
        } else {
            self.drag_start_event = None;
        }
        let delta: Option<(i32, i32)> = match &self.drag_start_event {
            Some(anchor) => Some(
                (
                    coord_delta(event.mouse_x, anchor.mouse_x),
                    coord_delta(event.mouse_y, anchor.mouse_y),
                ),
            ),
            None => None,
        };
        if let Some((dx, dy)) = delta {
            if self.selected_node.is_none() {
                self.selected_node = self.hovered_node;
            }
            if let Some(k) = self.selected_node {
                if event.mouse_moved && k < self.nodes.len() {
                    self.nodes[k].translate(dx, dy);
                    self.drag_start_event = Some(event.clone());
                }
            }
        }
        proof {
            assert(interaction_of(*self).nodes =~= step(interaction_of(*old(self)), *event).nodes);
        }
    }

    /// Takes in the pointer going down at `(x, y)`.
    pub fn on_mouse_down(&mut self, x: i32, y: i32, ts: u128)
        ensures
            final(self).event@ == enqueued(old(self).event@, (Event { mouse_down: true, ..pointer_event(x, y, ts) })),
            final(self).is_dirty == (old(self).is_dirty || final(self).event@ != old(self).event@),
            *final(self) == (Context {
                event: final(self).event,
                is_dirty: final(self).is_dirty,
                ..*old(self)
            }),
    {
        self.push_unique_event(Event::from_mouse_down(x, y, ts));
    }

    /// Takes in the pointer moving to `(x, y)`.
    pub fn on_mouse_move(&mut self, x: i32, y: i32, ts: u128)
        ensures
            final(self).event@ == enqueued(old(self).event@, (Event { mouse_moved: true, ..pointer_event(x, y, ts) })),
            final(self).is_dirty == (old(self).is_dirty || final(self).event@ != old(self).event@),
            *final(self) == (Context {
                event: final(self).event,
                is_dirty: final(self).is_dirty,
                ..*old(self)
            }),
    {
        self.push_unique_event(Event::from_mouse_move(x, y, ts));
    }

    /// Takes in the pointer coming up at `(x, y)`.
    pub fn on_mouse_up(&mut self, x: i32, y: i32, ts: u128)
        ensures
            final(self).event@ == enqueued(old(self).event@, (Event { mouse_up: true, ..pointer_event(x, y, ts) })),
            final(self).is_dirty == (old(self).is_dirty || final(self).event@ != old(self).event@),
            *final(self) == (Context {
                event: final(self).event,
                is_dirty: final(self).is_dirty,
                ..*old(self)
            }),
    {
        self.push_unique_event(Event::from_mouse_up(x, y, ts));
    }

    /// Takes in a key going down.
    pub fn on_key_down(&mut self, key: String, ts: u128)
        ensures
            final(self).event@ == enqueued(old(self).event@, (Event { key_down: true, ..key_event(key, ts) })),
            final(self).is_dirty == (old(self).is_dirty || final(self).event@ != old(self).event@),
            *final(self) == (Context {
                event: final(self).event,
                is_dirty: final(self).is_dirty,
                ..*old(self)
            }),
    {
        self.push_unique_event(Event::from_key_down(key, ts));
    }

    /// Takes in a key coming up.
    pub fn on_key_up(&mut self, key: String, ts: u128)
        ensures
            final(self).event@ == enqueued(old(self).event@, (Event { key_up: true, ..key_event(key, ts) })),
            final(self).is_dirty == (old(self).is_dirty || final(self).event@ != old(self).event@),
            *final(self) == (Context {
                event: final(self).event,
                is_dirty: final(self).is_dirty,
                ..*old(self)
            }),
    {
        self.push_unique_event(Event::from_key_up(key, ts));
    }

    /// Takes in a key press.
    pub fn on_key_press(&mut self, key: String, ts: u128)
        ensures
            final(self).event@ == enqueued(old(self).event@, (Event { key_pressed: true, ..key_event(key, ts) })),
            final(self).is_dirty == (old(self).is_dirty || final(self).event@ != old(self).event@),
            *final(self) == (Context {
                event: final(self).event,
                is_dirty: final(self).is_dirty,
                ..*old(self)
            }),
    {
        self.push_unique_event(Event::from_key_press(key, ts));
    }

    /// Decides whether a node is repainted in this frame, and how.
    pub fn render_node(&self, index: usize, node: &Node, has_bounding_box: bool, is_selected: bool) -> (r:
        Option<Repaint>)
        ensures
            r == if repainted(*node, self.is_dirty) {
                Some(Repaint { index, has_bounding_box, is_selected })
            } else {
                None
            },
    {
        if node.is_dirty() || self.is_dirty {
            Some(Repaint { index, has_bounding_box, is_selected })
        } else {
            None
        }
    }

    /// Runs one frame: resolves the waiting events in the order in which
    /// they came, says which nodes to repaint and how, and takes every
    /// node's mark off. The scene itself stays marked.
    pub fn render(&mut self) -> (plan: Vec<Repaint>)
        ensures
            final(self).nodes@ == unmarked(run(interaction_of(*old(self)), old(self).event@).nodes),
            final(self).hovered_node == run(interaction_of(*old(self)), old(self).event@).hovered,
            final(self).selected_node == run(interaction_of(*old(self)), old(self).event@).selected,
            final(self).last_event == run(interaction_of(*old(self)), old(self).event@).last_event,
            final(self).drag_start_event == run(
                interaction_of(*old(self)),
                old(self).event@,
            ).drag_anchor,
            final(self).event@ == Seq::<Event>::empty(),
            final(self).is_dirty,
            final(self).background_color == old(self).background_color,
            final(self).bounding_box_color == old(self).bounding_box_color,
            plan@ == repaints(
                run(interaction_of(*old(self)), old(self).event@).nodes,
                old(self).is_dirty,
                final(self).hovered_node,
                final(self).selected_node,
                final(self).nodes@.len() as int,
            ),
    {
        loop
            invariant
                run(interaction_of(*self), self.event@) == run(
                    interaction_of(*old(self)),
                    old(self).event@,
                ),
                self.is_dirty == old(self).is_dirty,
                self.background_color == old(self).background_color,
                self.bounding_box_color == old(self).bounding_box_color,
            ensures
                self.event@ == Seq::<Event>::empty(),
                interaction_of(*self) == run(interaction_of(*old(self)), old(self).event@),
                self.is_dirty == old(self).is_dirty,
                self.background_color == old(self).background_color,
                self.bounding_box_color == old(self).bounding_box_color,
            decreases self.event@.len(),
        {
            match self.event.pop_front() {
                Some(event) => {
                    self.resolve(&event);
                },
                None => {
                    break ;
                },
            }
        }
        let ghost end = interaction_of(*self);
        let mut plan: Vec<Repaint> = Vec::new();
        let mut i: usize = 0;
        while i < self.nodes.len()
            invariant
                i <= self.nodes@.len(),
                self.nodes@.len() == end.nodes.len(),
                forall|j: int| 0 <= j < i ==> self.nodes@[j] == with_dirty(end.nodes[j], false),
                forall|j: int| i <= j < end.nodes.len() ==> self.nodes@[j] == end.nodes[j],
                plan@ == repaints(end.nodes, self.is_dirty, end.hovered, end.selected, i as int),
                self.hovered_node == end.hovered,
                self.selected_node == end.selected,
                self.last_event == end.last_event,
                self.drag_start_event == end.drag_anchor,
                self.event@ == Seq::<Event>::empty(),
                self.is_dirty == old(self).is_dirty,
                self.background_color == old(self).background_color,
                self.bounding_box_color == old(self).bounding_box_color,
            decreases self.nodes@.len() - i,
        {
            let hovered = same_index(self.hovered_node, i);
            let selected = same_index(self.selected_node, i);
            match self.render_node(i, &self.nodes[i], hovered, selected) {
                Some(item) => {
                    plan.push(item);
                },
                None => {},
            }
            self.nodes[i].set_is_dirty(false);
            i += 1;
        }
        self.is_dirty = true;
        proof {
            assert(self.nodes@ =~= unmarked(end.nodes));
        }
        plan
    }

    /// Takes in the width that the text at `index` was measured at. The
    /// height is the font size of its style. Nothing happens where `index`
    /// is no place of the list or the node there is no text.
    pub fn text_measured(&mut self, index: usize, width: i32)
        ensures
            *final(self) == (Context { nodes: final(self).nodes, ..*old(self) }),
            final(self).nodes@ == replaced(
                old(self).nodes@,
                index,
                measured_at(old(self).nodes@[index as int], width),
            ),
    {
        if index < self.nodes.len() {
            self.nodes[index].set_measured(width);
        }
    }

    /// Puts a node on top of the scene.
    pub fn add_node(&mut self, node: Node)
        ensures
            *final(self) == (Context { nodes: final(self).nodes, ..*old(self) }),
            final(self).nodes@ == old(self).nodes@.push(node),
    {
        self.nodes.push(node);
    }

    /// Puts a marked line on top of the scene.
    pub fn add_line(&mut self, start: Point, end: Point, style: Style)
        ensures
            *final(self) == (Context { nodes: final(self).nodes, ..*old(self) }),
            final(self).nodes@ == old(self).nodes@.push(Node::Line(Line { start, end }, style, true)),
    {
        let line = Line { start, end };
        self.add_node(Node::Line(line, style, true));
    }

    /// Puts a marked rectangle on top of the scene.
    pub fn add_rect(&mut self, top: i32, left: i32, width: i32, height: i32, style: Style)
        ensures
            *final(self) == (Context { nodes: final(self).nodes, ..*old(self) }),
            final(self).nodes@ == old(self).nodes@.push(
                Node::Rect(Rectangle { top, left, width, height }, style, true),
            ),
    {
        let rect = Rectangle { top, left, width, height };
        self.add_node(Node::Rect(rect, style, true));
    }

    /// Puts a marked circle on top of the scene.
    pub fn add_circle(&mut self, center: Point, radius: i32, style: Style)
        ensures
            *final(self) == (Context { nodes: final(self).nodes, ..*old(self) }),
            final(self).nodes@ == old(self).nodes@.push(
                Node::Circle(Circle { center, radius }, style, true),
            ),
    {
        let circle = Circle { center, radius };
        self.add_node(Node::Circle(circle, style, true));
    }

    /// Puts a marked text, not yet measured, on top of the scene.
    pub fn add_text(&mut self, text: String, position: Point, style: Style)
        ensures
            *final(self) == (Context { nodes: final(self).nodes, ..*old(self) }),
            final(self).nodes@ == old(self).nodes@.push(
                Node::Text(Text { text, position, shape: None }, style, true),
            ),
    {
        let text = Text { text, position, shape: None };
        self.add_node(Node::Text(text, style, true));
    }
}

} // verus!
