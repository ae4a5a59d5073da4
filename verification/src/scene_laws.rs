use crate::context::{
    enqueued, hover_after, repaint_of, repainted, repaints, run, step, topmost_hit, unmarked,
    Interaction,
};
use crate::event::{of_pointer, same_occurrence, Event, CLICK_WINDOW};
use crate::node::{hovered_by, shifted, with_dirty, without, Node};
use crate::style::{patched, unset_style, Style};
use vstd::prelude::*;

verus! {

/// An event that reports the same occurrence as the one that came in just
/// before it does not lengthen the queue: of the two, only the first waits.
pub proof fn lemma_repeated_event_is_dropped(queue: Seq<Event>, first: Event, second: Event)
    requires
        same_occurrence(first, second),
    ensures
        enqueued(enqueued(queue, first), second) == enqueued(queue, first),
{
}

/// The topmost node under an event is under it, and no node above it is.
/// Where there is none, no node is under the event.
pub proof fn lemma_topmost_hit(nodes: Seq<Node>, event: Event, below: int)
    requires
        0 <= below <= nodes.len() <= usize::MAX,
    ensures
        match topmost_hit(nodes, event, below) {
            Some(k) => {
                &&& k < below
                &&& hovered_by(nodes[k as int], event)
                &&& forall|j: int| k < j < below ==> !hovered_by(#[trigger] nodes[j], event)
            },
            None => forall|j: int| 0 <= j < below ==> !hovered_by(#[trigger] nodes[j], event),
        },
    decreases below,
{
    if below > 0 && !hovered_by(nodes[below - 1], event) {
        lemma_topmost_hit(nodes, event, below - 1);
    }
}

/// Two events of the pointer at the same place are over the same topmost
/// node.
pub proof fn lemma_same_place_same_hit(nodes: Seq<Node>, a: Event, b: Event, below: int)
    requires
        of_pointer(a),
        of_pointer(b),
        a.mouse_x == b.mouse_x,
        a.mouse_y == b.mouse_y,
    ensures
        topmost_hit(nodes, a, below) == topmost_hit(nodes, b, below),
    decreases below,
{
    if below > 0 {
        lemma_same_place_same_hit(nodes, a, b, below - 1);
    }
}

/// The state after two events.
pub proof fn lemma_run_two(s: Interaction, first: Event, second: Event)
    ensures
        run(s, seq![first, second]) == step(step(s, first), second),
{
    let events = seq![first, second];
    let rest = events.subrange(1, 2);
    assert(rest.len() == 1);
    assert(rest[0] == second);
    let none = rest.subrange(1, 1);
    assert(none.len() == 0);
    assert(run(step(step(s, first), second), none) == step(step(s, first), second));
    assert(run(step(s, first), rest) == run(step(step(s, first), second), none));
    assert(run(s, events) == run(step(s, first), rest));
}

/// A click selects what it is on: after the pointer has gone down and has
/// come up again within the click window, the selected node is the node
/// under the pointer as it came up, and no node is selected where none is
/// under it.
pub proof fn lemma_click_selects_hovered(s: Interaction, down: Event, up: Event)
    requires
        down.mouse_down,
        up.mouse_up,
        down.timestamp <= up.timestamp <= down.timestamp + CLICK_WINDOW,
    ensures
        run(s, seq![down, up]).selected == run(s, seq![down, up]).hovered,
        run(s, seq![down, up]).hovered == topmost_hit(
            step(s, down).nodes,
            up,
            step(s, down).nodes.len() as int,
        ),
{
    lemma_run_two(s, down, up);
}

/// A release that comes too late for a click, at the place where the
/// pointer went down, changes no selection: the selected node is still the
/// node that the pointer went down on, which is the node under the pointer
/// now, and no node is selected where none is under it.
pub proof fn lemma_late_release_keeps_selection(s: Interaction, down: Event, up: Event)
    requires
        down.mouse_down,
        !down.mouse_moved,
        up.mouse_up,
        !up.mouse_down,
        !up.mouse_moved,
        up.mouse_x == down.mouse_x,
        up.mouse_y == down.mouse_y,
        up.timestamp > down.timestamp + CLICK_WINDOW,
    ensures
        run(s, seq![down, up]).selected == hover_after(s, down),
        run(s, seq![down, up]).selected == run(s, seq![down, up]).hovered,
        run(s, seq![down, up]).nodes == s.nodes,
{
    lemma_run_two(s, down, up);
    lemma_same_place_same_hit(s.nodes, down, up, s.nodes.len() as int);
}

/// Whether a state's drag anchor, if it has one, lies at `(x, y)`.
pub open spec fn anchored_at(s: Interaction, x: i32, y: i32) -> bool {
    match s.drag_anchor {
        Some(anchor) => anchor.mouse_x == x && anchor.mouse_y == y,
        None => true,
    }
}

/// Whether every event lies at `(x, y)`.
pub open spec fn all_at(events: Seq<Event>, x: i32, y: i32) -> bool {
    forall|i: int| 0 <= i < events.len() ==> (#[trigger] events[i]).mouse_x == x && events[i].mouse_y == y
}

/// A node moved by nothing is the node.
pub proof fn lemma_shift_by_nothing(node: Node)
    ensures
        shifted(node, 0, 0) == node,
{
}

/// One event at the place of the drag anchor moves no shape, and leaves
/// the anchor, if any, at that place.
pub proof fn lemma_still_step(s: Interaction, event: Event, x: i32, y: i32)
    requires
        event.mouse_down || anchored_at(s, x, y),
        event.mouse_x == x,
        event.mouse_y == y,
    ensures
        unmarked(step(s, event).nodes) == unmarked(s.nodes),
        anchored_at(step(s, event), x, y),
{
    let after = step(s, event);
    assert(after.nodes.len() == s.nodes.len());
    assert forall|k: int| 0 <= k < s.nodes.len() implies with_dirty(after.nodes[k], false)
        == with_dirty(s.nodes[k], false) by {
        lemma_shift_by_nothing(s.nodes[k]);
    }
    assert(unmarked(after.nodes) =~= unmarked(s.nodes));
}

/// Events at the place of the drag anchor move no shape.
pub proof fn lemma_still_run(s: Interaction, events: Seq<Event>, x: i32, y: i32)
    requires
        anchored_at(s, x, y),
        all_at(events, x, y),
    ensures
        unmarked(run(s, events).nodes) == unmarked(s.nodes),
    decreases events.len(),
{
    if events.len() > 0 {
        lemma_still_step(s, events[0], x, y);
        let rest = events.subrange(1, events.len() as int);
        assert(all_at(rest, x, y)) by {
            assert forall|i: int| 0 <= i < rest.len() implies (#[trigger] rest[i]).mouse_x == x
                && rest[i].mouse_y == y by {
                assert(rest[i] == events[i + 1]);
            }
        }
        lemma_still_run(step(s, events[0]), rest, x, y);
    }
}

/// A drag without motion moves nothing: after the pointer has gone down
/// and any number of events have followed at that same place, every node's
/// shape and style are what they were. Only marks may have been set.
pub proof fn lemma_still_drag_moves_nothing(s: Interaction, events: Seq<Event>)
    requires
        events.len() > 0,
        events[0].mouse_down,
        all_at(events, events[0].mouse_x, events[0].mouse_y),
    ensures
        unmarked(run(s, events).nodes) == unmarked(s.nodes),
{
    let x = events[0].mouse_x;
    let y = events[0].mouse_y;
    lemma_still_step(s, events[0], x, y);
    let rest = events.subrange(1, events.len() as int);
    assert(all_at(rest, x, y)) by {
        assert forall|i: int| 0 <= i < rest.len() implies (#[trigger] rest[i]).mouse_x == x
            && rest[i].mouse_y == y by {
            assert(rest[i] == events[i + 1]);
        }
    }
    lemma_still_run(step(s, events[0]), rest, x, y);
}

/// Removing the node at `k` moves every later node down by one place and
/// leaves every earlier node where it was, so a handle on a place after
/// `k` stands for the next node from then on, or for none.
pub proof fn lemma_removal_shifts(nodes: Seq<Node>, k: usize)
    requires
        k < nodes.len(),
    ensures
        without(nodes, k).len() == nodes.len() - 1,
        forall|j: int| 0 <= j < k ==> #[trigger] without(nodes, k)[j] == nodes[j],
        forall|j: int| k <= j < nodes.len() - 1 ==> #[trigger] without(nodes, k)[j] == nodes[j + 1],
{
}

/// Removing at a place that the list does not have changes nothing.
pub proof fn lemma_removal_out_of_range(nodes: Seq<Node>, k: usize)
    requires
        k >= nodes.len(),
    ensures
        without(nodes, k) == nodes,
{
}

/// A patch that sets nothing changes nothing.
pub proof fn lemma_empty_patch(base: Style)
    ensures
        patched(base, unset_style()) == base,
{
}

/// A patch that sets the fill colour alone changes the fill colour alone.
pub proof fn lemma_fill_patch(base: Style, color: String)
    ensures
        patched(base, Style { fill_color: Some(color), ..unset_style() }) == (Style {
            fill_color: Some(color),
            ..base
        }),
{
}

/// A patch decides every field that it sets, whatever the base holds, and
/// no field that it leaves unset.
pub proof fn lemma_patch_by_field(base: Style, patch: Style)
    ensures
        patch.fill_color.is_some() ==> patched(base, patch).fill_color == patch.fill_color,
        patch.fill_color.is_none() ==> patched(base, patch).fill_color == base.fill_color,
        patch.stroke_width.is_some() ==> patched(base, patch).stroke_width == patch.stroke_width,
        patch.stroke_width.is_none() ==> patched(base, patch).stroke_width == base.stroke_width,
        patch.stroke_color.is_some() ==> patched(base, patch).stroke_color == patch.stroke_color,
        patch.stroke_color.is_none() ==> patched(base, patch).stroke_color == base.stroke_color,
        patch.font_size.is_some() ==> patched(base, patch).font_size == patch.font_size,
        patch.font_size.is_none() ==> patched(base, patch).font_size == base.font_size,
        patch.rotation.is_some() ==> patched(base, patch).rotation == patch.rotation,
        patch.rotation.is_none() ==> patched(base, patch).rotation == base.rotation,
        patch.translate.is_some() ==> patched(base, patch).translate == patch.translate,
        patch.translate.is_none() ==> patched(base, patch).translate == base.translate,
{
}

/// While the scene is marked, a frame repaints every node, each once and
/// in paint order.
pub proof fn lemma_marked_scene_repaints_all(
    nodes: Seq<Node>,
    hovered: Option<usize>,
    selected: Option<usize>,
    upto: int,
)
    requires
        0 <= upto,
    ensures
        repaints(nodes, true, hovered, selected, upto) == Seq::new(
            upto as nat,
            |i: int| repaint_of(i, hovered, selected),
        ),
    decreases upto,
{
    if upto > 0 {
        lemma_marked_scene_repaints_all(nodes, hovered, selected, upto - 1);
        assert(repaints(nodes, true, hovered, selected, upto) =~= Seq::new(
            upto as nat,
            |i: int| repaint_of(i, hovered, selected),
        ));
    } else {
        assert(repaints(nodes, true, hovered, selected, upto) =~= Seq::new(
            upto as nat,
            |i: int| repaint_of(i, hovered, selected),
        ));
    }
}

/// A frame repaints the nodes that are marked, or all while the scene is:
/// every repaint names a node that is to be repainted, the repaints come
/// in paint order, and no such node is left out.
pub proof fn lemma_repaints_are_the_marked(
    nodes: Seq<Node>,
    scene_dirty: bool,
    hovered: Option<usize>,
    selected: Option<usize>,
    upto: int,
)
    requires
        0 <= upto <= nodes.len() <= usize::MAX,
    ensures
        forall|k: int|
            0 <= k < repaints(nodes, scene_dirty, hovered, selected, upto).len() ==> {
                let item = #[trigger] repaints(nodes, scene_dirty, hovered, selected, upto)[k];
                &&& item.index < upto
                &&& repainted(nodes[item.index as int], scene_dirty)
                &&& item == repaint_of(item.index as int, hovered, selected)
            },
        forall|j: int, k: int|
            0 <= j < k < repaints(nodes, scene_dirty, hovered, selected, upto).len() ==> repaints(
                nodes,
                scene_dirty,
                hovered,
                selected,
                upto,
            )[j].index < repaints(nodes, scene_dirty, hovered, selected, upto)[k].index,
        forall|i: int|
            0 <= i < upto && repainted(#[trigger] nodes[i], scene_dirty) ==> exists|k: int|
                0 <= k < repaints(nodes, scene_dirty, hovered, selected, upto).len() && (
                #[trigger] repaints(nodes, scene_dirty, hovered, selected, upto)[k]).index == i,
    decreases upto,
{
    if upto > 0 {
        lemma_repaints_are_the_marked(nodes, scene_dirty, hovered, selected, upto - 1);
        let before = repaints(nodes, scene_dirty, hovered, selected, upto - 1);
        let now = repaints(nodes, scene_dirty, hovered, selected, upto);
        if repainted(nodes[upto - 1], scene_dirty) {
            assert(now == before.push(repaint_of(upto - 1, hovered, selected)));
            assert forall|i: int| 0 <= i < upto && repainted(#[trigger] nodes[i], scene_dirty) implies exists|k: int|
                0 <= k < now.len() && (#[trigger] now[k]).index == i by {
                if i == upto - 1 {
                    assert(now[now.len() - 1].index == i);
                } else {
                    let k = choose|k: int| 0 <= k < before.len() && (#[trigger] before[k]).index == i;
                    assert(now[k].index == i);
                }
            }
        } else {
            assert(now == before);
        }
    }
}

} // verus!
