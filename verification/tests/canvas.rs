use canvas_scene::canvas::Canvas;
use canvas_scene::context::Repaint;
use canvas_scene::geometry::{Circle, Line, Point, Rectangle};
use canvas_scene::node::Node;
use canvas_scene::style::Style;

#[test]
fn point_comes_from_a_pair() {
    assert_eq!(Point::from((3, -4)), Point { x: 3, y: -4 });
    let point: Point = (i32::MIN, i32::MAX).into();
    assert_eq!(point, Point { x: i32::MIN, y: i32::MAX });
}

#[test]
fn handles_come_out_in_the_order_in_which_shapes_go_in() {
    let mut canvas = Canvas::new(Some(String::from("black")));
    assert_eq!(canvas.inner.background_color, Some(String::from("black")));
    let line = canvas.add_line(0, 1, 2, 3, Style::new());
    let rect = canvas.add_rect(10, 20, 30, 40, Style::new());
    let circle = canvas.add_circle(5, 6, 7, Style::new());
    let text = canvas.add_text(String::from("hi"), 8, 9, Style::new());
    assert_eq!((line.id, rect.id, circle.id, text.id), (0, 1, 2, 3));
    assert_eq!(canvas.inner.nodes.len(), 4);
    match &canvas.inner.nodes[0] {
        Node::Line(shape, _, dirty) => {
            assert_eq!(*shape, Line { start: Point { x: 0, y: 1 }, end: Point { x: 2, y: 3 } });
            assert!(*dirty);
        }
        _ => panic!("no line"),
    }
    match &canvas.inner.nodes[1] {
        Node::Rect(shape, _, _) => {
            assert_eq!(*shape, Rectangle { top: 10, left: 20, width: 30, height: 40 })
        }
        _ => panic!("no rectangle"),
    }
    match &canvas.inner.nodes[2] {
        Node::Circle(shape, _, _) => {
            assert_eq!(*shape, Circle { center: Point { x: 5, y: 6 }, radius: 7 })
        }
        _ => panic!("no circle"),
    }
    match &canvas.inner.nodes[3] {
        Node::Text(shape, _, _) => {
            assert_eq!(shape.text, "hi");
            assert_eq!(shape.position, Point { x: 8, y: 9 });
            assert_eq!(shape.shape, None);
        }
        _ => panic!("no text"),
    }
}

#[test]
fn canvas_clicks_selects_removes_and_renders_again() {
    let mut canvas = Canvas::new(None);
    let handle = canvas.add_rect(10, 10, 20, 20, Style::new());
    canvas.on_mouse_down(15, 15, 0);
    canvas.on_mouse_up(15, 15, 100);
    let plan = canvas.render();
    assert_eq!(canvas.inner.selected_node, Some(0));
    assert_eq!(plan, vec![Repaint { index: 0, has_bounding_box: true, is_selected: true }]);
    handle.remove(&mut canvas.inner);
    let plan = canvas.render();
    assert!(plan.is_empty());
    assert!(canvas.inner.nodes.is_empty());
}

#[test]
fn canvas_takes_input_as_its_scene_does() {
    let mut canvas = Canvas::new(None);
    canvas.on_mouse_down(1, 2, 3);
    canvas.on_mouse_move(4, 5, 6);
    canvas.on_mouse_move(7, 8, 6);
    canvas.on_mouse_up(9, 10, 11);
    canvas.on_key_down(String::from("a"), 12);
    canvas.on_key_press(String::from("a"), 12);
    canvas.on_key_up(String::from("a"), 12);
    canvas.on_key_up(String::from("a"), 12);
    let queue = &canvas.inner.event;
    assert_eq!(queue.len(), 6);
    assert!(queue[0].mouse_down && queue[1].mouse_moved && queue[2].mouse_up);
    assert!(queue[3].key_down && queue[4].key_pressed && queue[5].key_up);
    assert_eq!((queue[1].mouse_x, queue[1].mouse_y, queue[1].timestamp), (4, 5, 6));
    assert_eq!(queue[5].key, Some(String::from("a")));
    canvas.render();
    assert!(canvas.inner.event.is_empty());
    assert!(canvas.inner.last_event.as_ref().unwrap().key_up);
}

#[test]
fn canvas_handle_moves_what_it_stands_for() {
    let mut canvas = Canvas::new(None);
    let first = canvas.add_rect(0, 0, 10, 10, Style::new());
    let second = canvas.add_circle(100, 100, 5, Style::new());
    second.translate(&mut canvas.inner, 50, 0);
    assert!(second.is_hovered(&canvas.inner, 150, 100));
    assert!(!second.is_hovered(&canvas.inner, 100, 100));
    assert!(first.is_hovered(&canvas.inner, 5, 5));
    first.remove(&mut canvas.inner);
    assert!(first.is_hovered(&canvas.inner, 150, 100));
    assert!(!second.is_hovered(&canvas.inner, 150, 100));
}
