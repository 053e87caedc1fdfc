use musesp::component::{Button, ComponentBase, ImageButton, ListItem, MouseButton, ScrollList, Widget};
use musesp::events::{Emission, HandlerKind, UiEvent};
use musesp::widgets::{keyed, with_child};

fn handler(key: u64, kind: HandlerKind) -> Emission {
    Emission::Handler { key, kind }
}

fn sample_tree() -> ComponentBase {
    let root = keyed(ComponentBase::new(0, 0, 400, 300), 1);
    let child = keyed(ComponentBase::new(10, 10, 100, 50), 2);
    with_child(root, child)
}

#[test]
fn cursor_entering_hovers_root_and_child() {
    let mut t = sample_tree();
    let (go, calls) = t.dispatch_event(&UiEvent::CursorMoved { x: 20, y: 20 }, None);
    assert!(go);
    assert_eq!(calls, vec![handler(1, HandlerKind::MouseEnter), handler(2, HandlerKind::MouseEnter)]);
    assert!(t.hovered());
    assert!(t.children[0].hovered());
    assert_eq!((t.cursor_x, t.cursor_y), (20, 20));
    assert_eq!((t.children[0].cursor_x, t.children[0].cursor_y), (20, 20));
}

#[test]
fn cursor_leaving_child_emits_exit_only_for_child() {
    let mut t = sample_tree();
    t.dispatch_event(&UiEvent::CursorMoved { x: 20, y: 20 }, None);
    let (go, calls) = t.dispatch_event(&UiEvent::CursorMoved { x: 300, y: 200 }, None);
    assert!(go);
    assert_eq!(calls, vec![handler(2, HandlerKind::MouseExit)]);
    assert!(t.hovered());
    assert!(!t.children[0].hovered());
}

#[test]
fn press_and_release_inside_is_a_click() {
    let mut t = sample_tree();
    t.dispatch_event(&UiEvent::CursorMoved { x: 20, y: 20 }, None);
    let (_, down) = t.dispatch_event(&UiEvent::MouseInput { pressed: true, button: MouseButton::Left }, None);
    assert_eq!(down, vec![handler(1, HandlerKind::MouseDown), handler(2, HandlerKind::MouseDown)]);
    assert!(t.children[0].pressed());
    assert_eq!(t.children[0].pressed_button, Some(MouseButton::Left));
    let (_, up) = t.dispatch_event(&UiEvent::MouseInput { pressed: false, button: MouseButton::Left }, None);
    assert_eq!(
        up,
        vec![
            handler(1, HandlerKind::MouseUp),
            handler(1, HandlerKind::MouseClick),
            handler(2, HandlerKind::MouseUp),
            handler(2, HandlerKind::MouseClick),
        ]
    );
    assert!(!t.children[0].pressed());
    assert_eq!(t.children[0].pressed_button, None);
}

#[test]
fn release_outside_is_no_click() {
    let mut t = sample_tree();
    t.dispatch_event(&UiEvent::CursorMoved { x: 20, y: 20 }, None);
    t.dispatch_event(&UiEvent::MouseInput { pressed: true, button: MouseButton::Left }, None);
    t.dispatch_event(&UiEvent::CursorMoved { x: 300, y: 200 }, None);
    let (_, up) = t.dispatch_event(&UiEvent::MouseInput { pressed: false, button: MouseButton::Left }, None);
    assert_eq!(
        up,
        vec![handler(1, HandlerKind::MouseUp), handler(1, HandlerKind::MouseClick), handler(2, HandlerKind::MouseUp)]
    );
}

#[test]
fn a_false_handler_stops_the_dispatch() {
    let mut t = sample_tree();
    let plan = t.planned_emissions(&UiEvent::CursorMoved { x: 20, y: 20 });
    assert_eq!(plan.len(), 2);
    let (go, calls) = t.dispatch_event(&UiEvent::CursorMoved { x: 20, y: 20 }, Some(0));
    assert!(!go);
    assert_eq!(calls, vec![handler(1, HandlerKind::MouseEnter)]);
    assert!(t.hovered());
    assert!(!t.children[0].hovered());
}

#[test]
fn planned_emissions_leave_the_tree_unchanged() {
    let t = sample_tree();
    let plan = t.planned_emissions(&UiEvent::CursorMoved { x: 20, y: 20 });
    assert_eq!(plan, vec![handler(1, HandlerKind::MouseEnter), handler(2, HandlerKind::MouseEnter)]);
    assert!(!t.hovered());
}

#[test]
fn keys_are_tracked_while_held() {
    let mut t = sample_tree();
    let (_, down) = t.dispatch_event(&UiEvent::Keyboard { pressed: true, key: Some(7) }, None);
    assert_eq!(down, vec![handler(1, HandlerKind::KeyDown), handler(2, HandlerKind::KeyDown)]);
    assert_eq!(t.pressed_keys, vec![7]);
    t.dispatch_event(&UiEvent::Keyboard { pressed: true, key: Some(9) }, None);
    let (_, up) = t.dispatch_event(&UiEvent::Keyboard { pressed: false, key: Some(7) }, None);
    assert_eq!(up, vec![handler(1, HandlerKind::KeyUp), handler(2, HandlerKind::KeyUp)]);
    assert_eq!(t.pressed_keys, vec![9]);
    assert_eq!(t.children[0].pressed_keys, vec![9]);
}

#[test]
fn key_without_code_is_ignored() {
    let mut t = sample_tree();
    let (go, calls) = t.dispatch_event(&UiEvent::Keyboard { pressed: true, key: None }, None);
    assert!(go);
    assert!(calls.is_empty());
    assert!(t.pressed_keys.is_empty());
}

#[test]
fn force_mouse_exit_releases_everything() {
    let mut t = sample_tree();
    t.dispatch_event(&UiEvent::CursorMoved { x: 20, y: 20 }, None);
    t.dispatch_event(&UiEvent::MouseInput { pressed: true, button: MouseButton::Left }, None);
    let calls = t.force_mouse_exit();
    assert_eq!(
        calls,
        vec![
            handler(1, HandlerKind::MouseUp),
            handler(1, HandlerKind::MouseExit),
            handler(2, HandlerKind::MouseUp),
            handler(2, HandlerKind::MouseExit),
        ]
    );
    assert!(!t.hovered() && !t.pressed());
    assert!(!t.children[0].hovered() && !t.children[0].pressed());
    assert!(t.force_mouse_exit().is_empty());
}

#[test]
fn disabled_button_ignores_input() {
    let mut b = keyed(Button::new("ok", 0, 0, 50, 20, 12), 5);
    assert_eq!(b.disable(), Some(handler(5, HandlerKind::Disable)));
    assert_eq!(b.disable(), None);
    let (go, calls) = b.dispatch_event(&UiEvent::CursorMoved { x: 5, y: 5 }, None);
    assert!(go);
    assert!(calls.is_empty());
    assert!(!b.hovered());
    assert_eq!((b.cursor_x, b.cursor_y), (0, 0));
    assert_eq!(b.enable(), Some(handler(5, HandlerKind::Enable)));
    assert_eq!(b.enable(), None);
    let (_, calls) = b.dispatch_event(&UiEvent::CursorMoved { x: 5, y: 5 }, None);
    assert_eq!(calls[0], handler(5, HandlerKind::MouseEnter));
}

#[test]
fn image_button_reports_enable_and_disable() {
    let mut b = keyed(ImageButton::new("a.svg", None, "go", 0, 0, 100, 30, 14, 20), 8);
    b.dispatch_event(&UiEvent::CursorMoved { x: 5, y: 5 }, None);
    assert!(b.hovered());
    assert_eq!(b.disable(), Some(handler(8, HandlerKind::Disable)));
    assert!(!b.hovered());
    assert_eq!(b.disable(), None);
    assert_eq!(b.enable(), Some(handler(8, HandlerKind::Enable)));
    assert_eq!(b.enable(), None);
}

fn sample_list() -> ComponentBase {
    let mut l = keyed(ScrollList::new(0, 0, 200, 100, 40), 3);
    let items = vec![
        ListItem::new(0, 0, 0, 0, "a", "A", "x"),
        ListItem::new(0, 0, 0, 0, "b", "B", "y"),
        ListItem::new(0, 0, 0, 0, "c", "C", "z"),
        ListItem::new(0, 0, 0, 0, "d", "D", "w"),
    ];
    l.set_items(items);
    l
}

fn scroll_of(c: &ComponentBase) -> (i32, i32) {
    match &c.widget {
        Widget::ScrollList(l) => (l.scroll, l.max_scroll),
        _ => panic!("not a list"),
    }
}

#[test]
fn set_items_places_items_and_bounds_scroll() {
    let l = sample_list();
    assert_eq!(scroll_of(&l), (0, 60));
    let ys: Vec<i32> = l.children.iter().map(|c| c.y).collect();
    assert_eq!(ys, vec![0, 40, 80, 120]);
    assert!(l.children.iter().all(|c| c.height == 40 && c.width == 200));
}

#[test]
fn wheel_scroll_is_clamped() {
    let mut l = sample_list();
    l.cursor_x = 10;
    l.cursor_y = 10;
    let (go, calls) = l.dispatch_event(&UiEvent::MouseWheel { amount: -25 }, None);
    assert!(go);
    assert!(calls.is_empty());
    assert_eq!(scroll_of(&l), (25, 60));
    assert_eq!(l.children[1].y, 15);
    l.dispatch_event(&UiEvent::MouseWheel { amount: -1000 }, None);
    assert_eq!(scroll_of(&l), (60, 60));
    l.dispatch_event(&UiEvent::MouseWheel { amount: 1000 }, None);
    assert_eq!(scroll_of(&l), (0, 60));
    assert_eq!(l.children[3].y, 120);
}

#[test]
fn wheel_outside_the_list_does_nothing() {
    let mut l = sample_list();
    l.cursor_x = 500;
    l.cursor_y = 10;
    l.dispatch_event(&UiEvent::MouseWheel { amount: -25 }, None);
    assert_eq!(scroll_of(&l), (0, 60));
}

#[test]
fn left_press_selects_an_item_once() {
    let mut l = sample_list();
    l.cursor_x = 10;
    l.cursor_y = 50;
    let (go, calls) = l.dispatch_event(&UiEvent::MouseInput { pressed: true, button: MouseButton::Left }, None);
    assert!(!go);
    assert_eq!(calls, vec![Emission::Select { key: 3, item_id: "b".to_string() }]);
    match &l.widget {
        Widget::ScrollList(s) => assert_eq!(s.selected_id.as_deref(), Some("b")),
        _ => panic!("not a list"),
    }
    l.dispatch_event(&UiEvent::MouseInput { pressed: false, button: MouseButton::Left }, None);
    let (go, calls) = l.dispatch_event(&UiEvent::MouseInput { pressed: true, button: MouseButton::Left }, None);
    assert!(go);
    assert!(!calls.iter().any(|c| matches!(c, Emission::Select { .. })));
}

#[test]
fn right_press_does_not_select() {
    let mut l = sample_list();
    l.cursor_x = 10;
    l.cursor_y = 50;
    let (_, calls) = l.dispatch_event(&UiEvent::MouseInput { pressed: true, button: MouseButton::Right }, None);
    assert!(!calls.iter().any(|c| matches!(c, Emission::Select { .. })));
    assert_eq!(calls[0], handler(3, HandlerKind::MouseDown));
}

#[test]
fn list_hover_does_not_move_its_own_pointer() {
    let mut l = sample_list();
    let (_, calls) = l.dispatch_event(&UiEvent::CursorMoved { x: 10, y: 50 }, None);
    assert_eq!(calls[0], handler(3, HandlerKind::MouseEnter));
    assert!(l.hovered());
    assert_eq!((l.cursor_x, l.cursor_y), (0, 0));
}
