use musesp::component::{ComponentBase, Spacer};
use musesp::layout::{allocate_sizes, AxisItem, Constraintable, Direction};
use musesp::widgets::{capped, directed, tuned, with_child};

fn item(constraint: Constraintable, min: i32, max: i32) -> AxisItem {
    AxisItem { constraint, min, max }
}

#[test]
fn fixed_minimums_and_even_split_of_the_rest() {
    let items = vec![
        item(Constraintable::Minimum, 50, 0),
        item(Constraintable::Minimum, 0, 0),
        item(Constraintable::Minimum, 0, 0),
    ];
    assert_eq!(allocate_sizes(&items, 300), vec![50, 125, 125]);
}

#[test]
fn squeezable_share_is_capped_by_maximum() {
    let items = vec![item(Constraintable::Minimum, 0, 30), item(Constraintable::Minimum, 0, 0)];
    assert_eq!(allocate_sizes(&items, 200), vec![30, 100]);
}

#[test]
fn maximums_take_the_space_left_and_cap_in_rounds() {
    let items = vec![
        item(Constraintable::Maximum, 10, 40),
        item(Constraintable::Maximum, 0, 0),
        item(Constraintable::Minimum, 0, 0),
    ];
    assert_eq!(allocate_sizes(&items, 200), vec![40, 160, 0]);
}

#[test]
fn unconstrained_children_get_no_size() {
    let items = vec![item(Constraintable::Unconstrained, 10, 0), item(Constraintable::Minimum, 20, 0)];
    let sizes = allocate_sizes(&items, 100);
    assert_eq!(sizes[1], 20);
}

#[test]
fn no_room_left_gives_nothing_to_share() {
    let items = vec![item(Constraintable::Minimum, 80, 0), item(Constraintable::Maximum, 5, 0)];
    assert_eq!(allocate_sizes(&items, 60), vec![80, 5]);
}

fn column() -> ComponentBase {
    let root = ComponentBase::new(0, 0, 200, 300);
    let a = tuned(Spacer::new(0, 50), Constraintable::Minimum, Constraintable::Minimum, 0, 50);
    let b = tuned(ComponentBase::new(0, 0, 0, 0), Constraintable::Minimum, Constraintable::Minimum, 0, 0);
    let c = ComponentBase::new(7, 9, 11, 13);
    with_child(with_child(with_child(root, a), b), c)
}

#[test]
fn vertical_layout_stacks_children() {
    let mut t = column();
    t.layout(None);
    let a = &t.children[0];
    let b = &t.children[1];
    assert_eq!((a.x, a.y, a.width, a.height), (0, 0, 200, 50));
    assert_eq!((b.x, b.y, b.width, b.height), (0, 50, 200, 250));
    let c = &t.children[2];
    assert_eq!((c.x, c.y, c.width, c.height), (7, 9, 11, 13));
}

#[test]
fn leftover_space_is_centred() {
    let root = ComponentBase::new(0, 0, 200, 300);
    let a = tuned(Spacer::new(40, 100), Constraintable::Minimum, Constraintable::Minimum, 0, 100);
    let mut t = with_child(root, a);
    t.layout(None);
    assert_eq!(t.children[0].y, 100);
    assert_eq!(t.children[0].height, 100);
    t.centered_vertical = false;
    t.children[0].y = 0;
    t.layout(None);
    assert_eq!(t.children[0].y, 0);
}

#[test]
fn horizontal_layout_uses_widths() {
    let root = directed(ComponentBase::new(0, 0, 300, 40), Direction::Horizontal);
    let a = capped(
        tuned(ComponentBase::new(0, 0, 0, 0), Constraintable::Maximum, Constraintable::Unconstrained, 0, 0),
        100,
        0,
    );
    let b = tuned(ComponentBase::new(0, 0, 0, 0), Constraintable::Maximum, Constraintable::Unconstrained, 0, 0);
    let mut t = with_child(with_child(root, a), b);
    t.layout(None);
    assert_eq!((t.children[0].x, t.children[0].width, t.children[0].height), (0, 100, 40));
    assert_eq!((t.children[1].x, t.children[1].width), (100, 200));
}

#[test]
fn override_direction_applies_to_the_root_only() {
    let root = ComponentBase::new(0, 0, 300, 40);
    let inner = with_child(
        tuned(ComponentBase::new(0, 0, 0, 0), Constraintable::Minimum, Constraintable::Minimum, 100, 0),
        tuned(Spacer::new(0, 10), Constraintable::Minimum, Constraintable::Minimum, 0, 10),
    );
    let mut t = with_child(root, inner);
    t.layout(Some(Direction::Horizontal));
    assert_eq!((t.children[0].x, t.children[0].width, t.children[0].height), (100, 100, 40));
    let s = &t.children[0].children[0];
    assert_eq!((s.y, s.height, s.width), (15, 10, 100));
}

#[test]
fn spacer_without_minimum_is_squeezable() {
    let root = ComponentBase::new(0, 0, 200, 300);
    let mut t = with_child(with_child(root, Spacer::new(0, 50)), Spacer::new(0, 50));
    t.layout(None);
    assert_eq!((t.children[0].y, t.children[0].height), (0, 150));
    assert_eq!((t.children[1].y, t.children[1].height), (150, 150));
}

#[test]
fn sharing_maximums_fill_the_parent() {
    let items = vec![
        item(Constraintable::Maximum, 0, 0),
        item(Constraintable::Maximum, 1, 0),
        item(Constraintable::Maximum, 0, 0),
        item(Constraintable::Minimum, 7, 0),
    ];
    let sizes = allocate_sizes(&items, 101);
    assert_eq!(sizes, vec![31, 32, 31, 7]);
    let used: i32 = sizes.iter().sum();
    assert!(101 - used >= 0 && 101 - used < 3);
    let exact = vec![item(Constraintable::Maximum, 0, 0), item(Constraintable::Minimum, 40, 0)];
    assert_eq!(allocate_sizes(&exact, 40), vec![0, 40]);
}

#[test]
fn negative_minimums_and_maximums_are_squeezable() {
    let items = vec![
        item(Constraintable::Minimum, -20, -5),
        item(Constraintable::Minimum, 0, 0),
        item(Constraintable::Unconstrained, -7, -7),
    ];
    let sizes = allocate_sizes(&items, 100);
    assert_eq!((sizes[0], sizes[1]), (50, 50));
    let items = vec![item(Constraintable::Minimum, -3, 0), item(Constraintable::Maximum, 0, 30)];
    assert_eq!(allocate_sizes(&items, 100), vec![0, 30]);
}

#[test]
fn maximum_with_negative_maximum_is_never_capped() {
    let items = vec![item(Constraintable::Maximum, 10, -5), item(Constraintable::Maximum, 0, 20)];
    assert_eq!(allocate_sizes(&items, 100), vec![80, 20]);
}
