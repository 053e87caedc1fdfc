//! Pointer and keyboard events and how they travel down the component tree.
//!
//! Handlers bound to components belong to the application, which may run
//! them asynchronously.  A dispatch therefore lists the handler calls it
//! makes ("emissions"): a handler that returns `false` stops the dispatch
//! right after its call.  The application first asks for the planned
//! emissions (every handler assumed to return `true`), runs them in order
//! until one returns `false`, and then dispatches for real, naming the
//! index of that call.  The dispatch makes exactly the calls the
//! application ran.
use vstd::prelude::*;

use crate::component::{
    in_rect_spec, lemma_view_child, lemma_views_children, view_of, views, ComponentBase,
    ComponentView, MouseButton, Widget, WidgetView,
};

verus! {

/// An input event, with the pointer position in the receiver's parent coordinates.
#[derive(Debug, Clone, Copy)]
pub enum UiEvent {
    /// The pointer moved to `(x, y)`.
    CursorMoved { x: i64, y: i64 },
    /// A pointer button went down (`pressed`) or up.
    MouseInput { pressed: bool, button: MouseButton },
    /// A key went down or up; `key` is its physical key code, `None` when it has none.
    Keyboard { pressed: bool, key: Option<u32> },
    /// The wheel turned; `amount` is the scroll distance in pixels
    /// (positive scrolls the content back towards its start).
    MouseWheel { amount: i32 },
    /// Any other window event.
    Other,
}

/// The handler lists a component can call.
#[derive(Debug, Clone, Copy, PartialEq, Eq, Structural)]
pub enum HandlerKind {
    MouseEnter,
    MouseExit,
    MouseDown,
    MouseUp,
    MouseClick,
    MouseHold,
    KeyDown,
    KeyUp,
    KeyClick,
    KeyHold,
    Enable,
    Disable,
}

/// One call into application handlers.
#[derive(Debug, Clone, PartialEq, Eq)]
pub enum Emission {
    /// Run the handlers of kind `kind` bound to the component with handler key `key`.
    Handler { key: u64, kind: HandlerKind },
    /// Run the selection handler of the scroll list with handler key `key`.
    Select { key: u64, item_id: String },
}

/// Mathematical value of an emission.
pub enum EmissionView {
    Handler { key: u64, kind: HandlerKind },
    Select { key: u64, item_id: Seq<char> },
}

pub open spec fn emission_view(e: Emission) -> EmissionView {
    match e {
        Emission::Handler { key, kind } => EmissionView::Handler { key, kind },
        Emission::Select { key, item_id } => EmissionView::Select { key, item_id: item_id@ },
    }
}

pub open spec fn emissions_view(s: Seq<Emission>) -> Seq<EmissionView> {
    s.map_values(|e: Emission| emission_view(e))
}

// ---------------------------------------------------------------------------
// what a dispatch does

/// Whether the emission with relative index `i` returns `true`, when the
/// emission with relative index `stop` (if any) is the one that returns `false`.
pub open spec fn res(stop: Option<int>, i: int) -> bool {
    stop != Some(i)
}

/// The stop index seen after `n` more emissions.
pub open spec fn shift(stop: Option<int>, n: int) -> Option<int> {
    match stop {
        Some(m) => Some(m - n),
        None => None,
    }
}

/// Outcome of a dispatch into one component: its new value, whether the
/// dispatch goes on, and the emissions made.
pub struct NodeStep {
    pub node: ComponentView,
    pub go: bool,
    pub emitted: Seq<EmissionView>,
}

/// Outcome of a dispatch into the children from some index on.
pub struct KidsStep {
    pub kids: Seq<ComponentView>,
    pub go: bool,
    pub emitted: Seq<EmissionView>,
}

pub open spec fn handler_of(v: ComponentView, kind: HandlerKind) -> EmissionView {
    EmissionView::Handler { key: v.handler_key, kind }
}

pub open spec fn quiet(v: ComponentView) -> NodeStep {
    NodeStep { node: v, go: true, emitted: seq![] }
}

/// Hover tracking for a pointer at `(lx, ly)` in the component's own coordinates.
pub open spec fn own_move(v: ComponentView, lx: int, ly: int, stop: Option<int>) -> NodeStep {
    let now = in_rect_spec(v, lx, ly);
    let w = ComponentView { hovered: now, ..v };
    if now && !v.hovered {
        NodeStep { node: w, go: res(stop, 0), emitted: seq![handler_of(v, HandlerKind::MouseEnter)] }
    } else if !now && v.hovered {
        NodeStep { node: w, go: res(stop, 0), emitted: seq![handler_of(v, HandlerKind::MouseExit)] }
    } else {
        quiet(w)
    }
}

/// Press tracking for a button going down or up with the pointer at `(lx, ly)`.
pub open spec fn own_input(
    v: ComponentView,
    pressed: bool,
    button: MouseButton,
    lx: int,
    ly: int,
    stop: Option<int>,
) -> NodeStep {
    if pressed {
        if in_rect_spec(v, lx, ly) {
            NodeStep {
                node: ComponentView { pressed: true, pressed_button: Some(button), ..v },
                go: res(stop, 0),
                emitted: seq![handler_of(v, HandlerKind::MouseDown)],
            }
        } else {
            quiet(v)
        }
    } else {
        let w = ComponentView { pressed: false, pressed_button: None, ..v };
        let up = handler_of(v, HandlerKind::MouseUp);
        if !res(stop, 0) {
            NodeStep { node: w, go: false, emitted: seq![up] }
        } else if v.pressed && in_rect_spec(v, lx, ly) {
            NodeStep {
                node: w,
                go: res(stop, 1),
                emitted: seq![up, handler_of(v, HandlerKind::MouseClick)],
            }
        } else {
            NodeStep { node: w, go: true, emitted: seq![up] }
        }
    }
}

/// Whether a key is not `c`.
pub open spec fn not_key(c: u32) -> spec_fn(u32) -> bool {
    |x: u32| x != c
}

/// The held keys without `c`.
pub open spec fn without_key(keys: Seq<u32>, c: u32) -> Seq<u32> {
    keys.filter(not_key(c))
}

/// Key tracking for a key going down or up.
pub open spec fn own_key(v: ComponentView, pressed: bool, key: Option<u32>, stop: Option<int>) -> NodeStep {
    match key {
        None => quiet(v),
        Some(c) => if pressed {
            NodeStep {
                node: ComponentView { pressed_keys: v.pressed_keys.push(c), ..v },
                go: res(stop, 0),
                emitted: seq![handler_of(v, HandlerKind::KeyDown)],
            }
        } else {
            NodeStep {
                node: ComponentView { pressed_keys: without_key(v.pressed_keys, c), ..v },
                go: res(stop, 0),
                emitted: seq![handler_of(v, HandlerKind::KeyUp)],
            }
        },
    }
}

/// Whether a child of a list of the given height shows (always, when there is no limit).
pub open spec fn visible_in(c: ComponentView, limit: Option<int>) -> bool {
    match limit {
        None => true,
        Some(h) => -c.height < c.y && c.y < h,
    }
}

/// The component with its pointer position replaced, when one is given.
pub open spec fn with_cursor(v: ComponentView, set: Option<(i64, i64)>) -> ComponentView {
    match set {
        Some(p) => ComponentView { cursor_x: p.0, cursor_y: p.1, ..v },
        None => v,
    }
}

/// A component's own step followed by the dispatch into its children.
pub open spec fn then_kids(s: NodeStep, k: KidsStep) -> NodeStep {
    NodeStep {
        node: ComponentView { children: k.kids, ..s.node },
        go: k.go,
        emitted: s.emitted + k.emitted,
    }
}

pub open spec fn is_disabled(v: ComponentView) -> bool {
    match v.widget {
        WidgetView::Button { enabled, .. } => !enabled,
        WidgetView::ImageButton { enabled } => !enabled,
        _ => false,
    }
}

/// Dispatch of `ev` into `v`, whose pointer position is first set to `set`
/// when given; `stop` is the relative index of the emission that returns `false`.
pub open spec fn dispatch_node(
    v: ComponentView,
    ev: UiEvent,
    set: Option<(i64, i64)>,
    stop: Option<int>,
) -> NodeStep
    decreases v, 2int, 0int,
{
    if is_disabled(v) {
        quiet(with_cursor(v, set))
    } else {
        match v.widget {
            WidgetView::Spacer => spacer_dispatch(v, ev, set, stop),
            WidgetView::ScrollList { .. } => list_dispatch(v, ev, set, stop),
            _ => base_dispatch(v, ev, set, stop),
        }
    }
}

/// The common behaviour of a component.
pub open spec fn base_dispatch(
    v: ComponentView,
    ev: UiEvent,
    set: Option<(i64, i64)>,
    stop: Option<int>,
) -> NodeStep
    decreases v, 1int, 0int,
{
    let u = with_cursor(v, set);
    match ev {
        UiEvent::CursorMoved { x, y } => {
            let w = ComponentView { cursor_x: x, cursor_y: y, ..u };
            let lx = x - u.x;
            let ly = y - u.y;
            let s = own_move(w, lx, ly, stop);
            if !s.go {
                s
            } else {
                then_kids(
                    s,
                    kids_from(
                        v.children,
                        0,
                        UiEvent::CursorMoved { x: lx as i64, y: ly as i64 },
                        None,
                        None,
                        shift(stop, s.emitted.len() as int),
                    ),
                )
            }
        },
        UiEvent::MouseInput { pressed, button } => {
            let lx = u.cursor_x - u.x;
            let ly = u.cursor_y - u.y;
            let s = own_input(u, pressed, button, lx, ly, stop);
            if !s.go {
                s
            } else {
                then_kids(
                    s,
                    kids_from(
                        v.children,
                        0,
                        ev,
                        Some((lx as i64, ly as i64)),
                        None,
                        shift(stop, s.emitted.len() as int),
                    ),
                )
            }
        },
        UiEvent::Keyboard { pressed, key } => {
            let s = own_key(u, pressed, key, stop);
            if !s.go {
                s
            } else {
                then_kids(
                    s,
                    kids_from(v.children, 0, ev, None, None, shift(stop, s.emitted.len() as int)),
                )
            }
        },
        _ => then_kids(quiet(u), kids_from(v.children, 0, ev, None, None, stop)),
    }
}

/// A spacer passes events to its children without reacting itself.
pub open spec fn spacer_dispatch(
    v: ComponentView,
    ev: UiEvent,
    set: Option<(i64, i64)>,
    stop: Option<int>,
) -> NodeStep
    decreases v, 1int, 0int,
{
    let u = with_cursor(v, set);
    match ev {
        UiEvent::CursorMoved { x, y } => then_kids(
            quiet(u),
            kids_from(
                v.children,
                0,
                UiEvent::CursorMoved { x: (x - u.x) as i64, y: (y - u.y) as i64 },
                None,
                None,
                stop,
            ),
        ),
        UiEvent::MouseInput { .. } => then_kids(
            quiet(u),
            kids_from(
                v.children,
                0,
                ev,
                Some(((u.cursor_x - u.x) as i64, (u.cursor_y - u.y) as i64)),
                None,
                stop,
            ),
        ),
        _ => then_kids(quiet(u), kids_from(v.children, 0, ev, None, None, stop)),
    }
}

pub open spec fn clamp(a: int, lo: int, hi: int) -> int {
    if a < lo {
        lo
    } else if a > hi {
        hi
    } else {
        a
    }
}

/// Positions of a list's items scrolled by `scroll`: item `i` at `i * item_height - scroll`.
pub open spec fn scrolled_kids(kids: Seq<ComponentView>, item_height: int, scroll: int) -> Seq<
    ComponentView,
> {
    Seq::new(kids.len(), |i: int| ComponentView { y: (i * item_height - scroll) as i32, ..kids[i] })
}

/// A list after the wheel moved it by `amount`: the scroll offset is clamped
/// to `[0, max_scroll]`, and when it changes the items are placed again.
pub open spec fn wheel_scrolled(u: ComponentView, amount: int) -> ComponentView {
    match u.widget {
        WidgetView::ScrollList { item_height, scroll, max_scroll, selected_id } => {
            let ns = clamp(scroll - amount, 0, max_scroll as int);
            if ns != scroll {
                ComponentView {
                    widget: WidgetView::ScrollList {
                        item_height,
                        scroll: ns as i32,
                        max_scroll,
                        selected_id,
                    },
                    children: scrolled_kids(u.children, item_height as int, ns),
                    ..u
                }
            } else {
                u
            }
        },
        _ => u,
    }
}

/// Index of the first shown item of a list containing the point `(lx, ly)`.
pub open spec fn first_hit(kids: Seq<ComponentView>, lx: int, ly: int, limit: int, i: int) -> Option<
    int,
>
    decreases kids.len() - i,
{
    if i < 0 || i >= kids.len() {
        None
    } else if visible_in(kids[i], Some(limit)) && in_rect_spec(kids[i], lx, ly - kids[i].y) {
        Some(i)
    } else {
        first_hit(kids, lx, ly, limit, i + 1)
    }
}

/// The item a left press at `(lx, ly)` newly selects in a list, if any.
pub open spec fn newly_selected(u: ComponentView, lx: int, ly: int) -> Option<Seq<char>> {
    match u.widget {
        WidgetView::ScrollList { selected_id, .. } => match first_hit(u.children, lx, ly, u.height as int, 0) {
            Some(i) => match u.children[i].item_id {
                Some(id) => if selected_id != Some(id) {
                    Some(id)
                } else {
                    None
                },
                None => None,
            },
            None => None,
        },
        _ => None,
    }
}

/// A scroll list: the wheel scrolls it, a left press on an item selects the
/// item, and only the items shown receive events.
pub open spec fn list_dispatch(
    v: ComponentView,
    ev: UiEvent,
    set: Option<(i64, i64)>,
    stop: Option<int>,
) -> NodeStep
    decreases v, 1int, 0int,
{
    let u = with_cursor(v, set);
    let lx = u.cursor_x - u.x;
    let ly = u.cursor_y - u.y;
    let mine = Some((lx as i64, ly as i64));
    let lim = Some(u.height as int);
    match u.widget {
        WidgetView::ScrollList { item_height, scroll, max_scroll, selected_id } => match ev {
            UiEvent::MouseWheel { amount } => {
                if in_rect_spec(u, lx, ly) {
                    quiet(wheel_scrolled(u, amount as int))
                } else {
                    quiet(u)
                }
            },
            UiEvent::CursorMoved { x, y } => {
                let mx = x - u.x;
                let my = y - u.y;
                let s = own_move(u, mx, my, stop);
                if !s.go {
                    s
                } else {
                    then_kids(
                        s,
                        kids_from(
                            v.children,
                            0,
                            UiEvent::CursorMoved { x: mx as i64, y: my as i64 },
                            mine,
                            lim,
                            shift(stop, s.emitted.len() as int),
                        ),
                    )
                }
            },
            UiEvent::MouseInput { pressed, button } => {
                let pick = newly_selected(u, lx, ly);
                if pressed && button == MouseButton::Left && in_rect_spec(u, lx, ly) && pick is Some {
                    NodeStep {
                        node: ComponentView {
                            widget: WidgetView::ScrollList {
                                item_height,
                                scroll,
                                max_scroll,
                                selected_id: pick,
                            },
                            ..u
                        },
                        go: false,
                        emitted: seq![
                            EmissionView::Select { key: u.handler_key, item_id: pick->0 },
                        ],
                    }
                } else {
                    let s = own_input(u, pressed, button, lx, ly, stop);
                    if !s.go {
                        s
                    } else {
                        then_kids(
                            s,
                            kids_from(
                                v.children,
                                0,
                                ev,
                                mine,
                                lim,
                                shift(stop, s.emitted.len() as int),
                            ),
                        )
                    }
                }
            },
            UiEvent::Keyboard { pressed, key } => {
                let s = own_key(u, pressed, key, stop);
                if !s.go {
                    s
                } else {
                    then_kids(
                        s,
                        kids_from(v.children, 0, ev, mine, lim, shift(stop, s.emitted.len() as int)),
                    )
                }
            },
            UiEvent::Other => then_kids(quiet(u), kids_from(v.children, 0, ev, mine, lim, stop)),
        },
        _ => quiet(u),
    }
}

/// Dispatch into the children `kids[i..]` in order: each shown child first
/// gets its pointer position set (when `set` is given) and then the event;
/// a child that stops the dispatch ends it.
pub open spec fn kids_from(
    kids: Seq<ComponentView>,
    i: int,
    ev: UiEvent,
    set: Option<(i64, i64)>,
    limit: Option<int>,
    stop: Option<int>,
) -> KidsStep
    decreases kids, 3int, kids.len() - i,
{
    if i < 0 || i >= kids.len() {
        KidsStep { kids: seq![], go: true, emitted: seq![] }
    } else if !visible_in(kids[i], limit) {
        let r = kids_from(kids, i + 1, ev, set, limit, stop);
        KidsStep { kids: seq![kids[i]] + r.kids, go: r.go, emitted: r.emitted }
    } else {
        let n = dispatch_node(kids[i], ev, set, stop);
        if !n.go {
            KidsStep { kids: seq![n.node] + kids.subrange(i + 1, kids.len() as int), go: false, emitted: n.emitted }
        } else {
            let r = kids_from(kids, i + 1, ev, set, limit, shift(stop, n.emitted.len() as int));
            KidsStep { kids: seq![n.node] + r.kids, go: r.go, emitted: n.emitted + r.emitted }
        }
    }
}

// ---------------------------------------------------------------------------
// the calls made are the planned calls up to the first `false`

/// Whether `stop` names one of `n` emissions.
pub open spec fn stops_within(stop: Option<int>, n: int) -> bool {
    stop is Some && 0 <= stop->0 < n
}

/// `o` is the outcome `t` (made with every call returning `true`) cut at `stop`:
/// when `stop` names one of the calls of `t`, `o` made the calls of `t` up to
/// and including it and stopped; otherwise `o` is `t`.
pub open spec fn node_follows(o: NodeStep, t: NodeStep, stop: Option<int>) -> bool {
    if stops_within(stop, t.emitted.len() as int) {
        o.emitted == t.emitted.take(stop->0 + 1) && !o.go
    } else {
        o == t
    }
}

pub open spec fn kids_follow(o: KidsStep, t: KidsStep, stop: Option<int>) -> bool {
    if stops_within(stop, t.emitted.len() as int) {
        o.emitted == t.emitted.take(stop->0 + 1) && !o.go
    } else {
        o == t
    }
}

proof fn lemma_take_concat(a: Seq<EmissionView>, b: Seq<EmissionView>, m: int)
    requires
        0 <= m <= a.len(),
    ensures
        (a + b).take(m) == a.take(m),
{
    assert((a + b).take(m) =~= a.take(m));
}

proof fn lemma_take_concat_right(a: Seq<EmissionView>, b: Seq<EmissionView>, m: int)
    requires
        0 <= m <= b.len(),
    ensures
        (a + b).take(a.len() + m) == a + b.take(m),
{
    assert((a + b).take(a.len() + m) =~= a + b.take(m));
}

proof fn lemma_own_steps(v: ComponentView, ev: UiEvent, lx: int, ly: int, stop: Option<int>)
    ensures
        node_follows(own_move(v, lx, ly, stop), own_move(v, lx, ly, None), stop),
        own_move(v, lx, ly, stop).node == own_move(v, lx, ly, None).node,
        own_move(v, lx, ly, None).go,
        ev matches UiEvent::MouseInput { pressed, button } ==> {
            &&& node_follows(
                own_input(v, pressed, button, lx, ly, stop),
                own_input(v, pressed, button, lx, ly, None),
                stop,
            )
            &&& own_input(v, pressed, button, lx, ly, stop).node == own_input(
                v,
                pressed,
                button,
                lx,
                ly,
                None,
            ).node
            &&& own_input(v, pressed, button, lx, ly, None).go
        },
        ev matches UiEvent::Keyboard { pressed, key } ==> {
            &&& node_follows(own_key(v, pressed, key, stop), own_key(v, pressed, key, None), stop)
            &&& own_key(v, pressed, key, stop).node == own_key(v, pressed, key, None).node
            &&& own_key(v, pressed, key, None).go
        },
{
    match ev {
        UiEvent::MouseInput { pressed, button } => {
            let t = own_input(v, pressed, button, lx, ly, None);
            assert(t.emitted.take(t.emitted.len() as int) =~= t.emitted);
            if t.emitted.len() == 2 {
                assert(t.emitted.take(1) =~= seq![t.emitted[0]]);
            }
        },
        UiEvent::Keyboard { pressed, key } => {
            let t = own_key(v, pressed, key, None);
            assert(t.emitted.take(t.emitted.len() as int) =~= t.emitted);
        },
        _ => {},
    }
    let t = own_move(v, lx, ly, None);
    assert(t.emitted.take(t.emitted.len() as int) =~= t.emitted);
}

/// Composition of an own step that keeps going when every call returns
/// `true` with the dispatch into the children.
proof fn lemma_then_kids(
    so: NodeStep,
    st: NodeStep,
    ko: KidsStep,
    kt: KidsStep,
    stop: Option<int>,
)
    requires
        node_follows(so, st, stop),
        so.node == st.node,
        st.go,
        kids_follow(ko, kt, shift(stop, st.emitted.len() as int)),
    ensures
        node_follows(
            if !so.go {
                so
            } else {
                then_kids(so, ko)
            },
            then_kids(st, kt),
            stop,
        ),
{
    let t = then_kids(st, kt);
    let n1 = st.emitted.len() as int;
    if stops_within(stop, n1) {
        let m = stop->0;
        lemma_take_concat(st.emitted, kt.emitted, m + 1);
    } else {
        assert(so == st);
        if stops_within(stop, t.emitted.len() as int) {
            let m = stop->0;
            lemma_take_concat_right(st.emitted, kt.emitted, m - n1 + 1);
        }
    }
}

proof fn lemma_dispatch_follows(v: ComponentView, ev: UiEvent, set: Option<(i64, i64)>, stop: Option<int>)
    ensures
        node_follows(dispatch_node(v, ev, set, stop), dispatch_node(v, ev, set, None), stop),
    decreases v, 2int, 0int,
{
    if !is_disabled(v) {
        match v.widget {
            WidgetView::Spacer => lemma_spacer_follows(v, ev, set, stop),
            WidgetView::ScrollList { .. } => lemma_list_follows(v, ev, set, stop),
            _ => lemma_base_follows(v, ev, set, stop),
        }
    }
}

proof fn lemma_base_follows(v: ComponentView, ev: UiEvent, set: Option<(i64, i64)>, stop: Option<int>)
    ensures
        node_follows(base_dispatch(v, ev, set, stop), base_dispatch(v, ev, set, None), stop),
    decreases v, 1int, 0int,
{
    let u = with_cursor(v, set);
    match ev {
        UiEvent::CursorMoved { x, y } => {
            let w = ComponentView { cursor_x: x, cursor_y: y, ..u };
            let lx = x - u.x;
            let ly = y - u.y;
            lemma_own_steps(w, ev, lx, ly, stop);
            let st = own_move(w, lx, ly, None);
            let kev = UiEvent::CursorMoved { x: lx as i64, y: ly as i64 };
            lemma_kids_follow(v.children, 0, kev, None, None, shift(stop, st.emitted.len() as int));
            lemma_then_kids(
                own_move(w, lx, ly, stop),
                st,
                kids_from(v.children, 0, kev, None, None, shift(stop, st.emitted.len() as int)),
                kids_from(v.children, 0, kev, None, None, None),
                stop,
            );
        },
        UiEvent::MouseInput { pressed, button } => {
            let lx = u.cursor_x - u.x;
            let ly = u.cursor_y - u.y;
            lemma_own_steps(u, ev, lx, ly, stop);
            let st = own_input(u, pressed, button, lx, ly, None);
            let kset = Some((lx as i64, ly as i64));
            lemma_kids_follow(v.children, 0, ev, kset, None, shift(stop, st.emitted.len() as int));
            lemma_then_kids(
                own_input(u, pressed, button, lx, ly, stop),
                st,
                kids_from(v.children, 0, ev, kset, None, shift(stop, st.emitted.len() as int)),
                kids_from(v.children, 0, ev, kset, None, None),
                stop,
            );
        },
        UiEvent::Keyboard { pressed, key } => {
            lemma_own_steps(u, ev, 0, 0, stop);
            let st = own_key(u, pressed, key, None);
            lemma_kids_follow(v.children, 0, ev, None, None, shift(stop, st.emitted.len() as int));
            lemma_then_kids(
                own_key(u, pressed, key, stop),
                st,
                kids_from(v.children, 0, ev, None, None, shift(stop, st.emitted.len() as int)),
                kids_from(v.children, 0, ev, None, None, None),
                stop,
            );
        },
        _ => {
            lemma_kids_follow(v.children, 0, ev, None, None, stop);
            lemma_then_kids(
                quiet(u),
                quiet(u),
                kids_from(v.children, 0, ev, None, None, stop),
                kids_from(v.children, 0, ev, None, None, None),
                stop,
            );
        },
    }
}

proof fn lemma_spacer_follows(v: ComponentView, ev: UiEvent, set: Option<(i64, i64)>, stop: Option<int>)
    ensures
        node_follows(spacer_dispatch(v, ev, set, stop), spacer_dispatch(v, ev, set, None), stop),
    decreases v, 1int, 0int,
{
    let u = with_cursor(v, set);
    let (kev, kset) = match ev {
        UiEvent::CursorMoved { x, y } => (
            UiEvent::CursorMoved { x: (x - u.x) as i64, y: (y - u.y) as i64 },
            None,
        ),
        UiEvent::MouseInput { .. } => (
            ev,
            Some(((u.cursor_x - u.x) as i64, (u.cursor_y - u.y) as i64)),
        ),
        _ => (ev, None),
    };
    lemma_kids_follow(v.children, 0, kev, kset, None, stop);
    lemma_then_kids(
        quiet(u),
        quiet(u),
        kids_from(v.children, 0, kev, kset, None, stop),
        kids_from(v.children, 0, kev, kset, None, None),
        stop,
    );
}

proof fn lemma_list_follows(v: ComponentView, ev: UiEvent, set: Option<(i64, i64)>, stop: Option<int>)
    ensures
        node_follows(list_dispatch(v, ev, set, stop), list_dispatch(v, ev, set, None), stop),
    decreases v, 1int, 0int,
{
    let u = with_cursor(v, set);
    let lx = u.cursor_x - u.x;
    let ly = u.cursor_y - u.y;
    let mine = Some((lx as i64, ly as i64));
    let lim = Some(u.height as int);
    match u.widget {
        WidgetView::ScrollList { .. } => match ev {
            UiEvent::MouseWheel { .. } => {},
            UiEvent::CursorMoved { x, y } => {
                let mx = x - u.x;
                let my = y - u.y;
                lemma_own_steps(u, ev, mx, my, stop);
                let st = own_move(u, mx, my, None);
                let kev = UiEvent::CursorMoved { x: mx as i64, y: my as i64 };
                lemma_kids_follow(v.children, 0, kev, mine, lim, shift(stop, st.emitted.len() as int));
                lemma_then_kids(
                    own_move(u, mx, my, stop),
                    st,
                    kids_from(v.children, 0, kev, mine, lim, shift(stop, st.emitted.len() as int)),
                    kids_from(v.children, 0, kev, mine, lim, None),
                    stop,
                );
            },
            UiEvent::MouseInput { pressed, button } => {
                let pick = newly_selected(u, lx, ly);
                if pressed && button == MouseButton::Left && in_rect_spec(u, lx, ly) && pick is Some {
                    let t = list_dispatch(v, ev, set, None);
                    assert(t.emitted.take(1) =~= t.emitted);
                } else {
                    lemma_own_steps(u, ev, lx, ly, stop);
                    let st = own_input(u, pressed, button, lx, ly, None);
                    lemma_kids_follow(v.children, 0, ev, mine, lim, shift(stop, st.emitted.len() as int));
                    lemma_then_kids(
                        own_input(u, pressed, button, lx, ly, stop),
                        st,
                        kids_from(v.children, 0, ev, mine, lim, shift(stop, st.emitted.len() as int)),
                        kids_from(v.children, 0, ev, mine, lim, None),
                        stop,
                    );
                }
            },
            UiEvent::Keyboard { pressed, key } => {
                lemma_own_steps(u, ev, 0, 0, stop);
                let st = own_key(u, pressed, key, None);
                lemma_kids_follow(v.children, 0, ev, mine, lim, shift(stop, st.emitted.len() as int));
                lemma_then_kids(
                    own_key(u, pressed, key, stop),
                    st,
                    kids_from(v.children, 0, ev, mine, lim, shift(stop, st.emitted.len() as int)),
                    kids_from(v.children, 0, ev, mine, lim, None),
                    stop,
                );
            },
            UiEvent::Other => {
                lemma_kids_follow(v.children, 0, ev, mine, lim, stop);
                lemma_then_kids(
                    quiet(u),
                    quiet(u),
                    kids_from(v.children, 0, ev, mine, lim, stop),
                    kids_from(v.children, 0, ev, mine, lim, None),
                    stop,
                );
            },
        },
        _ => {},
    }
}

proof fn lemma_kids_follow(
    kids: Seq<ComponentView>,
    i: int,
    ev: UiEvent,
    set: Option<(i64, i64)>,
    limit: Option<int>,
    stop: Option<int>,
)
    ensures
        kids_follow(
            kids_from(kids, i, ev, set, limit, stop),
            kids_from(kids, i, ev, set, limit, None),
            stop,
        ),
    decreases kids, 3int, kids.len() - i,
{
    if 0 <= i < kids.len() {
        if !visible_in(kids[i], limit) {
            lemma_kids_follow(kids, i + 1, ev, set, limit, stop);
        } else {
            lemma_dispatch_follows(kids[i], ev, set, stop);
            let nt = dispatch_node(kids[i], ev, set, None);
            let no = dispatch_node(kids[i], ev, set, stop);
            let n1 = nt.emitted.len() as int;
            if !nt.go {
                if !stops_within(stop, n1) {
                    assert(no == nt);
                }
            } else if stops_within(stop, n1) {
                let rt = kids_from(kids, i + 1, ev, set, limit, None);
                lemma_take_concat(nt.emitted, rt.emitted, stop->0 + 1);
            } else {
                assert(no == nt);
                lemma_kids_follow(kids, i + 1, ev, set, limit, shift(stop, n1));
                let rt = kids_from(kids, i + 1, ev, set, limit, None);
                if stops_within(stop, n1 + rt.emitted.len()) {
                    lemma_take_concat_right(nt.emitted, rt.emitted, stop->0 - n1 + 1);
                }
            }
        }
    }
}

// ---------------------------------------------------------------------------
// limits that keep the pointer arithmetic of a dispatch within `i64`

/// Largest pointer coordinate accepted at the root of a dispatch.
pub const POS_BASE: i64 = 1099511627776;

/// Room for pointer coordinates added at each level of the tree.
pub const POS_STEP: i64 = 4294967296;

/// Deepest level of a tree that can receive events.
pub const DEPTH_LIMIT: u64 = 65536;

/// Whether `p` is a pointer coordinate a component at depth `d` can hold.
pub open spec fn pos_ok(p: int, d: int) -> bool {
    -(POS_BASE + d * POS_STEP) <= p <= POS_BASE + d * POS_STEP
}

pub open spec fn set_ok(set: Option<(i64, i64)>, d: int) -> bool {
    set matches Some(p) ==> pos_ok(p.0 as int, d) && pos_ok(p.1 as int, d)
}

/// Whether an event can be dispatched into a component at depth `d`.
pub open spec fn event_ok(ev: UiEvent, d: int) -> bool {
    ev matches UiEvent::CursorMoved { x, y } ==> pos_ok(x as int, d) && pos_ok(y as int, d)
}

/// A scroll list's items fit its position arithmetic.
pub open spec fn list_ok(v: ComponentView) -> bool {
    match v.widget {
        WidgetView::ScrollList { item_height, max_scroll, .. } => {
            &&& 0 <= item_height
            &&& v.children.len() * item_height <= i32::MAX
            &&& 0 <= max_scroll
        },
        _ => true,
    }
}

pub open spec fn node_ok(v: ComponentView, d: int) -> bool {
    &&& 0 <= d <= DEPTH_LIMIT
    &&& pos_ok(v.cursor_x as int, d)
    &&& pos_ok(v.cursor_y as int, d)
    &&& list_ok(v)
}

/// Every node of the tree rooted at depth `d` can take part in a dispatch.
pub open spec fn dispatch_fits(v: ComponentView, d: int) -> bool
    decreases v, 1nat,
{
    node_ok(v, d) && kids_dispatch_fit(v.children, d + 1)
}

pub open spec fn kids_dispatch_fit(s: Seq<ComponentView>, d: int) -> bool
    decreases s, 0nat,
{
    if s.len() == 0 {
        true
    } else {
        kids_dispatch_fit(s.drop_last(), d) && dispatch_fits(s.last(), d)
    }
}

pub proof fn lemma_kids_dispatch_fit(s: Seq<ComponentView>, d: int)
    ensures
        kids_dispatch_fit(s, d) <==> forall|j: int|
            0 <= j < s.len() ==> #[trigger] dispatch_fits(s[j], d),
    decreases s.len(),
{
    if s.len() > 0 {
        let t = s.drop_last();
        lemma_kids_dispatch_fit(t, d);
        assert(forall|j: int| 0 <= j < t.len() ==> t[j] == s[j]);
        assert(s.last() == s[s.len() - 1]);
        if kids_dispatch_fit(s, d) {
            assert forall|j: int| 0 <= j < s.len() implies #[trigger] dispatch_fits(s[j], d) by {
                if j < t.len() {
                    assert(dispatch_fits(t[j], d));
                }
            }
        }
        if forall|j: int| 0 <= j < s.len() ==> #[trigger] dispatch_fits(s[j], d) {
            assert forall|j: int| 0 <= j < t.len() implies #[trigger] dispatch_fits(t[j], d) by {
                assert(dispatch_fits(s[j], d));
            }
            assert(dispatch_fits(s[s.len() - 1], d));
        }
    }
}

/// Pointer coordinates of a tree within the depth limit stay far inside `i64`.
pub proof fn lemma_pos_bound(p: int, d: int)
    requires
        0 <= d <= DEPTH_LIMIT + 1,
        pos_ok(p, d),
    ensures
        -144115188075855872 <= p <= 144115188075855872,
{
    assert(d * POS_STEP <= (DEPTH_LIMIT + 1) * POS_STEP) by (nonlinear_arith)
        requires
            d <= DEPTH_LIMIT + 1,
            POS_STEP > 0,
    ;
}

fn pos_within(p: i64, d: u64) -> (r: bool)
    requires
        d <= DEPTH_LIMIT,
    ensures
        r == pos_ok(p as int, d as int),
{
    assert(d * POS_STEP <= DEPTH_LIMIT * POS_STEP) by (nonlinear_arith)
        requires
            d <= DEPTH_LIMIT,
            POS_STEP > 0,
    ;
    let bound: i64 = POS_BASE + (d as i64) * POS_STEP;
    -bound <= p && p <= bound
}

/// Whether `ev` can be dispatched into a tree's root.
pub fn event_fits(ev: &UiEvent) -> (r: bool)
    ensures
        r == event_ok(*ev, 0),
{
    match ev {
        UiEvent::CursorMoved { x, y } => pos_within(*x, 0) && pos_within(*y, 0),
        _ => true,
    }
}

impl ComponentBase {
    /// Whether every node of this tree, rooted at depth `d`, can take part
    /// in a dispatch.
    pub fn fits_dispatch_at(&self, d: u64) -> (r: bool)
        ensures
            r == dispatch_fits(self@, d as int),
        decreases self,
    {
        proof {
            lemma_kids_dispatch_fit(self@.children, d + 1);
        }
        if d > DEPTH_LIMIT {
            return false;
        }
        let list = match &self.widget {
            Widget::ScrollList(l) => {
                if l.item_height < 0 || l.max_scroll < 0 {
                    false
                } else {
                    let nn = self.children.len() as u128;
                    let ih = l.item_height as u128;
                    assert(nn * ih <= 0xFFFF_FFFF_FFFF_FFFFu128 * 0x7FFF_FFFFu128) by (nonlinear_arith)
                        requires
                            nn <= 0xFFFF_FFFF_FFFF_FFFFu128,
                            ih <= 0x7FFF_FFFFu128,
                    ;
                    nn * ih <= 2147483647
                }
            },
            _ => true,
        };
        if !(pos_within(self.cursor_x, d) && pos_within(self.cursor_y, d) && list) {
            return false;
        }
        let n = self.children.len();
        let mut i: usize = 0;
        while i < n
            invariant
                i <= n == self.children@.len() == self@.children.len(),
                d <= DEPTH_LIMIT,
                forall|j: int| 0 <= j < i ==> #[trigger] dispatch_fits(self@.children[j], d + 1),
            decreases n - i,
        {
            proof {
                crate::component::lemma_view_child(*self, i as int);
            }
            if !self.children[i].fits_dispatch_at(d + 1) {
                proof {
                    lemma_kids_dispatch_fit(self@.children, d + 1);
                }
                return false;
            }
            i = i + 1;
        }
        proof {
            lemma_kids_dispatch_fit(self@.children, d + 1);
        }
        true
    }
}

/// The relative stop index of a dispatch that starts after `made` calls.
pub open spec fn rel(stop: Option<usize>, made: int) -> Option<int> {
    match stop {
        Some(m) => Some(m - made),
        None => None,
    }
}

// ---------------------------------------------------------------------------
// executable dispatch

/// Records a handler call; returns whether it goes on, i.e. whether it is not
/// the call `stop` names.
fn emit(out: &mut Vec<Emission>, key: u64, kind: HandlerKind, stop: Option<usize>) -> (ok: bool)
    ensures
        emissions_view(final(out)@) == emissions_view(old(out)@).push(
            EmissionView::Handler { key, kind },
        ),
        ok == res(rel(stop, old(out)@.len() as int), 0),
{
    let ok = match stop {
        Some(m) => m != out.len(),
        None => true,
    };
    out.push(Emission::Handler { key, kind });
    proof {
        assert(emissions_view(out@) =~= emissions_view(old(out)@).push(
            EmissionView::Handler { key, kind },
        ));
    }
    ok
}

/// The keys of `keys` other than `c`, in order.
fn remove_key(keys: &Vec<u32>, c: u32) -> (r: Vec<u32>)
    ensures
        r@ == without_key(keys@, c),
{
    let mut r: Vec<u32> = Vec::new();
    let n = keys.len();
    let mut i: usize = 0;
    proof {
        reveal(Seq::filter);
        assert(keys@.take(0) =~= Seq::<u32>::empty());
    }
    while i < n
        invariant
            i <= n == keys@.len(),
            r@ == without_key(keys@.take(i as int), c),
        decreases n - i,
    {
        proof {
            reveal(Seq::filter);
            assert(keys@.take(i + 1).drop_last() =~= keys@.take(i as int));
            assert(keys@.take(i + 1).last() == keys@[i as int]);
        }
        if keys[i] != c {
            r.push(keys[i]);
        }
        i = i + 1;
    }
    assert(keys@.take(n as int) =~= keys@);
    r
}

impl ComponentBase {
    /// Moves the component to a new vertical position.
    fn set_y(&mut self, y: i32)
        ensures
            final(self)@ == (ComponentView { y, ..old(self)@ }),
    {
        self.y = y;
        proof {
            assert(view_of(*self).children =~= view_of(*old(self)).children);
        }
    }

    fn apply_cursor(&mut self, set: Option<(i64, i64)>)
        ensures
            final(self)@ == with_cursor(old(self)@, set),
            final(self).children == old(self).children,
    {
        match set {
            Some(p) => {
                self.cursor_x = p.0;
                self.cursor_y = p.1;
            },
            None => {},
        }
        proof {
            assert(view_of(*self).children =~= view_of(*old(self)).children);
        }
    }

    fn track_hover(&mut self, lx: i64, ly: i64, stop: Option<usize>, out: &mut Vec<Emission>) -> (go: bool)
        ensures
            ({
                let s = own_move(old(self)@, lx as int, ly as int, rel(stop, old(out)@.len() as int));
                &&& final(self)@ == s.node
                &&& go == s.go
                &&& emissions_view(final(out)@) == emissions_view(old(out)@) + s.emitted
            }),
            final(self).children == old(self).children,
    {
        let ghost v = self@;
        let was = self.hovered;
        let now = self.in_rect(lx, ly);
        self.hovered = now;
        proof {
            assert(view_of(*self).children =~= view_of(*old(self)).children);
        }
        let ghost before = out@;
        if now && !was {
            let ok = emit(out, self.handler_key, HandlerKind::MouseEnter, stop);
            assert(emissions_view(before).push(handler_of(v, HandlerKind::MouseEnter))
                =~= emissions_view(before) + seq![handler_of(v, HandlerKind::MouseEnter)]);
            ok
        } else if !now && was {
            let ok = emit(out, self.handler_key, HandlerKind::MouseExit, stop);
            assert(emissions_view(before).push(handler_of(v, HandlerKind::MouseExit))
                =~= emissions_view(before) + seq![handler_of(v, HandlerKind::MouseExit)]);
            ok
        } else {
            assert(emissions_view(before) =~= emissions_view(before) + Seq::<EmissionView>::empty());
            true
        }
    }

    fn track_press(
        &mut self,
        pressed: bool,
        button: MouseButton,
        lx: i64,
        ly: i64,
        stop: Option<usize>,
        out: &mut Vec<Emission>,
    ) -> (go: bool)
        ensures
            ({
                let s = own_input(
                    old(self)@,
                    pressed,
                    button,
                    lx as int,
                    ly as int,
                    rel(stop, old(out)@.len() as int),
                );
                &&& final(self)@ == s.node
                &&& go == s.go
                &&& emissions_view(final(out)@) == emissions_view(old(out)@) + s.emitted
            }),
            final(self).children == old(self).children,
    {
        let ghost v = self@;
        let ghost before = out@;
        let inside = self.in_rect(lx, ly);
        if pressed {
            if inside {
                self.pressed = true;
                self.pressed_button = Some(button);
                proof {
                    assert(view_of(*self).children =~= view_of(*old(self)).children);
                }
                let ok = emit(out, self.handler_key, HandlerKind::MouseDown, stop);
                assert(emissions_view(before).push(handler_of(v, HandlerKind::MouseDown))
                    =~= emissions_view(before) + seq![handler_of(v, HandlerKind::MouseDown)]);
                ok
            } else {
                assert(emissions_view(before) =~= emissions_view(before) + Seq::<EmissionView>::empty());
                true
            }
        } else {
            let was = self.pressed;
            self.pressed = false;
            self.pressed_button = None;
            proof {
                assert(view_of(*self).children =~= view_of(*old(self)).children);
            }
            let ghost up = handler_of(v, HandlerKind::MouseUp);
            let ok = emit(out, self.handler_key, HandlerKind::MouseUp, stop);
            let ghost mid = out@;
            if !ok {
                assert(emissions_view(before).push(up) =~= emissions_view(before) + seq![up]);
                return false;
            }
            if was && inside {
                let ghost click = handler_of(v, HandlerKind::MouseClick);
                let ok2 = emit(out, self.handler_key, HandlerKind::MouseClick, stop);
                assert(emissions_view(before).push(up).push(click) =~= emissions_view(before) + seq![
                    up,
                    click,
                ]);
                ok2
            } else {
                assert(emissions_view(before).push(up) =~= emissions_view(before) + seq![up]);
                true
            }
        }
    }

    fn track_key(&mut self, pressed: bool, key: Option<u32>, stop: Option<usize>, out: &mut Vec<Emission>) -> (go: bool)
        ensures
            ({
                let s = own_key(old(self)@, pressed, key, rel(stop, old(out)@.len() as int));
                &&& final(self)@ == s.node
                &&& go == s.go
                &&& emissions_view(final(out)@) == emissions_view(old(out)@) + s.emitted
            }),
            final(self).children == old(self).children,
    {
        let ghost v = self@;
        let ghost before = out@;
        match key {
            None => {
                assert(emissions_view(before) =~= emissions_view(before) + Seq::<EmissionView>::empty());
                true
            },
            Some(c) => {
                if pressed {
                    self.pressed_keys.push(c);
                    proof {
                        assert(view_of(*self).children =~= view_of(*old(self)).children);
                    }
                    let ok = emit(out, self.handler_key, HandlerKind::KeyDown, stop);
                    assert(emissions_view(before).push(handler_of(v, HandlerKind::KeyDown))
                        =~= emissions_view(before) + seq![handler_of(v, HandlerKind::KeyDown)]);
                    ok
                } else {
                    self.pressed_keys = remove_key(&self.pressed_keys, c);
                    proof {
                        assert(view_of(*self).children =~= view_of(*old(self)).children);
                    }
                    let ok = emit(out, self.handler_key, HandlerKind::KeyUp, stop);
                    assert(emissions_view(before).push(handler_of(v, HandlerKind::KeyUp))
                        =~= emissions_view(before) + seq![handler_of(v, HandlerKind::KeyUp)]);
                    ok
                }
            },
        }
    }
}

impl ComponentBase {
    /// Turns the wheel of a scroll list by `amount`.
    fn scroll_by(&mut self, amount: i32)
        requires
            old(self)@.widget is ScrollList,
            list_ok(old(self)@),
        ensures
            final(self)@ == wheel_scrolled(old(self)@, amount as int),
    {
        let ghost v = self@;
        let (scroll, max_scroll, ih) = match &self.widget {
            Widget::ScrollList(l) => (l.scroll, l.max_scroll, l.item_height),
            _ => (0, 0, 0),
        };
        let want: i64 = scroll as i64 - amount as i64;
        let ns: i64 = if want < 0 {
            0
        } else if want > max_scroll as i64 {
            max_scroll as i64
        } else {
            want
        };
        if ns == scroll as i64 {
            return;
        }
        match &mut self.widget {
            Widget::ScrollList(l) => {
                l.scroll = ns as i32;
            },
            _ => {},
        }
        let ghost mid = *self;
        proof {
            assert(view_of(mid).children =~= v.children);
        }
        let n = self.children.len();
        let mut i: usize = 0;
        while i < n
            invariant
                i <= n == self.children@.len() == v.children.len() == mid.children@.len(),
                view_of(mid).children == v.children,
                0 <= ih,
                n * ih <= i32::MAX,
                0 <= ns <= i32::MAX,
                forall|j: int| i <= j < n ==> self.children@[j] == mid.children@[j],
                forall|j: int|
                    0 <= j < i ==> view_of(#[trigger] self.children@[j]) == scrolled_kids(
                        v.children,
                        ih as int,
                        ns as int,
                    )[j],
                view_of(*self) == (ComponentView { children: view_of(*self).children, ..view_of(mid) }),
            decreases n - i,
        {
            assert(i * ih <= n * ih) by (nonlinear_arith)
                requires
                    i <= n,
                    0 <= ih,
            ;
            assert(0 <= i * ih) by (nonlinear_arith)
                requires
                    0 <= i,
                    0 <= ih,
            ;
            let y: i32 = ((i as i128) * (ih as i128) - ns as i128) as i32;
            assert(y == (i * ih - ns) as i32);
            let ghost before = *self;
            proof {
                lemma_view_child(mid, i as int);
            }
            self.children[i].set_y(y);
            proof {
                let av = view_of(*self);
                let bv = view_of(before);
                assert forall|j: int| 0 <= j < n && j != i implies av.children[j] == bv.children[j] by {
                    lemma_view_child(*self, j);
                    lemma_view_child(before, j);
                }
                lemma_view_child(*self, i as int);
                lemma_view_child(before, i as int);
                assert(av.children =~= bv.children.update(i as int, av.children[i as int]));
                lemma_view_child(mid, i as int);
                assert(view_of(mid.children@[i as int]) == v.children[i as int]);
                assert(view_of(self.children@[i as int]) == scrolled_kids(
                    v.children,
                    ih as int,
                    ns as int,
                )[i as int]);
                assert forall|j: int| 0 <= j < i implies self.children@[j] == before.children@[j] by {}
            }
            i = i + 1;
        }
        proof {
            let sv = view_of(*self);
            assert forall|j: int| 0 <= j < n implies sv.children[j] == scrolled_kids(
                v.children,
                ih as int,
                ns as int,
            )[j] by {
                lemma_view_child(*self, j);
            }
            assert(sv.children =~= scrolled_kids(v.children, ih as int, ns as int));
        }
    }

    /// Index of the first shown item of this list containing `(lx, ly)`.
    fn hit_index(&self, lx: i64, ly: i64) -> (r: Option<usize>)
        requires
            pos_ok(lx as int, DEPTH_LIMIT as int + 1),
            pos_ok(ly as int, DEPTH_LIMIT as int + 1),
        ensures
            r matches Some(i) ==> i < self.children@.len(),
            match r {
                Some(i) => first_hit(self@.children, lx as int, ly as int, self.height as int, 0)
                    == Some(i as int),
                None => first_hit(self@.children, lx as int, ly as int, self.height as int, 0) is None,
            },
    {
        let ghost v = self@;
        proof {
            lemma_pos_bound(lx as int, DEPTH_LIMIT as int + 1);
            lemma_pos_bound(ly as int, DEPTH_LIMIT as int + 1);
        }
        let h = self.height;
        let n = self.children.len();
        let mut i: usize = 0;
        while i < n
            invariant
                i <= n == self.children@.len() == v.children.len(),
                v == self@,
                h == self.height,
                -144115188075855872 <= ly <= 144115188075855872,
                first_hit(v.children, lx as int, ly as int, h as int, 0) == first_hit(
                    v.children,
                    lx as int,
                    ly as int,
                    h as int,
                    i as int,
                ),
            decreases n - i,
        {
            proof {
                lemma_view_child(*self, i as int);
            }
            let c = &self.children[i];
            let shown = -(c.height as i64) < c.y as i64 && (c.y as i64) < h as i64;
            if shown && c.in_rect(lx, ly - c.y as i64) {
                return Some(i);
            }
            i = i + 1;
        }
        None
    }

    /// Marks `id` as the selected item of this list and records the call of
    /// its selection handler.
    fn select_item(&mut self, id: String, out: &mut Vec<Emission>)
        requires
            old(self)@.widget is ScrollList,
        ensures
            final(self)@ == (ComponentView {
                widget: WidgetView::ScrollList {
                    item_height: old(self)@.widget->item_height,
                    scroll: old(self)@.widget->scroll,
                    max_scroll: old(self)@.widget->max_scroll,
                    selected_id: Some(id@),
                },
                ..old(self)@
            }),
            emissions_view(final(out)@) == emissions_view(old(out)@) + seq![
                EmissionView::Select { key: old(self)@.handler_key, item_id: id@ },
            ],
    {
        let key = self.handler_key;
        match &mut self.widget {
            Widget::ScrollList(l) => {
                l.selected_id = Some(id.clone());
            },
            _ => {},
        }
        proof {
            assert(view_of(*self).children =~= view_of(*old(self)).children);
        }
        out.push(Emission::Select { key, item_id: id });
        proof {
            assert(emissions_view(out@) =~= emissions_view(old(out)@) + seq![
                EmissionView::Select { key, item_id: id@ },
            ]);
        }
    }

    /// The item id a left press at `(lx, ly)` newly selects in this list.
    fn pick(&self, lx: i64, ly: i64) -> (r: Option<String>)
        requires
            pos_ok(lx as int, DEPTH_LIMIT as int + 1),
            pos_ok(ly as int, DEPTH_LIMIT as int + 1),
        ensures
            crate::component::opt_str(r) == newly_selected(self@, lx as int, ly as int),
    {
        let selected = match &self.widget {
            Widget::ScrollList(l) => &l.selected_id,
            _ => {
                return None;
            },
        };
        match self.hit_index(lx, ly) {
            Some(i) => {
                proof {
                    lemma_view_child(*self, i as int);
                }
                match &self.children[i].item_id {
                    Some(id) => {
                        let same = match selected {
                            Some(s) => *s == *id,
                            None => false,
                        };
                        if same {
                            None
                        } else {
                            Some(id.clone())
                        }
                    },
                    None => None,
                }
            },
            None => None,
        }
    }
}

pub open spec fn opt_limit(limit: Option<i32>) -> Option<int> {
    match limit {
        Some(h) => Some(h as int),
        None => None,
    }
}

impl ComponentBase {
    fn route(
        &mut self,
        ev: &UiEvent,
        set: Option<(i64, i64)>,
        stop: Option<usize>,
        out: &mut Vec<Emission>,
        Ghost(d): Ghost<int>,
    ) -> (go: bool)
        requires
            dispatch_fits(old(self)@, d),
            event_ok(*ev, d),
            set_ok(set, d),
        ensures
            ({
                let o = dispatch_node(old(self)@, *ev, set, rel(stop, old(out)@.len() as int));
                &&& final(self)@ == o.node
                &&& go == o.go
                &&& emissions_view(final(out)@) == emissions_view(old(out)@) + o.emitted
            }),
            dispatch_fits(final(self)@, d),
        decreases *old(self), 4int,
    {
        let disabled = match &self.widget {
            Widget::Button(b) => !b.enabled,
            Widget::ImageButton(b) => !b.enabled,
            _ => false,
        };
        if disabled {
            self.apply_cursor(set);
            assert(emissions_view(out@) =~= emissions_view(out@) + Seq::<EmissionView>::empty());
            return true;
        }
        let kind: u8 = match &self.widget {
            Widget::Spacer => 1,
            Widget::ScrollList(_) => 2,
            _ => 0,
        };
        if kind == 1 {
            self.route_spacer(ev, set, stop, out, Ghost(d))
        } else if kind == 2 {
            self.route_list(ev, set, stop, out, Ghost(d))
        } else {
            self.route_base(ev, set, stop, out, Ghost(d))
        }
    }

    fn route_base(
        &mut self,
        ev: &UiEvent,
        set: Option<(i64, i64)>,
        stop: Option<usize>,
        out: &mut Vec<Emission>,
        Ghost(d): Ghost<int>,
    ) -> (go: bool)
        requires
            dispatch_fits(old(self)@, d),
            event_ok(*ev, d),
            set_ok(set, d),
            !(old(self)@.widget is ScrollList),
        ensures
            ({
                let o = base_dispatch(old(self)@, *ev, set, rel(stop, old(out)@.len() as int));
                &&& final(self)@ == o.node
                &&& go == o.go
                &&& emissions_view(final(out)@) == emissions_view(old(out)@) + o.emitted
            }),
            dispatch_fits(final(self)@, d),
        decreases *old(self), 3int,
    {
        match ev {
            UiEvent::CursorMoved { .. } => self.base_on_move(ev, set, stop, out, Ghost(d)),
            UiEvent::MouseInput { .. } => self.base_on_input(ev, set, stop, out, Ghost(d)),
            UiEvent::Keyboard { .. } => self.base_on_key(ev, set, stop, out, Ghost(d)),
            _ => self.base_on_other(ev, set, stop, out, Ghost(d)),
        }
    }

    fn base_on_move(
        &mut self,
        ev: &UiEvent,
        set: Option<(i64, i64)>,
        stop: Option<usize>,
        out: &mut Vec<Emission>,
        Ghost(d): Ghost<int>,
    ) -> (go: bool)
        requires
            dispatch_fits(old(self)@, d),
            event_ok(*ev, d),
            set_ok(set, d),
            !(old(self)@.widget is ScrollList),
            ev is CursorMoved,
        ensures
            ({
                let o = base_dispatch(old(self)@, *ev, set, rel(stop, old(out)@.len() as int));
                &&& final(self)@ == o.node
                &&& go == o.go
                &&& emissions_view(final(out)@) == emissions_view(old(out)@) + o.emitted
            }),
            dispatch_fits(final(self)@, d),
        decreases *old(self), 2int,
    {
        let ghost orig = *self;
        let ghost v = self@;
        let ghost out0 = out@;
        let ghost stop0 = rel(stop, out0.len() as int);
        self.apply_cursor(set);
        let ghost u = self@;
        proof {
            lemma_pos_bound(self.cursor_x as int, d);
            lemma_pos_bound(self.cursor_y as int, d);
        }
        let (x, y) = match ev {
            UiEvent::CursorMoved { x, y } => (*x, *y),
            _ => (0, 0),
        };
        proof {
            lemma_pos_bound(x as int, d);
            lemma_pos_bound(y as int, d);
        }
        self.cursor_x = x;
        self.cursor_y = y;
        proof {
            assert(view_of(*self).children =~= u.children);
        }
        let ghost w = self@;
        assert(w == (ComponentView { cursor_x: x, cursor_y: y, ..u }));
        let lx = x - self.x as i64;
        let ly = y - self.y as i64;
        let go1 = self.track_hover(lx, ly, stop, out);
        let ghost s = own_move(w, lx as int, ly as int, stop0);
        if !go1 {
            return false;
        }
        let ghost mid = out@;
        let kev = UiEvent::CursorMoved { x: lx, y: ly };
        let g = self.route_children(&kev, None, None, stop, out, Ghost(d), Ghost(orig));
        proof {
            let k = kids_from(v.children, 0, kev, None, None, shift(stop0, s.emitted.len() as int));
            lemma_compose(out0, mid, out@, s.emitted, k.emitted);
        }
        g
    }

    fn base_on_input(
        &mut self,
        ev: &UiEvent,
        set: Option<(i64, i64)>,
        stop: Option<usize>,
        out: &mut Vec<Emission>,
        Ghost(d): Ghost<int>,
    ) -> (go: bool)
        requires
            dispatch_fits(old(self)@, d),
            event_ok(*ev, d),
            set_ok(set, d),
            !(old(self)@.widget is ScrollList),
            ev is MouseInput,
        ensures
            ({
                let o = base_dispatch(old(self)@, *ev, set, rel(stop, old(out)@.len() as int));
                &&& final(self)@ == o.node
                &&& go == o.go
                &&& emissions_view(final(out)@) == emissions_view(old(out)@) + o.emitted
            }),
            dispatch_fits(final(self)@, d),
        decreases *old(self), 2int,
    {
        let ghost orig = *self;
        let ghost v = self@;
        let ghost out0 = out@;
        let ghost stop0 = rel(stop, out0.len() as int);
        self.apply_cursor(set);
        let ghost u = self@;
        proof {
            lemma_pos_bound(self.cursor_x as int, d);
            lemma_pos_bound(self.cursor_y as int, d);
        }
        let (pressed, button) = match ev {
            UiEvent::MouseInput { pressed, button } => (*pressed, *button),
            _ => (false, MouseButton::Left),
        };
        let lx = self.cursor_x - self.x as i64;
        let ly = self.cursor_y - self.y as i64;
        let go1 = self.track_press(pressed, button, lx, ly, stop, out);
        let ghost s = own_input(u, pressed, button, lx as int, ly as int, stop0);
        if !go1 {
            return false;
        }
        let ghost mid = out@;
        let g = self.route_children(ev, Some((lx, ly)), None, stop, out, Ghost(d), Ghost(orig));
        proof {
            let k = kids_from(v.children, 0, *ev, Some((lx, ly)), None, shift(stop0, s.emitted.len() as int));
            lemma_compose(out0, mid, out@, s.emitted, k.emitted);
        }
        g
    }

    fn base_on_key(
        &mut self,
        ev: &UiEvent,
        set: Option<(i64, i64)>,
        stop: Option<usize>,
        out: &mut Vec<Emission>,
        Ghost(d): Ghost<int>,
    ) -> (go: bool)
        requires
            dispatch_fits(old(self)@, d),
            event_ok(*ev, d),
            set_ok(set, d),
            !(old(self)@.widget is ScrollList),
            ev is Keyboard,
        ensures
            ({
                let o = base_dispatch(old(self)@, *ev, set, rel(stop, old(out)@.len() as int));
                &&& final(self)@ == o.node
                &&& go == o.go
                &&& emissions_view(final(out)@) == emissions_view(old(out)@) + o.emitted
            }),
            dispatch_fits(final(self)@, d),
        decreases *old(self), 2int,
    {
        let ghost orig = *self;
        let ghost v = self@;
        let ghost out0 = out@;
        let ghost stop0 = rel(stop, out0.len() as int);
        self.apply_cursor(set);
        let ghost u = self@;
        proof {
            lemma_pos_bound(self.cursor_x as int, d);
            lemma_pos_bound(self.cursor_y as int, d);
        }
        let (pressed, key) = match ev {
            UiEvent::Keyboard { pressed, key } => (*pressed, *key),
            _ => (false, None),
        };
        let go1 = self.track_key(pressed, key, stop, out);
        let ghost s = own_key(u, pressed, key, stop0);
        if !go1 {
            return false;
        }
        let ghost mid = out@;
        let g = self.route_children(ev, None, None, stop, out, Ghost(d), Ghost(orig));
        proof {
            let k = kids_from(v.children, 0, *ev, None, None, shift(stop0, s.emitted.len() as int));
            lemma_compose(out0, mid, out@, s.emitted, k.emitted);
        }
        g
    }

    fn base_on_other(
        &mut self,
        ev: &UiEvent,
        set: Option<(i64, i64)>,
        stop: Option<usize>,
        out: &mut Vec<Emission>,
        Ghost(d): Ghost<int>,
    ) -> (go: bool)
        requires
            dispatch_fits(old(self)@, d),
            event_ok(*ev, d),
            set_ok(set, d),
            !(old(self)@.widget is ScrollList),
            !(ev is CursorMoved || ev is MouseInput || ev is Keyboard),
        ensures
            ({
                let o = base_dispatch(old(self)@, *ev, set, rel(stop, old(out)@.len() as int));
                &&& final(self)@ == o.node
                &&& go == o.go
                &&& emissions_view(final(out)@) == emissions_view(old(out)@) + o.emitted
            }),
            dispatch_fits(final(self)@, d),
        decreases *old(self), 2int,
    {
        let ghost orig = *self;
        let ghost v = self@;
        let ghost out0 = out@;
        let ghost stop0 = rel(stop, out0.len() as int);
        self.apply_cursor(set);
        let ghost u = self@;
        proof {
            lemma_pos_bound(self.cursor_x as int, d);
            lemma_pos_bound(self.cursor_y as int, d);
        }
        let g = self.route_children(ev, None, None, stop, out, Ghost(d), Ghost(orig));
        proof {
            let k = kids_from(v.children, 0, *ev, None, None, stop0);
            assert(Seq::<EmissionView>::empty() + k.emitted =~= k.emitted);
        }
        g
    }

    fn route_spacer(
        &mut self,
        ev: &UiEvent,
        set: Option<(i64, i64)>,
        stop: Option<usize>,
        out: &mut Vec<Emission>,
        Ghost(d): Ghost<int>,
    ) -> (go: bool)
        requires
            dispatch_fits(old(self)@, d),
            event_ok(*ev, d),
            set_ok(set, d),
            !(old(self)@.widget is ScrollList),
        ensures
            ({
                let o = spacer_dispatch(old(self)@, *ev, set, rel(stop, old(out)@.len() as int));
                &&& final(self)@ == o.node
                &&& go == o.go
                &&& emissions_view(final(out)@) == emissions_view(old(out)@) + o.emitted
            }),
            dispatch_fits(final(self)@, d),
        decreases *old(self), 3int,
    {
        let ghost orig = *self;
        let ghost v = self@;
        let ghost out0 = out@;
        let ghost stop0 = rel(stop, out0.len() as int);
        self.apply_cursor(set);
        proof {
            lemma_pos_bound(self.cursor_x as int, d);
            lemma_pos_bound(self.cursor_y as int, d);
        }
        let g = match ev {
            UiEvent::CursorMoved { x, y } => {
                proof {
                    lemma_pos_bound(*x as int, d);
                    lemma_pos_bound(*y as int, d);
                }
                let kev = UiEvent::CursorMoved { x: *x - self.x as i64, y: *y - self.y as i64 };
                self.route_children(&kev, None, None, stop, out, Ghost(d), Ghost(orig))
            },
            UiEvent::MouseInput { .. } => {
                let lx = self.cursor_x - self.x as i64;
                let ly = self.cursor_y - self.y as i64;
                self.route_children(ev, Some((lx, ly)), None, stop, out, Ghost(d), Ghost(orig))
            },
            _ => self.route_children(ev, None, None, stop, out, Ghost(d), Ghost(orig)),
        };
        proof {
            assert(emissions_view(out@) =~= emissions_view(out0) + (Seq::<EmissionView>::empty() + (
            emissions_view(out@).skip(out0.len() as int))));
        }
        g
    }

    fn route_list(
        &mut self,
        ev: &UiEvent,
        set: Option<(i64, i64)>,
        stop: Option<usize>,
        out: &mut Vec<Emission>,
        Ghost(d): Ghost<int>,
    ) -> (go: bool)
        requires
            dispatch_fits(old(self)@, d),
            event_ok(*ev, d),
            set_ok(set, d),
            old(self)@.widget is ScrollList,
        ensures
            ({
                let o = list_dispatch(old(self)@, *ev, set, rel(stop, old(out)@.len() as int));
                &&& final(self)@ == o.node
                &&& go == o.go
                &&& emissions_view(final(out)@) == emissions_view(old(out)@) + o.emitted
            }),
            dispatch_fits(final(self)@, d),
        decreases *old(self), 3int,
    {
        match ev {
            UiEvent::MouseWheel { .. } => self.list_on_wheel(ev, set, stop, out, Ghost(d)),
            UiEvent::CursorMoved { .. } => self.list_on_move(ev, set, stop, out, Ghost(d)),
            UiEvent::MouseInput { .. } => self.list_on_input(ev, set, stop, out, Ghost(d)),
            _ => self.list_on_rest(ev, set, stop, out, Ghost(d)),
        }
    }

    fn list_on_wheel(
        &mut self,
        ev: &UiEvent,
        set: Option<(i64, i64)>,
        stop: Option<usize>,
        out: &mut Vec<Emission>,
        Ghost(d): Ghost<int>,
    ) -> (go: bool)
        requires
            dispatch_fits(old(self)@, d),
            event_ok(*ev, d),
            set_ok(set, d),
            old(self)@.widget is ScrollList,
            ev is MouseWheel,
        ensures
            ({
                let o = list_dispatch(old(self)@, *ev, set, rel(stop, old(out)@.len() as int));
                &&& final(self)@ == o.node
                &&& go == o.go
                &&& emissions_view(final(out)@) == emissions_view(old(out)@) + o.emitted
            }),
            dispatch_fits(final(self)@, d),
        decreases *old(self), 2int,
    {
        let ghost orig = *self;
        let ghost v = self@;
        let ghost out0 = out@;
        let ghost stop0 = rel(stop, out0.len() as int);
        self.apply_cursor(set);
        let ghost u = self@;
        proof {
            lemma_pos_bound(self.cursor_x as int, d);
            lemma_pos_bound(self.cursor_y as int, d);
        }
        let lx = self.cursor_x - self.x as i64;
        let ly = self.cursor_y - self.y as i64;
        let h = self.height;
        let amount = match ev {
            UiEvent::MouseWheel { amount } => *amount,
            _ => 0,
        };
        if self.in_rect(lx, ly) {
            self.scroll_by(amount);
            proof {
                lemma_scrolled_fits(u, amount as int, d);
            }
        }
        assert(emissions_view(out@) =~= emissions_view(out@) + Seq::<EmissionView>::empty());
        true
    }

    fn list_on_move(
        &mut self,
        ev: &UiEvent,
        set: Option<(i64, i64)>,
        stop: Option<usize>,
        out: &mut Vec<Emission>,
        Ghost(d): Ghost<int>,
    ) -> (go: bool)
        requires
            dispatch_fits(old(self)@, d),
            event_ok(*ev, d),
            set_ok(set, d),
            old(self)@.widget is ScrollList,
            ev is CursorMoved,
        ensures
            ({
                let o = list_dispatch(old(self)@, *ev, set, rel(stop, old(out)@.len() as int));
                &&& final(self)@ == o.node
                &&& go == o.go
                &&& emissions_view(final(out)@) == emissions_view(old(out)@) + o.emitted
            }),
            dispatch_fits(final(self)@, d),
        decreases *old(self), 2int,
    {
        let ghost orig = *self;
        let ghost v = self@;
        let ghost out0 = out@;
        let ghost stop0 = rel(stop, out0.len() as int);
        self.apply_cursor(set);
        let ghost u = self@;
        proof {
            lemma_pos_bound(self.cursor_x as int, d);
            lemma_pos_bound(self.cursor_y as int, d);
        }
        let lx = self.cursor_x - self.x as i64;
        let ly = self.cursor_y - self.y as i64;
        let h = self.height;
        let (x, y) = match ev {
            UiEvent::CursorMoved { x, y } => (*x, *y),
            _ => (0, 0),
        };
        proof {
            lemma_pos_bound(x as int, d);
            lemma_pos_bound(y as int, d);
        }
        let mx = x - self.x as i64;
        let my = y - self.y as i64;
        let go1 = self.track_hover(mx, my, stop, out);
        let ghost s = own_move(u, mx as int, my as int, stop0);
        if !go1 {
            return false;
        }
        let ghost mid = out@;
        let kev = UiEvent::CursorMoved { x: mx, y: my };
        let g = self.route_children(&kev, Some((lx, ly)), Some(h), stop, out, Ghost(d), Ghost(orig));
        proof {
            let k = kids_from(
                v.children,
                0,
                kev,
                Some((lx, ly)),
                Some(h as int),
                shift(stop0, s.emitted.len() as int),
            );
            lemma_compose(out0, mid, out@, s.emitted, k.emitted);
        }
        g
    }

    #[verifier::rlimit(100)]
    fn list_on_input(
        &mut self,
        ev: &UiEvent,
        set: Option<(i64, i64)>,
        stop: Option<usize>,
        out: &mut Vec<Emission>,
        Ghost(d): Ghost<int>,
    ) -> (go: bool)
        requires
            dispatch_fits(old(self)@, d),
            event_ok(*ev, d),
            set_ok(set, d),
            old(self)@.widget is ScrollList,
            ev is MouseInput,
        ensures
            ({
                let o = list_dispatch(old(self)@, *ev, set, rel(stop, old(out)@.len() as int));
                &&& final(self)@ == o.node
                &&& go == o.go
                &&& emissions_view(final(out)@) == emissions_view(old(out)@) + o.emitted
            }),
            dispatch_fits(final(self)@, d),
        decreases *old(self), 2int,
    {
        let ghost orig = *self;
        let ghost v = self@;
        let ghost out0 = out@;
        let ghost stop0 = rel(stop, out0.len() as int);
        self.apply_cursor(set);
        let ghost u = self@;
        proof {
            lemma_pos_bound(self.cursor_x as int, d);
            lemma_pos_bound(self.cursor_y as int, d);
        }
        let lx = self.cursor_x - self.x as i64;
        let ly = self.cursor_y - self.y as i64;
        let h = self.height;
        let (pressed, button) = match ev {
            UiEvent::MouseInput { pressed, button } => (*pressed, *button),
            _ => (false, MouseButton::Left),
        };
        if pressed && button == MouseButton::Left && self.in_rect(lx, ly) {
            proof {
                lemma_pos_grow(lx as int, d + 1);
                lemma_pos_grow(ly as int, d + 1);
            }
            match self.pick(lx, ly) {
                Some(id) => {
                    self.select_item(id, out);
                    return false;
                },
                None => {},
            }
        }
        let go1 = self.track_press(pressed, button, lx, ly, stop, out);
        let ghost s = own_input(u, pressed, button, lx as int, ly as int, stop0);
        if !go1 {
            return false;
        }
        let ghost mid = out@;
        let g = self.route_children(ev, Some((lx, ly)), Some(h), stop, out, Ghost(d), Ghost(orig));
        proof {
            let k = kids_from(
                v.children,
                0,
                *ev,
                Some((lx, ly)),
                Some(h as int),
                shift(stop0, s.emitted.len() as int),
            );
            lemma_compose(out0, mid, out@, s.emitted, k.emitted);
        }
        g
    }

    fn list_on_rest(
        &mut self,
        ev: &UiEvent,
        set: Option<(i64, i64)>,
        stop: Option<usize>,
        out: &mut Vec<Emission>,
        Ghost(d): Ghost<int>,
    ) -> (go: bool)
        requires
            dispatch_fits(old(self)@, d),
            event_ok(*ev, d),
            set_ok(set, d),
            old(self)@.widget is ScrollList,
            ev is Keyboard || ev is Other,
        ensures
            ({
                let o = list_dispatch(old(self)@, *ev, set, rel(stop, old(out)@.len() as int));
                &&& final(self)@ == o.node
                &&& go == o.go
                &&& emissions_view(final(out)@) == emissions_view(old(out)@) + o.emitted
            }),
            dispatch_fits(final(self)@, d),
        decreases *old(self), 2int,
    {
        let ghost orig = *self;
        let ghost v = self@;
        let ghost out0 = out@;
        let ghost stop0 = rel(stop, out0.len() as int);
        self.apply_cursor(set);
        let ghost u = self@;
        proof {
            lemma_pos_bound(self.cursor_x as int, d);
            lemma_pos_bound(self.cursor_y as int, d);
        }
        let lx = self.cursor_x - self.x as i64;
        let ly = self.cursor_y - self.y as i64;
        let h = self.height;
        let (is_key, pressed, key) = match ev {
            UiEvent::Keyboard { pressed, key } => (true, *pressed, *key),
            _ => (false, false, None),
        };
        if is_key {
            let go1 = self.track_key(pressed, key, stop, out);
            let ghost s = own_key(u, pressed, key, stop0);
            if !go1 {
                return false;
            }
            let ghost mid = out@;
            let g = self.route_children(ev, Some((lx, ly)), Some(h), stop, out, Ghost(d), Ghost(orig));
            proof {
                let k = kids_from(
                    v.children,
                    0,
                    *ev,
                    Some((lx, ly)),
                    Some(h as int),
                    shift(stop0, s.emitted.len() as int),
                );
                lemma_compose(out0, mid, out@, s.emitted, k.emitted);
            }
            g
        } else {
            let g = self.route_children(ev, Some((lx, ly)), Some(h), stop, out, Ghost(d), Ghost(orig));
            proof {
                let k = kids_from(v.children, 0, *ev, Some((lx, ly)), Some(h as int), stop0);
                assert(Seq::<EmissionView>::empty() + k.emitted =~= k.emitted);
            }
            g
        }
    }

    /// Dispatch into the children, which are taken out of the component for it.
    fn route_children(
        &mut self,
        ev: &UiEvent,
        set: Option<(i64, i64)>,
        limit: Option<i32>,
        stop: Option<usize>,
        out: &mut Vec<Emission>,
        Ghost(d): Ghost<int>,
        Ghost(orig): Ghost<ComponentBase>,
    ) -> (go: bool)
        requires
            old(self).children == orig.children,
            kids_dispatch_fit(old(self)@.children, d + 1),
            event_ok(*ev, d + 1),
            set_ok(set, d + 1),
        ensures
            ({
                let k = kids_from(
                    old(self)@.children,
                    0,
                    *ev,
                    set,
                    opt_limit(limit),
                    rel(stop, old(out)@.len() as int),
                );
                &&& final(self)@ == (ComponentView { children: k.kids, ..old(self)@ })
                &&& go == k.go
                &&& emissions_view(final(out)@) == emissions_view(old(out)@) + k.emitted
            }),
            final(self).children@.len() == old(self).children@.len(),
            kids_dispatch_fit(final(self)@.children, d + 1),
        decreases orig, 1int,
    {
        let ghost before = *self;
        proof {
            lemma_views_children(before);
        }
        let mut kids: Vec<ComponentBase> = Vec::new();
        std::mem::swap(&mut kids, &mut self.children);
        proof {
            assert(decreases_to!(orig => orig.children));
        }
        let g = route_kids(&mut kids, ev, set, limit, stop, out, Ghost(d));
        self.children = kids;
        proof {
            lemma_views_children(*self);
            assert(view_of(*self) == (ComponentView { children: view_of(*self).children, ..view_of(before) }));
        }
        g
    }
}

/// Dispatch into a sequence of sibling components, in order.
#[verifier::rlimit(60)]
fn route_kids(
    kids: &mut Vec<ComponentBase>,
    ev: &UiEvent,
    set: Option<(i64, i64)>,
    limit: Option<i32>,
    stop: Option<usize>,
    out: &mut Vec<Emission>,
    Ghost(d): Ghost<int>,
) -> (go: bool)
    requires
        kids_dispatch_fit(views(old(kids)@), d + 1),
        event_ok(*ev, d + 1),
        set_ok(set, d + 1),
    ensures
        ({
            let k = kids_from(
                views(old(kids)@),
                0,
                *ev,
                set,
                opt_limit(limit),
                rel(stop, old(out)@.len() as int),
            );
            &&& views(final(kids)@) == k.kids
            &&& go == k.go
            &&& emissions_view(final(out)@) == emissions_view(old(out)@) + k.emitted
        }),
        final(kids)@.len() == old(kids)@.len(),
        kids_dispatch_fit(views(final(kids)@), d + 1),
    decreases *old(kids), 0int,
{
    let ghost orig = *kids;
    let ghost ov = views(orig@);
    let ghost out0 = out@;
    let ghost stop0 = rel(stop, out0.len() as int);
    let ghost lim = opt_limit(limit);
    let ghost mut made: Seq<EmissionView> = Seq::empty();
    proof {
        lemma_kids_dispatch_fit(ov, d + 1);
        assert(emissions_view(out0) + made =~= emissions_view(out0));
        let k0 = kids_from(ov, 0, *ev, set, lim, stop0);
        assert(views(kids@).take(0) + k0.kids =~= k0.kids);
        assert(made + k0.emitted =~= k0.emitted);
    }
    let n = kids.len();
    let mut i: usize = 0;
    while i < n
        invariant
            i <= n == kids@.len() == orig@.len() == ov.len(),
            ov == views(orig@),
            orig == *old(kids),
            out0 == old(out)@,
            forall|j: int| i <= j < n ==> kids@[j] == orig@[j],
            emissions_view(out@) == emissions_view(out0) + made,
            stop0 == rel(stop, out0.len() as int),
            lim == opt_limit(limit),
            kids_from(ov, 0, *ev, set, lim, stop0) == (KidsStep {
                kids: views(kids@).take(i as int) + kids_from(
                    ov,
                    i as int,
                    *ev,
                    set,
                    lim,
                    shift(stop0, made.len() as int),
                ).kids,
                go: kids_from(ov, i as int, *ev, set, lim, shift(stop0, made.len() as int)).go,
                emitted: made + kids_from(
                    ov,
                    i as int,
                    *ev,
                    set,
                    lim,
                    shift(stop0, made.len() as int),
                ).emitted,
            }),
            forall|j: int| 0 <= j < i ==> #[trigger] dispatch_fits(views(kids@)[j], d + 1),
            forall|j: int| 0 <= j < n ==> #[trigger] dispatch_fits(ov[j], d + 1),
            event_ok(*ev, d + 1),
            set_ok(set, d + 1),
        decreases n - i,
    {
        let shown = match limit {
            None => true,
            Some(h) => {
                let c = &kids[i];
                -(c.height as i64) < c.y as i64 && (c.y as i64) < h as i64
            },
        };
        let ghost sh = shift(stop0, made.len() as int);
        let ghost bv = views(kids@);
        assert(bv[i as int] == ov[i as int]);
        assert(shown == visible_in(ov[i as int], lim));
        if shown {
            let ghost nd = dispatch_node(ov[i as int], *ev, set, sh);
            proof {
                assert(decreases_to!(orig => orig@));
                assert(decreases_to!(orig@ => orig@[i as int]));
            }
            assert(emissions_view(out@).len() == out@.len());
            assert(emissions_view(out0).len() == out0.len());
            assert(out@.len() == out0.len() + made.len());
            let ghost r = kids_from(ov, i as int, *ev, set, lim, sh);
            let g = kids[i].route(ev, set, stop, out, Ghost(d + 1));
            let ghost av = views(kids@);
            assert(av =~= bv.update(i as int, nd.node));
            if !g {
                proof {
                    assert(r == (KidsStep {
                        kids: seq![nd.node] + ov.subrange(i + 1, n as int),
                        go: false,
                        emitted: nd.emitted,
                    }));
                    let target = bv.take(i as int) + (seq![nd.node] + ov.subrange(i + 1, n as int));
                    assert(av =~= target);
                    assert(emissions_view(out@) =~= emissions_view(out0) + (made + nd.emitted));
                    assert forall|j: int| 0 <= j < n implies #[trigger] dispatch_fits(av[j], d + 1) by {
                        if j < i {
                            assert(av[j] == bv[j]);
                        } else if j > i {
                            assert(av[j] == ov[j]);
                        }
                    }
                    lemma_kids_dispatch_fit(av, d + 1);
                }
                return false;
            }
            proof {
                let r2 = kids_from(
                    ov,
                    i + 1,
                    *ev,
                    set,
                    lim,
                    shift(stop0, (made.len() + nd.emitted.len()) as int),
                );
                assert(shift(sh, nd.emitted.len() as int) == shift(
                    stop0,
                    (made.len() + nd.emitted.len()) as int,
                ));
                assert(av.take(i + 1) =~= bv.take(i as int).push(nd.node));
                assert(bv.take(i as int) + (seq![nd.node] + r2.kids) =~= av.take(i + 1) + r2.kids);
                assert(made + (nd.emitted + r2.emitted) =~= (made + nd.emitted) + r2.emitted);
                assert(emissions_view(out@) =~= emissions_view(out0) + (made + nd.emitted));
                made = made + nd.emitted;
                assert forall|j: int| 0 <= j < i + 1 implies #[trigger] dispatch_fits(av[j], d + 1) by {
                    if j < i {
                        assert(av[j] == bv[j]);
                    }
                }
            }
        } else {
            proof {
                let r2 = kids_from(ov, i + 1, *ev, set, lim, sh);
                assert(bv.take(i + 1) =~= bv.take(i as int).push(ov[i as int]));
                assert(bv.take(i as int) + (seq![ov[i as int]] + r2.kids) =~= bv.take(i + 1) + r2.kids);
            }
        }
        i = i + 1;
    }
    proof {
        let av = views(kids@);
        assert(av.take(n as int) =~= av);
        let k0 = kids_from(ov, 0, *ev, set, lim, stop0);
        assert(k0.kids =~= av);
        assert(k0.emitted =~= made);
        lemma_kids_dispatch_fit(av, d + 1);
    }
    true
}

proof fn lemma_compose(
    out0: Seq<Emission>,
    mid: Seq<Emission>,
    fin: Seq<Emission>,
    se: Seq<EmissionView>,
    ke: Seq<EmissionView>,
)
    requires
        emissions_view(mid) == emissions_view(out0) + se,
        emissions_view(fin) == emissions_view(mid) + ke,
    ensures
        emissions_view(fin) == emissions_view(out0) + (se + ke),
        mid.len() == out0.len() + se.len(),
{
    assert(emissions_view(out0) + se + ke =~= emissions_view(out0) + (se + ke));
    assert(emissions_view(mid).len() == mid.len());
}

/// A coordinate that fits at one depth fits at every deeper one.
proof fn lemma_pos_grow(p: int, d: int)
    requires
        pos_ok(p, d),
        0 <= d <= DEPTH_LIMIT + 1,
    ensures
        pos_ok(p, DEPTH_LIMIT as int + 1),
{
    assert(d * POS_STEP <= (DEPTH_LIMIT + 1) * POS_STEP) by (nonlinear_arith)
        requires
            d <= DEPTH_LIMIT + 1,
            POS_STEP > 0,
    ;
}

/// Moving the items of a list keeps the tree fit for dispatch.
proof fn lemma_scrolled_fits(u: ComponentView, amount: int, d: int)
    requires
        dispatch_fits(u, d),
        u.widget is ScrollList,
    ensures
        dispatch_fits(wheel_scrolled(u, amount), d),
{
    let w = wheel_scrolled(u, amount);
    lemma_kids_dispatch_fit(u.children, d + 1);
    lemma_kids_dispatch_fit(w.children, d + 1);
    assert forall|j: int| 0 <= j < w.children.len() implies #[trigger] dispatch_fits(
        w.children[j],
        d + 1,
    ) by {
        assert(dispatch_fits(u.children[j], d + 1));
        assert(w.children[j].children == u.children[j].children);
    }
}

// ---------------------------------------------------------------------------
// entry points

/// The stop index a caller names: the index of the first handler call that returned `false`.
pub open spec fn stop_of(stop_at: Option<usize>) -> Option<int> {
    match stop_at {
        Some(m) => Some(m as int),
        None => None,
    }
}

impl ComponentBase {
    /// Dispatches `ev` into this tree.  `stop_at` is the index of the first
    /// planned handler call that returned `false` (`None` when none did).
    /// Returns whether the dispatch went through to the end, and the handler
    /// calls it made.
    pub fn dispatch_event(&mut self, ev: &UiEvent, stop_at: Option<usize>) -> (r: (bool, Vec<Emission>))
        requires
            dispatch_fits(old(self)@, 0),
            event_ok(*ev, 0),
        ensures
            ({
                let o = dispatch_node(old(self)@, *ev, None, stop_of(stop_at));
                &&& final(self)@ == o.node
                &&& r.0 == o.go
                &&& emissions_view(r.1@) == o.emitted
            }),
            dispatch_fits(final(self)@, 0),
    {
        let mut out: Vec<Emission> = Vec::new();
        let go = self.route(ev, None, stop_at, &mut out, Ghost(0));
        proof {
            let o = dispatch_node(old(self)@, *ev, None, stop_of(stop_at));
            assert(rel(stop_at, 0) == stop_of(stop_at));
            assert(emissions_view(Seq::<Emission>::empty()) + o.emitted =~= o.emitted);
        }
        (go, out)
    }

    /// The handler calls a dispatch of `ev` makes when every handler returns `true`.
    pub fn planned_emissions(&self, ev: &UiEvent) -> (plan: Vec<Emission>)
        requires
            dispatch_fits(self@, 0),
            event_ok(*ev, 0),
        ensures
            emissions_view(plan@) == dispatch_node(self@, *ev, None, None).emitted,
    {
        let mut probe = self.duplicate();
        let (_, plan) = probe.dispatch_event(ev, None);
        plan
    }
}

/// A dispatch makes exactly the planned handler calls up to and including
/// the first one that returns `false`, and then stops; when no planned call
/// returns `false`, it is the planned dispatch.
pub proof fn law_dispatch_follows_plan(v: ComponentView, ev: UiEvent, m: nat)
    ensures
        ({
            let t = dispatch_node(v, ev, None, None);
            let o = dispatch_node(v, ev, None, Some(m as int));
            &&& m < t.emitted.len() ==> o.emitted == t.emitted.take(m + 1int) && !o.go
            &&& m >= t.emitted.len() ==> o == t
        }),
{
    lemma_dispatch_follows(v, ev, None, Some(m as int));
}

// ---------------------------------------------------------------------------
// releasing the pointer

/// A component after the pointer is forced out of it: a held press is
/// released (calling `MouseUp`), and a hovered or pressed component stops
/// being hovered (calling `MouseExit`); then the same for every descendant,
/// in order.
pub open spec fn exit_node(v: ComponentView) -> (ComponentView, Seq<EmissionView>)
    decreases v, 1int, 0int,
{
    let own: (ComponentView, Seq<EmissionView>) = if v.hovered || v.pressed {
        if v.pressed {
            (
                ComponentView { pressed: false, pressed_button: None, hovered: false, ..v },
                seq![handler_of(v, HandlerKind::MouseUp), handler_of(v, HandlerKind::MouseExit)],
            )
        } else {
            (ComponentView { hovered: false, ..v }, seq![handler_of(v, HandlerKind::MouseExit)])
        }
    } else {
        (v, seq![])
    };
    let k = exit_kids(v.children, 0);
    (ComponentView { children: k.0, ..own.0 }, own.1 + k.1)
}

pub open spec fn exit_kids(s: Seq<ComponentView>, i: int) -> (Seq<ComponentView>, Seq<EmissionView>)
    decreases s, 0int, s.len() - i,
{
    if i < 0 || i >= s.len() {
        (seq![], seq![])
    } else {
        let c = exit_node(s[i]);
        let r = exit_kids(s, i + 1);
        (seq![c.0] + r.0, c.1 + r.1)
    }
}

impl ComponentBase {
    /// Forces the pointer out of the whole tree; returns the handler calls
    /// to make, in order (their results do not matter).
    pub fn force_mouse_exit(&mut self) -> (calls: Vec<Emission>)
        ensures
            final(self)@ == exit_node(old(self)@).0,
            emissions_view(calls@) == exit_node(old(self)@).1,
    {
        let mut out: Vec<Emission> = Vec::new();
        self.exit_into(&mut out);
        assert(emissions_view(Seq::<Emission>::empty()) + exit_node(old(self)@).1 =~= exit_node(
            old(self)@,
        ).1);
        out
    }

    fn exit_into(&mut self, out: &mut Vec<Emission>)
        ensures
            final(self)@ == exit_node(old(self)@).0,
            emissions_view(final(out)@) == emissions_view(old(out)@) + exit_node(old(self)@).1,
        decreases *old(self),
    {
        let ghost orig = *self;
        let ghost ov = view_of(orig);
        let ghost out0 = out@;
        if self.hovered || self.pressed {
            if self.pressed {
                self.pressed = false;
                self.pressed_button = None;
                out.push(Emission::Handler { key: self.handler_key, kind: HandlerKind::MouseUp });
            }
            self.hovered = false;
            out.push(Emission::Handler { key: self.handler_key, kind: HandlerKind::MouseExit });
        }
        let ghost own = exit_node(ov);
        proof {
            let o = if ov.hovered || ov.pressed {
                if ov.pressed {
                    seq![handler_of(ov, HandlerKind::MouseUp), handler_of(ov, HandlerKind::MouseExit)]
                } else {
                    seq![handler_of(ov, HandlerKind::MouseExit)]
                }
            } else {
                Seq::<EmissionView>::empty()
            };
            assert(emissions_view(out@) =~= emissions_view(out0) + o);
            assert(view_of(*self).children =~= ov.children);
        }
        let ghost base = view_of(*self);
        let ghost made0 = emissions_view(out@);
        let n = self.children.len();
        let mut i: usize = 0;
        proof {
            assert(view_of(*self).children.take(0) + exit_kids(ov.children, 0).0 =~= exit_kids(ov.children, 0).0);
        }
        while i < n
            invariant
                i <= n == self.children@.len() == orig.children@.len() == ov.children.len(),
                orig == *old(self),
                ov == view_of(orig),
                forall|j: int| i <= j < n ==> self.children@[j] == orig.children@[j],
                view_of(*self) == (ComponentView { children: view_of(*self).children, ..base }),
                exit_kids(ov.children, 0).0 == view_of(*self).children.take(i as int) + exit_kids(
                    ov.children,
                    i as int,
                ).0,
                emissions_view(out@) + exit_kids(ov.children, i as int).1 == made0 + exit_kids(
                    ov.children,
                    0,
                ).1,
            decreases n - i,
        {
            let ghost before = *self;
            let ghost bv = view_of(before);
            let ghost ob = out@;
            proof {
                lemma_view_child(*self, i as int);
                lemma_view_child(orig, i as int);
                assert(decreases_to!(orig => orig.children));
                assert(decreases_to!(orig.children => orig.children@));
                assert(decreases_to!(orig.children@ => orig.children@[i as int]));
            }
            self.children[i].exit_into(out);
            proof {
                let av = view_of(*self);
                let c = exit_node(ov.children[i as int]);
                let r = exit_kids(ov.children, i + 1);
                assert forall|j: int| 0 <= j < n && j != i implies av.children[j] == bv.children[j] by {
                    lemma_view_child(*self, j);
                    lemma_view_child(before, j);
                }
                lemma_view_child(*self, i as int);
                assert(av.children =~= bv.children.update(i as int, c.0));
                assert(av.children.take(i + 1) =~= bv.children.take(i as int).push(c.0));
                assert(bv.children.take(i as int) + (seq![c.0] + r.0) =~= av.children.take(i + 1) + r.0);
                assert(emissions_view(ob) + (c.1 + r.1) =~= (emissions_view(ob) + c.1) + r.1);
            }
            i = i + 1;
        }
        proof {
            let av = view_of(*self);
            assert(av.children.take(n as int) =~= av.children);
            assert(emissions_view(out@) + exit_kids(ov.children, n as int).1 =~= emissions_view(out@));
            assert(made0 + exit_kids(ov.children, 0).1 =~= emissions_view(out0) + own.1);
        }
    }

    /// Enables a disabled button, which then calls its `Enable` handlers.
    pub fn enable(&mut self) -> (call: Option<Emission>)
        ensures
            match old(self)@.widget {
                WidgetView::Button { text, font_size, enabled } => if !enabled {
                    &&& final(self)@ == (ComponentView {
                        widget: WidgetView::Button { text, font_size, enabled: true },
                        ..old(self)@
                    })
                    &&& call == Some(Emission::Handler { key: old(self).handler_key, kind: HandlerKind::Enable })
                } else {
                    final(self)@ == old(self)@ && call is None
                },
                WidgetView::ImageButton { enabled } => if !enabled {
                    &&& final(self)@ == (ComponentView {
                        widget: WidgetView::ImageButton { enabled: true },
                        ..old(self)@
                    })
                    &&& call == Some(Emission::Handler { key: old(self).handler_key, kind: HandlerKind::Enable })
                } else {
                    final(self)@ == old(self)@ && call is None
                },
                _ => final(self)@ == old(self)@ && call is None,
            },
    {
        let key = self.handler_key;
        let r = match &mut self.widget {
            Widget::Button(b) => {
                if !b.enabled {
                    b.enabled = true;
                    Some(Emission::Handler { key, kind: HandlerKind::Enable })
                } else {
                    None
                }
            },
            Widget::ImageButton(b) => {
                if !b.enabled {
                    b.enabled = true;
                    Some(Emission::Handler { key, kind: HandlerKind::Enable })
                } else {
                    None
                }
            },
            _ => None,
        };
        proof {
            assert(view_of(*self).children =~= view_of(*old(self)).children);
        }
        r
    }

    /// Disables an enabled button, which also stops being hovered or
    /// pressed, and then calls its `Disable` handlers.
    pub fn disable(&mut self) -> (call: Option<Emission>)
        ensures
            match old(self)@.widget {
                WidgetView::Button { text, font_size, enabled } => if enabled {
                    &&& final(self)@ == (ComponentView {
                        widget: WidgetView::Button { text, font_size, enabled: false },
                        hovered: false,
                        pressed: false,
                        ..old(self)@
                    })
                    &&& call == Some(Emission::Handler { key: old(self).handler_key, kind: HandlerKind::Disable })
                } else {
                    final(self)@ == old(self)@ && call is None
                },
                WidgetView::ImageButton { enabled } => if enabled {
                    &&& final(self)@ == (ComponentView {
                        widget: WidgetView::ImageButton { enabled: false },
                        hovered: false,
                        pressed: false,
                        ..old(self)@
                    })
                    &&& call == Some(Emission::Handler { key: old(self).handler_key, kind: HandlerKind::Disable })
                } else {
                    final(self)@ == old(self)@ && call is None
                },
                _ => final(self)@ == old(self)@ && call is None,
            },
    {
        let key = self.handler_key;
        let mut drop_pointer = false;
        let r = match &mut self.widget {
            Widget::Button(b) => {
                if b.enabled {
                    b.enabled = false;
                    drop_pointer = true;
                    Some(Emission::Handler { key, kind: HandlerKind::Disable })
                } else {
                    None
                }
            },
            Widget::ImageButton(b) => {
                if b.enabled {
                    b.enabled = false;
                    drop_pointer = true;
                    Some(Emission::Handler { key, kind: HandlerKind::Disable })
                } else {
                    None
                }
            },
            _ => None,
        };
        if drop_pointer {
            self.hovered = false;
            self.pressed = false;
        }
        proof {
            assert(view_of(*self).children =~= view_of(*old(self)).children);
        }
        r
    }
}

// ---------------------------------------------------------------------------
// laws

/// Turning the wheel keeps a list's scroll offset within `[0, max_scroll]`
/// (for a list whose largest offset is not negative), and items stay at
/// their multiples of the item height.
pub proof fn law_wheel_keeps_scroll_in_range(u: ComponentView, amount: int)
    requires
        u.widget matches WidgetView::ScrollList { max_scroll, .. } && max_scroll >= 0,
    ensures
        wheel_scrolled(u, amount).widget matches WidgetView::ScrollList { scroll, max_scroll, .. } && 0
            <= scroll <= max_scroll || wheel_scrolled(u, amount) == u,
{
}

/// After the pointer is forced out, no component of the tree is hovered or pressed.
pub open spec fn released(v: ComponentView) -> bool
    decreases v, 1int, 0int,
{
    !v.hovered && !v.pressed && v.pressed_button is None && released_kids(v.children, 0)
}

pub open spec fn released_kids(s: Seq<ComponentView>, i: int) -> bool
    decreases s, 0int, s.len() - i,
{
    if i < 0 || i >= s.len() {
        true
    } else {
        released(s[i]) && released_kids(s, i + 1)
    }
}

/// Forcing the pointer out leaves no component hovered or pressed.
pub proof fn law_exit_releases_all(v: ComponentView)
    requires
        !v.pressed ==> v.pressed_button is None,
        forall_nodes_consistent(v),
    ensures
        released(exit_node(v).0),
    decreases v, 1int, 0int,
{
    lemma_exit_kids_released(v.children, 0);
    let k = exit_kids(v.children, 0);
    lemma_released_kids_all(k.0, 0);
}

proof fn lemma_exit_released(v: ComponentView)
    requires
        released(v),
    ensures
        exit_node(v) == (v, Seq::<EmissionView>::empty()),
    decreases v, 1int, 0int,
{
    lemma_exit_released_kids(v.children, 0);
    let k = exit_kids(v.children, 0);
    if v.children.len() > 0 {
        assert(v.children.subrange(0, v.children.len() as int) =~= v.children);
    } else {
        assert(v.children =~= Seq::<ComponentView>::empty());
    }
    assert(k.0 == v.children);
    assert(ComponentView { children: k.0, ..v } == v);
    assert(Seq::<EmissionView>::empty() + k.1 =~= Seq::<EmissionView>::empty());
}

proof fn lemma_exit_released_kids(s: Seq<ComponentView>, i: int)
    requires
        released_kids(s, i),
        0 <= i,
    ensures
        exit_kids(s, i) == (if i < s.len() {
            s.subrange(i, s.len() as int)
        } else {
            Seq::<ComponentView>::empty()
        }, Seq::<EmissionView>::empty()),
    decreases s, 0int, s.len() - i,
{
    if i < s.len() {
        lemma_exit_released(s[i]);
        lemma_exit_released_kids(s, i + 1);
        let r = exit_kids(s, i + 1);
        if i + 1 < s.len() {
            assert(seq![s[i]] + s.subrange(i + 1, s.len() as int) =~= s.subrange(i, s.len() as int));
        } else {
            assert(seq![s[i]] + Seq::<ComponentView>::empty() =~= s.subrange(i, s.len() as int));
        }
        assert(Seq::<EmissionView>::empty() + r.1 =~= Seq::<EmissionView>::empty());
    }
}

/// Forcing the pointer out twice is the same as once: the second time the
/// tree is left as it is and no handler is called.
pub proof fn law_exit_twice_quiet(v: ComponentView)
    requires
        forall_nodes_consistent(v),
    ensures
        exit_node(exit_node(v).0) == (exit_node(v).0, Seq::<EmissionView>::empty()),
{
    law_exit_releases_all(v);
    lemma_exit_released(exit_node(v).0);
}

proof fn lemma_released_kids_all(s: Seq<ComponentView>, i: int)
    requires
        forall|j: int| 0 <= j < s.len() ==> #[trigger] released(s[j]),
    ensures
        released_kids(s, i),
    decreases s.len() - i,
{
    if 0 <= i < s.len() {
        assert(released(s[i]));
        lemma_released_kids_all(s, i + 1);
    }
}

/// A component that is not pressed has no pressed button, throughout the tree.
pub open spec fn forall_nodes_consistent(v: ComponentView) -> bool
    decreases v, 1int, 0int,
{
    (!v.pressed ==> v.pressed_button is None) && consistent_kids(v.children, 0)
}

pub open spec fn consistent_kids(s: Seq<ComponentView>, i: int) -> bool
    decreases s, 0int, s.len() - i,
{
    if i < 0 || i >= s.len() {
        true
    } else {
        forall_nodes_consistent(s[i]) && consistent_kids(s, i + 1)
    }
}

proof fn lemma_exit_kids_released(s: Seq<ComponentView>, i: int)
    requires
        consistent_kids(s, i),
    ensures
        ({
            let k = exit_kids(s, i);
            forall|j: int| 0 <= j < k.0.len() ==> #[trigger] released(k.0[j])
        }),
        exit_kids(s, i).0.len() == (if 0 <= i <= s.len() {
            s.len() - i
        } else {
            0
        }),
    decreases s, 0int, s.len() - i,
{
    if 0 <= i < s.len() {
        assert(forall_nodes_consistent(s[i]));
        law_exit_releases_all(s[i]);
        lemma_exit_kids_released(s, i + 1);
        let k = exit_kids(s, i);
        let r = exit_kids(s, i + 1);
        assert forall|j: int| 0 <= j < k.0.len() implies #[trigger] released(k.0[j]) by {
            if j > 0 {
                assert(k.0[j] == r.0[j - 1]);
            }
        }
    }
}

/// A key going up is no longer held, and every other held key stays held, in order.
pub proof fn law_key_up_releases(v: ComponentView, c: u32, stop: Option<int>)
    ensures
        ({
            let keys = own_key(v, false, Some(c), stop).node.pressed_keys;
            &&& forall|i: int| 0 <= i < keys.len() ==> keys[i] != c
            &&& forall|i: int| 0 <= i < v.pressed_keys.len() && v.pressed_keys[i] != c ==> keys.contains(v.pressed_keys[i])
        }),
{
    let keys = own_key(v, false, Some(c), stop).node.pressed_keys;
    assert(keys == v.pressed_keys.filter(not_key(c)));
    assert forall|i: int| 0 <= i < keys.len() implies keys[i] != c by {
        v.pressed_keys.lemma_filter_pred(not_key(c), i);
    }
    assert forall|i: int| 0 <= i < v.pressed_keys.len() && v.pressed_keys[i] != c implies keys.contains(v.pressed_keys[i]) by {
        v.pressed_keys.lemma_filter_contains(not_key(c), i);
    }
}

/// A disabled button ignores every event: it only takes the pointer
/// position its parent sets, makes no call and lets the dispatch go on.
pub proof fn law_disabled_ignores(v: ComponentView, ev: UiEvent, set: Option<(i64, i64)>, stop: Option<int>)
    requires
        is_disabled(v),
    ensures
        dispatch_node(v, ev, set, stop) == quiet(with_cursor(v, set)),
        dispatch_node(v, ev, set, stop).emitted.len() == 0,
{
}

// ---------------------------------------------------------------------------
// the wheel

proof fn lemma_wheel_node(v: ComponentView, amount: i32, set: Option<(i64, i64)>, stop: Option<int>)
    ensures
        dispatch_node(v, UiEvent::MouseWheel { amount }, set, stop).go,
        dispatch_node(v, UiEvent::MouseWheel { amount }, set, stop).emitted == Seq::<EmissionView>::empty(),
    decreases v, 2int, 0int,
{
    let ev = UiEvent::MouseWheel { amount };
    if !is_disabled(v) {
        match v.widget {
            WidgetView::ScrollList { .. } => {},
            _ => {
                lemma_wheel_kids(v.children, 0, amount, stop);
                assert(Seq::<EmissionView>::empty() + Seq::<EmissionView>::empty() =~= Seq::<EmissionView>::empty());
            },
        }
    }
}

proof fn lemma_wheel_kids(kids: Seq<ComponentView>, i: int, amount: i32, stop: Option<int>)
    requires
        0 <= i <= kids.len(),
    ensures
        ({
            let r = kids_from(kids, i, UiEvent::MouseWheel { amount }, None, None, stop);
            &&& r.go
            &&& r.emitted == Seq::<EmissionView>::empty()
            &&& r.kids.len() == kids.len() - i
            &&& forall|j: int|
                0 <= j < kids.len() - i ==> #[trigger] r.kids[j] == dispatch_node(
                    kids[i + j],
                    UiEvent::MouseWheel { amount },
                    None,
                    stop,
                ).node
        }),
    decreases kids, 3int, kids.len() - i,
{
    let ev = UiEvent::MouseWheel { amount };
    if i < kids.len() {
        lemma_wheel_node(kids[i], amount, None, stop);
        let n = dispatch_node(kids[i], ev, None, stop);
        assert(shift(stop, n.emitted.len() as int) == stop);
        lemma_wheel_kids(kids, i + 1, amount, stop);
        let r = kids_from(kids, i, ev, None, None, stop);
        let r1 = kids_from(kids, i + 1, ev, None, None, stop);
        assert(r.kids == seq![n.node] + r1.kids);
        assert forall|j: int| 0 <= j < kids.len() - i implies #[trigger] r.kids[j] == dispatch_node(
            kids[i + j],
            ev,
            None,
            stop,
        ).node by {
            if j > 0 {
                assert(r.kids[j] == r1.kids[j - 1]);
                assert(i + 1 + (j - 1) == i + j);
            }
        }
        assert(n.emitted + r1.emitted =~= Seq::<EmissionView>::empty());
    }
}

/// The wheel goes through every component that is not a scroll list (and
/// not disabled) to all of its children: each child ends as if the wheel had
/// been dispatched to it directly, whatever handler call is to stop the
/// dispatch, since the wheel makes no call and never stops it.
pub proof fn law_wheel_reaches_children(
    v: ComponentView,
    amount: i32,
    set: Option<(i64, i64)>,
    stop: Option<int>,
)
    requires
        !is_disabled(v),
        !(v.widget is ScrollList),
    ensures
        ({
            let o = dispatch_node(v, UiEvent::MouseWheel { amount }, set, stop);
            &&& o.go
            &&& o.emitted.len() == 0
            &&& o.node.children.len() == v.children.len()
            &&& forall|j: int|
                0 <= j < v.children.len() ==> #[trigger] o.node.children[j] == dispatch_node(
                    v.children[j],
                    UiEvent::MouseWheel { amount },
                    None,
                    stop,
                ).node
        }),
{
    lemma_wheel_node(v, amount, set, stop);
    lemma_wheel_kids(v.children, 0, amount, stop);
    let o = dispatch_node(v, UiEvent::MouseWheel { amount }, set, stop);
    assert forall|j: int| 0 <= j < v.children.len() implies #[trigger] o.node.children[j] == dispatch_node(
        v.children[j],
        UiEvent::MouseWheel { amount },
        None,
        stop,
    ).node by {
        assert(0 + j == j);
    }
}

} // verus!
