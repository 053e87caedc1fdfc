//! The pages of the game front end: how each builds its tree, prepares its
//! layout, answers its handler calls and filters its input.
use vstd::prelude::*;

use crate::component::{view_of, ComponentBase, ComponentView, Spacer};
use crate::draw::{tdiv, draw_kids, draw_fits, kids_draw_fit, lemma_kids_draw_fit};
use crate::events::{Emission, EmissionView, HandlerKind};
use crate::layout::{Constraintable, Direction};
use crate::renderer::{RendererView, UIRenderer};
use crate::types::ImageData;
use crate::component::{Button, ImageButton, Label};
use crate::widgets::{
    button_view, directed, image_button_view, keyed, label_view, spacer_view, tuned, tuned_view,
    with_child,
};

verus! {

/// The pages the application can show.
#[derive(Debug, Clone, Copy, PartialEq, Eq, Structural)]
pub enum PageKind {
    Home,
    MusicList,
    Gameplay,
    Menu,
}

/// A navigation request a page makes while handling a call.
#[derive(Debug, Clone, Copy, PartialEq, Eq, Structural)]
pub enum NavRequest {
    Push(PageKind),
    Pop,
    ClearAndPush(PageKind),
    PopThenElse(PageKind),
}

/// What a page's handler answered: whether the dispatch goes on, the
/// navigation it asks for, and whether the application should quit.
pub struct HandlerOutcome {
    pub go_on: bool,
    pub requests: Vec<NavRequest>,
    pub exit: bool,
}

/// Keys a page reacts to.
#[derive(Debug, Clone, Copy, PartialEq, Eq, Structural)]
pub enum KeyName {
    Escape,
    ControlLeft,
    ControlRight,
    Digit1,
    KeyW,
    KeyS,
    KeyA,
    KeyD,
    Space,
    AltLeft,
    Other,
}

/// An input event as the pages see it, the pointer in window coordinates.
#[derive(Debug, Clone, Copy, PartialEq, Eq, Structural)]
pub enum PageInput {
    CursorMoved { x: i32, y: i32 },
    MouseInput { pressed: bool },
    Key { pressed: bool, key: KeyName },
    /// The wheel turned by lines (`true`) or by pixels.
    Wheel { by_lines: bool },
    /// The modifier keys changed; `ctrl` tells whether a control key is held.
    Modifiers { ctrl: bool },
    Other,
}

pub open spec fn click_of(e: EmissionView, key: u64) -> bool {
    e == EmissionView::Handler { key, kind: HandlerKind::MouseClick }
}

fn is_click(e: &Emission, key: u64) -> (r: bool)
    ensures
        r == click_of(crate::events::emission_view(*e), key),
{
    match e {
        Emission::Handler { key: k, kind } => *k == key && *kind == HandlerKind::MouseClick,
        _ => false,
    }
}

/// The trees of a page's root children draw with the root's corner at the window's.
pub open spec fn page_draw(root: ComponentView, r: RendererView) -> RendererView {
    draw_kids(root.children, 0, 0, 0, None, r)
}

/// Draws the children of a page's root.
pub fn draw_page(root: &ComponentBase, renderer: &mut UIRenderer)
    requires
        kids_draw_fit(root@.children, 0, 0),
    ensures
        final(renderer)@ == page_draw(root@, old(renderer)@),
{
    let ghost v = root@;
    let ghost r0 = renderer@;
    proof {
        lemma_kids_draw_fit(v.children, 0, 0);
    }
    let n = root.children.len();
    let mut i: usize = 0;
    while i < n
        invariant
            i <= n == root.children@.len() == v.children.len(),
            v == root@,
            forall|j: int| 0 <= j < n ==> #[trigger] draw_fits(v.children[j], 0, 0),
            draw_kids(v.children, 0, 0, 0, None, r0) == draw_kids(v.children, i as int, 0, 0, None, renderer@),
        decreases n - i,
    {
        proof {
            crate::component::lemma_view_child(*root, i as int);
        }
        root.children[i].draw(renderer, 0, 0);
        i = i + 1;
    }
}

// ---------------------------------------------------------------------------
// home

/// Handler key of the home page's start button.
pub const HOME_START: u64 = 1;

/// Handler key of the home page's exit button.
pub const HOME_EXIT: u64 = 2;

pub open spec fn home_button(text: Seq<char>) -> ComponentView {
    tuned_view(button_view(text, 0, 0, 200, 50, 24), Constraintable::Maximum, Constraintable::Minimum, 200, 50)
}

/// The column of the home page: title, start, settings and exit buttons.
pub open spec fn home_content() -> ComponentView {
    let title = tuned_view(
        label_view("MuseSP"@, 0, 0, 400, 120, 72, (255, 255, 255)),
        Constraintable::Minimum,
        Constraintable::Minimum,
        400,
        120,
    );
    let gap30 = tuned_view(spacer_view(0, 30), Constraintable::Maximum, Constraintable::Minimum, 0, 30);
    let gap10 = tuned_view(spacer_view(0, 10), Constraintable::Minimum, Constraintable::Minimum, 0, 10);
    let start = ComponentView { handler_key: HOME_START, ..home_button("开始"@) };
    let settings = home_button("设置"@);
    let exit = ComponentView { handler_key: HOME_EXIT, ..home_button("退出"@) };
    ComponentView {
        layout_direction: Direction::Vertical,
        h_constraint: Constraintable::Maximum,
        v_constraint: Constraintable::Minimum,
        children: seq![title, gap30, start, gap10, settings, gap10, exit],
        ..crate::widgets::base_view(0, 0, 0, 0)
    }
}

pub open spec fn side_spacer() -> ComponentView {
    tuned_view(spacer_view(0, 0), Constraintable::Maximum, Constraintable::Minimum, 0, 0)
}

/// The home page's root after `build`.
pub open spec fn home_built(root: ComponentView) -> ComponentView {
    ComponentView {
        layout_direction: Direction::Horizontal,
        children: root.children + seq![side_spacer(), home_content(), side_spacer()],
        ..root
    }
}

fn home_button_exec(text: &str) -> (c: ComponentBase)
    ensures
        c@ == home_button(text@),
{
    tuned(Button::new(text, 0, 0, 200, 50, 24), Constraintable::Maximum, Constraintable::Minimum, 200, 50)
}

fn side_spacer_exec() -> (c: ComponentBase)
    ensures
        c@ == side_spacer(),
{
    tuned(Spacer::new(0, 0), Constraintable::Maximum, Constraintable::Minimum, 0, 0)
}

/// Appends `kids` to the children of `root`, in order.
pub fn append_children(root: &mut ComponentBase, kids: Vec<ComponentBase>)
    ensures
        final(root)@ == (ComponentView {
            children: old(root)@.children + crate::component::views(kids@),
            ..old(root)@
        }),
{
    let ghost v = root@;
    let ghost kv = crate::component::views(kids@);
    let mut rest = kids;
    let n = rest.len();
    let mut j: usize = 0;
    while j < n
        invariant
            j <= n == kv.len(),
            rest@.len() == n - j,
            forall|i: int| 0 <= i < n - j ==> view_of(#[trigger] rest@[i]) == kv[i + j as int],
            root@ == (ComponentView { children: v.children + kv.take(j as int), ..v }),
        decreases n - j,
    {
        let ghost r0 = rest@;
        let k = rest.remove(0);
        assert(rest@ =~= r0.remove(0));
        let ghost before = *root;
        root.children.push(k);
        proof {
            assert(view_of(*root).children =~= view_of(before).children.push(view_of(k)));
            assert(kv.take(j + 1) =~= kv.take(j as int).push(kv[j as int]));
            assert(v.children + kv.take(j + 1) =~= (v.children + kv.take(j as int)).push(kv[j as int]));
            assert forall|i: int| 0 <= i < n - (j + 1) implies view_of(#[trigger] rest@[i]) == kv[i + j + 1] by {
                assert(rest@[i] == r0[i + 1]);
            }
        }
        j = j + 1;
    }
    assert(kv.take(n as int) =~= kv);
}

/// Builds the home page under `root`.
pub fn build_home(root: &mut ComponentBase)
    ensures
        final(root)@ == home_built(old(root)@),
{
    let title = tuned(
        Label::new("MuseSP", 0, 0, 400, 120, 72, (255, 255, 255)),
        Constraintable::Minimum,
        Constraintable::Minimum,
        400,
        120,
    );
    let gap30 = tuned(Spacer::new(0, 30), Constraintable::Maximum, Constraintable::Minimum, 0, 30);
    let gap10a = tuned(Spacer::new(0, 10), Constraintable::Minimum, Constraintable::Minimum, 0, 10);
    let gap10b = tuned(Spacer::new(0, 10), Constraintable::Minimum, Constraintable::Minimum, 0, 10);
    let start = keyed(home_button_exec("开始"), HOME_START);
    let settings = home_button_exec("设置");
    let exit = keyed(home_button_exec("退出"), HOME_EXIT);
    let mut content = directed(ComponentBase::new(0, 0, 0, 0), Direction::Vertical);
    content = tuned(content, Constraintable::Maximum, Constraintable::Minimum, 0, 0);
    let parts = vec![title, gap30, start, gap10a, settings, gap10b, exit];
    append_children(&mut content, parts);
    proof {
        reveal_strlit("MuseSP");
        assert(content@.children =~= home_content().children);
    }
    assert(content@ == home_content());
    let ghost before = *root;
    root.layout_direction = Direction::Horizontal;
    proof {
        assert(view_of(*root).children =~= view_of(before).children);
    }
    let sides = vec![side_spacer_exec(), content, side_spacer_exec()];
    append_children(root, sides);
    proof {
        let kv = crate::component::views(sides@);
        assert(kv =~= seq![side_spacer(), home_content(), side_spacer()]);
    }
}

/// The widest a side spacer of the home page may grow: two sevenths of the window.
pub open spec fn home_side_cap(width: int) -> int {
    tdiv(width * 2, 7)
}

/// Caps the two side spacers of the home page.
pub fn prepare_home(root: &mut ComponentBase)
    requires
        -1073741823 <= old(root).width <= 1073741823,
    ensures
        old(root)@.children.len() >= 3 ==> final(root)@ == (ComponentView {
            children: old(root)@.children.update(
                0,
                ComponentView { max_width: home_side_cap(old(root)@.width as int) as i32, ..old(root)@.children[0] },
            ).update(
                2,
                ComponentView { max_width: home_side_cap(old(root)@.width as int) as i32, ..old(root)@.children[2] },
            ),
            ..old(root)@
        }),
        old(root)@.children.len() < 3 ==> final(root)@ == old(root)@,
{
    let w2: i32 = root.width * 2;
    let cap: i32 = if w2 >= 0 { w2 / 7 } else { -((-w2) / 7) };
    if root.children.len() >= 3 {
        let ghost before = *root;
        root.children[0].set_max_width(cap);
        let ghost mid = *root;
        root.children[2].set_max_width(cap);
        proof {
            let bv = view_of(before);
            let av = view_of(*root);
            assert forall|j: int| 0 <= j < bv.children.len() implies av.children[j] == (if j == 0 || j == 2 {
                ComponentView { max_width: cap, ..bv.children[j] }
            } else {
                bv.children[j]
            }) by {
                crate::component::lemma_view_child(*root, j);
                crate::component::lemma_view_child(mid, j);
                crate::component::lemma_view_child(before, j);
            }
            assert(av.children =~= bv.children.update(0, ComponentView { max_width: cap, ..bv.children[0] }).update(
                2,
                ComponentView { max_width: cap, ..bv.children[2] },
            ));
        }
    }
}

/// The home page's answer to a handler call.
pub fn home_handle(e: &Emission) -> (o: HandlerOutcome)
    ensures
        click_of(crate::events::emission_view(*e), HOME_START) ==> !o.go_on && o.requests@ == seq![
            NavRequest::Push(PageKind::MusicList),
        ] && !o.exit,
        click_of(crate::events::emission_view(*e), HOME_EXIT) ==> !o.go_on && o.requests@.len() == 0
            && o.exit,
        !click_of(crate::events::emission_view(*e), HOME_START) && !click_of(
            crate::events::emission_view(*e),
            HOME_EXIT,
        ) ==> o.go_on && o.requests@.len() == 0 && !o.exit,
{
    if is_click(e, HOME_START) {
        HandlerOutcome { go_on: false, requests: vec![NavRequest::Push(PageKind::MusicList)], exit: false }
    } else if is_click(e, HOME_EXIT) {
        HandlerOutcome { go_on: false, requests: Vec::new(), exit: true }
    } else {
        HandlerOutcome { go_on: true, requests: Vec::new(), exit: false }
    }
}

impl ComponentBase {
    /// Sets the maximum width.
    pub fn set_max_width(&mut self, w: i32)
        ensures
            final(self)@ == (ComponentView { max_width: w, ..old(self)@ }),
    {
        self.max_width = w;
        proof {
            assert(view_of(*self).children =~= view_of(*old(self)).children);
        }
    }

    /// Sets the minimum height.
    pub fn set_min_height(&mut self, h: i32)
        ensures
            final(self)@ == (ComponentView { min_height: h, ..old(self)@ }),
    {
        self.min_height = h;
        proof {
            assert(view_of(*self).children =~= view_of(*old(self)).children);
        }
    }
}

// ---------------------------------------------------------------------------
// pause menu

/// Handler keys of the menu buttons: cancel, continue, replay, exit.
pub const MENU_CANCEL: u64 = 1;

pub const MENU_CONTINUE: u64 = 2;

pub const MENU_REPLAY: u64 = 3;

pub const MENU_EXIT: u64 = 4;

/// Icon path of menu button `i`.
pub open spec fn menu_path(i: int) -> Seq<char> {
    if i == 0 {
        "assets/ui/cancel_button.svg"@
    } else if i == 1 {
        "assets/ui/continue_button.svg"@
    } else if i == 2 {
        "assets/ui/replay_button.svg"@
    } else {
        "assets/ui/exit_button.svg"@
    }
}

/// Caption of menu button `i`.
pub open spec fn menu_label(i: int) -> Seq<char> {
    if i == 0 {
        "取消"@
    } else if i == 1 {
        "继续"@
    } else if i == 2 {
        "重来"@
    } else {
        "退出"@
    }
}

/// The icon path, caption and handler key of menu button `i`.
pub fn menu_entry(i: usize) -> (r: (&'static str, &'static str, u64))
    requires
        i < 4,
    ensures
        r.0@ == menu_path(i as int),
        r.1@ == menu_label(i as int),
        r.2 == i + 1,
{
    if i == 0 {
        ("assets/ui/cancel_button.svg", "取消", MENU_CANCEL)
    } else if i == 1 {
        ("assets/ui/continue_button.svg", "继续", MENU_CONTINUE)
    } else if i == 2 {
        ("assets/ui/replay_button.svg", "重来", MENU_REPLAY)
    } else {
        ("assets/ui/exit_button.svg", "退出", MENU_EXIT)
    }
}

pub open spec fn gap8() -> ComponentView {
    tuned_view(spacer_view(8, 0), Constraintable::Minimum, Constraintable::Minimum, 8, 0)
}

pub open spec fn menu_button(i: int, icon: Option<ImageData>, text_width: i32) -> ComponentView {
    ComponentView {
        handler_key: (i + 1) as u64,
        ..tuned_view(
            image_button_view(menu_path(i), icon, menu_label(i), 0, 0, 130, 36, 14, text_width),
            Constraintable::Minimum,
            Constraintable::Minimum,
            120,
            36,
        )
    }
}

/// The button row of the menu.
pub open spec fn menu_row(icons: Seq<Option<ImageData>>, widths: Seq<i32>) -> ComponentView {
    ComponentView {
        layout_direction: Direction::Horizontal,
        h_constraint: Constraintable::Minimum,
        v_constraint: Constraintable::Minimum,
        min_height: 36,
        children: seq![
            gap8(),
            menu_button(0, icons[0], widths[0]),
            gap8(),
            menu_button(1, icons[1], widths[1]),
            gap8(),
            menu_button(2, icons[2], widths[2]),
            gap8(),
            menu_button(3, icons[3], widths[3]),
            gap8(),
        ],
        ..crate::widgets::base_view(0, 0, 0, 0)
    }
}

pub open spec fn stretch_spacer() -> ComponentView {
    tuned_view(spacer_view(0, 0), Constraintable::Minimum, Constraintable::Maximum, 0, 0)
}

/// The menu page's root after `build`.
pub open spec fn menu_built(root: ComponentView, icons: Seq<Option<ImageData>>, widths: Seq<i32>) -> ComponentView {
    ComponentView {
        layout_direction: Direction::Vertical,
        children: root.children + seq![stretch_spacer(), menu_row(icons, widths), stretch_spacer()],
        ..root
    }
}

/// The pause menu shown over the game.
pub struct MenuPage {
    pub menu_x: i32,
    pub menu_y: i32,
    pub menu_w: i32,
    pub menu_h: i32,
}

/// Where an input to the menu goes.
#[derive(Debug, Clone, Copy, PartialEq, Eq, Structural)]
pub enum MenuRoute {
    /// Escape: close the menu.
    Close,
    /// Outside the menu: drop it.
    Skip,
    /// Dispatch it into the menu's tree.
    Pass,
}

fn gap8_exec() -> (c: ComponentBase)
    ensures
        c@ == gap8(),
{
    tuned(Spacer::new(8, 0), Constraintable::Minimum, Constraintable::Minimum, 8, 0)
}

fn menu_button_exec(i: usize, icon: Option<ImageData>, text_width: i32) -> (c: ComponentBase)
    requires
        i < 4,
        text_width <= i32::MAX - 8,
    ensures
        c@ == menu_button(i as int, icon, text_width),
{
    let (path, label, key) = menu_entry(i);
    keyed(
        tuned(
            ImageButton::new(path, icon, label, 0, 0, 130, 36, 14, text_width),
            Constraintable::Minimum,
            Constraintable::Minimum,
            120,
            36,
        ),
        key,
    )
}

impl MenuPage {
    /// A menu not yet laid out.
    pub fn new() -> (m: Self)
        ensures
            m.menu_x == 0 && m.menu_y == 0 && m.menu_w == 0 && m.menu_h == 0,
    {
        MenuPage { menu_x: 0, menu_y: 0, menu_w: 0, menu_h: 0 }
    }

    /// Builds the menu under `root`; `icons[i]` and `widths[i]` are the
    /// decoded icon and the caption width of button `i`.
    pub fn build(root: &mut ComponentBase, icons: Vec<Option<ImageData>>, widths: Vec<i32>)
        requires
            icons@.len() == 4,
            widths@.len() == 4,
            forall|i: int| 0 <= i < 4 ==> widths@[i] <= i32::MAX - 8,
        ensures
            final(root)@ == menu_built(old(root)@, icons@, widths@),
    {
        let ghost iv = icons@;
        let mut icons = icons;
        let i3 = icons.pop().unwrap();
        let i2 = icons.pop().unwrap();
        let i1 = icons.pop().unwrap();
        let i0 = icons.pop().unwrap();
        let top = tuned(Spacer::new(0, 0), Constraintable::Minimum, Constraintable::Maximum, 0, 0);
        let bot = tuned(Spacer::new(0, 0), Constraintable::Minimum, Constraintable::Maximum, 0, 0);
        let mut row = directed(ComponentBase::new(0, 0, 0, 0), Direction::Horizontal);
        row = tuned(row, Constraintable::Minimum, Constraintable::Minimum, 0, 36);
        let parts = vec![
            gap8_exec(),
            menu_button_exec(0, i0, widths[0]),
            gap8_exec(),
            menu_button_exec(1, i1, widths[1]),
            gap8_exec(),
            menu_button_exec(2, i2, widths[2]),
            gap8_exec(),
            menu_button_exec(3, i3, widths[3]),
            gap8_exec(),
        ];
        append_children(&mut row, parts);
        proof {
            assert(row@.children =~= menu_row(iv, widths@).children);
        }
        assert(row@ == menu_row(iv, widths@));
        let ghost before = *root;
        root.layout_direction = Direction::Vertical;
        proof {
            assert(view_of(*root).children =~= view_of(before).children);
        }
        let all = vec![top, row, bot];
        append_children(root, all);
        proof {
            let kv = crate::component::views(all@);
            assert(kv =~= seq![stretch_spacer(), menu_row(iv, widths@), stretch_spacer()]);
        }
    }

    /// Centres the menu in the window (two fifths of its width, a quarter of
    /// its height) and lays the menu's tree out in that box.
    pub fn prepare_layout(&mut self, root: &mut ComponentBase)
        requires
            crate::layout::tree_fits(old(root)@),
        ensures
            final(self).menu_w == tdiv(old(root)@.width * 2, 5),
            final(self).menu_h == tdiv(old(root)@.height as int, 4),
            final(self).menu_x == tdiv(old(root)@.width - final(self).menu_w, 2),
            final(self).menu_y == tdiv(old(root)@.height - final(self).menu_h, 2),
            final(root)@ == crate::layout::laid_out(
                ComponentView {
                    x: final(self).menu_x,
                    y: final(self).menu_y,
                    width: final(self).menu_w,
                    height: final(self).menu_h,
                    ..old(root)@
                },
                None,
            ),
    {
        let rw = root.width;
        let rh = root.height;
        let mw = div_trunc32(rw as i64 * 2, 5);
        let mh = div_trunc32(rh as i64, 4);
        let mx = div_trunc32(rw as i64 - mw as i64, 2);
        let my = div_trunc32(rh as i64 - mh as i64, 2);
        self.menu_x = mx;
        self.menu_y = my;
        self.menu_w = mw;
        self.menu_h = mh;
        let ghost before = *root;
        root.x = mx;
        root.y = my;
        root.width = mw;
        root.height = mh;
        proof {
            assert(view_of(*root).children =~= view_of(before).children);
            assert(crate::layout::tree_fits(view_of(*root)));
        }
        root.layout(None);
    }

    pub open spec fn inside(&self, px: int, py: int) -> bool {
        self.menu_x <= px < self.menu_x + self.menu_w && self.menu_y <= py < self.menu_y + self.menu_h
    }

    fn contains(&self, px: i32, py: i32) -> (r: bool)
        ensures
            r == self.inside(px as int, py as int),
    {
        (self.menu_x as i64) <= px as i64 && (px as i64) < self.menu_x as i64 + self.menu_w as i64
            && (self.menu_y as i64) <= py as i64 && (py as i64) < self.menu_y as i64 + self.menu_h as i64
    }

    /// Where an input goes: Escape closes the menu, and pointer input
    /// outside the menu's box (the last pointer position of the menu's root
    /// for a button) is dropped.
    pub fn route(&self, input: &PageInput, root_cursor: (i64, i64)) -> (r: MenuRoute)
        ensures
            r == (match *input {
                PageInput::Key { pressed: true, key: KeyName::Escape } => MenuRoute::Close,
                PageInput::CursorMoved { x, y } => if self.inside(x as int, y as int) {
                    MenuRoute::Pass
                } else {
                    MenuRoute::Skip
                },
                PageInput::MouseInput { .. } => if self.inside(
                    root_cursor.0 as i32 as int,
                    root_cursor.1 as i32 as int,
                ) {
                    MenuRoute::Pass
                } else {
                    MenuRoute::Skip
                },
                _ => MenuRoute::Pass,
            }),
    {
        match input {
            PageInput::Key { pressed, key } => {
                if *pressed && *key == KeyName::Escape {
                    MenuRoute::Close
                } else {
                    MenuRoute::Pass
                }
            },
            PageInput::CursorMoved { x, y } => {
                if self.contains(*x, *y) {
                    MenuRoute::Pass
                } else {
                    MenuRoute::Skip
                }
            },
            PageInput::MouseInput { .. } => {
                if self.contains(root_cursor.0 as i32, root_cursor.1 as i32) {
                    MenuRoute::Pass
                } else {
                    MenuRoute::Skip
                }
            },
            _ => MenuRoute::Pass,
        }
    }

    /// The menu's answer to a handler call: cancel closes the menu, exit
    /// leaves the game for a fresh music list, continue and replay do nothing;
    /// every button stops the dispatch.
    pub fn handle(e: &Emission) -> (o: HandlerOutcome)
        ensures
            click_of(crate::events::emission_view(*e), MENU_CANCEL) ==> !o.go_on && o.requests@ == seq![NavRequest::Pop],
            click_of(crate::events::emission_view(*e), MENU_EXIT) ==> !o.go_on && o.requests@ == seq![NavRequest::ClearAndPush(PageKind::MusicList)],
            click_of(crate::events::emission_view(*e), MENU_CONTINUE) || click_of(crate::events::emission_view(*e), MENU_REPLAY)
                ==> !o.go_on && o.requests@.len() == 0,
            !(click_of(crate::events::emission_view(*e), MENU_CANCEL) || click_of(crate::events::emission_view(*e), MENU_EXIT)
                || click_of(crate::events::emission_view(*e), MENU_CONTINUE) || click_of(crate::events::emission_view(*e), MENU_REPLAY))
                ==> o.go_on && o.requests@.len() == 0,
            !o.exit,
    {
        if is_click(e, MENU_CANCEL) {
            HandlerOutcome { go_on: false, requests: vec![NavRequest::Pop], exit: false }
        } else if is_click(e, MENU_EXIT) {
            HandlerOutcome { go_on: false, requests: vec![NavRequest::ClearAndPush(PageKind::MusicList)], exit: false }
        } else if is_click(e, MENU_CONTINUE) || is_click(e, MENU_REPLAY) {
            HandlerOutcome { go_on: false, requests: Vec::new(), exit: false }
        } else {
            HandlerOutcome { go_on: true, requests: Vec::new(), exit: false }
        }
    }

    /// Draws the menu: a translucent white box under the menu's tree.
    pub fn draw(&self, root: &ComponentBase, renderer: &mut UIRenderer)
        requires
            kids_draw_fit(root@.children, 0, 0),
        ensures
            final(renderer)@ == page_draw(
                root@,
                old(renderer)@.with_rect(self.menu_x, self.menu_y, self.menu_w, self.menu_h, (255, 255, 255, 180)),
            ),
    {
        renderer.draw_rect(self.menu_x, self.menu_y, self.menu_w, self.menu_h, (255, 255, 255, 180));
        draw_page(root, renderer);
    }
}

/// Truncating division of an `i32` by a positive divisor, without overflow.
fn div_trunc32(a: i64, b: i64) -> (q: i32)
    requires
        b >= 1,
        i32::MIN <= a <= i32::MAX,
    ensures
        q == tdiv(a as int, b as int),
{
    proof {
        crate::draw::lemma_tdiv_bound(a as int, b as int);
    }
    let r: i64 = if a >= 0 { a / b } else { -((-a) / b) };
    r as i32
}

} // verus!
