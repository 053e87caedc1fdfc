//! The music list page: the list of songs, the selected song's cover and
//! difficulty buttons, and the play button.
use vstd::prelude::*;

use crate::component::{view_of, views, Button, ComponentBase, ComponentView, Image, ImageButton, ScrollList, Spacer};
use crate::draw::tdiv;
use crate::events::{emission_view, Emission, EmissionView, HandlerKind};
use crate::layout::{Constraintable, Direction};
use crate::pages::{click_of, HandlerOutcome, NavRequest, PageKind};
use crate::tree::{edit_named, edited, find_path, named_node, NodeEdit};
use vstd::string::StringExecFns;
use crate::types::{ImageData, ImageMode};
use crate::widgets::{
    base_view, button_view, capped, directed, image_button_view, image_view, keyed, named,
    scroll_list_view, spacer_view, tuned, tuned_view, with_child,
};

verus! {

/// Handler key of the back button.
pub const MUSIC_BACK: u64 = 1;

/// Handler key of the song list.
pub const MUSIC_LIST: u64 = 2;

/// Handler key of the play button.
pub const MUSIC_PLAY: u64 = 3;

/// Handler key of the first difficulty button; button `i` has this key plus `i`.
pub const MUSIC_LEVEL_BASE: u64 = 100;

pub open spec fn with_name(v: ComponentView, name: Seq<char>) -> ComponentView {
    ComponentView { name: Some(name), ..v }
}

pub open spec fn with_key(v: ComponentView, key: u64) -> ComponentView {
    ComponentView { handler_key: key, ..v }
}

/// The left column: the song list.
pub open spec fn music_left() -> ComponentView {
    let list = with_key(
        with_name(
            tuned_view(scroll_list_view(0, 0, 280, 0, 52), Constraintable::Minimum, Constraintable::Maximum, 280, 0),
            "scroll_list"@,
        ),
        MUSIC_LIST,
    );
    ComponentView {
        layout_direction: Direction::Vertical,
        children: seq![list],
        ..tuned_view(base_view(0, 0, 320, 0), Constraintable::Minimum, Constraintable::Minimum, 320, 0)
    }
}

/// The right column: cover, difficulty row and play button between two stretching gaps.
pub open spec fn music_detail() -> ComponentView {
    let top = with_name(
        tuned_view(spacer_view(0, 0), Constraintable::Minimum, Constraintable::Maximum, 0, 0),
        "spacer_top"@,
    );
    let cover = with_name(
        tuned_view(
            image_view(""@, 0, 0, 200, 0, ImageMode::KeepRate, ImageMode::Cover, None),
            Constraintable::Minimum,
            Constraintable::Minimum,
            200,
            0,
        ),
        "cover"@,
    );
    let gap = tuned_view(spacer_view(0, 8), Constraintable::Minimum, Constraintable::Minimum, 0, 8);
    let row = with_name(
        ComponentView {
            layout_direction: Direction::Horizontal,
            ..tuned_view(base_view(0, 0, 0, 44), Constraintable::Minimum, Constraintable::Minimum, 0, 44)
        },
        "diff_row"@,
    );
    let play = with_key(
        with_name(
            tuned_view(button_view("\u{25B6} Play"@, 0, 0, 200, 44, 24), Constraintable::Maximum, Constraintable::Minimum, 200, 44),
            "btn_play"@,
        ),
        MUSIC_PLAY,
    );
    let bottom = tuned_view(spacer_view(0, 0), Constraintable::Minimum, Constraintable::Maximum, 0, 0);
    with_name(
        ComponentView {
            layout_direction: Direction::Vertical,
            children: seq![top, cover, gap, row, gap, play, bottom],
            ..tuned_view(base_view(0, 0, 0, 0), Constraintable::Maximum, Constraintable::Minimum, 0, 0)
        },
        "detail"@,
    )
}

pub open spec fn music_content() -> ComponentView {
    let sep = tuned_view(spacer_view(2, 0), Constraintable::Minimum, Constraintable::Minimum, 2, 0);
    ComponentView {
        layout_direction: Direction::Horizontal,
        children: seq![music_left(), sep, music_detail()],
        ..tuned_view(base_view(0, 0, 0, 0), Constraintable::Maximum, Constraintable::Minimum, 0, 0)
    }
}

pub open spec fn music_back(icon: Option<ImageData>) -> ComponentView {
    with_key(
        tuned_view(
            image_button_view("assets/ui/return_button.svg"@, icon, ""@, 16, 16, 44, 44, 18, 0),
            Constraintable::Unconstrained,
            Constraintable::Unconstrained,
            0,
            0,
        ),
        MUSIC_BACK,
    )
}

pub open spec fn music_side(name: Seq<char>) -> ComponentView {
    with_name(
        tuned_view(spacer_view(0, 0), Constraintable::Maximum, Constraintable::Minimum, 0, 0),
        name,
    )
}

/// The music list page's root after `build`.
pub open spec fn music_built(root: ComponentView, icon: Option<ImageData>) -> ComponentView {
    ComponentView {
        layout_direction: Direction::Horizontal,
        children: root.children + seq![
            music_back(icon),
            music_side("spacer_left"@),
            music_content(),
            music_side("spacer_right"@),
        ],
        ..root
    }
}

fn stretch(c: ComponentBase) -> (r: ComponentBase)
    ensures
        r@ == tuned_view(c@, c@.h_constraint, Constraintable::Maximum, c@.min_width, c@.min_height),
{
    let hc = c.h_constraint;
    let mw = c.min_width;
    let mh = c.min_height;
    tuned(c, hc, Constraintable::Maximum, mw, mh)
}

fn push_kids(c: ComponentBase, kids: Vec<ComponentBase>) -> (r: ComponentBase)
    ensures
        r@ == (ComponentView { children: c@.children + views(kids@), ..c@ }),
{
    let mut r = c;
    crate::pages::append_children(&mut r, kids);
    r
}

/// Builds the music list page under `root`; `back_icon` is the decoded icon of the back button.
pub fn build_music_list(root: &mut ComponentBase, back_icon: Option<ImageData>)
    ensures
        final(root)@ == music_built(old(root)@, back_icon),
{
    let back = keyed(
        tuned(
            ImageButton::new("assets/ui/return_button.svg", back_icon, "", 16, 16, 44, 44, 18, 0),
            Constraintable::Unconstrained,
            Constraintable::Unconstrained,
            0,
            0,
        ),
        MUSIC_BACK,
    );
    let list = keyed(
        named(
            tuned(ScrollList::new(0, 0, 280, 0, 52), Constraintable::Minimum, Constraintable::Maximum, 280, 0),
            "scroll_list",
        ),
        MUSIC_LIST,
    );
    let left0 = directed(
        tuned(ComponentBase::new(0, 0, 320, 0), Constraintable::Minimum, Constraintable::Minimum, 320, 0),
        Direction::Vertical,
    );
    let left = with_child(left0, list);
    assert(left@.children =~= music_left().children);
    let sep = tuned(Spacer::new(2, 0), Constraintable::Minimum, Constraintable::Minimum, 2, 0);
    let top = named(stretch(Spacer::new(0, 0)), "spacer_top");
    let cover = named(
        tuned(
            Image::new("", 0, 0, 200, 0, ImageMode::KeepRate, ImageMode::Cover, None),
            Constraintable::Minimum,
            Constraintable::Minimum,
            200,
            0,
        ),
        "cover",
    );
    let g1 = tuned(Spacer::new(0, 8), Constraintable::Minimum, Constraintable::Minimum, 0, 8);
    let row = named(
        directed(
            tuned(ComponentBase::new(0, 0, 0, 44), Constraintable::Minimum, Constraintable::Minimum, 0, 44),
            Direction::Horizontal,
        ),
        "diff_row",
    );
    let g2 = tuned(Spacer::new(0, 8), Constraintable::Minimum, Constraintable::Minimum, 0, 8);
    let play = keyed(
        named(
            tuned(Button::new("\u{25B6} Play", 0, 0, 200, 44, 24), Constraintable::Maximum, Constraintable::Minimum, 200, 44),
            "btn_play",
        ),
        MUSIC_PLAY,
    );
    let bottom = stretch(Spacer::new(0, 0));
    let detail0 = directed(
        tuned(ComponentBase::new(0, 0, 0, 0), Constraintable::Maximum, Constraintable::Minimum, 0, 0),
        Direction::Vertical,
    );
    let detail = named(push_kids(detail0, vec![top, cover, g1, row, g2, play, bottom]), "detail");
    assert(detail@.children =~= music_detail().children);
    assert(detail@ == music_detail());
    let content0 = directed(
        tuned(ComponentBase::new(0, 0, 0, 0), Constraintable::Maximum, Constraintable::Minimum, 0, 0),
        Direction::Horizontal,
    );
    let content = push_kids(content0, vec![left, sep, detail]);
    assert(content@.children =~= music_content().children);
    assert(content@ == music_content());
    let sl = named(tuned(Spacer::new(0, 0), Constraintable::Maximum, Constraintable::Minimum, 0, 0), "spacer_left");
    let sr = named(tuned(Spacer::new(0, 0), Constraintable::Maximum, Constraintable::Minimum, 0, 0), "spacer_right");
    let ghost before = *root;
    root.layout_direction = Direction::Horizontal;
    proof {
        assert(view_of(*root).children =~= view_of(before).children);
    }
    let all = vec![back, sl, content, sr];
    crate::pages::append_children(root, all);
    proof {
        let kv = views(all@);
        assert(kv =~= seq![
            music_back(back_icon),
            music_side("spacer_left"@),
            music_content(),
            music_side("spacer_right"@),
        ]);
    }
}

/// `height` of the named component, or `fallback` when there is none.
pub open spec fn named_height(v: ComponentView, name: Seq<char>, fallback: int) -> int {
    match named_node(v, name) {
        Some(c) => c.height as int,
        None => fallback,
    }
}

/// `min_height` of the named component, or `fallback` when there is none.
pub open spec fn named_min_height(v: ComponentView, name: Seq<char>, fallback: int) -> int {
    match named_node(v, name) {
        Some(c) => c.min_height as int,
        None => fallback,
    }
}

/// The cover's minimum height: one and a half times the detail column's
/// height left after the fixed rows, and at least 300.
pub open spec fn cover_min_height(detail_h: int, row_h: int, play_h: int) -> int {
    let fixed = 8 + row_h + 8 + play_h;
    let available = if detail_h - fixed > 0 {
        detail_h - fixed
    } else {
        0
    };
    let c = tdiv(available * 3, 2);
    if c > 300 {
        c
    } else {
        300
    }
}

pub open spec fn edit_if_named(v: ComponentView, name: Seq<char>, e: NodeEdit) -> ComponentView {
    match named_node(v, name) {
        Some(c) => edit_named(v, name, edited(c, e)),
        None => v,
    }
}

/// The music list page's root after `prepare_layout`.
pub open spec fn music_prepared(v: ComponentView) -> ComponentView {
    let cap = tdiv(v.width * 2, 11) as i32;
    let v1 = edit_if_named(v, "spacer_left"@, NodeEdit::MaxWidth(cap));
    let v2 = edit_if_named(v1, "spacer_right"@, NodeEdit::MaxWidth(cap));
    let ch = cover_min_height(
        named_height(v2, "detail"@, 0),
        named_min_height(v2, "diff_row"@, 44),
        named_min_height(v2, "btn_play"@, 44),
    );
    edit_if_named(v2, "cover"@, NodeEdit::MinHeight(ch as i32))
}

fn lookup_height(root: &ComponentBase, name: &str, min: bool, fallback: i32) -> (h: i32)
    ensures
        !min ==> h == named_height(root@, name@, fallback as int),
        min ==> h == named_min_height(root@, name@, fallback as int),
{
    match root.find_by_name(name) {
        Some(c) => if min {
            c.min_height
        } else {
            c.height
        },
        None => fallback,
    }
}

/// Caps the side gaps to two elevenths of the window's width each and
/// grows the cover into the room the detail column leaves.
pub fn prepare_music_list(root: &mut ComponentBase)
    requires
        -1073741823 <= old(root).width <= 1073741823,
    ensures
        final(root)@ == music_prepared(old(root)@),
{
    let w2: i64 = root.width as i64 * 2;
    let cap: i32 = (if w2 >= 0 { w2 / 11 } else { -((-w2) / 11) }) as i32;
    let _ = root.edit_by_name("spacer_left", NodeEdit::MaxWidth(cap));
    let _ = root.edit_by_name("spacer_right", NodeEdit::MaxWidth(cap));
    let detail_h = lookup_height(root, "detail", false, 0);
    let row_h = lookup_height(root, "diff_row", true, 44);
    let play_h = lookup_height(root, "btn_play", true, 44);
    let fixed: i64 = 8 + row_h as i64 + 8 + play_h as i64;
    let available: i64 = if detail_h as i64 - fixed > 0 { detail_h as i64 - fixed } else { 0 };
    let c: i64 = available * 3 / 2;
    let ch: i64 = if c > 300 { c } else { 300 };
    let _ = root.edit_by_name("cover", NodeEdit::MinHeight(ch as i32));
}

// ---------------------------------------------------------------------------
// selection state and handlers

/// What the music list page remembers between events.
pub struct MusicListState {
    /// Id of the song chosen last.
    pub selected_item_id: Option<String>,
    /// Level of the difficulty chosen last.
    pub selected_level: Option<i32>,
    /// Names of the difficulty buttons shown.
    pub level_btn_names: Vec<String>,
    /// The chosen song's difficulty keys with their levels, ordered by level.
    pub cached_levels: Vec<(String, i32)>,
    /// A song chosen while the last event was dispatched, handled after it.
    pub pending_select: Option<String>,
    /// A difficulty chosen while the last event was dispatched, handled after it.
    pub pending_level_action: Option<i32>,
}

pub open spec fn level_click(e: EmissionView, n: int) -> Option<int> {
    match e {
        EmissionView::Handler { key, kind } => if kind == HandlerKind::MouseClick && MUSIC_LEVEL_BASE
            <= key < MUSIC_LEVEL_BASE + n {
            Some(key - MUSIC_LEVEL_BASE)
        } else {
            None
        },
        _ => None,
    }
}

impl MusicListState {
    /// Nothing chosen yet.
    pub fn new() -> (s: Self)
        ensures
            s.selected_item_id is None,
            s.selected_level is None,
            s.level_btn_names@.len() == 0,
            s.cached_levels@.len() == 0,
            s.pending_select is None,
            s.pending_level_action is None,
    {
        MusicListState {
            selected_item_id: None,
            selected_level: None,
            level_btn_names: Vec::new(),
            cached_levels: Vec::new(),
            pending_select: None,
            pending_level_action: None,
        }
    }

    /// The page's answer to a handler call.  The back button returns to the
    /// page below (or the home page), the play button starts the game once a
    /// difficulty is chosen, choosing a song or a difficulty is remembered
    /// for after the dispatch; all of these stop the dispatch.
    pub fn handle(&mut self, e: &Emission) -> (o: HandlerOutcome)
        ensures
            click_of(emission_view(*e), MUSIC_BACK) ==> !o.go_on && o.requests@ == seq![
                NavRequest::PopThenElse(PageKind::Home),
            ] && *final(self) == *old(self),
            click_of(emission_view(*e), MUSIC_PLAY) ==> !o.go_on && o.requests@ == (if old(
                self,
            ).selected_level is None {
                Seq::<NavRequest>::empty()
            } else {
                seq![NavRequest::ClearAndPush(PageKind::Gameplay)]
            }) && *final(self) == *old(self),
            (emission_view(*e) is Select && emission_view(*e)->Select_key == MUSIC_LIST) ==> {
                &&& !o.go_on
                &&& o.requests@.len() == 0
                &&& final(self).pending_select is Some
                &&& final(self).pending_select.unwrap()@ == emission_view(*e)->Select_item_id
                &&& *final(self) == (MusicListState { pending_select: final(self).pending_select, ..*old(self) })
            },
            level_click(emission_view(*e), old(self).cached_levels@.len() as int) matches Some(i)
                ==> !o.go_on && o.requests@.len() == 0 && *final(self) == (MusicListState {
                pending_level_action: Some(old(self).cached_levels@[i].1),
                ..*old(self)
            }),
            !click_of(emission_view(*e), MUSIC_BACK) && !click_of(emission_view(*e), MUSIC_PLAY)
                && !(emission_view(*e) is Select && emission_view(*e)->Select_key == MUSIC_LIST)
                && level_click(emission_view(*e), old(self).cached_levels@.len() as int) is None
                ==> o.go_on && o.requests@.len() == 0 && *final(self) == *old(self),
            !o.exit,
    {
        match e {
            Emission::Handler { key, kind } => {
                if *kind == HandlerKind::MouseClick && *key == MUSIC_BACK {
                    HandlerOutcome { go_on: false, requests: vec![NavRequest::PopThenElse(PageKind::Home)], exit: false }
                } else if *kind == HandlerKind::MouseClick && *key == MUSIC_PLAY {
                    if self.selected_level.is_none() {
                        HandlerOutcome { go_on: false, requests: Vec::new(), exit: false }
                    } else {
                        HandlerOutcome {
                            go_on: false,
                            requests: vec![NavRequest::ClearAndPush(PageKind::Gameplay)],
                            exit: false,
                        }
                    }
                } else if *kind == HandlerKind::MouseClick && MUSIC_LEVEL_BASE <= *key && *key - MUSIC_LEVEL_BASE
                    < self.cached_levels.len() as u64 {
                    let i = (*key - MUSIC_LEVEL_BASE) as usize;
                    self.pending_level_action = Some(self.cached_levels[i].1);
                    HandlerOutcome { go_on: false, requests: Vec::new(), exit: false }
                } else {
                    HandlerOutcome { go_on: true, requests: Vec::new(), exit: false }
                }
            },
            Emission::Select { key, item_id } => {
                if *key == MUSIC_LIST {
                    self.pending_select = Some(item_id.clone());
                    HandlerOutcome { go_on: false, requests: Vec::new(), exit: false }
                } else {
                    HandlerOutcome { go_on: true, requests: Vec::new(), exit: false }
                }
            },
        }
    }
}

// ---------------------------------------------------------------------------
// difficulty buttons

/// The button of difficulty `i`, disabled when its level is the chosen one.
pub open spec fn level_button(lv: (Seq<char>, i32), i: int, selected: Option<i32>) -> ComponentView {
    let b = with_key(
        with_name(
            tuned_view(button_view("Lv."@ + lv.0, 0, 0, 80, 36, 16), Constraintable::Maximum, Constraintable::Minimum, 70, 36),
            "lv_btn_"@ + lv.0,
        ),
        (MUSIC_LEVEL_BASE + i) as u64,
    );
    if selected == Some(lv.1) {
        ComponentView {
            widget: crate::component::WidgetView::Button { text: "Lv."@ + lv.0, font_size: 16, enabled: false },
            hovered: false,
            pressed: false,
            ..b
        }
    } else {
        b
    }
}

pub open spec fn level_gap() -> ComponentView {
    tuned_view(spacer_view(4, 0), Constraintable::Minimum, Constraintable::Minimum, 4, 0)
}

/// The difficulty row: a button per level with a gap between neighbours.
pub open spec fn level_row(levels: Seq<(Seq<char>, i32)>, selected: Option<i32>) -> Seq<ComponentView> {
    Seq::new(
        if levels.len() == 0 {
            0nat
        } else {
            (2 * levels.len() - 1) as nat
        },
        |j: int|
            if j % 2 == 0 {
                level_button(levels[j / 2], j / 2, selected)
            } else {
                level_gap()
            },
    )
}

/// In the difficulty row, a button is disabled exactly when its level is
/// the chosen one.
pub proof fn law_chosen_level_disabled(levels: Seq<(Seq<char>, i32)>, selected: Option<i32>, j: int)
    requires
        0 <= j < levels.len(),
    ensures
        level_row(levels, selected)[2 * j].widget matches crate::component::WidgetView::Button { enabled, .. }
            && enabled == (selected != Some(levels[j].1)),
{
    let row = level_row(levels, selected);
    assert(2 * j < 2 * levels.len() - 1);
    assert((2 * j) % 2 == 0 && (2 * j) / 2 == j);
    assert(row[2 * j] == level_button(levels[j], j, selected));
}

pub open spec fn levels_view(l: Seq<(String, i32)>) -> Seq<(Seq<char>, i32)> {
    l.map_values(|e: (String, i32)| (e.0@, e.1))
}

fn level_button_exec(key: &String, lv: i32, i: usize, selected: Option<i32>) -> (c: ComponentBase)
    requires
        i < 1000,
    ensures
        c@ == level_button((key@, lv), i as int, selected),
{
    let text = String::from_str("Lv.").concat(key.as_str());
    let name = String::from_str("lv_btn_").concat(key.as_str());
    proof {
        reveal_strlit("Lv.");
        reveal_strlit("lv_btn_");
    }
    let b = named(
        tuned(Button::new(text.as_str(), 0, 0, 80, 36, 16), Constraintable::Maximum, Constraintable::Minimum, 70, 36),
        name.as_str(),
    );
    let mut b = keyed(b, MUSIC_LEVEL_BASE + i as u64);
    let chosen = match selected {
        Some(s) => s == lv,
        None => false,
    };
    if chosen {
        let _ = b.disable();
    }
    b
}

fn level_gap_exec() -> (c: ComponentBase)
    ensures
        c@ == level_gap(),
{
    tuned(Spacer::new(4, 0), Constraintable::Minimum, Constraintable::Minimum, 4, 0)
}

/// The difficulty buttons and gaps for `levels`.
pub fn level_row_exec(levels: &Vec<(String, i32)>, selected: Option<i32>) -> (kids: Vec<ComponentBase>)
    requires
        levels@.len() <= 512,
    ensures
        views(kids@) == level_row(levels_view(levels@), selected),
{
    let ghost lv = levels_view(levels@);
    let ghost target = level_row(lv, selected);
    let n = levels.len();
    let mut kids: Vec<ComponentBase> = Vec::new();
    let mut i: usize = 0;
    while i < n
        invariant
            i <= n == levels@.len() == lv.len() <= 512,
            lv == levels_view(levels@),
            target == level_row(lv, selected),
            kids@.len() == (if i == n && n > 0 {
                2 * n - 1
            } else {
                2 * i
            }),
            forall|j: int| 0 <= j < kids@.len() ==> view_of(#[trigger] kids@[j]) == target[j],
        decreases n - i,
    {
        let b = level_button_exec(&levels[i].0, levels[i].1, i, selected);
        assert(lv[i as int] == (levels@[i as int].0@, levels@[i as int].1));
        assert(target[2 * i] == level_button(lv[i as int], i as int, selected));
        kids.push(b);
        if i + 1 < n {
            let g = level_gap_exec();
            assert(target[2 * i + 1] == level_gap());
            kids.push(g);
        }
        i = i + 1;
    }
    proof {
        assert(views(kids@) =~= target);
    }
    kids
}

impl MusicListState {
    /// Rebuilds the difficulty row for the cached levels (the chosen level's
    /// button disabled) and lays the page out again.
    pub fn rebuild_level_buttons(&mut self, root: &mut ComponentBase)
        requires
            old(self).cached_levels@.len() <= 512,
            crate::layout::tree_fits(old(root)@),
        ensures
            final(root)@ == crate::layout::laid_out(
                match named_node(old(root)@, "diff_row"@) {
                    Some(row) => edit_named(
                        old(root)@,
                        "diff_row"@,
                        ComponentView {
                            children: level_row(levels_view(old(self).cached_levels@), old(self).selected_level),
                            ..row
                        },
                    ),
                    None => old(root)@,
                },
                None,
            ),
            final(self).level_btn_names@.map_values(|s: String| s@) == levels_view(old(self).cached_levels@).map_values(
                |e: (Seq<char>, i32)| "lv_btn_"@ + e.0,
            ),
            final(self).cached_levels == old(self).cached_levels,
            final(self).selected_level == old(self).selected_level,
            final(self).selected_item_id == old(self).selected_item_id,
            final(self).pending_select == old(self).pending_select,
            final(self).pending_level_action == old(self).pending_level_action,
    {
        let kids = level_row_exec(&self.cached_levels, self.selected_level);
        let target = String::from_str("diff_row");
        let ghost v = root@;
        match root.path_to(&target) {
            Some(p) => {
                proof {
                    crate::tree::lemma_find_path_ok(v, "diff_row"@);
                    assert(p@.skip(0) =~= p@);
                }
                let blank = ComponentBase::new(0, 0, 0, 0);
                let ghost bv = blank@;
                let mut row = root.replace_at(&p, 0, blank);
                let ghost rv = row@;
                row.children = kids;
                proof {
                    crate::component::lemma_views_children(row);
                    assert(view_of(row) == (ComponentView { children: views(kids@), ..rv }));
                    crate::tree::lemma_put_put(v, p@, bv, row@);
                    lemma_row_fits(v, p@, rv, self.cached_levels@, self.selected_level);
                }
                let _ = root.replace_at(&p, 0, row);
            },
            None => {},
        }
        root.layout(None);
        let mut names: Vec<String> = Vec::new();
        let n = self.cached_levels.len();
        let mut i: usize = 0;
        while i < n
            invariant
                i <= n == self.cached_levels@.len(),
                names@.len() == i,
                forall|j: int| 0 <= j < i ==> (#[trigger] names@[j])@ == "lv_btn_"@ + self.cached_levels@[j].0@,
            decreases n - i,
        {
            let nm = String::from_str("lv_btn_").concat(self.cached_levels[i].0.as_str());
            proof {
                reveal_strlit("lv_btn_");
            }
            names.push(nm);
            i = i + 1;
        }
        proof {
            assert(names@.map_values(|s: String| s@) =~= levels_view(self.cached_levels@).map_values(
                |e: (Seq<char>, i32)| "lv_btn_"@ + e.0,
            ));
        }
        self.level_btn_names = names;
    }
}

proof fn lemma_button_fits(lv: (Seq<char>, i32), i: int, selected: Option<i32>)
    ensures
        crate::layout::tree_fits(level_button(lv, i, selected)),
{
    let b = level_button(lv, i, selected);
    let k = b.children[0];
    assert(b.children.len() == 1);
    assert(k.children.len() == 0);
    assert(crate::layout::kids_fit(k.children));
    assert(crate::layout::tree_fits(k));
    crate::layout::lemma_kids_fit(b.children);
}

proof fn lemma_row_fits(v: ComponentView, p: Seq<usize>, rv: ComponentView, levels: Seq<(String, i32)>, selected: Option<i32>)
    requires
        crate::layout::tree_fits(v),
        crate::tree::path_ok(v, p),
        crate::tree::at_path(v, p) == rv,
        levels.len() <= 512,
    ensures
        crate::layout::tree_fits(
            crate::tree::put_at_path(v, p, ComponentView { children: level_row(levels_view(levels), selected), ..rv }),
        ),
{
    crate::tree::lemma_at_path_fits(v, p);
    let row = level_row(levels_view(levels), selected);
    let n = ComponentView { children: row, ..rv };
    assert forall|j: int| 0 <= j < row.len() implies #[trigger] crate::layout::tree_fits(row[j]) by {
        if j % 2 == 0 {
            lemma_button_fits(levels_view(levels)[j / 2], j / 2, selected);
        } else {
            assert(crate::layout::kids_fit(level_gap().children));
        }
    }
    crate::layout::lemma_kids_fit(row);
    assert(crate::layout::tree_fits(n));
    if p.len() > 0 {
        crate::layout::lemma_kids_fit(v.children);
    }
    crate::tree::lemma_put_fits(v, p, n);
}

// ---------------------------------------------------------------------------
// choosing a song

/// The tree after the difficulty row is rebuilt and the page laid out again.
pub open spec fn rebuilt(v: ComponentView, levels: Seq<(Seq<char>, i32)>, selected: Option<i32>) -> ComponentView {
    crate::layout::laid_out(
        match named_node(v, "diff_row"@) {
            Some(row) => edit_named(v, "diff_row"@, ComponentView { children: level_row(levels, selected), ..row }),
            None => v,
        },
        None,
    )
}

/// An entry marked as chosen when its id is `id`.
pub open spec fn mark_entry(c: ComponentView, id: Seq<char>) -> ComponentView {
    match c.widget {
        crate::component::WidgetView::ListItem { title, author, .. } => ComponentView {
            widget: crate::component::WidgetView::ListItem { title, author, selected: c.item_id == Some(id) },
            ..c
        },
        _ => c,
    }
}

/// The tree with the entries of the song list marked for the chosen song `id`.
pub open spec fn marked_tree(v: ComponentView, id: Seq<char>) -> ComponentView {
    match named_node(v, "scroll_list"@) {
        Some(list) => edit_named(
            v,
            "scroll_list"@,
            ComponentView { children: Seq::new(list.children.len(), |i: int| mark_entry(list.children[i], id)), ..list },
        ),
        None => v,
    }
}

/// The tree with the cover showing `path` (decoded as `data`).
pub open spec fn covered(v: ComponentView, path: Seq<char>, data: Option<ImageData>) -> ComponentView {
    match named_node(v, "cover"@) {
        Some(c) => edit_named(
            v,
            "cover"@,
            match c.widget {
                crate::component::WidgetView::Image { h_mode, v_mode, .. } => ComponentView {
                    widget: crate::component::WidgetView::Image {
                        path,
                        h_mode,
                        v_mode,
                        image_data: match data {
                            Some(d) => Some(crate::types::image_data_view(d)),
                            None => None,
                        },
                    },
                    ..c
                },
                _ => c,
            },
        ),
        None => v,
    }
}

impl ComponentBase {
    fn mark_if_entry(&mut self, id: &String)
        ensures
            final(self)@ == mark_entry(old(self)@, id@),
    {
        let mine = match &self.item_id {
            Some(x) => *x == *id,
            None => false,
        };
        match &mut self.widget {
            crate::component::Widget::ListItem(it) => {
                it.selected = mine;
            },
            _ => {},
        }
        proof {
            assert(view_of(*self).children =~= view_of(*old(self)).children);
        }
    }
}

/// Marks the entries of the song list for the chosen song `id`.
pub fn mark_selection(root: &mut ComponentBase, id: &String)
    requires
        crate::layout::tree_fits(old(root)@),
    ensures
        final(root)@ == marked_tree(old(root)@, id@),
        crate::layout::tree_fits(final(root)@),
{
    let target = String::from_str("scroll_list");
    let ghost v = root@;
    match root.path_to(&target) {
        Some(p) => {
            proof {
                crate::tree::lemma_find_path_ok(v, "scroll_list"@);
                assert(p@.skip(0) =~= p@);
                crate::tree::lemma_at_path_fits(v, p@);
            }
            let blank = ComponentBase::new(0, 0, 0, 0);
            let ghost bv = blank@;
            let mut list = root.replace_at(&p, 0, blank);
            let ghost lv = list@;
            let n = list.children.len();
            let mut i: usize = 0;
            while i < n
                invariant
                    i <= n == list.children@.len() == lv.children.len(),
                    view_of(list) == (ComponentView { children: view_of(list).children, ..lv }),
                    forall|j: int| i <= j < n ==> view_of(#[trigger] list.children@[j]) == lv.children[j],
                    forall|j: int| 0 <= j < i ==> view_of(#[trigger] list.children@[j]) == mark_entry(lv.children[j], id@),
                decreases n - i,
            {
                let ghost before = list;
                proof {
                    crate::component::lemma_view_child(list, i as int);
                }
                list.children[i].mark_if_entry(id);
                proof {
                    let av = view_of(list);
                    let bvv = view_of(before);
                    assert forall|j: int| 0 <= j < n && j != i implies av.children[j] == bvv.children[j] by {
                        crate::component::lemma_view_child(list, j);
                        crate::component::lemma_view_child(before, j);
                    }
                    crate::component::lemma_view_child(list, i as int);
                    assert(av.children =~= bvv.children.update(i as int, av.children[i as int]));
                    assert forall|j: int| 0 <= j < i + 1 implies view_of(#[trigger] list.children@[j]) == mark_entry(lv.children[j], id@) by {
                        crate::component::lemma_view_child(list, j);
                        crate::component::lemma_view_child(before, j);
                    }
                }
                i = i + 1;
            }
            proof {
                let m = ComponentView { children: Seq::new(lv.children.len(), |j: int| mark_entry(lv.children[j], id@)), ..lv };
                assert forall|j: int| 0 <= j < n implies view_of(list).children[j] == m.children[j] by {
                    crate::component::lemma_view_child(list, j);
                }
                assert(view_of(list).children =~= m.children);
                crate::tree::lemma_put_put(v, p@, bv, list@);
                crate::layout::lemma_kids_fit(lv.children);
                assert forall|j: int| 0 <= j < n implies #[trigger] crate::layout::tree_fits(m.children[j]) by {
                    assert(crate::layout::tree_fits(lv.children[j]));
                }
                crate::layout::lemma_kids_fit(m.children);
                if p@.len() > 0 {
                    crate::layout::lemma_kids_fit(v.children);
                }
                crate::tree::lemma_put_fits(v, p@, m);
            }
            let _ = root.replace_at(&p, 0, list);
        },
        None => {},
    }
}

/// The chosen song's id, if any.
pub open spec fn opt_id(selected: Option<&String>) -> Option<Seq<char>> {
    match selected {
        Some(s) => Some(s@),
        None => None,
    }
}

/// The list entry of song `s`, marked when it is the chosen song.
pub open spec fn song_entry(s: crate::songs::Song, selected: Option<Seq<char>>) -> ComponentView {
    let e = crate::widgets::list_item_view(0, 0, 280, 52, s.item_id@, s.name@, s.author@);
    match selected {
        Some(id) => mark_entry(e, id),
        None => e,
    }
}

pub open spec fn song_entries(songs: Seq<crate::songs::Song>, selected: Option<Seq<char>>) -> Seq<ComponentView> {
    Seq::new(songs.len(), |i: int| song_entry(songs[i], selected))
}

/// The tree with the song list holding an entry per song.
pub open spec fn listed(v: ComponentView, songs: Seq<crate::songs::Song>, selected: Option<Seq<char>>) -> ComponentView {
    match named_node(v, "scroll_list"@) {
        Some(list) => edit_named(
            v,
            "scroll_list"@,
            crate::scroll::with_items(list, song_entries(songs, selected)),
        ),
        None => v,
    }
}

/// Whether the song list (if any) can take `n` entries.
pub open spec fn list_accepts(v: ComponentView, n: int) -> bool {
    match named_node(v, "scroll_list"@) {
        Some(l) => crate::scroll::items_fit(l, n) && l.widget->item_height <= crate::layout::EXTENT_LIMIT,
        None => true,
    }
}

fn song_entry_exec(s: &crate::songs::Song, selected: Option<&String>) -> (c: ComponentBase)
    ensures
        c@ == song_entry(*s, opt_id(selected)),
{
    let mut c = crate::component::ListItem::new(0, 0, 280, 52, s.item_id.as_str(), s.name.as_str(), s.author.as_str());
    match selected {
        Some(id) => c.mark_if_entry(id),
        None => {},
    }
    c
}

proof fn lemma_entries_fit(list: ComponentView, items: Seq<ComponentView>)
    requires
        crate::layout::local_fits(list),
        crate::scroll::items_fit(list, items.len() as int),
        list.widget->item_height <= crate::layout::EXTENT_LIMIT,
        items.len() <= crate::layout::CHILD_LIMIT,
        forall|i: int|
            0 <= i < items.len() ==> (#[trigger] items[i]).children.len() == 0 && items[i].min_width == 0
                && items[i].max_width == 0 && items[i].min_height == 0 && items[i].max_height == 0,
    ensures
        crate::layout::tree_fits(crate::scroll::with_items(list, items)),
{
    let w = crate::scroll::with_items(list, items);
    let kids = w.children;
    assert forall|i: int| 0 <= i < kids.len() implies #[trigger] crate::layout::tree_fits(kids[i]) by {
        let k = kids[i];
        assert(k.children.len() == 0);
        assert(crate::layout::kids_fit(k.children));
    }
    crate::layout::lemma_kids_fit(kids);
}

/// Puts an entry per song into the song list, the chosen song's entry
/// marked; the list keeps its scroll offset where the entries allow it.
pub fn fill_music_list(root: &mut ComponentBase, songs: &Vec<crate::songs::Song>, selected: Option<&String>)
    requires
        crate::layout::tree_fits(old(root)@),
        songs@.len() <= crate::layout::CHILD_LIMIT,
        list_accepts(old(root)@, songs@.len() as int),
    ensures
        final(root)@ == listed(old(root)@, songs@, opt_id(selected)),
        crate::layout::tree_fits(final(root)@),
{
    let ghost sel = opt_id(selected);
    let mut items: Vec<ComponentBase> = Vec::new();
    let n = songs.len();
    let mut i: usize = 0;
    while i < n
        invariant
            i <= n == songs@.len(),
            items@.len() == i,
            sel == opt_id(selected),
            forall|j: int| 0 <= j < i ==> view_of(#[trigger] items@[j]) == song_entry(songs@[j], sel),
        decreases n - i,
    {
        let c = song_entry_exec(&songs[i], selected);
        items.push(c);
        i = i + 1;
    }
    let ghost ev = song_entries(songs@, sel);
    assert(views(items@) =~= ev);
    let target = String::from_str("scroll_list");
    let ghost v = root@;
    match root.path_to(&target) {
        Some(p) => {
            proof {
                crate::tree::lemma_find_path_ok(v, "scroll_list"@);
                assert(p@.skip(0) =~= p@);
                crate::tree::lemma_at_path_fits(v, p@);
            }
            let blank = ComponentBase::new(0, 0, 0, 0);
            let ghost bv = blank@;
            let mut list = root.replace_at(&p, 0, blank);
            let ghost lv = list@;
            list.set_items(items);
            proof {
                crate::tree::lemma_put_put(v, p@, bv, list@);
                assert forall|j: int| 0 <= j < ev.len() implies (#[trigger] ev[j]).children.len() == 0
                    && ev[j].min_width == 0 && ev[j].max_width == 0 && ev[j].min_height == 0 && ev[j].max_height == 0 by {
                    assert(ev[j] == song_entry(songs@[j], sel));
                }
                lemma_entries_fit(lv, ev);
                crate::tree::lemma_put_fits(v, p@, list@);
            }
            let _ = root.replace_at(&p, 0, list);
        },
        None => {},
    }
}

/// Shows `path` (decoded as `data`) on the cover.
pub fn set_cover(root: &mut ComponentBase, path: &str, data: Option<ImageData>)
    requires
        crate::layout::tree_fits(old(root)@),
    ensures
        final(root)@ == covered(old(root)@, path@, data),
        crate::layout::tree_fits(final(root)@),
{
    let target = String::from_str("cover");
    let ghost v = root@;
    match root.path_to(&target) {
        Some(p) => {
            proof {
                crate::tree::lemma_find_path_ok(v, "cover"@);
                assert(p@.skip(0) =~= p@);
                crate::tree::lemma_at_path_fits(v, p@);
            }
            let blank = ComponentBase::new(0, 0, 0, 0);
            let ghost bv = blank@;
            let mut c = root.replace_at(&p, 0, blank);
            c.set_image(path, data);
            proof {
                crate::tree::lemma_put_put(v, p@, bv, c@);
                if p@.len() > 0 {
                    crate::layout::lemma_kids_fit(v.children);
                }
                crate::tree::lemma_put_fits(v, p@, c@);
            }
            let _ = root.replace_at(&p, 0, c);
        },
        None => {},
    }
}

impl MusicListState {
    /// Chooses the song `item_id` whose difficulties are `levels` (each key
    /// with its level, as `song_meta` gives them): the cover shows `cover`
    /// (a path and its decoded pixels) when given, the song's entry is
    /// marked, no difficulty is chosen, and the difficulty row is rebuilt.
    pub fn select_music(
        &mut self,
        root: &mut ComponentBase,
        item_id: &str,
        levels: Vec<(String, i32)>,
        cover: Option<(String, Option<ImageData>)>,
    )
        requires
            levels@.len() <= 512,
            crate::layout::tree_fits(old(root)@),
        ensures
            final(self).selected_item_id matches Some(s) && s@ == item_id@,
            final(self).selected_level is None,
            final(self).cached_levels == levels,
            final(root)@ == rebuilt(
                marked_tree(
                    match cover {
                        Some(c) => covered(old(root)@, c.0@, c.1),
                        None => old(root)@,
                    },
                    item_id@,
                ),
                levels_view(levels@),
                None,
            ),
            final(self).pending_select == old(self).pending_select,
            final(self).pending_level_action == old(self).pending_level_action,
    {
        self.cached_levels = levels;
        let id = item_id.to_owned();
        self.selected_item_id = Some(id.clone());
        self.selected_level = None;
        match cover {
            Some((path, data)) => set_cover(root, path.as_str(), data),
            None => {},
        }
        mark_selection(root, &id);
        self.rebuild_level_buttons(root);
    }

    /// Chooses the difficulty of level `level` and rebuilds the difficulty row.
    pub fn select_level(&mut self, root: &mut ComponentBase, level: i32)
        requires
            old(self).cached_levels@.len() <= 512,
            crate::layout::tree_fits(old(root)@),
        ensures
            final(self).selected_level == Some(level),
            final(self).cached_levels == old(self).cached_levels,
            final(root)@ == rebuilt(old(root)@, levels_view(old(self).cached_levels@), Some(level)),
    {
        self.selected_level = Some(level);
        self.rebuild_level_buttons(root);
    }
}

/// Marking a song-list entry for the chosen song `id` selects it exactly when
/// its item id is `id`, whatever it showed before, and changes nothing else:
/// marking for `b` after marking for `a` is marking for `b`, and of two
/// entries with different ids at most one is selected.
pub proof fn law_marking_selects_only_the_chosen(c: ComponentView, d: ComponentView, a: Seq<char>, b: Seq<char>)
    requires
        (c.widget is ListItem),
    ensures
        (mark_entry(c, b).widget is ListItem),
        mark_entry(c, b).widget->ListItem_selected == (c.item_id == Some(b)),
        (ComponentView { widget: c.widget, ..mark_entry(c, b) }) == c,
        mark_entry(mark_entry(c, a), b) == mark_entry(c, b),
        (d.widget is ListItem) && c.item_id != d.item_id ==> !(mark_entry(c, b).widget->ListItem_selected
            && mark_entry(d, b).widget->ListItem_selected),
{
}

proof fn lemma_at_put(v: ComponentView, p: Seq<usize>, n: ComponentView)
    requires
        crate::tree::path_ok(v, p),
    ensures
        crate::tree::at_path(crate::tree::put_at_path(v, p, n), p) == n,
    decreases p.len(),
{
    if p.len() > 0 {
        lemma_at_put(v.children[p[0] as int], p.skip(1), n);
    }
}

/// After the song list is marked for `id`, every entry of the list (found
/// where it was) is selected exactly when its item id is `id`; the list keeps
/// its entries, in order, with their ids.
pub proof fn law_marked_list_selects_only_the_chosen(v: ComponentView, id: Seq<char>, j: int)
    requires
        crate::tree::find_path(v, "scroll_list"@) is Some,
    ensures
        ({
            let p = crate::tree::find_path(v, "scroll_list"@)->0;
            let before = crate::tree::at_path(v, p);
            let after = crate::tree::at_path(marked_tree(v, id), p);
            &&& after.children.len() == before.children.len()
            &&& 0 <= j < before.children.len() ==> after.children[j].item_id == before.children[j].item_id
            &&& 0 <= j < before.children.len() && (before.children[j].widget is ListItem) ==> (after.children[j].widget is ListItem)
                && after.children[j].widget->ListItem_selected == (before.children[j].item_id == Some(id))
        }),
{
    let p = crate::tree::find_path(v, "scroll_list"@)->0;
    crate::tree::lemma_find_path_ok(v, "scroll_list"@);
    let list = crate::tree::at_path(v, p);
    let n = ComponentView {
        children: Seq::new(list.children.len(), |i: int| mark_entry(list.children[i], id)),
        ..list
    };
    lemma_at_put(v, p, n);
}

} // verus!
