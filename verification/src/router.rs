//! The page stack.
//!
//! The router keeps the stack of pages by key and decides, for each
//! navigation request, which hooks run on which page and in which order.
//! The application owns the pages themselves, runs those hooks, and draws
//! the pages from the first one the router names.
use vstd::prelude::*;

use crate::app_loop::mode_of;
use crate::component::ComponentBase;
use crate::pages::PageKind;
use crate::renderer::UIRenderer;

verus! {

/// How the application loop waits between frames.
#[derive(Debug, Clone, Copy, PartialEq, Eq, Structural)]
pub enum RunMode {
    /// Redraw only after events.
    Event,
    /// Redraw at the target frame rate.
    Fps,
    /// Redraw every frame.
    Vsync,
}

/// Result handed back when a page is popped.
pub struct PageToken<V> {
    pub value: Option<V>,
    pub resolved: bool,
}

impl<V> PageToken<V> {
    /// An unresolved token.
    pub fn new() -> (t: Self)
        ensures
            t.value is None,
            !t.resolved,
    {
        PageToken { value: None, resolved: false }
    }

    /// Stores `value` and marks the token resolved.
    pub fn resolve(&mut self, value: V)
        ensures
            final(self).value == Some(value),
            final(self).resolved,
    {
        self.value = Some(value);
        self.resolved = true;
    }
}

/// A hook the application runs on the page with the given key.
#[derive(Debug, Clone, Copy, PartialEq, Eq, Structural)]
pub enum PageAction {
    /// `on_hide`: another page is about to cover it.
    Hide(u64),
    /// Release pointer hover and press state of its whole tree.
    ForceMouseExit(u64),
    /// `destroy`: it leaves the stack.
    Destroy(u64),
    /// Initialise it: build, size the root to the window, `prepare_layout`,
    /// lay out, and take its initial run mode.
    Init(u64),
    /// `on_activate`: it is on top again; take its initial run mode.
    Activate(u64),
}

/// A navigation request sent by a page while it handles an event.
#[derive(Debug, Clone, Copy, PartialEq, Eq, Structural)]
pub enum NavAction {
    Push(u64, PageKind),
    Pop,
    ClearAndPush(u64, PageKind),
    PopThenElse(u64, PageKind),
}

/// A page on the stack, its kind, and the token resolved when it is popped.
pub struct StackEntry<V> {
    pub page: u64,
    pub kind: PageKind,
    pub token: PageToken<V>,
}

pub struct Router<V> {
    pub stack: Vec<StackEntry<V>>,
    pub win_w: i32,
    pub win_h: i32,
    pub mode: RunMode,
    pub target_fps: u32,
    pub should_exit: bool,
}

/// Keys of the stacked pages, bottom first.
pub open spec fn keys<V>(stack: Seq<StackEntry<V>>) -> Seq<u64> {
    Seq::new(stack.len(), |i: int| stack[i].page)
}

/// The hooks that cover the current top page, if any.
pub open spec fn cover_top(ks: Seq<u64>) -> Seq<PageAction> {
    if ks.len() == 0 {
        Seq::empty()
    } else {
        seq![PageAction::Hide(ks.last()), PageAction::ForceMouseExit(ks.last())]
    }
}

/// `Destroy` for every page, bottom first.
pub open spec fn destroy_all(ks: Seq<u64>) -> Seq<PageAction> {
    Seq::new(ks.len(), |i: int| PageAction::Destroy(ks[i]))
}

pub open spec fn push_actions(ks: Seq<u64>, page: u64) -> Seq<PageAction> {
    cover_top(ks).push(PageAction::Init(page))
}

pub open spec fn pop_actions(ks: Seq<u64>) -> Seq<PageAction> {
    if ks.len() <= 1 {
        Seq::empty()
    } else {
        seq![PageAction::Destroy(ks.last()), PageAction::Activate(ks.drop_last().last())]
    }
}

pub open spec fn clear_and_push_actions(ks: Seq<u64>, page: u64) -> Seq<PageAction> {
    (cover_top(ks) + destroy_all(ks)).push(PageAction::Init(page))
}

/// The hooks of popping `n` pages one after the other from the stack `ks`.
pub open spec fn pops(ks: Seq<u64>, n: nat) -> Seq<PageAction>
    decreases n,
{
    if n == 0 {
        Seq::empty()
    } else {
        pops(ks, (n - 1) as nat) + pop_actions(ks.take(ks.len() - (n - 1)))
    }
}

/// The hooks of `pop_n_and_push(n, page)` on the stack `ks`.
pub open spec fn pop_n_push_actions(ks: Seq<u64>, n: nat, page: u64) -> Seq<PageAction> {
    if n == 0 {
        push_actions(ks, page)
    } else if n >= ks.len() {
        clear_and_push_actions(ks, page)
    } else {
        pops(ks, n) + push_actions(ks.take(ks.len() - n), page)
    }
}

/// Index of the first page drawn: the topmost page that promises to cover
/// everything below it, or the bottom page when none does.
pub open spec fn first_drawn(shadows: Seq<bool>) -> int
    decreases shadows.len(),
{
    if shadows.len() == 0 {
        0
    } else if shadows.last() {
        shadows.len() - 1
    } else {
        first_drawn(shadows.drop_last())
    }
}

impl<V> Router<V> {
    pub open spec fn page_keys(&self) -> Seq<u64> {
        keys(self.stack@)
    }

    /// The loop runs in the mode of the page on top (when there is one).
    pub open spec fn mode_follows_top(&self) -> bool {
        self.stack@.len() > 0 ==> self.mode == mode_of(self.stack@.last().kind)
    }

    /// An empty router for a window of the given size.
    pub fn new(win_w: i32, win_h: i32) -> (r: Self)
        ensures
            r.stack@.len() == 0,
            r.win_w == win_w,
            r.win_h == win_h,
            r.mode == RunMode::Event,
            r.target_fps == 60,
            !r.should_exit,
    {
        Router {
            stack: Vec::new(),
            win_w,
            win_h,
            mode: RunMode::Event,
            target_fps: 60,
            should_exit: false,
        }
    }

    fn top_cover(&self) -> (acts: Vec<PageAction>)
        ensures
            acts@ == cover_top(self.page_keys()),
    {
        let mut acts: Vec<PageAction> = Vec::new();
        let n = self.stack.len();
        if n > 0 {
            let top = self.stack[n - 1].page;
            acts.push(PageAction::Hide(top));
            acts.push(PageAction::ForceMouseExit(top));
            assert(acts@ =~= cover_top(self.page_keys()));
        } else {
            assert(acts@ =~= cover_top(self.page_keys()));
        }
        acts
    }

    /// Covers the current top page and pushes `page` of kind `kind`, which is
    /// then initialised; the loop takes that page's run mode.
    pub fn push(&mut self, page: u64, kind: PageKind) -> (acts: Vec<PageAction>)
        ensures
            final(self).page_keys() == old(self).page_keys().push(page),
            final(self).stack@.drop_last() == old(self).stack@,
            final(self).stack@.last().kind == kind,
            final(self).stack@.last().token.value is None,
            !final(self).stack@.last().token.resolved,
            acts@ == push_actions(old(self).page_keys(), page),
            final(self).mode == mode_of(kind),
            final(self).win_w == old(self).win_w && final(self).win_h == old(self).win_h,
            final(self).should_exit == old(self).should_exit,
    {
        let mut acts = self.top_cover();
        acts.push(PageAction::Init(page));
        self.stack.push(StackEntry { page, kind, token: PageToken::new() });
        self.mode = kind.initial_mode();
        assert(self.page_keys() =~= old(self).page_keys().push(page));
        assert(self.stack@.drop_last() =~= old(self).stack@);
        acts
    }

    /// Pops the top page unless it is the only one: its token is resolved
    /// with `value` when one is given, it is destroyed, and the page below is
    /// activated, the loop taking that page's run mode.  Returns the popped
    /// page's entry.
    pub fn pop(&mut self, value: Option<V>) -> (res: (Vec<PageAction>, Option<StackEntry<V>>))
        ensures
            old(self).stack@.len() <= 1 ==> final(self).stack@ == old(self).stack@ && res.1 is None
                && final(self).mode == old(self).mode,
            old(self).stack@.len() > 1 ==> {
                &&& final(self).stack@ == old(self).stack@.drop_last()
                &&& final(self).page_keys() == old(self).page_keys().drop_last()
                &&& final(self).mode == mode_of(final(self).stack@.last().kind)
                &&& res.1 is Some
                &&& res.1.unwrap().page == old(self).page_keys().last()
                &&& res.1.unwrap().kind == old(self).stack@.last().kind
                &&& value is Some ==> res.1.unwrap().token.value == value
                    && res.1.unwrap().token.resolved
                &&& value is None ==> res.1.unwrap().token == old(self).stack@.last().token
            },
            res.0@ == pop_actions(old(self).page_keys()),
            final(self).win_w == old(self).win_w && final(self).win_h == old(self).win_h,
            final(self).should_exit == old(self).should_exit,
    {
        let n = self.stack.len();
        let mut acts: Vec<PageAction> = Vec::new();
        if n <= 1 {
            assert(acts@ =~= pop_actions(old(self).page_keys()));
            return (acts, None);
        }
        let mut entry = self.stack.pop().unwrap();
        match value {
            Some(v) => entry.token.resolve(v),
            None => {},
        }
        acts.push(PageAction::Destroy(entry.page));
        let below = self.stack[n - 2].page;
        acts.push(PageAction::Activate(below));
        self.mode = self.stack[n - 2].kind.initial_mode();
        assert(self.stack@ =~= old(self).stack@.drop_last());
        assert(self.page_keys() =~= old(self).page_keys().drop_last());
        assert(acts@ =~= pop_actions(old(self).page_keys()));
        (acts, Some(entry))
    }

    /// Covers the top page, destroys every page, and pushes `page` of kind
    /// `kind` alone; the loop takes that page's run mode.
    pub fn clear_and_push(&mut self, page: u64, kind: PageKind) -> (acts: Vec<PageAction>)
        ensures
            final(self).page_keys() == seq![page],
            final(self).stack@.len() == 1,
            final(self).stack@[0].kind == kind,
            final(self).stack@[0].token.value is None,
            !final(self).stack@[0].token.resolved,
            acts@ == clear_and_push_actions(old(self).page_keys(), page),
            final(self).mode == mode_of(kind),
            final(self).win_w == old(self).win_w && final(self).win_h == old(self).win_h,
            final(self).should_exit == old(self).should_exit,
    {
        let mut acts = self.top_cover();
        let ghost ks = old(self).page_keys();
        let n = self.stack.len();
        let mut i: usize = 0;
        while i < n
            invariant
                i <= n == self.stack@.len() == ks.len(),
                ks == keys(self.stack@),
                acts@ == cover_top(ks) + destroy_all(ks).take(i as int),
            decreases n - i,
        {
            acts.push(PageAction::Destroy(self.stack[i].page));
            assert(destroy_all(ks).take(i + 1) =~= destroy_all(ks).take(i as int).push(
                PageAction::Destroy(ks[i as int]),
            ));
            assert(acts@ =~= cover_top(ks) + destroy_all(ks).take(i + 1));
            i = i + 1;
        }
        assert(destroy_all(ks).take(n as int) =~= destroy_all(ks));
        self.stack.clear();
        acts.push(PageAction::Init(page));
        self.stack.push(StackEntry { page, kind, token: PageToken::new() });
        self.mode = kind.initial_mode();
        assert(self.page_keys() =~= seq![page]);
        assert(self.stack@.len() == 1);
        acts
    }

    /// Whether `pop_then_else` would replace the only page instead of popping.
    pub fn needs_fallback(&self) -> (r: bool)
        ensures
            r == (self.stack@.len() <= 1),
    {
        self.stack.len() <= 1
    }

    /// Pops the top page when another is below it; otherwise replaces the
    /// only page with `fallback` of kind `kind`, whose run mode the loop takes.
    pub fn pop_then_else(&mut self, fallback: u64, kind: PageKind, value: Option<V>) -> (res: (
        Vec<PageAction>,
        Option<StackEntry<V>>,
    ))
        requires
            old(self).stack@.len() >= 1,
        ensures
            old(self).stack@.len() > 1 ==> final(self).stack@ == old(self).stack@.drop_last()
                && res.0@ == pop_actions(old(self).page_keys())
                && final(self).mode == mode_of(final(self).stack@.last().kind),
            old(self).stack@.len() == 1 ==> {
                &&& final(self).page_keys() == seq![fallback]
                &&& final(self).stack@[0].kind == kind
                &&& final(self).stack@[0].token.value is None
                &&& !final(self).stack@[0].token.resolved
                &&& res.0@ == clear_and_push_actions(old(self).page_keys(), fallback)
                &&& final(self).mode == mode_of(kind)
            },
            final(self).page_keys() == (if old(self).stack@.len() > 1 {
                old(self).page_keys().drop_last()
            } else {
                seq![fallback]
            }),
            res.1 is Some,
            res.1.unwrap().page == old(self).page_keys().last(),
            value is Some ==> res.1.unwrap().token.value == value && res.1.unwrap().token.resolved,
            final(self).win_w == old(self).win_w && final(self).win_h == old(self).win_h,
            final(self).should_exit == old(self).should_exit,
    {
        if self.stack.len() > 1 {
            return self.pop(value);
        }
        let mut entry = self.stack.pop().unwrap();
        let mut acts: Vec<PageAction> = Vec::new();
        acts.push(PageAction::Hide(entry.page));
        acts.push(PageAction::ForceMouseExit(entry.page));
        match value {
            Some(v) => entry.token.resolve(v),
            None => {},
        }
        acts.push(PageAction::Destroy(entry.page));
        self.stack.clear();
        acts.push(PageAction::Init(fallback));
        self.stack.push(StackEntry { page: fallback, kind, token: PageToken::new() });
        self.mode = kind.initial_mode();
        proof {
            let ks = old(self).page_keys();
            assert(destroy_all(ks) =~= seq![PageAction::Destroy(ks[0])]);
            assert(acts@ =~= clear_and_push_actions(ks, fallback));
        }
        assert(self.page_keys() =~= seq![fallback]);
        (acts, Some(entry))
    }

    /// Handles a request a page sent while handling an event.
    pub fn apply_nav(&mut self, action: NavAction) -> (acts: Vec<PageAction>)
        ensures
            match action {
                NavAction::Push(p, k) => final(self).page_keys() == old(self).page_keys().push(p)
                    && final(self).stack@.drop_last() == old(self).stack@
                    && acts@ == push_actions(old(self).page_keys(), p) && final(self).mode == mode_of(k),
                NavAction::Pop => (old(self).stack@.len() <= 1 ==> final(self).stack@ == old(self).stack@
                    && final(self).mode == old(self).mode) && (old(self).stack@.len() > 1
                    ==> final(self).stack@ == old(self).stack@.drop_last() && final(self).mode == mode_of(
                    final(self).stack@.last().kind,
                )) && acts@ == pop_actions(old(self).page_keys()),
                NavAction::ClearAndPush(p, k) => final(self).page_keys() == seq![p] && acts@
                    == clear_and_push_actions(old(self).page_keys(), p) && final(self).mode == mode_of(k),
                NavAction::PopThenElse(p, k) => (old(self).stack@.len() > 1 ==> final(self).stack@
                    == old(self).stack@.drop_last() && acts@ == pop_actions(old(self).page_keys())
                    && final(self).mode == mode_of(final(self).stack@.last().kind)) && (old(self).stack@.len()
                    <= 1 ==> final(self).page_keys() == seq![p] && acts@ == clear_and_push_actions(
                    old(self).page_keys(),
                    p,
                ) && final(self).mode == mode_of(k)),
            },
            old(self).mode_follows_top() ==> final(self).mode_follows_top(),
            final(self).win_w == old(self).win_w && final(self).win_h == old(self).win_h,
            final(self).should_exit == old(self).should_exit,
    {
        match action {
            NavAction::Push(p, k) => self.push(p, k),
            NavAction::Pop => self.pop(None).0,
            NavAction::ClearAndPush(p, k) => self.clear_and_push(p, k),
            NavAction::PopThenElse(p, k) => {
                if self.stack.len() > 1 {
                    self.pop(None).0
                } else {
                    self.clear_and_push(p, k)
                }
            },
        }
    }

    /// Pops `n` pages (each popped token resolved with a copy of `value`)
    /// and pushes `page` of kind `kind`; when `n` reaches the whole stack,
    /// clears it instead.  The loop takes the pushed page's run mode.
    pub fn pop_n_and_push(&mut self, n: usize, page: u64, kind: PageKind, value: Option<V>) -> (acts: Vec<
        PageAction,
    >) where V: Copy
        ensures
            n == 0 ==> final(self).page_keys() == old(self).page_keys().push(page)
                && final(self).stack@.drop_last() == old(self).stack@,
            n >= old(self).stack@.len() ==> final(self).page_keys() == seq![page],
            0 < n < old(self).stack@.len() ==> final(self).page_keys() == old(self).page_keys().take(old(self).stack@.len() - n).push(page)
                && final(self).stack@.drop_last() == old(self).stack@.take(old(self).stack@.len() - n),
            final(self).stack@.last().kind == kind,
            final(self).stack@.last().token.value is None,
            !final(self).stack@.last().token.resolved,
            acts@ == pop_n_push_actions(old(self).page_keys(), n as nat, page),
            final(self).mode == mode_of(kind),
            final(self).win_w == old(self).win_w && final(self).win_h == old(self).win_h,
            final(self).should_exit == old(self).should_exit,
    {
        if n == 0 {
            return self.push(page, kind);
        }
        if n >= self.stack.len() {
            let acts = self.clear_and_push(page, kind);
            assert(self.stack@.len() == self.page_keys().len());
            assert(self.stack@.last() == self.stack@[0]);
            return acts;
        }
        let ghost ks = old(self).page_keys();
        let ghost st = old(self).stack@;
        let len = self.stack.len();
        let mut acts: Vec<PageAction> = Vec::new();
        let mut i: usize = 0;
        while i < n
            invariant
                0 < n < len == ks.len() == st.len(),
                i <= n,
                self.page_keys() == ks.take(len - i),
                self.stack@ == st.take(len - i),
                acts@ == pops(ks, i as nat),
                self.win_w == old(self).win_w && self.win_h == old(self).win_h,
                self.should_exit == old(self).should_exit,
            decreases n - i,
        {
            let (more, _) = self.pop(value);
            append_actions(&mut acts, more);
            assert(ks.take(len - i).drop_last() =~= ks.take(len - (i + 1)));
            assert(st.take(len - i).drop_last() =~= st.take(len - (i + 1)));
            i = i + 1;
        }
        let more = self.push(page, kind);
        append_actions(&mut acts, more);
        acts
    }

    /// Whether each stacked page, bottom first, covers everything below it.
    pub open spec fn shadows(&self) -> Seq<bool> {
        Seq::new(self.stack@.len(), |i: int| self.stack@[i].kind != PageKind::Menu)
    }

    /// Clears the window to black and returns the keys of the pages to draw,
    /// bottom first: from the topmost page that promises to cover everything
    /// below it to the top.  Each of them is then drawn, with its debug
    /// outline, by the caller.
    pub fn draw_pages(&self, renderer: &mut UIRenderer) -> (order: Vec<u64>)
        ensures
            order@ == self.page_keys().subrange(first_drawn(self.shadows()), self.stack@.len() as int),
            final(renderer)@ == old(renderer)@.with_rect(0, 0, self.win_w, self.win_h, (0, 0, 0, 255)),
    {
        let n = self.stack.len();
        let mut shadows: Vec<bool> = Vec::new();
        let mut j: usize = 0;
        while j < n
            invariant
                j <= n == self.stack@.len(),
                shadows@ == self.shadows().take(j as int),
            decreases n - j,
        {
            shadows.push(self.stack[j].kind.full_shadow_promise());
            assert(self.shadows().take(j + 1) =~= self.shadows().take(j as int).push(self.shadows()[j as int]));
            j = j + 1;
        }
        assert(self.shadows().take(n as int) =~= self.shadows());
        renderer.draw_rect(0, 0, self.win_w, self.win_h, (0, 0, 0, 255));
        let start = first_drawn_index(&shadows);
        let mut order: Vec<u64> = Vec::new();
        let mut i: usize = start;
        while i < n
            invariant
                start <= i <= n == self.stack@.len(),
                order@ == self.page_keys().subrange(start as int, i as int),
            decreases n - i,
        {
            order.push(self.stack[i].page);
            assert(self.page_keys().subrange(start as int, i + 1) =~= self.page_keys().subrange(
                start as int,
                i as int,
            ).push(self.stack@[i as int].page));
            i = i + 1;
        }
        order
    }
}

proof fn lemma_first_drawn_in_range(shadows: Seq<bool>)
    ensures
        0 <= first_drawn(shadows) <= shadows.len(),
        shadows.len() > 0 ==> first_drawn(shadows) < shadows.len(),
    decreases shadows.len(),
{
    if shadows.len() > 0 && !shadows.last() {
        lemma_first_drawn_in_range(shadows.drop_last());
    }
}

fn append_actions(acts: &mut Vec<PageAction>, more: Vec<PageAction>)
    ensures
        final(acts)@ == old(acts)@ + more@,
{
    let m = more.len();
    let mut k: usize = 0;
    while k < m
        invariant
            k <= m == more@.len(),
            acts@ == old(acts)@ + more@.take(k as int),
        decreases m - k,
    {
        acts.push(more[k]);
        assert(more@.take(k + 1) =~= more@.take(k as int).push(more@[k as int]));
        k = k + 1;
    }
    assert(more@.take(m as int) =~= more@);
}

/// Index of the topmost `true` in `shadows`, or zero when there is none.
fn first_drawn_index(shadows: &Vec<bool>) -> (start: usize)
    ensures
        start == first_drawn(shadows@),
        start <= shadows@.len(),
        shadows@.len() > 0 ==> start < shadows@.len(),
{
    let n = shadows.len();
    let mut i: usize = n;
    proof {
        lemma_first_drawn_in_range(shadows@);
    }
    assert(shadows@.take(n as int) =~= shadows@);
    while i > 0
        invariant
            i <= n == shadows@.len(),
            first_drawn(shadows@) == first_drawn(shadows@.take(i as int)),
        decreases i,
    {
        assert(shadows@.take(i as int).drop_last() =~= shadows@.take(i - 1));
        if shadows[i - 1] {
            return i - 1;
        }
        i = i - 1;
    }
    assert(shadows@.take(0) =~= Seq::<bool>::empty());
    0
}

/// A page: its root component and what the router needs from it.
pub struct Page {
    pub root: ComponentBase,
}

impl Page {
    /// A page whose root is an empty component.
    pub fn new() -> (p: Self)
        ensures
            p.root@ == (crate::component::ComponentView {
                x: 0,
                y: 0,
                width: 0,
                height: 0,
                ..crate::component::blank_view()
            }),
    {
        Page { root: ComponentBase::new(0, 0, 0, 0) }
    }
}

/// Pushing a page onto a non-empty stack and popping it again gives back
/// the same stack of pages; the pushed page is initialised, then destroyed,
/// and the page below it is hidden, released and activated again.
pub proof fn law_push_then_pop(ks: Seq<u64>, page: u64)
    requires
        ks.len() >= 1,
    ensures
        ks.push(page).len() > 1,
        ks.push(page).drop_last() == ks,
        push_actions(ks, page) + pop_actions(ks.push(page)) == seq![
            PageAction::Hide(ks.last()),
            PageAction::ForceMouseExit(ks.last()),
            PageAction::Init(page),
            PageAction::Destroy(page),
            PageAction::Activate(ks.last()),
        ],
{
    assert(ks.push(page).drop_last() =~= ks);
    assert(push_actions(ks, page) + pop_actions(ks.push(page)) =~= seq![
        PageAction::Hide(ks.last()),
        PageAction::ForceMouseExit(ks.last()),
        PageAction::Init(page),
        PageAction::Destroy(page),
        PageAction::Activate(ks.last()),
    ]);
}

/// The first page drawn covers everything below it when some page does,
/// and no page above it does.
pub proof fn law_first_drawn_is_topmost_cover(shadows: Seq<bool>)
    requires
        shadows.len() > 0,
    ensures
        0 <= first_drawn(shadows) < shadows.len(),
        (exists|i: int| 0 <= i < shadows.len() && shadows[i]) ==> shadows[first_drawn(shadows)],
        forall|j: int| first_drawn(shadows) < j < shadows.len() ==> !shadows[j],
    decreases shadows.len(),
{
    lemma_first_drawn_in_range(shadows);
    if !shadows.last() && shadows.len() > 1 {
        let t = shadows.drop_last();
        law_first_drawn_is_topmost_cover(t);
        if exists|i: int| 0 <= i < shadows.len() && shadows[i] {
            let i = choose|i: int| 0 <= i < shadows.len() && shadows[i];
            assert(i < t.len());
            assert(t[i]);
        }
        assert forall|j: int| first_drawn(shadows) < j < shadows.len() implies !shadows[j] by {
            if j < t.len() {
                assert(!t[j]);
            }
        }
    }
}

} // verus!
