use musesp::renderer::UIRenderer;
use musesp::pages::PageKind;
use musesp::router::{NavAction, Page, PageAction, PageToken, Router, RunMode};

fn keys(r: &Router<i32>) -> Vec<u64> {
    r.stack.iter().map(|e| e.page).collect()
}

#[test]
fn new_router_is_empty_and_event_driven() {
    let r: Router<i32> = Router::new(800, 600);
    assert!(r.stack.is_empty());
    assert_eq!(r.mode, RunMode::Event);
    assert_eq!(r.target_fps, 60);
    assert!(!r.should_exit);
    assert!(r.needs_fallback());
}

#[test]
fn push_hides_the_top_and_inits_the_new_page() {
    let mut r: Router<i32> = Router::new(800, 600);
    assert_eq!(r.push(1, PageKind::Home), vec![PageAction::Init(1)]);
    assert_eq!(r.push(2, PageKind::Home), vec![PageAction::Hide(1), PageAction::ForceMouseExit(1), PageAction::Init(2)]);
    assert_eq!(keys(&r), vec![1, 2]);
}

#[test]
fn pop_resolves_the_token_and_activates_the_page_below() {
    let mut r: Router<i32> = Router::new(800, 600);
    r.push(1, PageKind::Home);
    r.push(2, PageKind::Home);
    let (acts, popped) = r.pop(Some(42));
    assert_eq!(acts, vec![PageAction::Destroy(2), PageAction::Activate(1)]);
    let e = popped.unwrap();
    assert_eq!(e.page, 2);
    assert_eq!(e.token.value, Some(42));
    assert!(e.token.resolved);
    assert_eq!(keys(&r), vec![1]);
}

#[test]
fn pop_keeps_the_last_page() {
    let mut r: Router<i32> = Router::new(800, 600);
    r.push(1, PageKind::Home);
    let (acts, popped) = r.pop(None);
    assert!(acts.is_empty());
    assert!(popped.is_none());
    assert_eq!(keys(&r), vec![1]);
}

#[test]
fn clear_and_push_destroys_every_page() {
    let mut r: Router<i32> = Router::new(800, 600);
    r.push(1, PageKind::Home);
    r.push(2, PageKind::Home);
    let acts = r.clear_and_push(3, PageKind::MusicList);
    assert_eq!(
        acts,
        vec![
            PageAction::Hide(2),
            PageAction::ForceMouseExit(2),
            PageAction::Destroy(1),
            PageAction::Destroy(2),
            PageAction::Init(3),
        ]
    );
    assert_eq!(keys(&r), vec![3]);
}

#[test]
fn pop_then_else_falls_back_on_the_last_page() {
    let mut r: Router<i32> = Router::new(800, 600);
    r.push(1, PageKind::Home);
    let (acts, popped) = r.pop_then_else(9, PageKind::Home, Some(5));
    assert_eq!(
        acts,
        vec![PageAction::Hide(1), PageAction::ForceMouseExit(1), PageAction::Destroy(1), PageAction::Init(9)]
    );
    assert_eq!(popped.unwrap().token.value, Some(5));
    assert_eq!(keys(&r), vec![9]);
    r.push(4, PageKind::Home);
    let (acts, _) = r.pop_then_else(9, PageKind::Home, None);
    assert_eq!(acts, vec![PageAction::Destroy(4), PageAction::Activate(9)]);
    assert_eq!(keys(&r), vec![9]);
}

#[test]
fn apply_nav_follows_the_request() {
    let mut r: Router<i32> = Router::new(800, 600);
    r.apply_nav(NavAction::Push(1, PageKind::Home));
    r.apply_nav(NavAction::Push(2, PageKind::Gameplay));
    r.apply_nav(NavAction::Pop);
    assert_eq!(keys(&r), vec![1]);
    r.apply_nav(NavAction::PopThenElse(7, PageKind::Home));
    assert_eq!(keys(&r), vec![7]);
    r.apply_nav(NavAction::ClearAndPush(8, PageKind::MusicList));
    assert_eq!(keys(&r), vec![8]);
}

#[test]
fn pop_n_and_push_replaces_the_top_pages() {
    let mut r: Router<i32> = Router::new(800, 600);
    r.push(1, PageKind::Home);
    r.push(2, PageKind::Home);
    r.push(3, PageKind::Home);
    r.pop_n_and_push(2, 4, PageKind::Home, Some(1));
    assert_eq!(keys(&r), vec![1, 4]);
    r.pop_n_and_push(0, 5, PageKind::Home, None);
    assert_eq!(keys(&r), vec![1, 4, 5]);
    r.pop_n_and_push(10, 6, PageKind::Home, None);
    assert_eq!(keys(&r), vec![6]);
}

#[test]
fn push_then_pop_restores_the_stack() {
    let mut r: Router<i32> = Router::new(800, 600);
    r.push(1, PageKind::Home);
    r.push(2, PageKind::Home);
    let before = keys(&r);
    r.push(3, PageKind::Home);
    r.pop(None);
    assert_eq!(keys(&r), before);
}

#[test]
fn drawing_starts_at_the_topmost_covering_page() {
    let mut r: Router<i32> = Router::new(800, 600);
    let mut ui = UIRenderer::new();
    assert!(r.draw_pages(&mut ui).is_empty());
    assert_eq!(ui.rects.len(), 1);
    assert_eq!((ui.rects[0].w, ui.rects[0].h, ui.rects[0].color), (800, 600, (0, 0, 0, 255)));
    r.push(1, PageKind::Home);
    r.push(2, PageKind::Gameplay);
    assert_eq!(r.draw_pages(&mut ui), vec![2]);
    r.push(3, PageKind::Menu);
    assert_eq!(r.draw_pages(&mut ui), vec![2, 3]);
    r.push(4, PageKind::Menu);
    assert_eq!(r.draw_pages(&mut ui), vec![2, 3, 4]);
    assert_eq!(ui.rects.len(), 4);
}

#[test]
fn only_menus_leave_the_page_below_visible() {
    let mut r: Router<i32> = Router::new(800, 600);
    let mut ui = UIRenderer::new();
    r.push(1, PageKind::Menu);
    r.push(2, PageKind::Menu);
    assert_eq!(r.draw_pages(&mut ui), vec![1, 2]);
}

#[test]
fn run_mode_follows_the_top_page() {
    let mut r: Router<i32> = Router::new(800, 600);
    r.push(1, PageKind::Home);
    assert_eq!(r.mode, RunMode::Event);
    r.push(2, PageKind::Gameplay);
    assert_eq!(r.mode, RunMode::Vsync);
    r.push(3, PageKind::Menu);
    assert_eq!(r.mode, RunMode::Event);
    r.pop(None);
    assert_eq!(r.mode, RunMode::Vsync);
    r.pop(None);
    assert_eq!(r.mode, RunMode::Event);
    r.clear_and_push(4, PageKind::Gameplay);
    assert_eq!(r.mode, RunMode::Vsync);
    r.pop_then_else(5, PageKind::MusicList, None);
    assert_eq!(r.mode, RunMode::Event);
    r.pop_n_and_push(1, 6, PageKind::Gameplay, None);
    assert_eq!(r.mode, RunMode::Vsync);
    r.apply_nav(NavAction::Push(7, PageKind::Menu));
    assert_eq!(r.mode, RunMode::Event);
    r.apply_nav(NavAction::Pop);
    assert_eq!(r.mode, RunMode::Vsync);
}

#[test]
fn pushed_pages_carry_a_fresh_token() {
    let mut r: Router<i32> = Router::new(800, 600);
    r.push(1, PageKind::Home);
    r.push(2, PageKind::MusicList);
    r.stack[0].token.resolve(3);
    r.pop_n_and_push(1, 4, PageKind::Gameplay, Some(8));
    assert_eq!(r.stack[0].token.value, Some(3));
    assert_eq!(r.stack[1].kind, PageKind::Gameplay);
    assert!(!r.stack[1].token.resolved && r.stack[1].token.value.is_none());
    r.clear_and_push(5, PageKind::Home);
    r.stack[0].token.resolve(1);
    r.pop_then_else(6, PageKind::MusicList, Some(2));
    assert_eq!(r.stack[0].kind, PageKind::MusicList);
    assert!(!r.stack[0].token.resolved && r.stack[0].token.value.is_none());
}

#[test]
fn token_resolves_once_given_a_value() {
    let mut t: PageToken<&str> = PageToken::new();
    assert!(!t.resolved);
    t.resolve("done");
    assert!(t.resolved);
    assert_eq!(t.value, Some("done"));
}

#[test]
fn new_page_has_an_empty_root() {
    let p = Page::new();
    assert!(p.root.children.is_empty());
    assert_eq!((p.root.width, p.root.height), (0, 0));
}

#[test]
fn pop_n_and_push_reports_every_hook() {
    let mut r: Router<i32> = Router::new(800, 600);
    r.push(1, PageKind::Home);
    r.push(2, PageKind::Home);
    r.push(3, PageKind::Home);
    let acts = r.pop_n_and_push(2, 4, PageKind::Home, Some(1));
    assert_eq!(
        acts,
        vec![
            PageAction::Destroy(3),
            PageAction::Activate(2),
            PageAction::Destroy(2),
            PageAction::Activate(1),
            PageAction::Hide(1),
            PageAction::ForceMouseExit(1),
            PageAction::Init(4),
        ]
    );
}
