use musesp::component::{ComponentBase, Widget};
use musesp::events::{Emission, HandlerKind};
use musesp::songs::parse_song_list;
use musesp::music::{fill_music_list, MusicListState, MUSIC_BACK, MUSIC_LEVEL_BASE, MUSIC_LIST, MUSIC_PLAY};
use musesp::pages::{
    build_home, home_handle, menu_entry, KeyName, MenuPage, MenuRoute, NavRequest, PageInput, PageKind, HOME_EXIT,
    HOME_START, MENU_CANCEL, MENU_CONTINUE, MENU_EXIT, MENU_REPLAY,
};

fn click(key: u64) -> Emission {
    Emission::Handler { key, kind: HandlerKind::MouseClick }
}

#[test]
fn home_start_opens_the_music_list() {
    let o = home_handle(&click(HOME_START));
    assert!(!o.go_on && !o.exit);
    assert_eq!(o.requests, vec![NavRequest::Push(PageKind::MusicList)]);
}

#[test]
fn home_exit_quits() {
    let o = home_handle(&click(HOME_EXIT));
    assert!(!o.go_on && o.exit);
    assert!(o.requests.is_empty());
}

#[test]
fn home_ignores_other_calls() {
    let o = home_handle(&Emission::Handler { key: HOME_START, kind: HandlerKind::MouseDown });
    assert!(o.go_on && !o.exit && o.requests.is_empty());
}

#[test]
fn home_tree_has_start_and_exit_buttons() {
    let mut root = ComponentBase::new(0, 0, 800, 600);
    build_home(&mut root);
    assert_eq!(root.children.len(), 3);
    let keys: Vec<u64> = root.children[1].children.iter().map(|c| c.handler_key).collect();
    assert!(keys.contains(&HOME_START));
    assert!(keys.contains(&HOME_EXIT));
}

#[test]
fn menu_entries_are_keyed_in_order() {
    assert_eq!(menu_entry(0), ("assets/ui/cancel_button.svg", "取消", MENU_CANCEL));
    assert_eq!(menu_entry(1).2, MENU_CONTINUE);
    assert_eq!(menu_entry(2).2, MENU_REPLAY);
    assert_eq!(menu_entry(3), ("assets/ui/exit_button.svg", "退出", MENU_EXIT));
}

#[test]
fn menu_buttons_answer() {
    assert_eq!(MenuPage::handle(&click(MENU_CANCEL)).requests, vec![NavRequest::Pop]);
    assert_eq!(MenuPage::handle(&click(MENU_EXIT)).requests, vec![NavRequest::ClearAndPush(PageKind::MusicList)]);
    let o = MenuPage::handle(&click(MENU_REPLAY));
    assert!(!o.go_on && o.requests.is_empty());
    let o = MenuPage::handle(&click(99));
    assert!(o.go_on && o.requests.is_empty() && !o.exit);
}

#[test]
fn menu_routes_input_by_position() {
    let mut m = MenuPage::new();
    m.menu_x = 100;
    m.menu_y = 50;
    m.menu_w = 200;
    m.menu_h = 100;
    assert_eq!(m.route(&PageInput::Key { pressed: true, key: KeyName::Escape }, (0, 0)), MenuRoute::Close);
    assert_eq!(m.route(&PageInput::Key { pressed: false, key: KeyName::Escape }, (0, 0)), MenuRoute::Pass);
    assert_eq!(m.route(&PageInput::CursorMoved { x: 150, y: 60 }, (0, 0)), MenuRoute::Pass);
    assert_eq!(m.route(&PageInput::CursorMoved { x: 300, y: 60 }, (0, 0)), MenuRoute::Skip);
    assert_eq!(m.route(&PageInput::MouseInput { pressed: true }, (120, 149)), MenuRoute::Pass);
    assert_eq!(m.route(&PageInput::MouseInput { pressed: true }, (120, 150)), MenuRoute::Skip);
    assert_eq!(m.route(&PageInput::Wheel { by_lines: true }, (0, 0)), MenuRoute::Pass);
}

#[test]
fn music_back_and_play() {
    let mut s = MusicListState::new();
    let o = s.handle(&click(MUSIC_BACK));
    assert_eq!(o.requests, vec![NavRequest::PopThenElse(PageKind::Home)]);
    let o = s.handle(&click(MUSIC_PLAY));
    assert!(!o.go_on && o.requests.is_empty());
    s.selected_level = Some(3);
    let o = s.handle(&click(MUSIC_PLAY));
    assert_eq!(o.requests, vec![NavRequest::ClearAndPush(PageKind::Gameplay)]);
}

#[test]
fn music_selection_is_remembered_for_later() {
    let mut s = MusicListState::new();
    let o = s.handle(&Emission::Select { key: MUSIC_LIST, item_id: "dir/song".to_string() });
    assert!(!o.go_on);
    assert_eq!(s.pending_select.as_deref(), Some("dir/song"));
    s.cached_levels = vec![("1".to_string(), 1), ("5".to_string(), 5)];
    let o = s.handle(&click(MUSIC_LEVEL_BASE + 1));
    assert!(!o.go_on);
    assert_eq!(s.pending_level_action, Some(5));
    let o = s.handle(&click(MUSIC_LEVEL_BASE + 2));
    assert!(o.go_on);
    assert_eq!(s.pending_level_action, Some(5));
}

#[test]
fn music_choice_rebuilds_the_difficulty_row() {
    let mut root = ComponentBase::new(0, 0, 1280, 720);
    musesp::music::build_music_list(&mut root, None);
    let mut s = MusicListState::new();
    let keys: Vec<String> = vec!["9".into(), "2".into()];
    s.select_music(&mut root, "dir/a", musesp::songs::level_entries(&keys), None);
    assert_eq!(s.selected_item_id.as_deref(), Some("dir/a"));
    assert_eq!(s.selected_level, None);
    assert_eq!(s.cached_levels, vec![("2".to_string(), 2), ("9".to_string(), 9)]);
    assert_eq!(s.level_btn_names, vec!["lv_btn_2".to_string(), "lv_btn_9".to_string()]);
    let first = root.find_by_name("lv_btn_2").expect("button");
    assert_eq!(first.handler_key, MUSIC_LEVEL_BASE);
    s.select_level(&mut root, 9);
    assert_eq!(s.selected_level, Some(9));
    let chosen = root.find_by_name("lv_btn_9").expect("button");
    match &chosen.widget {
        Widget::Button(b) => assert!(!b.enabled),
        _ => panic!("not a button"),
    }
    let other = root.find_by_name("lv_btn_2").expect("button");
    match &other.widget {
        Widget::Button(b) => assert!(b.enabled),
        _ => panic!("not a button"),
    }
}

#[test]
fn songs_fill_the_music_list() {
    let mut root = ComponentBase::new(0, 0, 1280, 720);
    musesp::music::build_music_list(&mut root, None);
    root.layout(None);
    let songs = parse_song_list("a|Alpha|X\nb|Beta|Y\n", "dir");
    fill_music_list(&mut root, &songs, Some(&"dir/b".to_string()));
    let list = root.find_by_name("scroll_list").expect("list");
    assert_eq!(list.children.len(), 2);
    assert_eq!(list.children[1].item_id.as_deref(), Some("dir/b"));
    assert_eq!((list.children[1].y, list.children[1].height, list.children[1].width), (52, 52, list.width));
    match (&list.children[0].widget, &list.children[1].widget) {
        (Widget::ListItem(a), Widget::ListItem(b)) => {
            assert_eq!((a.title.as_str(), a.author.as_str(), a.selected), ("Alpha", "X", false));
            assert!(b.selected);
        }
        _ => panic!("not list entries"),
    }
}
