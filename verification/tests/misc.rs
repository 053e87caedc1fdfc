use musesp::app_loop::{is_wide_char, window_actions, LoopAction, WindowEventKind};
use musesp::component::{ComponentBase, Label};
use musesp::config::{music_paths, settings_from_text, DebugConfig, SettingsError};
use musesp::events::{event_fits, UiEvent};
use musesp::pages::PageKind;
use musesp::router::RunMode;
use musesp::tree::NodeEdit;
use musesp::widgets::{named, with_child};

#[test]
fn debug_switches_default_and_override() {
    let d = DebugConfig::default();
    assert!(!d.ui.component_border && d.ui.render_profile && d.gameplay.camera_adjustable);
    let d = DebugConfig::from_values(Some(true), None, Some(false));
    assert!(d.ui.component_border && d.ui.render_profile && !d.gameplay.camera_adjustable);
}

#[test]
fn music_folders_default_to_the_builtin_one() {
    assert_eq!(music_paths(None), vec!["assets/builtin_musics".to_string()]);
    let got = music_paths(Some(vec![Some("a".to_string()), None, Some("b".to_string())]));
    assert_eq!(got, vec!["a".to_string(), "b".to_string()]);
    assert!(music_paths(Some(vec![])).is_empty());
}

#[test]
fn loop_steps_per_mode() {
    assert_eq!(window_actions(RunMode::Event, WindowEventKind::CloseRequested), vec![LoopAction::Exit]);
    assert_eq!(
        window_actions(RunMode::Event, WindowEventKind::Input),
        vec![LoopAction::Dispatch, LoopAction::ExitIfRequested, LoopAction::RequestRedraw]
    );
    assert_eq!(
        window_actions(RunMode::Vsync, WindowEventKind::RedrawRequested),
        vec![LoopAction::Render, LoopAction::RequestRedraw, LoopAction::Poll]
    );
    assert_eq!(
        window_actions(RunMode::Fps, WindowEventKind::Resized),
        vec![LoopAction::Resize, LoopAction::RequestRedraw, LoopAction::RedrawIfDue, LoopAction::Poll]
    );
    assert_eq!(window_actions(RunMode::Event, WindowEventKind::RedrawRequested), vec![LoopAction::Render, LoopAction::Wait]);
    assert!(window_actions(RunMode::Event, WindowEventKind::Other).is_empty());
}

#[test]
fn page_kinds_shadow_and_start_modes() {
    assert!(PageKind::Home.full_shadow_promise());
    assert!(!PageKind::Menu.full_shadow_promise());
    assert_eq!(PageKind::Gameplay.initial_mode(), RunMode::Vsync);
    assert_eq!(PageKind::MusicList.initial_mode(), RunMode::Event);
}

#[test]
fn wide_characters() {
    assert!(is_wide_char('中'));
    assert!(is_wide_char('。'));
    assert!(is_wide_char('Ａ'));
    assert!(!is_wide_char('a'));
    assert!(!is_wide_char('é'));
}

fn tree() -> ComponentBase {
    let a = named(ComponentBase::new(0, 0, 10, 10), "a");
    let b = named(Label::new("x", 0, 0, 5, 5, 10, (0, 0, 0)), "b");
    let b2 = named(ComponentBase::new(1, 1, 1, 1), "b");
    with_child(named(with_child(ComponentBase::new(0, 0, 100, 100), with_child(a, b)), "root"), b2)
}

#[test]
fn find_by_name_takes_the_first_in_pre_order() {
    let t = tree();
    assert_eq!(t.find_by_name("b").map(|c| c.width), Some(5));
    assert_eq!(t.find_by_name("root").map(|c| c.width), Some(100));
    assert!(t.find_by_name("zzz").is_none());
    assert_eq!(t.path_to(&"b".to_string()), Some(vec![0, 0]));
}

#[test]
fn find_component_by_name_skips_the_root() {
    let t = tree();
    assert!(t.find_component_by_name("root").is_none());
    assert_eq!(t.find_component_by_name("a").map(|c| c.width), Some(10));
}

#[test]
fn edit_by_name_changes_the_first_match_only() {
    let mut t = tree();
    assert!(t.edit_by_name("b", NodeEdit::MaxWidth(33)));
    assert_eq!(t.children[0].children[0].max_width, 33);
    assert_eq!(t.children[1].max_width, 0);
    assert!(!t.edit_by_name("nope", NodeEdit::MinHeight(1)));
}

#[test]
fn duplicate_is_an_equal_tree() {
    let t = tree();
    let d = t.duplicate();
    assert_eq!(d.children.len(), t.children.len());
    assert_eq!(d.find_by_name("b").map(|c| c.width), Some(5));
}

#[test]
fn limits_are_checked_before_use() {
    let t = tree();
    assert!(t.fits_layout());
    assert!(t.fits_dispatch_at(0));
    assert!(t.fits_draw_at(0, 0));
    let mut wide = ComponentBase::new(0, 0, 2_000_000, 10);
    assert!(!wide.fits_layout());
    wide.width = 10;
    wide.min_height = -1;
    assert!(wide.fits_layout());
    wide.v_constraint = musesp::layout::Constraintable::Maximum;
    assert!(!wide.fits_layout());
    let mut far = ComponentBase::new(0, 0, 10, 10);
    far.cursor_x = i64::MAX;
    assert!(!far.fits_dispatch_at(0));
    assert!(!ComponentBase::new(0, 0, 10, 10).fits_dispatch_at(70000));
    let off = ComponentBase::new(600_000_000, 0, 10, 10);
    assert!(!off.fits_draw_at(0, 0));
    assert!(event_fits(&UiEvent::CursorMoved { x: 10, y: -10 }));
    assert!(!event_fits(&UiEvent::CursorMoved { x: i64::MIN, y: 0 }));
    assert!(event_fits(&UiEvent::Other));
}

#[test]
fn settings_read_folders_and_switches() {
    let text = "[gameplay]\nnotespeed = 12\nmusic_assets_path = [\"a\", 3, \"b\"]\n[debug.ui]\ncomponent_border = true\n[debug.gameplay]\ncamera_adjustable = false\n";
    let s = settings_from_text(text).expect("settings");
    assert_eq!(s.music_assets_path, vec!["a".to_string(), "b".to_string()]);
    assert!(s.debug.ui.component_border && s.debug.ui.render_profile && !s.debug.gameplay.camera_adjustable);
    let s = settings_from_text("[gameplay]\nnotespeed = 7.5\n").expect("settings");
    assert_eq!(s.music_assets_path, vec!["assets/builtin_musics".to_string()]);
    assert!(!s.debug.ui.component_border && s.debug.ui.render_profile && s.debug.gameplay.camera_adjustable);
    assert_eq!(settings_from_text("[gameplay]\nmusic_assets_path = []\n").err(), Some(SettingsError::NotespeedRequired));
    assert_eq!(settings_from_text("[gameplay]\nnotespeed = \"fast\"\n").err(), Some(SettingsError::NotespeedRequired));
}

#[test]
fn unreadable_settings_fall_back_to_defaults() {
    let s = settings_from_text("this is [ not toml").expect("defaults");
    assert_eq!(s.music_assets_path, vec!["assets/builtin_musics".to_string()]);
    assert!(!s.debug.ui.component_border && s.debug.ui.render_profile && s.debug.gameplay.camera_adjustable);
}

#[test]
fn settings_lookups_follow_the_value_kinds() {
    let s = settings_from_text("[gameplay]\nnotespeed = 3\nmusic_assets_path = \"one\"\n[debug]\nui = 5\n").expect("settings");
    assert_eq!(s.music_assets_path, vec!["assets/builtin_musics".to_string()]);
    assert!(!s.debug.ui.component_border && s.debug.ui.render_profile);
    let s = settings_from_text("gameplay = 1\n").err();
    assert_eq!(s, Some(SettingsError::NotespeedRequired));
    let s = settings_from_text("[gameplay]\nnotespeed = 1979-05-27\n").err();
    assert_eq!(s, Some(SettingsError::NotespeedRequired));
    let s = settings_from_text("[gameplay]\nnotespeed = 1.5e3\n[debug.ui]\nrender_profile = false\ncomponent_border = \"yes\"\n").expect("settings");
    assert!(!s.debug.ui.render_profile && !s.debug.ui.component_border);
}
