use musesp::gameplay::{
    compute_lines_snapshot, finalize_snapshot, gameplay_handle, latest_compute_lines_snapshot, latest_snapshot,
    CameraMode, CameraMove, GameplayControl, PrecomputedGeometry, GAME_MENU, KEY_A, KEY_W,
};
use musesp::events::{Emission, HandlerKind};
use musesp::pages::{KeyName, NavRequest, PageInput, PageKind};
use musesp::renderer::UIRenderer;

#[test]
fn ctrl_1_switches_to_camera_adjustment() {
    let mut c = GameplayControl::new();
    c.handle(&PageInput::Key { pressed: true, key: KeyName::ControlLeft }, CameraMode::Playing, true);
    assert!(c.ctrl_pressed);
    let s = c.handle(&PageInput::Key { pressed: true, key: KeyName::Digit1 }, CameraMode::Playing, true);
    assert_eq!(s.new_mode, Some(CameraMode::Adjusting));
    assert!(!s.forget_pointer);
    let s = c.handle(&PageInput::Key { pressed: true, key: KeyName::Digit1 }, CameraMode::Adjusting, true);
    assert_eq!(s.new_mode, Some(CameraMode::Playing));
    assert!(s.forget_pointer);
}

#[test]
fn no_switch_without_gameplay_state_or_when_not_adjustable() {
    let mut c = GameplayControl::new();
    c.ctrl_pressed = true;
    let s = c.handle(&PageInput::Key { pressed: true, key: KeyName::Digit1 }, CameraMode::Playing, false);
    assert_eq!(s.new_mode, None);
    c.camera_adjustable = false;
    let s = c.handle(&PageInput::Key { pressed: true, key: KeyName::Digit1 }, CameraMode::Playing, true);
    assert_eq!(s.new_mode, None);
    assert!(s.to_ui);
}

#[test]
fn escape_in_play_opens_the_menu() {
    let mut c = GameplayControl::new();
    let s = c.handle(&PageInput::Key { pressed: true, key: KeyName::Escape }, CameraMode::Playing, true);
    assert!(s.open_menu && !s.to_ui);
    let s = c.handle(&PageInput::Key { pressed: true, key: KeyName::Escape }, CameraMode::Adjusting, true);
    assert_eq!(s.new_mode, Some(CameraMode::Playing));
}

#[test]
fn movement_keys_are_held_while_adjusting() {
    let mut c = GameplayControl::new();
    c.handle(&PageInput::Key { pressed: true, key: KeyName::KeyW }, CameraMode::Adjusting, true);
    c.handle(&PageInput::Key { pressed: true, key: KeyName::KeyA }, CameraMode::Adjusting, true);
    assert_eq!(c.held_keys, KEY_W | KEY_A);
    assert_eq!(c.frame_moves(CameraMode::Adjusting, true), vec![CameraMove::Forward, CameraMove::Left]);
    assert!(c.camera_dirty);
    c.handle(&PageInput::Key { pressed: false, key: KeyName::KeyW }, CameraMode::Adjusting, true);
    assert_eq!(c.held_keys, KEY_A);
    assert!(c.frame_moves(CameraMode::Playing, true).is_empty());
    assert!(c.on_destroy());
    assert!(!c.camera_dirty);
    assert!(!c.on_destroy());
}

#[test]
fn pointer_turns_the_camera_after_the_first_move() {
    let mut c = GameplayControl::new();
    let s = c.handle(&PageInput::CursorMoved { x: 10, y: 20 }, CameraMode::Adjusting, true);
    assert!(!s.orbit && s.remember_pointer);
    let s = c.handle(&PageInput::CursorMoved { x: 15, y: 25 }, CameraMode::Adjusting, true);
    assert!(s.orbit);
    assert_eq!(c.crosshair_pos, Some((15, 25)));
    let s = c.handle(&PageInput::CursorMoved { x: 1, y: 2 }, CameraMode::Playing, true);
    assert!(s.track_pointer && s.to_ui);
}

#[test]
fn wheel_lines_change_the_view_while_adjusting() {
    let mut c = GameplayControl::new();
    let s = c.handle(&PageInput::Wheel { by_lines: true }, CameraMode::Adjusting, true);
    assert!(s.adjust_fov && !s.to_ui);
    let s = c.handle(&PageInput::Wheel { by_lines: true }, CameraMode::Playing, true);
    assert!(!s.adjust_fov && s.to_ui);
}

#[test]
fn crosshair_is_two_green_bars() {
    let mut c = GameplayControl::new();
    let mut r = UIRenderer::new();
    c.draw_crosshair(&mut r);
    assert!(r.rects.is_empty());
    c.crosshair_pos = Some((100, 50));
    c.draw_crosshair(&mut r);
    assert_eq!(r.rects.len(), 2);
    let h = &r.rects[0];
    assert_eq!((h.x, h.y, h.w, h.h), (88, 49, 24, 2));
    let v = &r.rects[1];
    assert_eq!((v.x, v.y, v.w, v.h), (99, 38, 2, 24));
}

#[test]
fn menu_button_opens_the_menu_page() {
    let o = gameplay_handle(&Emission::Handler { key: GAME_MENU, kind: HandlerKind::MouseClick });
    assert!(!o.go_on);
    assert_eq!(o.requests, vec![NavRequest::Push(PageKind::Menu)]);
    let o = gameplay_handle(&Emission::Handler { key: GAME_MENU, kind: HandlerKind::MouseUp });
    assert!(o.go_on && o.requests.is_empty());
}

fn geometry() -> PrecomputedGeometry {
    PrecomputedGeometry {
        coarse_verts: vec![1, 2, 3],
        coarse_indices: vec![0, 1, 2],
        coarse_tri_count: 1,
        view_proj: core::array::from_fn(|i| i as u8),
        line_endpoints: vec![9, 9],
        line_count: 258,
        camera_eye: [7; 12],
    }
}

#[test]
fn surface_snapshot_packs_its_uniforms() {
    let g = geometry();
    let s = finalize_snapshot(&g, 0x4448_0000, 0x4434_0000);
    assert_eq!(s.vertex_data, vec![1, 2, 3]);
    assert_eq!(s.indices, vec![0, 1, 2]);
    assert_eq!(s.triangle_count, 1);
    assert_eq!(s.uniform_data.len(), 64 + 12 + 20);
    assert_eq!(&s.uniform_data[..64], &g.view_proj[..]);
    assert_eq!(&s.uniform_data[64..76], &[7u8; 12][..]);
    assert_eq!(&s.uniform_data[76..96], &[0, 0, 0, 0, 1, 0, 0, 0, 6, 0, 0, 0, 0, 0, 0x48, 0x44, 0, 0, 0x34, 0x44][..]);
    let none = latest_snapshot(None, 1, 1);
    assert!(none.vertex_data.is_empty() && none.uniform_data.is_empty() && none.triangle_count == 0);
    assert_eq!(latest_snapshot(Some(&g), 0x4448_0000, 0x4434_0000).uniform_data, s.uniform_data);
}

#[test]
fn line_snapshot_packs_its_uniforms() {
    let g = geometry();
    let (v, n, u) = compute_lines_snapshot(&g, 800, 600);
    assert_eq!(v, vec![9, 9]);
    assert_eq!(n, 258);
    assert_eq!(u.len(), 80);
    assert_eq!(&u[..64], &g.view_proj[..]);
    assert_eq!(&u[64..80], &[2, 1, 0, 0, 0, 0, 0, 0, 0x20, 3, 0, 0, 0x58, 2, 0, 0][..]);
    let (v, n, u) = latest_compute_lines_snapshot(None, 800, 600);
    assert!(v.is_empty() && n == 0 && u.is_empty());
}
