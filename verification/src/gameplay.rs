//! The gameplay page: input handling between playing and adjusting the
//! camera, the crosshair, the menu button, and the byte layouts of the
//! snapshots handed to the compute pipelines.
use vstd::prelude::*;

use crate::component::{view_of, ComponentBase, ComponentView, ImageButton};
use crate::events::{emission_view, Emission};
use crate::layout::Constraintable;
use crate::pages::{click_of, HandlerOutcome, KeyName, NavRequest, PageInput, PageKind};
use crate::renderer::{RendererView, UIRenderer};
use crate::types::ImageData;
use crate::widgets::{image_button_view, keyed, named, tuned, tuned_view};

verus! {

/// How the camera behaves.
#[derive(Debug, Clone, Copy, PartialEq, Eq, Structural)]
pub enum CameraMode {
    /// Playing: the crosshair follows the pointer and the judgement grid follows it.
    Playing,
    /// Adjusting: the camera moves and turns, the grid stays where it was.
    Adjusting,
}

/// Bits of the held camera movement keys.
pub const KEY_W: u8 = 1;

pub const KEY_S: u8 = 2;

pub const KEY_A: u8 = 4;

pub const KEY_D: u8 = 8;

pub const KEY_SPACE: u8 = 16;

pub const KEY_LALT: u8 = 32;

/// Half the length of a crosshair arm, in pixels.
pub const CROSSHAIR_HALF: i32 = 12;

/// Thickness of a crosshair arm, in pixels.
pub const CROSSHAIR_THICK: i32 = 2;

/// Handler key of the menu button.
pub const GAME_MENU: u64 = 1;

/// What the gameplay page remembers between events.
#[derive(Debug, Clone, Copy)]
pub struct GameplayControl {
    /// Where the crosshair is drawn, once the pointer moved.
    pub crosshair_pos: Option<(i32, i32)>,
    /// Whether a control key is held.
    pub ctrl_pressed: bool,
    /// Whether a previous pointer position is known for turning the camera.
    pub has_last_pointer: bool,
    /// Whether the camera may be adjusted at all.
    pub camera_adjustable: bool,
    /// Held movement keys, one bit each.
    pub held_keys: u8,
    /// Whether the camera changed since it was last saved.
    pub camera_dirty: bool,
}

/// What the application does for one input of the gameplay page.
#[derive(Debug, Clone, Copy, PartialEq, Eq, Structural)]
pub struct GameplayStep {
    /// The camera mode switches to this one.
    pub new_mode: Option<CameraMode>,
    /// Turn the camera by the pointer's move since its last position.
    pub orbit: bool,
    /// Remember the pointer position for the next turn.
    pub remember_pointer: bool,
    /// Forget the remembered pointer position.
    pub forget_pointer: bool,
    /// Use the pointer position to pick the judgement sphere.
    pub track_pointer: bool,
    /// Change the field of view by the wheel's lines.
    pub adjust_fov: bool,
    /// Run the menu button's click handlers.
    pub open_menu: bool,
    /// Dispatch the input into the page's tree.
    pub to_ui: bool,
}

pub open spec fn nothing() -> GameplayStep {
    GameplayStep {
        new_mode: None,
        orbit: false,
        remember_pointer: false,
        forget_pointer: false,
        track_pointer: false,
        adjust_fov: false,
        open_menu: false,
        to_ui: false,
    }
}

pub open spec fn flipped(m: CameraMode) -> CameraMode {
    match m {
        CameraMode::Playing => CameraMode::Adjusting,
        CameraMode::Adjusting => CameraMode::Playing,
    }
}

/// Switching the camera mode (only when the gameplay state exists): the
/// held keys are released, and back in play the pointer is forgotten.
pub open spec fn toggled(c: GameplayControl, mode: CameraMode, has_state: bool) -> (GameplayControl, GameplayStep) {
    if has_state {
        let nm = flipped(mode);
        (
            GameplayControl {
                held_keys: 0,
                has_last_pointer: if nm == CameraMode::Playing {
                    false
                } else {
                    c.has_last_pointer
                },
                ..c
            },
            GameplayStep { new_mode: Some(nm), forget_pointer: nm == CameraMode::Playing, ..nothing() },
        )
    } else {
        (c, nothing())
    }
}

/// The movement bit of a key, or 0.
pub open spec fn key_bit(k: KeyName) -> u8 {
    match k {
        KeyName::KeyW => KEY_W,
        KeyName::KeyS => KEY_S,
        KeyName::KeyA => KEY_A,
        KeyName::KeyD => KEY_D,
        KeyName::Space => KEY_SPACE,
        KeyName::AltLeft => KEY_LALT,
        _ => 0,
    }
}

/// The gameplay page's handling of one input in camera mode `mode`;
/// `has_state` tells whether the gameplay state exists.
pub open spec fn gameplay_step(c: GameplayControl, input: PageInput, mode: CameraMode, has_state: bool) -> (
    GameplayControl,
    GameplayStep,
) {
    let play = mode == CameraMode::Playing;
    match input {
        PageInput::CursorMoved { x, y } => {
            if !play {
                (
                    GameplayControl { has_last_pointer: true, crosshair_pos: Some((x, y)), camera_dirty: c.camera_dirty || (c.has_last_pointer && has_state), ..c },
                    GameplayStep { orbit: c.has_last_pointer && has_state, remember_pointer: true, ..nothing() },
                )
            } else {
                (
                    GameplayControl { crosshair_pos: Some((x, y)), ..c },
                    GameplayStep { track_pointer: has_state, to_ui: true, ..nothing() },
                )
            }
        },
        PageInput::Modifiers { ctrl } => (GameplayControl { ctrl_pressed: ctrl, ..c }, GameplayStep { to_ui: play, ..nothing() }),
        PageInput::Key { pressed, key } => {
            if key == KeyName::ControlLeft || key == KeyName::ControlRight {
                (GameplayControl { ctrl_pressed: pressed, ..c }, nothing())
            } else if pressed && c.ctrl_pressed && key == KeyName::Digit1 && c.camera_adjustable {
                toggled(c, mode, has_state)
            } else if play {
                if pressed && key == KeyName::Escape {
                    (c, GameplayStep { open_menu: true, ..nothing() })
                } else {
                    (c, GameplayStep { to_ui: true, ..nothing() })
                }
            } else if pressed && key == KeyName::Escape {
                toggled(c, mode, has_state)
            } else {
                let bit = key_bit(key);
                if bit != 0 {
                    (
                        GameplayControl {
                            held_keys: if pressed {
                                c.held_keys | bit
                            } else {
                                c.held_keys & !bit
                            },
                            ..c
                        },
                        nothing(),
                    )
                } else {
                    (c, nothing())
                }
            }
        },
        PageInput::Wheel { by_lines } => {
            let fov = by_lines && !play && has_state;
            (
                GameplayControl { camera_dirty: c.camera_dirty || fov, ..c },
                GameplayStep { adjust_fov: fov, to_ui: play, ..nothing() },
            )
        },
        _ => (c, GameplayStep { to_ui: play, ..nothing() }),
    }
}

/// A camera move for one frame.
#[derive(Debug, Clone, Copy, PartialEq, Eq, Structural)]
pub enum CameraMove {
    Forward,
    Back,
    Left,
    Right,
    Up,
    Down,
}

/// The moves the held keys make, in the order W, S, A, D, Space, left Alt.
pub open spec fn moves_of(held: u8) -> Seq<CameraMove> {
    let s0 = if held & KEY_W != 0 {
        seq![CameraMove::Forward]
    } else {
        seq![]
    };
    let s1 = if held & KEY_S != 0 {
        s0.push(CameraMove::Back)
    } else {
        s0
    };
    let s2 = if held & KEY_A != 0 {
        s1.push(CameraMove::Left)
    } else {
        s1
    };
    let s3 = if held & KEY_D != 0 {
        s2.push(CameraMove::Right)
    } else {
        s2
    };
    let s4 = if held & KEY_SPACE != 0 {
        s3.push(CameraMove::Up)
    } else {
        s3
    };
    if held & KEY_LALT != 0 {
        s4.push(CameraMove::Down)
    } else {
        s4
    }
}

impl GameplayControl {
    /// The state of a new gameplay page.
    pub fn new() -> (c: Self)
        ensures
            c.crosshair_pos is None,
            !c.ctrl_pressed,
            !c.has_last_pointer,
            c.camera_adjustable,
            c.held_keys == 0,
            !c.camera_dirty,
    {
        GameplayControl {
            crosshair_pos: None,
            ctrl_pressed: false,
            has_last_pointer: false,
            camera_adjustable: true,
            held_keys: 0,
            camera_dirty: false,
        }
    }

    fn toggle(&mut self, mode: CameraMode, has_state: bool) -> (s: GameplayStep)
        ensures
            (*final(self), s) == toggled(*old(self), mode, has_state),
    {
        if !has_state {
            return GameplayStep {
                new_mode: None,
                orbit: false,
                remember_pointer: false,
                forget_pointer: false,
                track_pointer: false,
                adjust_fov: false,
                open_menu: false,
                to_ui: false,
            };
        }
        let nm = match mode {
            CameraMode::Playing => CameraMode::Adjusting,
            CameraMode::Adjusting => CameraMode::Playing,
        };
        let back = nm == CameraMode::Playing;
        if back {
            self.has_last_pointer = false;
        }
        self.held_keys = 0;
        GameplayStep {
            new_mode: Some(nm),
            orbit: false,
            remember_pointer: false,
            forget_pointer: back,
            track_pointer: false,
            adjust_fov: false,
            open_menu: false,
            to_ui: false,
        }
    }

    /// Handles one input of the gameplay page in camera mode `mode`;
    /// `has_state` tells whether the gameplay state exists.
    pub fn handle(&mut self, input: &PageInput, mode: CameraMode, has_state: bool) -> (s: GameplayStep)
        ensures
            (*final(self), s) == gameplay_step(*old(self), *input, mode, has_state),
    {
        let play = mode == CameraMode::Playing;
        let none = GameplayStep {
            new_mode: None,
            orbit: false,
            remember_pointer: false,
            forget_pointer: false,
            track_pointer: false,
            adjust_fov: false,
            open_menu: false,
            to_ui: false,
        };
        match input {
            PageInput::CursorMoved { x, y } => {
                if !play {
                    let orbit = self.has_last_pointer && has_state;
                    if orbit {
                        self.camera_dirty = true;
                    }
                    self.has_last_pointer = true;
                    self.crosshair_pos = Some((*x, *y));
                    GameplayStep { orbit, remember_pointer: true, ..none }
                } else {
                    self.crosshair_pos = Some((*x, *y));
                    GameplayStep { track_pointer: has_state, to_ui: true, ..none }
                }
            },
            PageInput::Modifiers { ctrl } => {
                self.ctrl_pressed = *ctrl;
                GameplayStep { to_ui: play, ..none }
            },
            PageInput::Key { pressed, key } => {
                let pressed = *pressed;
                let key = *key;
                if key == KeyName::ControlLeft || key == KeyName::ControlRight {
                    self.ctrl_pressed = pressed;
                    none
                } else if pressed && self.ctrl_pressed && key == KeyName::Digit1 && self.camera_adjustable {
                    self.toggle(mode, has_state)
                } else if play {
                    if pressed && key == KeyName::Escape {
                        GameplayStep { open_menu: true, ..none }
                    } else {
                        GameplayStep { to_ui: true, ..none }
                    }
                } else if pressed && key == KeyName::Escape {
                    self.toggle(mode, has_state)
                } else {
                    let bit: u8 = match key {
                        KeyName::KeyW => KEY_W,
                        KeyName::KeyS => KEY_S,
                        KeyName::KeyA => KEY_A,
                        KeyName::KeyD => KEY_D,
                        KeyName::Space => KEY_SPACE,
                        KeyName::AltLeft => KEY_LALT,
                        _ => 0,
                    };
                    if bit != 0 {
                        if pressed {
                            self.held_keys = self.held_keys | bit;
                        } else {
                            self.held_keys = self.held_keys & !bit;
                        }
                    }
                    none
                }
            },
            PageInput::Wheel { by_lines } => {
                let fov = *by_lines && !play && has_state;
                if fov {
                    self.camera_dirty = true;
                }
                GameplayStep { adjust_fov: fov, to_ui: play, ..none }
            },
            _ => GameplayStep { to_ui: play, ..none },
        }
    }

    /// The camera moves of one frame: those of the held keys while adjusting
    /// the camera of an existing gameplay state; any move marks the camera changed.
    pub fn frame_moves(&mut self, mode: CameraMode, has_state: bool) -> (moves: Vec<CameraMove>)
        ensures
            moves@ == (if old(self).held_keys != 0 && has_state && mode == CameraMode::Adjusting {
                moves_of(old(self).held_keys)
            } else {
                Seq::empty()
            }),
            final(self).camera_dirty == (old(self).camera_dirty || moves@.len() > 0),
            final(self).held_keys == old(self).held_keys,
            final(self).crosshair_pos == old(self).crosshair_pos,
            final(self).ctrl_pressed == old(self).ctrl_pressed,
            final(self).has_last_pointer == old(self).has_last_pointer,
            final(self).camera_adjustable == old(self).camera_adjustable,
    {
        let mut moves: Vec<CameraMove> = Vec::new();
        if self.held_keys != 0 && has_state && mode == CameraMode::Adjusting {
            let h = self.held_keys;
            if h & KEY_W != 0 {
                moves.push(CameraMove::Forward);
            }
            if h & KEY_S != 0 {
                moves.push(CameraMove::Back);
            }
            if h & KEY_A != 0 {
                moves.push(CameraMove::Left);
            }
            if h & KEY_D != 0 {
                moves.push(CameraMove::Right);
            }
            if h & KEY_SPACE != 0 {
                moves.push(CameraMove::Up);
            }
            if h & KEY_LALT != 0 {
                moves.push(CameraMove::Down);
            }
            assert(moves@ =~= moves_of(h));
            if moves.len() > 0 {
                self.camera_dirty = true;
            }
        } else {
            assert(moves@ =~= Seq::<CameraMove>::empty());
        }
        moves
    }

    /// Whether leaving the page saves the camera (it may be adjusted and it
    /// changed); the camera then counts as saved.
    pub fn on_destroy(&mut self) -> (save: bool)
        ensures
            save == (old(self).camera_adjustable && old(self).camera_dirty),
            save ==> !final(self).camera_dirty,
            !save ==> final(self).camera_dirty == old(self).camera_dirty,
            final(self).held_keys == old(self).held_keys,
            final(self).crosshair_pos == old(self).crosshair_pos,
    {
        if self.camera_adjustable && self.camera_dirty {
            self.camera_dirty = false;
            true
        } else {
            false
        }
    }

    /// Draws the crosshair, when the pointer has moved, as two green arms.
    pub fn draw_crosshair(&self, renderer: &mut UIRenderer)
        requires
            self.crosshair_pos matches Some(p) ==> -2147483600 <= p.0 <= 2147483600 && -2147483600
                <= p.1 <= 2147483600,
        ensures
            final(renderer)@ == crosshair_drawn(self.crosshair_pos, old(renderer)@),
    {
        match self.crosshair_pos {
            Some((cx, cy)) => {
                renderer.draw_rect(
                    cx - CROSSHAIR_HALF,
                    cy - CROSSHAIR_THICK / 2,
                    CROSSHAIR_HALF * 2,
                    CROSSHAIR_THICK,
                    (0, 255, 128, 220),
                );
                renderer.draw_rect(
                    cx - CROSSHAIR_THICK / 2,
                    cy - CROSSHAIR_HALF,
                    CROSSHAIR_THICK,
                    CROSSHAIR_HALF * 2,
                    (0, 255, 128, 220),
                );
            },
            None => {},
        }
    }
}

/// With a control key held and camera adjustment allowed, Ctrl+1 switches
/// the camera mode and releases every movement key (forgetting the pointer
/// when it switches back to playing); pressing it twice comes back to the
/// mode it started from.
pub proof fn law_toggle_twice_restores_mode(c: GameplayControl, mode: CameraMode)
    requires
        c.ctrl_pressed,
        c.camera_adjustable,
    ensures
        ({
            let ctrl_1 = PageInput::Key { pressed: true, key: KeyName::Digit1 };
            let first = gameplay_step(c, ctrl_1, mode, true);
            let second = gameplay_step(first.0, ctrl_1, first.1.new_mode.unwrap(), true);
            &&& first.1.new_mode == Some(flipped(mode))
            &&& first.0.held_keys == 0
            &&& flipped(mode) == CameraMode::Playing ==> !first.0.has_last_pointer && first.1.forget_pointer
            &&& second.1.new_mode == Some(mode)
            &&& second.0.held_keys == 0
        }),
{
}

/// Each held movement key gives its own move and no other key gives it:
/// W forward, S back, A left, D right, Space up, left Alt down; a frame's
/// moves come in that order, one for each held key.
pub proof fn law_each_key_moves_its_own_way(held: u8)
    ensures
        moves_of(held).contains(CameraMove::Forward) == (held & KEY_W != 0),
        moves_of(held).contains(CameraMove::Back) == (held & KEY_S != 0),
        moves_of(held).contains(CameraMove::Left) == (held & KEY_A != 0),
        moves_of(held).contains(CameraMove::Right) == (held & KEY_D != 0),
        moves_of(held).contains(CameraMove::Up) == (held & KEY_SPACE != 0),
        moves_of(held).contains(CameraMove::Down) == (held & KEY_LALT != 0),
        moves_of(KEY_W) == seq![CameraMove::Forward],
        moves_of(KEY_S) == seq![CameraMove::Back],
        moves_of(KEY_A) == seq![CameraMove::Left],
        moves_of(KEY_D) == seq![CameraMove::Right],
        moves_of(KEY_SPACE) == seq![CameraMove::Up],
        moves_of(KEY_LALT) == seq![CameraMove::Down],
{
    let w = held & KEY_W != 0;
    let s = held & KEY_S != 0;
    let a = held & KEY_A != 0;
    let d = held & KEY_D != 0;
    let u = held & KEY_SPACE != 0;
    let l = held & KEY_LALT != 0;
    let s0: Seq<CameraMove> = if w { seq![CameraMove::Forward] } else { seq![] };
    let s1 = if s { s0.push(CameraMove::Back) } else { s0 };
    let s2 = if a { s1.push(CameraMove::Left) } else { s1 };
    let s3 = if d { s2.push(CameraMove::Right) } else { s2 };
    let s4 = if u { s3.push(CameraMove::Up) } else { s3 };
    let s5 = if l { s4.push(CameraMove::Down) } else { s4 };
    assert(moves_of(held) == s5);
    assert forall|m: CameraMove| #[trigger] s5.contains(m) <==> ((m == CameraMove::Forward && w) || (m
        == CameraMove::Back && s) || (m == CameraMove::Left && a) || (m == CameraMove::Right && d) || (m
        == CameraMove::Up && u) || (m == CameraMove::Down && l)) by {
        if s5.contains(m) {
            let k = choose|k: int| 0 <= k < s5.len() && s5[k] == m;
        }
        if m == CameraMove::Forward && w {
            assert(s5[0] == m);
        }
        if m == CameraMove::Back && s {
            assert(s1[s1.len() - 1] == m);
            assert(s5[s1.len() - 1] == m);
        }
        if m == CameraMove::Left && a {
            assert(s5[s2.len() - 1] == m);
        }
        if m == CameraMove::Right && d {
            assert(s5[s3.len() - 1] == m);
        }
        if m == CameraMove::Up && u {
            assert(s5[s4.len() - 1] == m);
        }
        if m == CameraMove::Down && l {
            assert(s5[s5.len() - 1] == m);
        }
    }
    assert(KEY_W & KEY_W != 0u8 && KEY_W & KEY_S == 0u8 && KEY_W & KEY_A == 0u8 && KEY_W & KEY_D == 0u8 && KEY_W & KEY_SPACE == 0u8
        && KEY_W & KEY_LALT == 0u8) by (bit_vector);
    assert(seq![CameraMove::Forward] =~= moves_of(KEY_W));
    assert(KEY_S & KEY_S != 0u8 && KEY_S & KEY_W == 0u8 && KEY_S & KEY_A == 0u8 && KEY_S & KEY_D == 0u8 && KEY_S & KEY_SPACE == 0u8
        && KEY_S & KEY_LALT == 0u8) by (bit_vector);
    assert(seq![CameraMove::Back] =~= moves_of(KEY_S));
    assert(KEY_A & KEY_A != 0u8 && KEY_A & KEY_W == 0u8 && KEY_A & KEY_S == 0u8 && KEY_A & KEY_D == 0u8 && KEY_A & KEY_SPACE == 0u8
        && KEY_A & KEY_LALT == 0u8) by (bit_vector);
    assert(seq![CameraMove::Left] =~= moves_of(KEY_A));
    assert(KEY_D & KEY_D != 0u8 && KEY_D & KEY_W == 0u8 && KEY_D & KEY_S == 0u8 && KEY_D & KEY_A == 0u8 && KEY_D & KEY_SPACE == 0u8
        && KEY_D & KEY_LALT == 0u8) by (bit_vector);
    assert(seq![CameraMove::Right] =~= moves_of(KEY_D));
    assert(KEY_SPACE & KEY_SPACE != 0u8 && KEY_SPACE & KEY_W == 0u8 && KEY_SPACE & KEY_S == 0u8 && KEY_SPACE & KEY_A == 0u8 && KEY_SPACE
        & KEY_D == 0u8 && KEY_SPACE & KEY_LALT == 0u8) by (bit_vector);
    assert(seq![CameraMove::Up] =~= moves_of(KEY_SPACE));
    assert(KEY_LALT & KEY_LALT != 0u8 && KEY_LALT & KEY_W == 0u8 && KEY_LALT & KEY_S == 0u8 && KEY_LALT & KEY_A == 0u8 && KEY_LALT
        & KEY_D == 0u8 && KEY_LALT & KEY_SPACE == 0u8) by (bit_vector);
    assert(seq![CameraMove::Down] =~= moves_of(KEY_LALT));
}

/// The draw list after the crosshair at `pos` (if any) is drawn.
pub open spec fn crosshair_drawn(pos: Option<(i32, i32)>, r: RendererView) -> RendererView {
    match pos {
        Some(p) => r.with_rect(
            (p.0 - 12) as i32,
            (p.1 - 1) as i32,
            24,
            2,
            (0, 255, 128, 220),
        ).with_rect((p.0 - 1) as i32, (p.1 - 12) as i32, 2, 24, (0, 255, 128, 220)),
        None => r,
    }
}

/// The menu button of the gameplay page.
pub open spec fn game_menu_button(icon: Option<ImageData>) -> ComponentView {
    ComponentView {
        name: Some("menu_btn"@),
        handler_key: GAME_MENU,
        ..tuned_view(
            image_button_view("assets/ui/menu_button.svg"@, icon, ""@, 16, 16, 44, 44, 18, 0),
            Constraintable::Unconstrained,
            Constraintable::Unconstrained,
            0,
            0,
        )
    }
}

/// Builds the gameplay page's tree: the menu button in the top-left corner.
pub fn build_gameplay(root: &mut ComponentBase, icon: Option<ImageData>)
    ensures
        final(root)@ == (ComponentView { children: old(root)@.children.push(game_menu_button(icon)), ..old(root)@ }),
{
    let b = keyed(
        named(
            tuned(
                ImageButton::new("assets/ui/menu_button.svg", icon, "", 16, 16, 44, 44, 18, 0),
                Constraintable::Unconstrained,
                Constraintable::Unconstrained,
                0,
                0,
            ),
            "menu_btn",
        ),
        GAME_MENU,
    );
    let ghost before = *root;
    root.children.push(b);
    proof {
        assert(view_of(*root).children =~= view_of(before).children.push(view_of(b)));
    }
}

/// The gameplay page's answer to a handler call: the menu button opens the menu.
pub fn gameplay_handle(e: &Emission) -> (o: HandlerOutcome)
    ensures
        click_of(emission_view(*e), GAME_MENU) ==> !o.go_on && o.requests@ == seq![NavRequest::Push(PageKind::Menu)],
        !click_of(emission_view(*e), GAME_MENU) ==> o.go_on && o.requests@.len() == 0,
        !o.exit,
{
    let hit = match e {
        Emission::Handler { key, kind } => *key == GAME_MENU && *kind == crate::events::HandlerKind::MouseClick,
        _ => false,
    };
    if hit {
        HandlerOutcome { go_on: false, requests: vec![NavRequest::Push(PageKind::Menu)], exit: false }
    } else {
        HandlerOutcome { go_on: true, requests: Vec::new(), exit: false }
    }
}

// ---------------------------------------------------------------------------
// snapshots of the gameplay geometry

/// Bytes of `v` in little-endian order.
pub open spec fn le_bytes(v: u32) -> Seq<u8> {
    seq![(v % 256) as u8, ((v / 256) % 256) as u8, ((v / 65536) % 256) as u8, (v / 16777216) as u8]
}

/// Side of the grid each surface triangle is subdivided into.
pub const SUB_GRID_SIZE: u32 = 6;

/// One frame of gameplay geometry, ready for the compute pipelines.
pub struct PrecomputedGeometry {
    /// Vertex bytes of the coarse surface.
    pub coarse_verts: Vec<u8>,
    /// Three indices per coarse triangle.
    pub coarse_indices: Vec<u32>,
    pub coarse_tri_count: u32,
    /// The column-major view-projection matrix as sixteen little-endian `f32`.
    pub view_proj: [u8; 64],
    /// Vertex bytes of the judgement grid lines.
    pub line_endpoints: Vec<u8>,
    pub line_count: u32,
    /// The camera position as three little-endian `f32`.
    pub camera_eye: [u8; 12],
}

/// Data of one frame of compute-shader rendering of the gameplay surface.
pub struct ComputeSnapshot {
    pub vertex_data: Vec<u8>,
    pub indices: Vec<u32>,
    pub uniform_data: Vec<u8>,
    pub triangle_count: u32,
}

impl ComputeSnapshot {
    /// A snapshot with nothing to compute.
    pub fn empty() -> (s: Self)
        ensures
            s.vertex_data@.len() == 0,
            s.indices@.len() == 0,
            s.uniform_data@.len() == 0,
            s.triangle_count == 0,
    {
        ComputeSnapshot { vertex_data: Vec::new(), indices: Vec::new(), uniform_data: Vec::new(), triangle_count: 0 }
    }
}

fn push_le(out: &mut Vec<u8>, v: u32)
    ensures
        final(out)@ == old(out)@ + le_bytes(v),
{
    out.push((v % 256) as u8);
    out.push(((v / 256) % 256) as u8);
    out.push(((v / 65536) % 256) as u8);
    out.push((v / 16777216) as u8);
    assert(out@ =~= old(out)@ + le_bytes(v));
}

fn push_all_bytes<const N: usize>(out: &mut Vec<u8>, src: &[u8; N])
    ensures
        final(out)@ == old(out)@ + src@,
{
    let n = N;
    assert(src@.len() == N);
    let mut i: usize = 0;
    while i < n
        invariant
            i <= n == src@.len(),
            out@ == old(out)@ + src@.take(i as int),
        decreases n - i,
    {
        out.push(src[i]);
        assert(src@.take(i + 1) =~= src@.take(i as int).push(src@[i as int]));
        assert(old(out)@ + src@.take(i + 1) =~= (old(out)@ + src@.take(i as int)).push(src@[i as int]));
        i = i + 1;
    }
    assert(src@.take(n as int) =~= src@);
}

/// The uniform block of the surface pipeline: view-projection, camera
/// position, four bytes of padding, triangle count, grid size, and the
/// screen size as the bit patterns of two `f32`.
pub open spec fn surface_uniform(geo: PrecomputedGeometry, w_bits: u32, h_bits: u32) -> Seq<u8> {
    geo.view_proj@ + geo.camera_eye@ + le_bytes(0) + le_bytes(geo.coarse_tri_count) + le_bytes(
        SUB_GRID_SIZE,
    ) + le_bytes(w_bits) + le_bytes(h_bits)
}

/// The uniform block of the line pipeline: view-projection, line count, four
/// zero bytes, and the screen width and height.
pub open spec fn lines_uniform(geo: PrecomputedGeometry, w: u32, h: u32) -> Seq<u8> {
    geo.view_proj@ + le_bytes(geo.line_count) + le_bytes(0) + le_bytes(w) + le_bytes(h)
}

/// The surface snapshot of `geo` for a screen whose size, as `f32`, has the
/// bit patterns `w_bits` and `h_bits`.
pub fn finalize_snapshot(geo: &PrecomputedGeometry, w_bits: u32, h_bits: u32) -> (s: ComputeSnapshot)
    ensures
        s.vertex_data@ == geo.coarse_verts@,
        s.indices@ == geo.coarse_indices@,
        s.uniform_data@ == surface_uniform(*geo, w_bits, h_bits),
        s.uniform_data@.len() == 96,
        s.triangle_count == geo.coarse_tri_count,
{
    let mut u: Vec<u8> = Vec::new();
    push_all_bytes(&mut u, &geo.view_proj);
    push_all_bytes(&mut u, &geo.camera_eye);
    push_le(&mut u, 0);
    push_le(&mut u, geo.coarse_tri_count);
    push_le(&mut u, SUB_GRID_SIZE);
    push_le(&mut u, w_bits);
    push_le(&mut u, h_bits);
    assert(u@ =~= surface_uniform(*geo, w_bits, h_bits));
    ComputeSnapshot {
        vertex_data: crate::types::clone_bytes(&geo.coarse_verts),
        indices: crate::types::clone_u32s(&geo.coarse_indices),
        uniform_data: u,
        triangle_count: geo.coarse_tri_count,
    }
}

/// The line vertices, line count and uniform block of the judgement grid of `geo`.
pub fn compute_lines_snapshot(geo: &PrecomputedGeometry, screen_w: u32, screen_h: u32) -> (r: (Vec<u8>, u32, Vec<u8>))
    ensures
        r.0@ == geo.line_endpoints@,
        r.1 == geo.line_count,
        r.2@ == lines_uniform(*geo, screen_w, screen_h),
        r.2@.len() == 80,
{
    let mut u: Vec<u8> = Vec::new();
    push_all_bytes(&mut u, &geo.view_proj);
    push_le(&mut u, geo.line_count);
    push_le(&mut u, 0);
    push_le(&mut u, screen_w);
    push_le(&mut u, screen_h);
    assert(u@ =~= lines_uniform(*geo, screen_w, screen_h));
    (crate::types::clone_bytes(&geo.line_endpoints), geo.line_count, u)
}

/// The surface snapshot of the latest geometry, or an empty one before the first.
pub fn latest_snapshot(latest: Option<&PrecomputedGeometry>, w_bits: u32, h_bits: u32) -> (s: ComputeSnapshot)
    ensures
        latest matches Some(g) ==> s.vertex_data@ == g.coarse_verts@ && s.indices@ == g.coarse_indices@
            && s.uniform_data@ == surface_uniform(*g, w_bits, h_bits) && s.triangle_count == g.coarse_tri_count,
        latest is None ==> s.vertex_data@.len() == 0 && s.indices@.len() == 0 && s.uniform_data@.len()
            == 0 && s.triangle_count == 0,
{
    match latest {
        Some(g) => finalize_snapshot(g, w_bits, h_bits),
        None => ComputeSnapshot::empty(),
    }
}

/// The judgement grid snapshot of the latest geometry, or nothing before the first.
pub fn latest_compute_lines_snapshot(latest: Option<&PrecomputedGeometry>, screen_w: u32, screen_h: u32) -> (r: (
    Vec<u8>,
    u32,
    Vec<u8>,
))
    ensures
        latest matches Some(g) ==> r.0@ == g.line_endpoints@ && r.1 == g.line_count && r.2@ == lines_uniform(
            *g,
            screen_w,
            screen_h,
        ),
        latest is None ==> r.0@.len() == 0 && r.1 == 0 && r.2@.len() == 0,
{
    match latest {
        Some(g) => compute_lines_snapshot(g, screen_w, screen_h),
        None => (Vec::new(), 0, Vec::new()),
    }
}

} // verus!
