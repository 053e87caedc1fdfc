//! What the application loop does for each window event, and the page
//! properties it asks for.
use vstd::prelude::*;

use crate::pages::PageKind;
use crate::router::RunMode;

verus! {

/// The window events the loop tells apart.
#[derive(Debug, Clone, Copy, PartialEq, Eq, Structural)]
pub enum WindowEventKind {
    CloseRequested,
    Resized,
    RedrawRequested,
    /// Pointer motion, a button, the wheel, a key, or the modifier keys.
    Input,
    Other,
}

/// One step the application performs for a window event, in order.
#[derive(Debug, Clone, Copy, PartialEq, Eq, Structural)]
pub enum LoopAction {
    /// Leave the event loop.
    Exit,
    /// Resize the surface and lay the top page out for the new size.
    Resize,
    /// Note the time of this frame and draw it.
    Render,
    /// Dispatch the event to the top page.
    Dispatch,
    /// If a page asked to quit, leave the event loop and stop here.
    ExitIfRequested,
    /// Ask the window for another frame.
    RequestRedraw,
    /// Ask for another frame if a frame period has passed since the last one.
    RedrawIfDue,
    /// Sleep until the next event.
    Wait,
    /// Keep the loop spinning.
    Poll,
}

/// The steps for an event of kind `kind` in run mode `mode`.
pub open spec fn loop_actions(mode: RunMode, kind: WindowEventKind) -> Seq<LoopAction> {
    let head: Seq<LoopAction> = match kind {
        WindowEventKind::CloseRequested => seq![LoopAction::Exit],
        WindowEventKind::Resized => seq![LoopAction::Resize, LoopAction::RequestRedraw],
        WindowEventKind::RedrawRequested => if mode == RunMode::Vsync {
            seq![LoopAction::Render, LoopAction::RequestRedraw]
        } else if mode == RunMode::Event {
            seq![LoopAction::Render, LoopAction::Wait]
        } else {
            seq![LoopAction::Render]
        },
        WindowEventKind::Input => if mode == RunMode::Event {
            seq![LoopAction::Dispatch, LoopAction::ExitIfRequested, LoopAction::RequestRedraw]
        } else {
            seq![LoopAction::Dispatch, LoopAction::ExitIfRequested]
        },
        WindowEventKind::Other => seq![],
    };
    let fps: Seq<LoopAction> = if mode == RunMode::Fps {
        seq![LoopAction::RedrawIfDue]
    } else {
        seq![]
    };
    let poll: Seq<LoopAction> = if mode == RunMode::Fps || mode == RunMode::Vsync {
        seq![LoopAction::Poll]
    } else {
        seq![]
    };
    head + fps + poll
}

/// The steps the application performs for a window event, given the run
/// mode in force when it arrived.
pub fn window_actions(mode: RunMode, kind: WindowEventKind) -> (acts: Vec<LoopAction>)
    ensures
        acts@ == loop_actions(mode, kind),
{
    let mut acts: Vec<LoopAction> = Vec::new();
    match kind {
        WindowEventKind::CloseRequested => {
            acts.push(LoopAction::Exit);
        },
        WindowEventKind::Resized => {
            acts.push(LoopAction::Resize);
            acts.push(LoopAction::RequestRedraw);
        },
        WindowEventKind::RedrawRequested => {
            acts.push(LoopAction::Render);
            if mode == RunMode::Vsync {
                acts.push(LoopAction::RequestRedraw);
            } else if mode == RunMode::Event {
                acts.push(LoopAction::Wait);
            }
        },
        WindowEventKind::Input => {
            acts.push(LoopAction::Dispatch);
            acts.push(LoopAction::ExitIfRequested);
            if mode == RunMode::Event {
                acts.push(LoopAction::RequestRedraw);
            }
        },
        WindowEventKind::Other => {},
    }
    if mode == RunMode::Fps {
        acts.push(LoopAction::RedrawIfDue);
    }
    if mode == RunMode::Fps || mode == RunMode::Vsync {
        acts.push(LoopAction::Poll);
    }
    proof {
        let l = loop_actions(mode, kind);
        assert(acts@ =~= l);
    }
    acts
}

/// The run mode the loop takes while a page of kind `k` is on top.
pub open spec fn mode_of(k: PageKind) -> RunMode {
    if k == PageKind::Gameplay {
        RunMode::Vsync
    } else {
        RunMode::Event
    }
}

impl PageKind {
    /// Whether the page covers everything below it, so that pages below need not be drawn.
    pub fn full_shadow_promise(self) -> (r: bool)
        ensures
            r == (self != PageKind::Menu),
    {
        match self {
            PageKind::Menu => false,
            _ => true,
        }
    }

    /// The run mode the loop takes when the page comes on top.
    pub fn initial_mode(self) -> (m: RunMode)
        ensures
            m == mode_of(self),
    {
        match self {
            PageKind::Gameplay => RunMode::Vsync,
            _ => RunMode::Event,
        }
    }
}

/// Whether `c` counts as a full-width character when estimating text width
/// (CJK ideographs, CJK punctuation, full-width forms).
pub open spec fn wide_spec(c: char) -> bool {
    ||| ('\u{4E00}' <= c <= '\u{9FFF}')
    ||| ('\u{3000}' <= c <= '\u{303F}')
    ||| ('\u{FF00}' <= c <= '\u{FFEF}')
}

/// Whether `c` is estimated as wide as the font size (otherwise 0.55 of it).
pub fn is_wide_char(c: char) -> (r: bool)
    ensures
        r == wide_spec(c),
{
    ('\u{4E00}' <= c && c <= '\u{9FFF}') || ('\u{3000}' <= c && c <= '\u{303F}') || ('\u{FF00}' <= c
        && c <= '\u{FFEF}')
}

} // verus!
