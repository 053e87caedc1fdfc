//! MuseSP user-interface core: a component tree with constraint layout,
//! pointer and keyboard event dispatch, scrollable lists, a clipped draw
//! list, a page router and the page logic of the rhythm game front end.
//!
//! Windowing, GPU work, font shaping, image decoding and file access live in
//! the application crate; this crate holds the decisions and computations
//! that those parts feed and consume.
pub mod app_loop;
pub mod component;
pub mod config;
pub mod document;
pub mod draw;
pub mod events;
pub mod gameplay;
pub mod layout;
pub mod music;
pub mod pages;
pub mod renderer;
pub mod router;
pub mod scroll;
pub mod songs;
pub mod tree;
pub mod widgets;
pub mod types;
