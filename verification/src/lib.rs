//! Verified core of a catalog browsing screen: a tree of rows and thumbnails
//! that is filled in by background fetches and navigated on a 2D grid.
//!
//! The tree owns its nodes: a [`root_widget::RootWidget`] holds the rows, a
//! [`content_set::ContentSet`] holds the cells of one row, a
//! [`thumbnail::Thumbnail`] is one cell. Events enter at the root and are
//! handed down depth-first; every handler records what it asks of the host
//! (animation frames, re-layout, commands, background work) in a context
//! value that the host reads after the pass.
//!
//! Each node has a mathematical value, its view, and each handler is proved
//! to compute the step that a spec function on those values describes. What
//! holds of all runs is proved over those spec functions: in [`selection`]
//! that at most one cell is selected and which one, in [`resolution`] that a
//! node builds its subtree once and only on the result of its own fetch, in
//! [`animation`] how the highlight counter moves.

pub mod animation;
pub mod content_set;
pub mod context;
pub mod event;
pub mod geometry;
pub mod json;
pub mod resolution;
pub mod root_widget;
pub mod selection;
pub mod thumbnail;
