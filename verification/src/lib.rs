//! Core runtime of a terminal dashboard host: a layout engine that turns a
//! nested constraint tree into screen rectangles, a topic-based event bus
//! with wildcard matching, a widget lifecycle container and registry, and
//! the bookkeeping of a hot-reloading plugin manager.

pub mod config;
pub mod disk;
pub mod event;
pub mod formatting;
pub mod git;
pub mod layout;
pub mod network;
pub mod plugin;
pub mod process;
pub mod rect;
pub mod registry;
pub mod text;
pub mod widget;
