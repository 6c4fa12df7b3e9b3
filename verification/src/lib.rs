//! A markup based UI engine.
//!
//! Templates written in an indentation based markup are parsed into component
//! trees, their attributes are resolved through a style cascade, and the
//! resulting components are laid out, hit-tested and rendered through
//! per-component caches that are only redrawn when stale.
//!
//! All lengths are exact fixed-point numbers, see [`geometry`].
pub mod class;
pub mod component;
pub mod error;
pub mod events;
pub mod geometry;
pub mod input;
pub mod layout;
pub mod render;
pub mod scripting;
pub mod template;
pub mod text;
pub mod ui;

mod store;
mod string_map;

pub use component::{Component, ComponentAttributes, ComponentFlow, ComponentView, Docking};
pub use error::{Error, ErrorView};
pub use events::EventSink;
pub use ui::{ComponentId, Context, Tree, Ui};
