//! User-interface components: state, key handling and layout.

pub mod chat;
pub mod input_handler;
pub mod layout;
pub mod markdown_renderer;
pub mod renderer;
pub mod spinner;
pub mod state;
pub mod style;

pub use chat::Interface;
pub use state::Action;
