//! Core of a terminal chat client: conversation state, key handling,
//! markdown layout and the decoding of streamed replies.

pub mod error;
pub mod stream;
pub mod text;
pub mod turn;
pub mod ui;
