//! Model statistics, navigation state and response decoding for a terminal
//! monitor of locally installed Ollama models.

pub mod app;
pub mod model;
pub mod text;
pub mod ollama;
pub mod ui;
