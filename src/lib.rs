//! Core of an interactive coding agent: the conversation model, the decoder
//! for the streamed model response, the context-window manager and the
//! guards around the local tools.

pub mod api;
pub mod text;
pub mod decoder;
pub mod context;
pub mod tools;
pub mod agent;
pub mod session;
