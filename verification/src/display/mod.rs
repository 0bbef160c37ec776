//! The guest's display: its framebuffer and the server that shows it.

pub mod client_input;
pub mod client_messages;
pub mod framebuffer;
pub mod guest_memory;
pub mod ramfb;
pub mod rfb;
pub mod server;
pub mod setup;
pub mod stream;
