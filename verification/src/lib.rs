//! Verified core of a terminal color picker.
//!
//! The library models colors as 8-bit RGB triples and proves the fixed-point
//! conversion math to and from HEX, HSL, HSV and CMYK, the input parser, the
//! navigation state machine and the render-state projector. Terminal painting,
//! configuration files and the system clipboard live outside the core; the
//! clipboard and the configuration directory are reached through small trusted
//! wrappers.

pub mod cli;
pub mod clipboard;
pub mod color;
pub mod config;
pub mod parse;
pub mod render;
pub mod text;
pub mod tui;
pub mod update;
pub mod version;
