//! Domain model and decision logic of the Germinal terminal workspace.

pub mod workspace;
pub mod gshell;
pub mod protocol;
pub mod ports;
pub mod shell_registry;
pub mod terminal_palette;
pub mod text_style;
pub mod rendering;
pub mod runtime;
pub mod host;
