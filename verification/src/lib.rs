//! The logic of Mermaid Quicklook, a live preview of Mermaid diagrams for the Zed editor.

pub mod base;
pub mod command;
pub mod diagram;
pub mod export;
pub mod extension;
pub mod numeral;
pub mod opening;
pub mod path;
pub mod preview;
pub mod refresh;
pub mod render;
pub mod serial;
pub mod server;
pub mod slots;
pub mod text;
pub mod uri;
pub mod uri_set;
