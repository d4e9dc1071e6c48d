//! Building blocks of interactive terminal prompts: Unicode-aware styled
//! text with a layout engine, cursor-bearing editors and lists, and
//! collapsible JSON and generic trees, each with a verified contract.

pub mod checkbox;
pub mod cursor;
pub mod event;
pub mod grapheme;
pub mod json;
pub mod json_laws;
pub mod layout;
pub mod listbox;
pub mod pane;
pub mod preset;
pub mod readline;
pub mod style;
pub mod switcher;
pub mod styled;
pub mod text;
pub mod text_editor;
pub mod tree;
