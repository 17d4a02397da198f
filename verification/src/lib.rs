//! Core of a multi-file binary comparison tool: positional byte diffing
//! across open files, selection tracking and mirroring, and symbol lookup.

pub mod address;
pub mod bin_file;
pub mod copy_text;
pub mod diff;
pub mod grid;
pub mod hex_view;
pub mod map_text;
pub mod navigation;
pub mod selection;
pub mod symbols;
pub mod text;
pub mod workspace;

pub use bin_file::{BinaryFile, IoError};
pub use diff::DiffEngine;
pub use hex_view::{CursorInfo, CursorState, HexView, PointerEvent, SelectionInfo};
pub use map_text::{MapLine, SymbolEntry};
pub use navigation::KeyInput;
pub use selection::{
    HexViewSelection, HexViewSelectionRange, HexViewSelectionSide, HexViewSelectionState,
};
pub use symbols::{MapError, MapFile, ParseError, ParsePolicy, SymbolTable};
pub use workspace::{GotoModal, Workspace};
