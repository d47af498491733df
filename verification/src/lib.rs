//! Rendering of one level of a disk-usage tree into a terminal buffer:
//! the children of the viewed directory, ranked by size and each with its
//! share of the level, and a one-line summary below them.
//!
//! The tree is a `petgraph` stable graph and the buffer is that of `tui`,
//! which goes by the symbols and widths of `unicode-segmentation` and
//! `unicode-width`. What is claimed of those crates without proof is marked
//! as such where it is declared, in [`tree`], [`screen`] and [`text`].

pub mod entries;
pub mod footer;
pub mod format;
pub mod percent;
pub mod screen;
pub mod sort_mode;
pub mod sorting;
pub mod text;
pub mod tree;
pub mod window;

pub use crate::entries::{Entries, Row};
pub use crate::footer::Footer;
pub use crate::format::{ByteFormat, DisplayOptions, RawBytes};
pub use crate::screen::Rect;
pub use crate::sort_mode::SortMode;
pub use crate::tree::{EntryData, Tree, TreeIndex};
pub use crate::window::{DisplayState, DrawError, MainWindow, Traversal};
