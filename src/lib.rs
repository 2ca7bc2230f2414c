//! A deterministic layout engine for a dot-matrix printer: a fixed 160 by 51
//! character grid, a widget tree that places text on it, and a serializer that
//! turns pages into the printer's control stream.

pub mod cell;
pub mod text;
pub mod error;
pub mod region;
pub mod page;
pub mod escp;
pub mod document;
pub mod widget;
pub mod types;
pub mod errors;
pub mod printer;
pub mod io;
pub mod widgets;

pub use cell::{Cell, StyleFlags};
pub use error::LayoutError;
pub use region::Region;
pub use page::{Page, PageBuilder};
pub use document::{Document, DocumentBuilder};
pub use errors::{PrinterError, ValidationError};
pub use printer::Printer;
