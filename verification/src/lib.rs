//! Reads a line-oriented byte stream backward, from its end toward its
//! start, producing complete lines in reverse order while refilling a
//! fixed-capacity buffer from progressively earlier stream positions.
//!
//! [`RawRevLines`] yields each line as raw bytes; [`RevLines`] decodes each
//! line as UTF-8 text and surfaces a decode failure per line without
//! disturbing the scan.

pub mod error;
pub mod raw;
pub mod split;
pub mod text;

pub use error::RevLinesError;
pub use raw::RawRevLines;
pub use split::{rev_lines_of, forward_lines, split_lines};
pub use text::RevLines;
