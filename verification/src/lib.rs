//! Hexadecimal dump rows: a byte buffer is cut into chunks of a fixed number
//! of bytes, and each chunk is shown as a row of an offset label, a column
//! of two-digit hexadecimal byte values and the same bytes as text.
//!
//! - `window`: which bytes belong to which row, and the cursor over the rows
//! - `hex`: the offset label and the byte tokens
//! - `highlight`: which tokens are highlighted, and with what markup
//! - `text`: the text column
//! - `row`: one row, put together from its parts
//! - `dump`: all rows of a buffer
//! - `cli`: the settings of a run and what the run does with them
//! - `strings`: what is taken on trust of `std`'s strings

pub mod cli;
pub mod dump;
pub mod hex;
pub mod highlight;
pub mod row;
pub mod strings;
pub mod text;
pub mod window;

pub use cli::{process_file, Cli, Plan};
pub use dump::render_rows;
pub use row::format_row;
pub use window::Iteration;
