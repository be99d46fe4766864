//! Renders column names and rows of text as a bordered, column-aligned table.

pub mod color;
pub mod input;
pub mod laws;
pub mod layout;
pub mod render;

pub use color::shown_text;
pub use input::{parse_args, parse_rows, Options};
pub use layout::column_widths;
pub use render::{border_line, format_line, render_table, render_table_with};
