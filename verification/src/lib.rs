//! Directory-listing library: metadata enrichment, styled rendering, and a
//! column-layout engine for terminal output.
//!
//! The pipeline goes from raw per-entry metadata (name, mode bits, size,
//! creation date) to normalized [`item::DirectoryItem`] records, which are
//! rendered either as a styled grid wrapped to the terminal width
//! ([`layout`]) or as a detailed one-line-per-item listing ([`render`]).

pub mod item;
pub mod layout;
pub mod render;
pub mod style;
pub mod text;
pub mod utils;

pub use item::{date_string, enrich, enrich_with_system_time, system_time_to_local_date, Date,
    DirectoryItem, MetadataError};
pub use layout::layout;
pub use render::{output, output_with_permissions, render, render_grid, DisplayMode, Filter};
pub use style::{clean_styling, visual_len};
pub use utils::{byte_conv, get_terminal_width, is_file_hidden, mode_to_rwx, width_or_default};
