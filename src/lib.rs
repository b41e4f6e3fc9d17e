//! Live log tailing: incremental file tracking, bounded scrollback, themed
//! colorization and an escape-aware text layer for split-pane rendering.

mod chars;
pub mod ansi;
pub mod pattern;
pub mod theme;
pub mod colorizer;
pub mod filter;
pub mod tracker;
pub mod render;
pub mod keys;
pub mod interactive;
pub mod config;
pub mod output;
pub mod lines;
pub mod theme_file;
pub mod session;
pub mod popup;
