//! Core logic of a book-library toolchain: filename cleaning, metadata
//! inference, scanning decisions, book units, merging, organisation paths,
//! deduplication and the registry's grouping.
pub mod author;
pub mod cleaner;
pub mod config;
pub mod decision;
pub mod grouping;
pub mod hashing;
pub mod ids;
pub mod laws;
pub mod matching;
pub mod merger;
pub mod metadata;
pub mod organizer;
pub mod paths;
pub mod registry;
pub mod report;
pub mod scanner;
pub mod text;
pub mod tool;
pub mod types;
pub mod unit;
pub mod watch;

pub use tool::{Context, Tool};
