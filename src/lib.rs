//! Discovery, parsing, deduplication and classification of application
//! launcher descriptors (`.desktop` files), with each step's contract proved.
//!
//! The caller reads the environment and the files; the library decides which
//! directories to search, what each descriptor yields, which record survives
//! for each application, the order of the final list, and its categories.

pub mod category;
pub mod collect;
pub mod dirs;
pub mod entry;
pub mod exec;
pub mod laws;
pub mod locale;
pub mod order;
pub mod text;
