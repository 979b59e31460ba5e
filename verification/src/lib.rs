//! A local, file-based store for short text documents ("prompts") kept in two
//! fixed collections (`favorites`, `templates`). Each document is one UTF-8
//! file: a small header block of metadata followed by a free-form body.
//!
//! This crate holds the persistence engine itself: the header and document
//! codec, the storage-root resolution rules, the filename derivation, the
//! collection operations and the archive-export naming. All file-system and
//! platform work is left to the caller, which hands plain values in and
//! receives plain values or errors back.
pub mod document;
pub mod error;
pub mod export;
pub mod header;
pub mod ident;
pub mod laws;
pub mod model;
pub mod num;
pub mod paths;
pub mod store;
pub mod text;
pub mod time;

pub use error::AppError;
