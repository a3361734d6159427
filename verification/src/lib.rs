//! Archiving comics as numbered JPEG files: the rules of the download,
//! without the downloading.
//!
//! The crate decides and computes; it neither sends a request nor touches a
//! file. Its callers hand it what they fetched and read, as plain values,
//! and carry out what it decides:
//!
//! - `catalog` puts the chapters of a catalog page in download order;
//! - `cache` remembers which chapters were downloaded in full;
//! - `fetch` bounds the images in flight, says when a request is repeated
//!   and gathers the failed images of a chapter;
//! - `normalize` turns downloaded bytes into the file to write, a JPEG or a
//!   placeholder;
//! - `orchestrator` leads one chapter through a run;
//! - `antbyw`, `mangadex` and `local` hold what is particular to the two
//!   sites and to work on a local directory tree;
//! - `utils`, `text`, `ordering`, `formats`, `dl_type` and `dispatch` are
//!   what the others are built from.
pub mod antbyw;
pub mod cache;
pub mod catalog;
pub mod dispatch;
pub mod dl_type;
pub mod fetch;
pub mod formats;
pub mod local;
pub mod mangadex;
pub mod normalize;
pub mod ordering;
pub mod orchestrator;
pub mod text;
pub mod utils;
