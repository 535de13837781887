//! Recording folders and media files named by date: decoding their names
//! into a recording moment and a title, and the sidecar metadata built from
//! them.

pub mod calendar;
pub mod grammar;
pub mod text;
pub mod filename;
pub mod dirname;
pub mod sidecar;
pub mod batch;
