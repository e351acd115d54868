//! Streaming access to the comment entries of a FLAC file.
//!
//! A FLAC file starts with a four-byte signature and a chain of metadata
//! blocks. One of them, the Vorbis comment block, holds `KEY=VALUE` text
//! entries. This crate finds that block without touching the others and
//! walks its entries one by one, decoding each only when it is visited.
//!
//! - [`container`]: the signature, the block headers and the walk along the
//!   chain of blocks.
//! - [`layout`]: where the entries lie in the payload of a comment block.
//! - [`entry`]: what the text of one entry means.
//! - [`position`]: the state of a cursor and how a walk over the entries goes.
//! - [`metaflac_streaming`]: the reader and the cursor.
//! - [`count`]: counting the entries that hold a given value.
//! - [`select`]: which file names are taken for FLAC files.
//! - [`error`]: what can go wrong.

pub mod container;
pub mod count;
pub mod entry;
pub mod error;
pub mod layout;
pub mod metaflac_streaming;
pub mod position;
pub mod select;
