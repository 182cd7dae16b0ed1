//! The download pipeline of a Bilibili audio tool, as verified decisions.
//!
//! The crate resolves a BVID into a local MP3 in steps: metadata, a check
//! against the catalog of earlier downloads, the stream address, the segment,
//! the transcoding, and the catalog entry. Everything that touches the
//! network, the disk or the encoder is left to the caller; the crate says
//! what to ask for, reads what came back, and decides what happens next.

pub mod bilibili;
pub mod catalog;
pub mod commands;
pub mod error;
pub mod headers;
pub mod json;
pub mod pipeline;
pub mod text;
