//! Decoding of the binary XML that Windows event logs (EVTX) store in their
//! chunks: the token stream, the per-chunk caches, template expansion and the
//! record model.

use vstd::prelude::*;

pub mod binxml;
pub mod datetime;
pub mod err;
pub mod evtx_chunk;
pub mod evtx_record;
pub mod guid;
pub mod model;
pub mod stream;
pub mod string_cache;
pub mod table;
pub mod template_cache;
pub mod utils;
pub mod xml_output;

verus! {

/// A byte position counted from the start of a chunk.
pub type ChunkOffset = u32;

} // verus!
