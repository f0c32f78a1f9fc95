use crate::binxml::deserializer::{position_of, spec_fragment, BinXmlDeserializer};
use crate::err::EvtxError;
use crate::model::deserialized::{tokens_view, BinXMLDeserializedTokens};
use vstd::prelude::*;

pub mod assemble;
pub mod deserializer;
pub mod model;
pub mod name;
pub mod text;
pub mod tokens;
pub mod value_variant;

verus! {

/// Decodes the binary XML fragment that starts at `offset` in `data`: its
/// tokens up to and with the end-of-stream token. Names are decoded where
/// they are stored, without any cache.
pub fn parse_binxml(data: &[u8], offset: u64) -> (r: Result<Vec<BinXMLDeserializedTokens>, EvtxError>)
    ensures
        match spec_fragment(data@, position_of(offset) as int, None) {
            Ok((tokens, _)) => r is Ok && tokens_view(r.unwrap()@) == tokens,
            Err(e) => r == Err::<Vec<BinXMLDeserializedTokens>, EvtxError>(e),
        },
{
    BinXmlDeserializer::init_without_cache(data, offset).read_binxml_fragment(None)
}

} // verus!
