use crate::binxml::tokens::{read_template_definition, spec_template_definition};
use crate::stream::ByteCursor;
use crate::table::{found_at, found_at_first, lemma_found_at_all, lemma_found_at_next, lemma_found_at_none};
use crate::err::EvtxError;
use crate::model::deserialized::BinXMLTemplateDefinition;
use crate::model::token::TemplateDefinition;
use crate::ChunkOffset;
use std::collections::HashMap;
use vstd::prelude::*;

verus! {

broadcast use vstd::std_specs::hash::group_hash_axioms;

/// A template definition as the cache holds it.
pub type CachedTemplate = BinXMLTemplateDefinition;

/// The template definitions that a chunk declares in its template table, by
/// their offsets.
#[derive(Debug)]
pub struct TemplateCache {
    map: HashMap<ChunkOffset, CachedTemplate>,
}

/// The template definition at `offset` in `data`, where one decodes there.
pub open spec fn template_at(data: Seq<u8>, offset: u32) -> Option<TemplateDefinition> {
    match spec_template_definition(data, offset as int) {
        Ok((definition, _)) => Some(definition),
        Err(_) => None,
    }
}

/// `template_at` for the chunk `data`.
pub open spec fn templates_of(data: Seq<u8>) -> spec_fn(u32) -> Option<TemplateDefinition> {
    |offset: u32| template_at(data, offset)
}

/// The template cache of a chunk: the definition at every offset of
/// `offsets` that is not zero and at which a definition decodes.
pub open spec fn populated_templates(data: Seq<u8>, offsets: Seq<u32>) -> Map<
    u32,
    TemplateDefinition,
> {
    found_at(offsets, templates_of(data))
}

/// What a map of cached definitions holds, each as its mathematical value.
pub open spec fn definitions(map: Map<u32, CachedTemplate>) -> Map<u32, TemplateDefinition> {
    Map::new(|o: u32| map.contains_key(o), |o: u32| map[o]@)
}

/// For every offset of the template table that is not zero, the populated
/// cache holds what decoding at that offset gives, and holds nothing where
/// decoding fails.
pub proof fn lemma_template_cache_round_trip(data: Seq<u8>, offsets: Seq<u32>, offset: u32)
    requires
        offsets.contains(offset),
        offset != 0,
    ensures
        match spec_template_definition(data, offset as int) {
            Ok((definition, _)) => populated_templates(data, offsets).contains_key(offset)
                && populated_templates(data, offsets)[offset] == definition,
            Err(_) => !populated_templates(data, offsets).contains_key(offset),
        },
{
}

impl TemplateCache {
    /// The cache as a map from offsets to definitions.
    pub closed spec fn view(&self) -> Map<u32, TemplateDefinition> {
        definitions(self.map@)
    }

    /// A cache that holds nothing.
    pub fn new() -> (r: Self)
        ensures
            r@ == Map::<u32, TemplateDefinition>::empty(),
    {
        let r = TemplateCache { map: HashMap::new() };
        assert(r@ =~= Map::<u32, TemplateDefinition>::empty());
        r
    }

    /// Decodes the template definition at each offset of `offsets` that is
    /// not zero. An offset at which no definition decodes is left out.
    pub fn populate(data: &[u8], offsets: &[ChunkOffset]) -> (r: Result<Self, EvtxError>)
        ensures
            r is Ok,
            r.unwrap()@ == populated_templates(data@, offsets@),
    {
        let mut map: HashMap<ChunkOffset, CachedTemplate> = HashMap::new();
        let mut i: usize = 0;
        proof {
            lemma_found_at_none(offsets@, templates_of(data@));
            assert(definitions(map@) =~= Map::<u32, TemplateDefinition>::empty());
        }
        while i < offsets.len()
            invariant
                i <= offsets.len(),
                definitions(map@) == found_at_first(offsets@, i as int, templates_of(data@)),
            decreases offsets.len() - i,
        {
            let offset = offsets[i];
            let ghost before = map@;
            proof {
                lemma_found_at_next(offsets@, i as int, templates_of(data@));
            }
            if offset > 0 {
                let mut cursor = ByteCursor::new(data, offset as usize);
                match read_template_definition(&mut cursor, None) {
                    Ok(definition) => {
                        let ghost found = definition@;
                        map.insert(offset, definition);
                        assert(definitions(map@) =~= definitions(before).insert(offset, found));
                    },
                    Err(_) => {},
                }
            }
            i += 1;
        }
        proof {
            lemma_found_at_all(offsets@, templates_of(data@));
        }
        Ok(TemplateCache { map })
    }

    /// The definition cached for `offset`, if there is one.
    pub fn get_template(&self, offset: ChunkOffset) -> (r: Option<&CachedTemplate>)
        ensures
            match r {
                Some(t) => self@.contains_key(offset) && self@[offset] == t@,
                None => !self@.contains_key(offset),
            },
    {
        self.map.get(&offset)
    }

    /// How many definitions the cache holds.
    pub fn len(&self) -> (n: usize)
        ensures
            n == self@.len(),
    {
        assert(self@.dom() =~= self.map@.dom());
        self.map.len()
    }
}

} // verus!
