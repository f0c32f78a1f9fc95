use crate::binxml::name::{spec_name_record, BinXmlName};
use crate::err::EvtxError;
use crate::stream::ByteCursor;
use crate::table::{found_at, found_at_first, lemma_found_at_all, lemma_found_at_next, lemma_found_at_none};
use crate::ChunkOffset;
use std::collections::HashMap;
use vstd::prelude::*;

verus! {

broadcast use vstd::std_specs::hash::group_hash_axioms;

/// A name of the chunk's string table, with the hash stored beside it.
#[derive(Debug, PartialEq)]
pub struct CachedString {
    pub hash: u16,
    pub text: String,
}

impl View for CachedString {
    type V = (u16, Seq<char>);

    open spec fn view(&self) -> (u16, Seq<char>) {
        (self.hash, self.text@)
    }
}

/// The names that a chunk declares in its string table, by their offsets.
#[derive(Debug)]
pub struct StringCache {
    map: HashMap<ChunkOffset, CachedString>,
}

/// What a map of cached names holds, each entry as hash and name.
pub open spec fn entries(map: Map<u32, CachedString>) -> Map<u32, (u16, Seq<char>)> {
    Map::new(|o: u32| map.contains_key(o), |o: u32| map[o]@)
}

/// The hash and the name of the name record at `offset` in `data`, where one
/// decodes there.
pub open spec fn name_at(data: Seq<u8>, offset: u32) -> Option<(u16, Seq<char>)> {
    match spec_name_record(data, offset as int) {
        Ok((entry, _)) => Some(entry),
        Err(_) => None,
    }
}

/// `name_at` for the chunk `data`.
pub open spec fn names_of(data: Seq<u8>) -> spec_fn(u32) -> Option<(u16, Seq<char>)> {
    |offset: u32| name_at(data, offset)
}

/// The string cache of a chunk: the name record at every offset of
/// `offsets` that is not zero and at which a name record decodes.
pub open spec fn populated_strings(data: Seq<u8>, offsets: Seq<u32>) -> Map<u32, (u16, Seq<char>)> {
    found_at(offsets, names_of(data))
}

/// For every offset of the string table that is not zero, the populated
/// cache holds what decoding at that offset gives, and holds nothing where
/// decoding fails.
pub proof fn lemma_string_cache_round_trip(data: Seq<u8>, offsets: Seq<u32>, offset: u32)
    requires
        offsets.contains(offset),
        offset != 0,
    ensures
        match spec_name_record(data, offset as int) {
            Ok((entry, _)) => populated_strings(data, offsets).contains_key(offset)
                && populated_strings(data, offsets)[offset] == entry,
            Err(_) => !populated_strings(data, offsets).contains_key(offset),
        },
{
}

impl StringCache {
    /// The cache as a map from offsets to hash and name.
    pub closed spec fn view(&self) -> Map<u32, (u16, Seq<char>)> {
        entries(self.map@)
    }

    /// A cache that holds nothing.
    pub fn new() -> (r: Self)
        ensures
            r@ == Map::<u32, (u16, Seq<char>)>::empty(),
    {
        let r = StringCache { map: HashMap::new() };
        assert(r@ =~= Map::<u32, (u16, Seq<char>)>::empty());
        r
    }

    /// Decodes the name record at each offset of `offsets` that is not zero.
    /// An offset at which no name decodes is left out.
    pub fn populate(data: &[u8], offsets: &[ChunkOffset]) -> (r: Result<Self, EvtxError>)
        ensures
            r is Ok,
            r.unwrap()@ == populated_strings(data@, offsets@),
    {
        let mut map: HashMap<ChunkOffset, CachedString> = HashMap::new();
        let mut i: usize = 0;
        proof {
            lemma_found_at_none(offsets@, names_of(data@));
            assert(entries(map@) =~= Map::<u32, (u16, Seq<char>)>::empty());
        }
        while i < offsets.len()
            invariant
                i <= offsets.len(),
                entries(map@) == found_at_first(offsets@, i as int, names_of(data@)),
            decreases offsets.len() - i,
        {
            let offset = offsets[i];
            let ghost before = map@;
            proof {
                lemma_found_at_next(offsets@, i as int, names_of(data@));
            }
            if offset > 0 {
                let mut cursor = ByteCursor::new(data, offset as usize);
                match BinXmlName::from_stream(&mut cursor) {
                    Ok((name, hash)) => {
                        let cached = CachedString { hash, text: name.text };
                        map.insert(offset, cached);
                        assert(entries(map@) =~= entries(before).insert(offset, cached@));
                    },
                    Err(_) => {},
                }
            }
            i += 1;
        }
        proof {
            lemma_found_at_all(offsets@, names_of(data@));
        }
        Ok(StringCache { map })
    }

    /// The name cached for `offset`, if there is one.
    pub fn get_string_and_hash(&self, offset: ChunkOffset) -> (r: Option<&CachedString>)
        ensures
            match r {
                Some(c) => self@.contains_key(offset) && self@[offset] == c@,
                None => !self@.contains_key(offset),
            },
    {
        self.map.get(&offset)
    }

    /// How many names the cache holds.
    pub fn len(&self) -> (n: usize)
        ensures
            n == self@.len(),
    {
        assert(self@.dom() =~= self.map@.dom());
        self.map.len()
    }
}

} // verus!
