use vstd::prelude::*;

verus! {

/// Whether `x` occurs among the first `n` items of `s`.
pub open spec fn among_first(s: Seq<u32>, n: int, x: u32) -> bool {
    exists|j: int| 0 <= j < n && j < s.len() && s[j] == x
}

/// What a table of offsets leads to after its first `n` entries: for every
/// offset among them that is not zero and at which `decode` finds something,
/// what it finds there.
pub open spec fn found_at_first<V>(
    offsets: Seq<u32>,
    n: int,
    decode: spec_fn(u32) -> Option<V>,
) -> Map<u32, V> {
    Map::new(
        |o: u32| o != 0 && among_first(offsets, n, o) && decode(o) is Some,
        |o: u32| decode(o).unwrap(),
    )
}

/// What a table of offsets leads to: for every offset of the table that is
/// not zero and at which `decode` finds something, what it finds there.
pub open spec fn found_at<V>(offsets: Seq<u32>, decode: spec_fn(u32) -> Option<V>) -> Map<u32, V> {
    Map::new(
        |o: u32| o != 0 && offsets.contains(o) && decode(o) is Some,
        |o: u32| decode(o).unwrap(),
    )
}

/// No entries lead to nothing.
pub proof fn lemma_found_at_none<V>(offsets: Seq<u32>, decode: spec_fn(u32) -> Option<V>)
    ensures
        found_at_first(offsets, 0, decode) == Map::<u32, V>::empty(),
{
    assert(found_at_first(offsets, 0, decode) =~= Map::<u32, V>::empty());
}

/// One more entry adds what is found at its offset, if anything is.
pub proof fn lemma_found_at_next<V>(offsets: Seq<u32>, n: int, decode: spec_fn(u32) -> Option<V>)
    requires
        0 <= n < offsets.len(),
    ensures
        found_at_first(offsets, n + 1, decode) == if offsets[n] != 0 && decode(offsets[n]) is Some {
            found_at_first(offsets, n, decode).insert(offsets[n], decode(offsets[n]).unwrap())
        } else {
            found_at_first(offsets, n, decode)
        },
{
    let next = found_at_first(offsets, n + 1, decode);
    let prev = found_at_first(offsets, n, decode);
    let expected = if offsets[n] != 0 && decode(offsets[n]) is Some {
        prev.insert(offsets[n], decode(offsets[n]).unwrap())
    } else {
        prev
    };
    assert forall|o: u32| #[trigger]
        among_first(offsets, n + 1, o) <==> (among_first(offsets, n, o) || o == offsets[n]) by {
        if among_first(offsets, n + 1, o) {
            let j = choose|j: int| 0 <= j < n + 1 && j < offsets.len() && offsets[j] == o;
            if j < n {
                assert(among_first(offsets, n, o));
            }
        }
        if among_first(offsets, n, o) {
            let j = choose|j: int| 0 <= j < n && j < offsets.len() && offsets[j] == o;
            assert(0 <= j < n + 1 && j < offsets.len() && offsets[j] == o);
        }
    }
    assert forall|o: u32| next.contains_key(o) <==> expected.contains_key(o) by {
        assert(among_first(offsets, n + 1, o) <==> (among_first(offsets, n, o) || o == offsets[n]));
    }
    assert(next =~= expected);
}

/// All entries lead to what the whole table leads to.
pub proof fn lemma_found_at_all<V>(offsets: Seq<u32>, decode: spec_fn(u32) -> Option<V>)
    ensures
        found_at_first(offsets, offsets.len() as int, decode) == found_at(offsets, decode),
{
    assert forall|o: u32| among_first(offsets, offsets.len() as int, o) <==> offsets.contains(
        o,
    ) by {
        if offsets.contains(o) {
            let j = choose|j: int| 0 <= j < offsets.len() && offsets[j] == o;
            assert(among_first(offsets, offsets.len() as int, o));
        }
    }
    assert(found_at_first(offsets, offsets.len() as int, decode) =~= found_at(offsets, decode));
}

} // verus!
