//! Laws of the correlation tables, stated over their mathematical model.

use vstd::prelude::*;
use crate::table::{distinct_keys, has_key, lemma_remove_entry, remove_entry};

verus! {

/// The table after a run of responses has each resolved its own entry, in
/// order of arrival.
pub open spec fn resolve_all<K, V>(s: Seq<(K, V)>, ids: Seq<K>) -> Seq<(K, V)>
    decreases ids.len(),
{
    if ids.len() == 0 {
        s
    } else {
        resolve_all(remove_entry(s, ids[0]), ids.drop_first())
    }
}

/// Resolution invents no entries: a key pending after a run of resolutions
/// was pending before it, and distinctness of keys is kept throughout.
pub proof fn lemma_resolve_all_keys<K, V>(s: Seq<(K, V)>, ids: Seq<K>, k: K)
    requires
        distinct_keys(s),
    ensures
        distinct_keys(resolve_all(s, ids)),
        has_key(resolve_all(s, ids), k) ==> has_key(s, k),
    decreases ids.len(),
{
    if ids.len() > 0 {
        if has_key(s, ids[0]) {
            lemma_remove_entry(s, ids[0]);
        }
        lemma_resolve_all_keys(remove_entry(s, ids[0]), ids.drop_first(), k);
    }
}

/// For any run of responses whose distinct correlation ids each match a
/// pending entry, every response still finds its entry when its turn comes
/// and resolves exactly one entry — the table shrinks by exactly one per
/// response — and no entry is resolved twice: a resolved id matches nothing
/// afterwards.
pub proof fn lemma_each_response_resolves_exactly_once<K, V>(s: Seq<(K, V)>, ids: Seq<K>)
    requires
        distinct_keys(s),
        forall|i: int, j: int| 0 <= i < j < ids.len() ==> ids[i] != ids[j],
        forall|i: int| 0 <= i < ids.len() ==> has_key(s, #[trigger] ids[i]),
    ensures
        distinct_keys(resolve_all(s, ids)),
        resolve_all(s, ids).len() == s.len() - ids.len(),
        forall|i: int|
            0 <= i < ids.len() ==> has_key(resolve_all(s, ids.take(i)), #[trigger] ids[i]),
        forall|i: int| 0 <= i < ids.len() ==> !has_key(resolve_all(s, ids), #[trigger] ids[i]),
    decreases ids.len(),
{
    if ids.len() == 0 {
    } else {
        let k = ids[0];
        lemma_remove_entry(s, k);
        let s1 = remove_entry(s, k);
        let rest = ids.drop_first();
        assert forall|i: int| 0 <= i < rest.len() implies has_key(s1, #[trigger] rest[i]) by {
            assert(rest[i] == ids[i + 1]);
            assert(ids[i + 1] != k);
        }
        lemma_each_response_resolves_exactly_once(s1, rest);
        assert(resolve_all(s, ids) == resolve_all(s1, rest));
        assert forall|i: int|
            0 <= i < ids.len() implies has_key(
                resolve_all(s, ids.take(i)),
                #[trigger] ids[i],
            ) by {
            if i == 0 {
                assert(ids.take(0) =~= Seq::<K>::empty());
                assert(resolve_all(s, ids.take(0)) == s);
            } else {
                assert(ids.take(i)[0] == k);
                assert(ids.take(i).drop_first() =~= rest.take(i - 1));
                assert(resolve_all(s, ids.take(i)) == resolve_all(s1, rest.take(i - 1)));
                assert(rest[i - 1] == ids[i]);
                assert(has_key(resolve_all(s1, rest.take(i - 1)), rest[i - 1]));
            }
        }
        assert forall|i: int|
            0 <= i < ids.len() implies !has_key(resolve_all(s, ids), #[trigger] ids[i]) by {
            if i == 0 {
                lemma_resolve_all_keys(s1, rest, k);
            } else {
                assert(rest[i - 1] == ids[i]);
                assert(!has_key(resolve_all(s1, rest), rest[i - 1]));
            }
        }
    }
}

} // verus!
