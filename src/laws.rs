//! Laws of the store, stated over its view and the fetch functions that
//! the contracts of `PasteStore::get` and `PasteStore::raw` use.
use vstd::prelude::*;

use crate::paste::PasteModel;
use crate::store::{fetch, fetch_raw};

verus! {

/// The view of a store that started empty and then took `pastes[i]` under
/// `ids[i]`, in order.
pub open spec fn built_by(ids: Seq<Seq<char>>, pastes: Seq<PasteModel>) -> Map<Seq<char>, PasteModel>
    recommends
        ids.len() == pastes.len(),
    decreases ids.len(),
{
    if ids.len() == 0 {
        Map::empty()
    } else {
        let n = ids.len() - 1;
        built_by(ids.take(n), pastes.take(n)).insert(ids[n], pastes[n])
    }
}

/// Each `ids[i]` was absent from the store when `pastes[i]` went in, as
/// `PasteStore::insert` ensures of the identifier it returns.
pub open spec fn drawn_fresh(ids: Seq<Seq<char>>, pastes: Seq<PasteModel>) -> bool {
    forall|i: int|
        0 <= i < ids.len() ==> !(#[trigger] built_by(ids.take(i), pastes.take(i))).contains_key(
            ids[i],
        )
}

/// A paste that was just inserted under `id` is fetched back as it was
/// given, both whole and as raw text.
pub proof fn law_round_trip(
    before: Map<Seq<char>, PasteModel>,
    after: Map<Seq<char>, PasteModel>,
    id: Seq<char>,
    p: PasteModel,
)
    requires
        after == before.insert(id, p),
    ensures
        fetch(after, id) == Some(p),
        fetch_raw(after, id) == Some(p.text),
{
}

/// A new store finds nothing, whatever the identifier.
pub proof fn law_empty_store_finds_nothing(id: Seq<char>)
    ensures
        fetch(Map::empty(), id) == None::<PasteModel>,
        fetch_raw(Map::empty(), id) == None::<Seq<char>>,
{
}

/// The raw fetch yields exactly the text of the paste that the structured
/// fetch yields, and fails exactly when the structured fetch fails.
pub proof fn law_raw_is_text_of_structured(m: Map<Seq<char>, PasteModel>, id: Seq<char>)
    ensures
        match fetch(m, id) {
            Some(p) => fetch_raw(m, id) == Some(p.text),
            None => fetch_raw(m, id) == None::<Seq<char>>,
        },
{
}

/// After a run of insertions, each under an identifier fresh at its time,
/// the identifiers are pairwise distinct, every paste is fetched back as it
/// was given, and every identifier that no insertion returned finds nothing:
/// no insertion is lost or overwritten, whatever order the insertions were
/// serialised in.
pub proof fn law_inserts_are_kept(ids: Seq<Seq<char>>, pastes: Seq<PasteModel>)
    requires
        ids.len() == pastes.len(),
        drawn_fresh(ids, pastes),
    ensures
        forall|i: int, j: int| 0 <= i < j < ids.len() ==> ids[i] != ids[j],
        forall|i: int|
            0 <= i < ids.len() ==> fetch(built_by(ids, pastes), #[trigger] ids[i]) == Some(
                pastes[i],
            ),
        forall|id: Seq<char>|
            !ids.contains(id) ==> fetch(built_by(ids, pastes), id) == None::<PasteModel>,
    decreases ids.len(),
{
    if ids.len() > 0 {
        let n = ids.len() - 1;
        let pre_ids = ids.take(n);
        let pre_pastes = pastes.take(n);
        assert forall|i: int| 0 <= i < pre_ids.len() implies !(#[trigger] built_by(
            pre_ids.take(i),
            pre_pastes.take(i),
        )).contains_key(pre_ids[i]) by {
            assert(pre_ids.take(i) =~= ids.take(i));
            assert(pre_pastes.take(i) =~= pastes.take(i));
            assert(!built_by(ids.take(i), pastes.take(i)).contains_key(ids[i]));
        }
        law_inserts_are_kept(pre_ids, pre_pastes);
        let before = built_by(pre_ids, pre_pastes);
        assert(!built_by(ids.take(n as int), pastes.take(n as int)).contains_key(ids[n as int]));
        assert forall|i: int, j: int| 0 <= i < j < ids.len() implies ids[i] != ids[j] by {
            if j == n {
                assert(pre_ids[i] == ids[i]);
                assert(fetch(before, pre_ids[i]) == Some(pre_pastes[i]));
            } else {
                assert(pre_ids[i] == ids[i] && pre_ids[j] == ids[j]);
            }
        }
        assert forall|i: int| 0 <= i < ids.len() implies fetch(
            built_by(ids, pastes),
            #[trigger] ids[i],
        ) == Some(pastes[i]) by {
            if i < n {
                assert(pre_ids[i] == ids[i]);
                assert(fetch(before, pre_ids[i]) == Some(pre_pastes[i]));
            }
        }
        assert forall|id: Seq<char>| !ids.contains(id) implies fetch(built_by(ids, pastes), id)
            == None::<PasteModel> by {
            assert(id != ids[n as int]);
            if pre_ids.contains(id) {
                let k = choose|k: int| 0 <= k < pre_ids.len() && pre_ids[k] == id;
                assert(ids[k] == id);
            }
        }
    }
}

} // verus!
