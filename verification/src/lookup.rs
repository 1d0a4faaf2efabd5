//! Where an identifier first occurs in a sequence of identifiers.

use vstd::prelude::*;

verus! {

/// `i` is the first index of `ids` that holds `id`.
pub open spec fn is_first_index(ids: Seq<u32>, id: u32, i: int) -> bool {
    &&& 0 <= i < ids.len()
    &&& ids[i] == id
    &&& forall|j: int| 0 <= j < i ==> #[trigger] ids[j] != id
}

/// The first index of `ids` that holds `id`, if there is one.
pub open spec fn first_index_of(ids: Seq<u32>, id: u32) -> Option<int> {
    if exists|i: int| is_first_index(ids, id, i) {
        Some(choose|i: int| is_first_index(ids, id, i))
    } else {
        None
    }
}

/// Only one index is the first that holds `id`.
pub proof fn lemma_first_index_unique(ids: Seq<u32>, id: u32, i: int, k: int)
    requires
        is_first_index(ids, id, i),
        is_first_index(ids, id, k),
    ensures
        i == k,
{
    if i < k {
        assert(ids[i] != id);
    } else if k < i {
        assert(ids[k] != id);
    }
}

/// Where some index holds `id`, a first one does.
pub proof fn lemma_first_index_exists(ids: Seq<u32>, id: u32, j: int)
    requires
        0 <= j < ids.len(),
        ids[j] == id,
    ensures
        exists|k: int| is_first_index(ids, id, k),
    decreases j,
{
    if exists|m: int| 0 <= m < j && #[trigger] ids[m] == id {
        let m = choose|m: int| 0 <= m < j && #[trigger] ids[m] == id;
        lemma_first_index_exists(ids, id, m);
    } else {
        assert(is_first_index(ids, id, j));
    }
}

/// `first_index_of` names the first index that holds `id`, and is `None` exactly where no
/// index holds it.
pub proof fn lemma_first_index_of(ids: Seq<u32>, id: u32)
    ensures
        first_index_of(ids, id) matches Some(i) ==> is_first_index(ids, id, i),
        first_index_of(ids, id) is None <==> forall|j: int| 0 <= j < ids.len() ==> #[trigger] ids[j] != id,
{
    if first_index_of(ids, id) is None {
        assert forall|j: int| 0 <= j < ids.len() implies #[trigger] ids[j] != id by {
            if ids[j] == id {
                lemma_first_index_exists(ids, id, j);
            }
        }
    }
}

/// The first index found by a scan from the front is the one `first_index_of` names.
pub proof fn lemma_first_index_at(ids: Seq<u32>, id: u32, i: int)
    requires
        is_first_index(ids, id, i),
    ensures
        first_index_of(ids, id) == Some(i),
{
    let k = choose|k: int| is_first_index(ids, id, k);
    lemma_first_index_unique(ids, id, i, k);
}

} // verus!
