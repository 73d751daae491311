//! The rules of allocation, stated over the set of available identifiers.

use vstd::prelude::*;
use crate::error::ContractError;
use crate::pool::is_lowest;
use vstd::set_lib::{lemma_int_range, set_int_range};

verus! {

/// The identifiers that occur in `ids`.
pub open spec fn id_set(ids: Seq<u32>) -> Set<int> {
    Set::new(|x: int| exists|i: int| 0 <= i < ids.len() && #[trigger] ids[i] as int == x)
}

/// Why a request for `id` is refused, if it is: the identifier lies outside
/// `1..=max_tokens`, or it is not available.
pub open spec fn refusal(available: Set<int>, max_tokens: u32, id: u32) -> Option<ContractError> {
    if id == 0 || id > max_tokens {
        Some(ContractError::InvalidTokenId {  })
    } else if !available.contains(id as int) {
        Some(ContractError::TokenIdAlreadySold { token_id: id })
    } else {
        None
    }
}

/// Why a mint is refused, if it is. A mint that names no identifier is
/// refused only where none is available.
pub open spec fn mint_refusal(available: Set<int>, max_tokens: u32, requested: Option<u32>) -> Option<
    ContractError,
> {
    match requested {
        Some(wanted) => refusal(available, max_tokens, wanted),
        None => if available == Set::<int>::empty() {
            Some(ContractError::SoldOut {  })
        } else {
            None
        },
    }
}

/// Whether a mint that is not refused hands out `id`: the identifier it
/// names, or the smallest available one where it names none.
pub open spec fn allocates(
    available: Set<int>,
    max_tokens: u32,
    requested: Option<u32>,
    id: u32,
) -> bool {
    match requested {
        Some(wanted) => id == wanted && refusal(available, max_tokens, wanted) is None,
        None => is_lowest(available, id as int),
    }
}

/// The identifiers a batch deals with, in the order in which it does: it
/// starts at the end of `ids`, walks towards the front, and stops after
/// `limit` of them.
pub open spec fn batch_window(ids: Seq<u32>, limit: u32) -> Seq<u32> {
    Seq::new(
        if ids.len() <= limit {
            ids.len()
        } else {
            limit as nat
        },
        |k: int| ids[ids.len() - 1 - k],
    )
}

/// What is available when a batch comes to the identifier at `k`: what was
/// available before the batch, less the identifiers it has dealt with.
pub open spec fn available_at(available: Set<int>, window: Seq<u32>, k: int) -> Set<int> {
    available.difference(id_set(window.take(k)))
}

/// Whether a batch gets past the first `k` identifiers of `window`.
pub open spec fn accepted_before(
    available: Set<int>,
    max_tokens: u32,
    window: Seq<u32>,
    k: int,
) -> bool {
    forall|j: int|
        0 <= j < k ==> refusal(available_at(available, window, j), max_tokens, #[trigger] window[j])
            is None
}

/// Whether a batch stops at the identifier at `k` with the error `e`.
pub open spec fn refused_at(
    available: Set<int>,
    max_tokens: u32,
    window: Seq<u32>,
    k: int,
    e: ContractError,
) -> bool {
    &&& 0 <= k < window.len()
    &&& accepted_before(available, max_tokens, window, k)
    &&& refusal(available_at(available, window, k), max_tokens, window[k]) == Some(e)
}

/// Every member of `ids` is in its set.
pub proof fn lemma_id_set_contains(ids: Seq<u32>, i: int)
    requires
        0 <= i < ids.len(),
    ensures
        id_set(ids).contains(ids[i] as int),
{
}

/// A member of the set of `ids` occurs in `ids`.
pub proof fn lemma_id_set_witness(ids: Seq<u32>, x: int) -> (i: int)
    requires
        id_set(ids).contains(x),
    ensures
        0 <= i < ids.len(),
        ids[i] as int == x,
{
    choose|i: int| 0 <= i < ids.len() && #[trigger] ids[i] as int == x
}

/// One identifier more of `ids` adds that identifier to the set.
pub proof fn lemma_id_set_next(ids: Seq<u32>, k: int)
    requires
        0 <= k < ids.len(),
    ensures
        id_set(ids.take(k + 1)) == id_set(ids.take(k)).insert(ids[k] as int),
{
    let longer = id_set(ids.take(k + 1));
    let shorter = id_set(ids.take(k)).insert(ids[k] as int);
    assert forall|x: int| longer.contains(x) implies shorter.contains(x) by {
        let i = lemma_id_set_witness(ids.take(k + 1), x);
        if i < k {
            lemma_id_set_contains(ids.take(k), i);
        }
    }
    assert forall|x: int| shorter.contains(x) implies longer.contains(x) by {
        if x == ids[k] as int {
            lemma_id_set_contains(ids.take(k + 1), k);
        } else {
            let i = lemma_id_set_witness(ids.take(k), x);
            lemma_id_set_contains(ids.take(k + 1), i);
        }
    }
    assert(longer =~= shorter);
}

/// Dealing with one identifier more takes that identifier away.
pub proof fn lemma_available_at_next(available: Set<int>, window: Seq<u32>, k: int)
    requires
        0 <= k < window.len(),
    ensures
        available_at(available, window, k + 1) == available_at(available, window, k).remove(
            window[k] as int,
        ),
{
    lemma_id_set_next(window, k);
    assert(available_at(available, window, k + 1) =~= available_at(available, window, k).remove(
        window[k] as int,
    ));
}

/// A batch is refused at one place at most, and with one error.
pub proof fn lemma_refusal_unique(
    available: Set<int>,
    max_tokens: u32,
    window: Seq<u32>,
    k1: int,
    e1: ContractError,
    k2: int,
    e2: ContractError,
)
    requires
        refused_at(available, max_tokens, window, k1, e1),
        refused_at(available, max_tokens, window, k2, e2),
    ensures
        k1 == k2,
        e1 == e2,
{
    if k1 < k2 {
        assert(refusal(available_at(available, window, k1), max_tokens, window[k1]) is None);
    }
    if k2 < k1 {
        assert(refusal(available_at(available, window, k2), max_tokens, window[k2]) is None);
    }
}

/// A batch gets past all its identifiers exactly where each of them lies in
/// `1..=max_tokens` and is available, and none occurs twice.
pub proof fn lemma_batch_accepted_iff(available: Set<int>, max_tokens: u32, window: Seq<u32>)
    ensures
        accepted_before(available, max_tokens, window, window.len() as int) <==> {
            &&& forall|j: int|
                0 <= j < window.len() ==> 1 <= #[trigger] window[j] <= max_tokens
                    && available.contains(window[j] as int)
            &&& window.no_duplicates()
        },
{
    if accepted_before(available, max_tokens, window, window.len() as int) {
        assert forall|j: int| 0 <= j < window.len() implies 1 <= #[trigger] window[j] <= max_tokens
            && available.contains(window[j] as int) by {
            assert(refusal(available_at(available, window, j), max_tokens, window[j]) is None);
        }
        assert forall|i: int, j: int|
            0 <= i < window.len() && 0 <= j < window.len() && i != j implies window[i]
            != window[j] by {
            let (lo, hi) = if i < j {
                (i, j)
            } else {
                (j, i)
            };
            assert(refusal(available_at(available, window, hi), max_tokens, window[hi]) is None);
            lemma_id_set_contains(window.take(hi), lo);
        }
    }
    if (forall|j: int|
        0 <= j < window.len() ==> 1 <= #[trigger] window[j] <= max_tokens && available.contains(
            window[j] as int,
        )) && window.no_duplicates() {
        assert forall|j: int| 0 <= j < window.len() implies refusal(
            available_at(available, window, j),
            max_tokens,
            #[trigger] window[j],
        ) is None by {
            if id_set(window.take(j)).contains(window[j] as int) {
                let i = lemma_id_set_witness(window.take(j), window[j] as int);
                assert(window[i] == window[j]);
            }
        }
    }
}

/// A batch whose window holds an identifier that is not available does not
/// get past all its identifiers.
pub proof fn lemma_batch_with_sold_id_refused(
    available: Set<int>,
    max_tokens: u32,
    window: Seq<u32>,
    j: int,
)
    requires
        0 <= j < window.len(),
        !available.contains(window[j] as int),
    ensures
        !accepted_before(available, max_tokens, window, window.len() as int),
{
    lemma_batch_accepted_iff(available, max_tokens, window);
}

/// A batch of identifiers that lie in `1..=max_tokens`, are available and
/// differ from one another is not refused. Where there are no more of them
/// than the limit, its window is all of them, last first. Where there are
/// more, its window is the last `limit` of them, last first, and those
/// before them stay available.
pub proof fn lemma_batch_of_valid_ids(
    available: Set<int>,
    max_tokens: u32,
    ids: Seq<u32>,
    limit: u32,
)
    requires
        forall|i: int|
            0 <= i < ids.len() ==> 1 <= #[trigger] ids[i] <= max_tokens && available.contains(
                ids[i] as int,
            ),
        ids.no_duplicates(),
    ensures
        ({
            let window = batch_window(ids, limit);
            &&& accepted_before(available, max_tokens, window, window.len() as int)
            &&& forall|k: int| 0 <= k < window.len() ==> #[trigger] window[k] == ids[ids.len() - 1 - k]
            &&& ids.len() <= limit ==> window.len() == ids.len()
            &&& ids.len() > limit ==> window.len() == limit
            &&& forall|i: int|
                0 <= i < ids.len() - window.len() ==> available_at(
                    available,
                    window,
                    window.len() as int,
                ).contains(#[trigger] ids[i] as int)
        }),
{
    let window = batch_window(ids, limit);
    assert forall|a: int, b: int|
        0 <= a < window.len() && 0 <= b < window.len() && a != b implies window[a]
        != window[b] by {
        assert(ids[ids.len() - 1 - a] != ids[ids.len() - 1 - b]);
    }
    assert forall|j: int| 0 <= j < window.len() implies 1 <= #[trigger] window[j] <= max_tokens
        && available.contains(window[j] as int) by {
        assert(window[j] == ids[ids.len() - 1 - j]);
    }
    lemma_batch_accepted_iff(available, max_tokens, window);
    assert forall|i: int| 0 <= i < ids.len() - window.len() implies available_at(
        available,
        window,
        window.len() as int,
    ).contains(#[trigger] ids[i] as int) by {
        if id_set(window.take(window.len() as int)).contains(ids[i] as int) {
            let k = lemma_id_set_witness(window.take(window.len() as int), ids[i] as int);
            assert(ids[ids.len() - 1 - k] == ids[i]);
        }
    }
}

/// Whether `ids` are the identifiers that the mints `requests` hand out, one
/// after the other and none of them refused, starting from `available`.
pub open spec fn successive_mints(
    available: Set<int>,
    max_tokens: u32,
    requests: Seq<Option<u32>>,
    ids: Seq<u32>,
) -> bool {
    &&& requests.len() == ids.len()
    &&& forall|k: int|
        0 <= k < ids.len() ==> allocates(
            available_at(available, ids, k),
            max_tokens,
            requests[k],
            #[trigger] ids[k],
        )
}

proof fn lemma_count_after_mints(
    available: Set<int>,
    max_tokens: u32,
    requests: Seq<Option<u32>>,
    ids: Seq<u32>,
    k: int,
)
    requires
        available.finite(),
        successive_mints(available, max_tokens, requests, ids),
        0 <= k <= ids.len(),
    ensures
        available_at(available, ids, k).finite(),
        available_at(available, ids, k).len() == available.len() - k,
    decreases k,
{
    if k == 0 {
        assert(available_at(available, ids, 0) =~= available);
    } else {
        lemma_count_after_mints(available, max_tokens, requests, ids, k - 1);
        lemma_available_at_next(available, ids, k - 1);
        assert(allocates(
            available_at(available, ids, k - 1),
            max_tokens,
            requests[k - 1],
            ids[k - 1],
        ));
    }
}

/// No two mints of a run hand out the same identifier, each hands out an
/// identifier that was available before the run, and each leaves one
/// identifier fewer than it found.
pub proof fn lemma_successive_mints_differ(
    available: Set<int>,
    max_tokens: u32,
    requests: Seq<Option<u32>>,
    ids: Seq<u32>,
)
    requires
        available.finite(),
        successive_mints(available, max_tokens, requests, ids),
    ensures
        ids.no_duplicates(),
        forall|k: int| 0 <= k < ids.len() ==> available.contains(#[trigger] ids[k] as int),
        forall|k: int|
            0 <= k <= ids.len() ==> (#[trigger] available_at(available, ids, k)).len()
                == available.len() - k,
{
    assert forall|k: int| 0 <= k < ids.len() implies available_at(available, ids, k).contains(
        #[trigger] ids[k] as int,
    ) by {
        assert(allocates(available_at(available, ids, k), max_tokens, requests[k], ids[k]));
    }
    assert forall|i: int, j: int|
        0 <= i < ids.len() && 0 <= j < ids.len() && i != j implies ids[i] != ids[j] by {
        let (lo, hi) = if i < j {
            (i, j)
        } else {
            (j, i)
        };
        assert(available_at(available, ids, hi).contains(ids[hi] as int));
        lemma_id_set_contains(ids.take(hi), lo);
    }
    assert forall|k: int| 0 <= k <= ids.len() implies (#[trigger] available_at(
        available,
        ids,
        k,
    )).len() == available.len() - k by {
        lemma_count_after_mints(available, max_tokens, requests, ids, k);
    }
}

/// Mints that name no identifier are refused as sold out exactly when as
/// many of them have gone before as identifiers were available; until then
/// none of them is refused.
pub proof fn lemma_mint_until_sold_out(available: Set<int>, max_tokens: u32, ids: Seq<u32>)
    requires
        available.finite(),
        successive_mints(available, max_tokens, Seq::new(ids.len(), |k: int| None::<u32>), ids),
    ensures
        ids.no_duplicates(),
        ids.len() <= available.len(),
        ids.len() == available.len() ==> mint_refusal(
            available_at(available, ids, ids.len() as int),
            max_tokens,
            None,
        ) == Some(ContractError::SoldOut {  }),
        ids.len() < available.len() ==> mint_refusal(
            available_at(available, ids, ids.len() as int),
            max_tokens,
            None,
        ) is None,
        available_at(available, ids, ids.len() as int).len() == available.len() - ids.len(),
{
    let requests = Seq::new(ids.len(), |k: int| None::<u32>);
    lemma_successive_mints_differ(available, max_tokens, requests, ids);
    lemma_count_after_mints(available, max_tokens, requests, ids, ids.len() as int);
    let rest = available_at(available, ids, ids.len() as int);
    assert(rest.len() == available.len() - ids.len());
    if ids.len() == available.len() {
        assert(rest.len() == 0);
        assert(rest =~= Set::<int>::empty());
    } else {
        assert(rest.len() != 0);
        assert(rest != Set::<int>::empty());
    }
}

/// Starting from a pool in which every identifier of `1..=capacity` is
/// available, mints that name no identifier hand out 1, 2, 3 and so on:
/// `capacity` of them are not refused, and the next one is.
pub proof fn lemma_fresh_pool_mints_in_order(capacity: u32, max_tokens: u32, ids: Seq<u32>)
    requires
        successive_mints(
            set_int_range(1, capacity + 1),
            max_tokens,
            Seq::new(ids.len(), |k: int| None::<u32>),
            ids,
        ),
    ensures
        ids.len() <= capacity,
        forall|k: int| 0 <= k < ids.len() ==> #[trigger] ids[k] == k + 1,
        mint_refusal(
            available_at(set_int_range(1, capacity + 1), ids, ids.len() as int),
            max_tokens,
            None,
        ) is Some <==> ids.len() == capacity,
{
    let available = set_int_range(1, capacity + 1);
    lemma_int_range(1, capacity + 1);
    lemma_mint_until_sold_out(available, max_tokens, ids);
    assert forall|k: int| 0 <= k < ids.len() implies #[trigger] ids[k] == k + 1 by {
        lemma_fresh_prefix(capacity, max_tokens, ids, k);
    }
}

proof fn lemma_fresh_prefix(capacity: u32, max_tokens: u32, ids: Seq<u32>, k: int)
    requires
        successive_mints(
            set_int_range(1, capacity + 1),
            max_tokens,
            Seq::new(ids.len(), |k: int| None::<u32>),
            ids,
        ),
        0 <= k < ids.len(),
    ensures
        ids[k] == k + 1,
        available_at(set_int_range(1, capacity + 1), ids, k + 1) == set_int_range(
            k + 2,
            capacity + 1,
        ),
    decreases k,
{
    let available = set_int_range(1, capacity + 1);
    let requests = Seq::new(ids.len(), |k: int| None::<u32>);
    if k == 0 {
        assert(available_at(available, ids, 0) =~= available);
    } else {
        lemma_fresh_prefix(capacity, max_tokens, ids, k - 1);
    }
    let before = available_at(available, ids, k);
    assert(before == set_int_range(k + 1, capacity + 1));
    assert(allocates(before, max_tokens, requests[k], ids[k]));
    assert(is_lowest(before, ids[k] as int));
    lemma_int_range(1, capacity + 1);
    lemma_successive_mints_differ(available, max_tokens, requests, ids);
    assert(before.contains(k + 1)) by {
        lemma_int_range(k + 1, capacity + 1);
        if k + 1 > capacity {
            assert(before =~= Set::<int>::empty());
        }
    }
    lemma_available_at_next(available, ids, k);
    assert(before.remove(ids[k] as int) =~= set_int_range(k + 2, capacity + 1));
}

} // verus!
