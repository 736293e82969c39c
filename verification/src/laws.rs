//! The engine's batch-level laws.
//!
//! The phase functions in [`crate::engine`] carry per-call contracts; the
//! proof functions here state what follows for a whole batch: the response
//! order tracks the request order whatever mix of hits and misses occurred,
//! an all-hit batch sends nothing upstream, a batch with no handlers is
//! forwarded unchanged and writes nothing back, a stored value read back
//! from the store resolves to exactly its parsed form, resolving the same
//! stored value twice serves the same result, and a batch whose pending
//! requests were all answered upstream assembles completely.

use vstd::prelude::*;

use serde_json::Value;

use crate::engine::event_key;
use crate::engine::is_hit_event;
use crate::engine::pend_of;
use crate::engine::pending_index;
use crate::engine::replay_plan;
use crate::engine::step_plan;
use crate::engine::table_index;
use crate::engine::AccView;
use crate::engine::CacheEvent;
use crate::engine::CacheWrite;
use crate::engine::ClientRequest;
use crate::engine::PendingRequest;
use crate::json::parsed_json;

verus! {

/// The ids of a batch of requests, in client order.
pub open spec fn ids_of(pairs: Seq<(ClientRequest, CacheEvent)>) -> Seq<u64> {
    pairs.map_values(|p: (ClientRequest, CacheEvent)| p.0.id)
}

/// Order preservation: however the cache events fall, a planned batch
/// records exactly the client's ids, in the client's order — and
/// [`crate::engine::assemble_response`] walks that order, so the response
/// order tracks the request order independent of which requests were hits.
/// The count equality also fixes the response cardinality: one request
/// yields the single unwrapped object, N requests yield an array of N.
pub proof fn lemma_plan_preserves_order(pairs: Seq<(ClientRequest, CacheEvent)>)
    requires
        replay_plan(pairs) is Some,
    ensures
        replay_plan(pairs)->Some_0.ordered =~= ids_of(pairs),
        replay_plan(pairs)->Some_0.ordered.len() == pairs.len(),
    decreases pairs.len(),
{
    if pairs.len() == 0 {
    } else {
        lemma_plan_preserves_order(pairs.drop_last());
        assert(ids_of(pairs)[pairs.len() - 1] == pairs.last().0.id);
        assert(forall|j: int|
            0 <= j < pairs.len() - 1 ==> #[trigger] ids_of(pairs)[j] == ids_of(
                pairs.drop_last(),
            )[j]);
    }
}

/// An all-hit batch never goes upstream: when every cache event is a usable
/// hit, planning succeeds and leaves nothing pending, so the driver, which
/// only contacts the upstream when something is pending, never invokes it.
pub proof fn lemma_all_hits_nothing_pending(pairs: Seq<(ClientRequest, CacheEvent)>)
    requires
        forall|i: int| 0 <= i < pairs.len() ==> is_hit_event((#[trigger] pairs[i]).1),
    ensures
        replay_plan(pairs) is Some,
        replay_plan(pairs)->Some_0.pending.len() == 0,
    decreases pairs.len(),
{
    if pairs.len() > 0 {
        assert(forall|i: int|
            0 <= i < pairs.len() - 1 ==> #[trigger] pairs.drop_last()[i] == pairs[i]);
        lemma_all_hits_nothing_pending(pairs.drop_last());
        assert(is_hit_event(pairs.last().1));
    }
}

/// A batch of requests whose methods have no handler is forwarded
/// unchanged: planning queues every request, keeping its id, method and
/// params, carries no cache key for any of them, and serves nothing from
/// the result table.
pub proof fn lemma_no_key_forwards_unchanged(pairs: Seq<(ClientRequest, CacheEvent)>)
    requires
        forall|i: int| 0 <= i < pairs.len() ==> (#[trigger] pairs[i]).1 == CacheEvent::NoKey,
    ensures
        replay_plan(pairs) is Some,
        replay_plan(pairs)->Some_0.table.len() == 0,
        replay_plan(pairs)->Some_0.pending.len() == pairs.len(),
        forall|i: int|
            0 <= i < pairs.len() ==> replay_plan(pairs)->Some_0.pending[i] == pend_of(
                (#[trigger] pairs[i]).0,
                None,
            ),
    decreases pairs.len(),
{
    if pairs.len() > 0 {
        assert(forall|i: int|
            0 <= i < pairs.len() - 1 ==> #[trigger] pairs.drop_last()[i] == pairs[i]);
        lemma_no_key_forwards_unchanged(pairs.drop_last());
        assert(pairs.last().1 == CacheEvent::NoKey);
        assert(event_key(CacheEvent::NoKey) is None);
        let prev = replay_plan(pairs.drop_last())->Some_0;
        let acc = replay_plan(pairs)->Some_0;
        assert(acc.pending == prev.pending.push(pend_of(pairs.last().0, None)));
        assert forall|i: int| 0 <= i < pairs.len() implies acc.pending[i] == pend_of(
            (#[trigger] pairs[i]).0,
            None,
        ) by {
            if i < pairs.len() - 1 {
                assert(acc.pending[i] == prev.pending[i]);
                assert(pairs.drop_last()[i] == pairs[i]);
            } else {
                assert(acc.pending[i] == acc.pending.last());
            }
        }
    }
}

/// No cache key, no cache write: when no pending request carries a cache
/// key, a write list in which every write's key comes from some pending
/// request — which is what [`crate::engine::reconcile_upstream`] returns —
/// is empty.
pub proof fn lemma_no_keys_no_writes(pending: Seq<PendingRequest>, writes: Seq<CacheWrite>)
    requires
        forall|j: int| 0 <= j < pending.len() ==> (#[trigger] pending[j]).cache_key is None,
        forall|k: int|
            0 <= k < writes.len() ==> exists|j: int|
                {
                    &&& 0 <= j < pending.len()
                    &&& (#[trigger] pending[j]).cache_key == Some((#[trigger] writes[k]).key)
                },
    ensures
        writes.len() == 0,
{
    if writes.len() > 0 {
        let w0 = writes[0];
        assert(exists|j: int|
            {
                &&& 0 <= j < pending.len()
                &&& (#[trigger] pending[j]).cache_key == Some(w0.key)
            });
        let j = choose|j: int|
            {
                &&& 0 <= j < pending.len()
                &&& (#[trigger] pending[j]).cache_key == Some(w0.key)
            };
        assert(pending[j].cache_key is None);
    }
}

/// The store round trip: a value written back under some key and later
/// returned by the store for an equivalent request resolves from the store
/// alone — planning serves exactly the parsed form of the stored text and
/// queues nothing for the upstream on its account.
pub proof fn lemma_store_round_trip(
    pairs: Seq<(ClientRequest, CacheEvent)>,
    req: ClientRequest,
    key: String,
    stored: String,
)
    requires
        replay_plan(pairs) is Some,
        parsed_json(stored@) is Some,
    ensures
        replay_plan(pairs.push((req, CacheEvent::Found { key, raw: stored }))) == Some(
            AccView {
                ordered: replay_plan(pairs)->Some_0.ordered.push(req.id),
                table: replay_plan(pairs)->Some_0.table.push((req.id, parsed_json(
                    stored@,
                )->Some_0)),
                pending: replay_plan(pairs)->Some_0.pending,
            },
        ),
{
    let extended = pairs.push((req, CacheEvent::Found { key, raw: stored }));
    assert(extended.drop_last() =~= pairs);
    assert(extended.last() == (req, CacheEvent::Found { key, raw: stored }));
}

/// Idempotence of cache resolution: two requests served from the same
/// stored value are served the same result, whatever their position, their
/// ids, or the keys under which the value was found.
pub proof fn lemma_cached_resolution_idempotent(
    acc1: AccView,
    acc2: AccView,
    req1: ClientRequest,
    req2: ClientRequest,
    key1: String,
    key2: String,
    raw: String,
)
    requires
        parsed_json(raw@) is Some,
    ensures
        step_plan(acc1, req1, CacheEvent::Found { key: key1, raw }) is Some,
        step_plan(acc2, req2, CacheEvent::Found { key: key2, raw }) is Some,
        step_plan(acc1, req1, CacheEvent::Found { key: key1, raw })->Some_0.table.last().1
            == step_plan(acc2, req2, CacheEvent::Found { key: key2, raw })->Some_0.table.last().1,
{
}

/// Whether an id resolves somewhere in the accumulator: already in the
/// result table, or queued for the upstream batch.
pub open spec fn id_covered(acc: AccView, id: u64) -> bool {
    table_index(acc.table, id) is Some || pending_index(acc.pending, id) is Some
}

proof fn lemma_table_index_push(table: Seq<(u64, Value)>, row: (u64, Value), id: u64)
    ensures
        table_index(table.push(row), id) == (if row.0 == id {
            Some(table.len() as int)
        } else {
            table_index(table, id)
        }),
{
    assert(table.push(row).drop_last() =~= table);
    assert(table.push(row).last() == row);
}

proof fn lemma_pending_index_push(
    pending: Seq<PendingRequest>,
    row: PendingRequest,
    id: u64,
)
    ensures
        pending_index(pending.push(row), id) == (if row.id == id {
            Some(pending.len() as int)
        } else {
            pending_index(pending, id)
        }),
{
    assert(pending.push(row).drop_last() =~= pending);
    assert(pending.push(row).last() == row);
}

/// Planning loses no id: every id the plan records is either served from
/// the cache already or queued for the upstream batch.
pub proof fn lemma_plan_covers_ids(pairs: Seq<(ClientRequest, CacheEvent)>)
    requires
        replay_plan(pairs) is Some,
    ensures
        forall|i: int|
            0 <= i < replay_plan(pairs)->Some_0.ordered.len() ==> id_covered(
                replay_plan(pairs)->Some_0,
                #[trigger] replay_plan(pairs)->Some_0.ordered[i],
            ),
    decreases pairs.len(),
{
    if pairs.len() > 0 {
        lemma_plan_covers_ids(pairs.drop_last());
        let prev = replay_plan(pairs.drop_last())->Some_0;
        let acc = replay_plan(pairs)->Some_0;
        let req = pairs.last().0;
        let ev = pairs.last().1;
        assert forall|i: int| 0 <= i < acc.ordered.len() implies id_covered(
            acc,
            #[trigger] acc.ordered[i],
        ) by {
            let id = acc.ordered[i];
            match ev {
                CacheEvent::Found { key: _, raw } => {
                    lemma_table_index_push(prev.table, (req.id, parsed_json(raw@)->Some_0), id);
                },
                _ => {
                    lemma_pending_index_push(prev.pending, pend_of(req, event_key(ev)), id);
                },
            }
            if i < acc.ordered.len() - 1 {
                assert(acc.ordered[i] == prev.ordered[i]);
                assert(id_covered(prev, id));
            }
        }
    }
}

proof fn lemma_table_membership(table: Seq<(u64, Value)>, id: u64, k: int)
    requires
        0 <= k < table.len(),
        table[k].0 == id,
    ensures
        table_index(table, id) is Some,
    decreases table.len(),
{
    if table.last().0 != id {
        assert(table.drop_last()[k] == table[k]);
        lemma_table_membership(table.drop_last(), id, k);
    }
}

proof fn lemma_table_index_concat(table: Seq<(u64, Value)>, adds: Seq<(u64, Value)>, id: u64)
    requires
        table_index(table, id) is Some,
    ensures
        table_index(table + adds, id) is Some,
    decreases adds.len(),
{
    if adds.len() == 0 {
        assert(table + adds =~= table);
    } else {
        lemma_table_index_concat(table, adds.drop_last(), id);
        assert((table + adds).drop_last() =~= table + adds.drop_last());
        if (table + adds).last().0 != id {
            assert(table_index(table + adds, id) == table_index(table + adds.drop_last(), id));
        }
    }
}

/// Assembly completeness: once the upstream response has answered every
/// pending id, every id the plan recorded resolves in the grown result
/// table, so [`crate::engine::assemble_response`] succeeds and its missing
/// result error is unreachable through a run driven this way.
pub proof fn lemma_assembly_complete(acc: AccView, adds: Seq<(u64, Value)>)
    requires
        forall|i: int|
            0 <= i < acc.ordered.len() ==> id_covered(acc, #[trigger] acc.ordered[i]),
        forall|j: int|
            0 <= j < acc.pending.len() ==> exists|k: int|
                0 <= k < adds.len() && (#[trigger] adds[k]).0 == (#[trigger] acc.pending[j]).id,
    ensures
        forall|i: int|
            0 <= i < acc.ordered.len() ==> table_index(
                acc.table + adds,
                #[trigger] acc.ordered[i],
            ) is Some,
{
    assert forall|i: int| 0 <= i < acc.ordered.len() implies table_index(
        acc.table + adds,
        #[trigger] acc.ordered[i],
    ) is Some by {
        let id = acc.ordered[i];
        if table_index(acc.table, id) is Some {
            lemma_table_index_concat(acc.table, adds, id);
        } else {
            crate::engine::lemma_pending_index_range(acc.pending, id);
            let j = pending_index(acc.pending, id)->Some_0;
            assert(acc.pending[j].id == id);
            let k = choose|k: int|
                0 <= k < adds.len() && (#[trigger] adds[k]).0 == acc.pending[j].id;
            lemma_table_membership(acc.table + adds, id, acc.table.len() + k);
        }
    }
}

} // verus!
