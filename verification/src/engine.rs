//! The batch reconciliation engine.
//!
//! A client call runs through five phases, each a function here:
//!
//! 1. [`normalize_body`] turns the request body into the ordered list of
//!    request objects (a bare object counts as a list of one).
//! 2. [`validate_requests`] checks that every request carries a numeric `id`
//!    and a string `method`; the first violation rejects the whole call.
//! 3. [`plan_batch`] folds one [`CacheEvent`] per request into a
//!    [`BatchAcc`]: cache hits go straight to the result table, everything
//!    else queues as a [`PendingRequest`] for the upstream batch.
//! 4. [`reconcile_upstream`] correlates the upstream batch response with the
//!    pending requests, fails the call on any per-item upstream error, grows
//!    the result table, and emits best-effort [`CacheWrite`] instructions.
//! 5. [`assemble_response`] walks the original id order and rebuilds the
//!    client-visible response, unwrapping a single-element response to a
//!    bare object.
//!
//! The caller performs the store reads, the upstream HTTP call and the store
//! writes between phases; every decision is made here.

use vstd::prelude::*;

use serde_json::Value;

use crate::handler::RpcCacheHandler;
use crate::json::clone_value;
use crate::json::json_elems;
use crate::json::json_error_present;
use crate::json::json_id;
use crate::json::json_method;
use crate::json::json_params;
use crate::json::json_result;
use crate::json::make_array;
use crate::json::make_rpc_request;
use crate::json::make_rpc_response;
use crate::json::parse_json;
use crate::json::parsed_json;
use crate::json::read_elems;
use crate::json::read_error_present;
use crate::json::read_id;
use crate::json::read_method;
use crate::json::read_params;
use crate::json::read_result;
use crate::registry::keyed_index;
use crate::registry::CacheEntry;
use crate::registry::ChainState;

verus! {

/// A validated client request: a numeric id, a method name, and the params
/// value carried through opaquely.
pub struct ClientRequest {
    pub id: u64,
    pub method: String,
    pub params: Value,
}

/// A request that must be forwarded upstream, with the cache key under which
/// a successful result should be written back, when there is one.
pub struct PendingRequest {
    pub id: u64,
    pub method: String,
    pub params: Value,
    pub cache_key: Option<String>,
}

/// What the cache layer had to say about one request.  The caller derives a
/// key with [`crate::engine::cache_probe`], reads the store when there is
/// one, and reports the outcome here.
pub enum CacheEvent {
    /// No cache key: no handler for the method, or the handler derived none,
    /// or key extraction failed.  The request is forwarded without a key.
    NoKey,
    /// A key was derived but the store read failed; degrade to uncached and
    /// forward without a key, so the result is not written back blindly.
    StoreFailed { key: String },
    /// The store holds nothing under the key; forward carrying the key so
    /// the result can be written back.
    Absent { key: String },
    /// The store holds `raw` under the key; the request is served from it.
    Found { key: String, raw: String },
}

/// Why a client call failed.  [`RpcError::http_status`] gives the status
/// code each maps to; the two invariant violations have no status, since
/// they indicate a bug in the driver rather than bad input.
#[derive(Clone, Copy, PartialEq, Eq, Debug)]
pub enum RpcError {
    /// A request object has no unsigned-integer `id` member.
    MissingId,
    /// A request object has no string `method` member.
    MissingMethod,
    /// An upstream response element has no unsigned-integer `id` member, or
    /// an id that matches no forwarded request.
    UnknownCorrelation,
    /// The upstream response is not a JSON array.
    InvalidResponse,
    /// An upstream response element carries a non-null `error` member; one
    /// failing sub-call fails the whole batch.
    RemoteError,
    /// A stored cache value is not valid JSON; a corrupt entry is surfaced,
    /// never silently treated as a miss.
    CacheCorrupt,
    /// A pending request carried a cache key for a method with no handler:
    /// impossible when the phases run against one registry.
    HandlerMissing,
    /// An id had no result at assembly time: impossible when every pending
    /// request was answered upstream.
    MissingResult,
}

impl RpcError {
    /// Whether this error marks a broken engine invariant rather than bad
    /// input; the driver should treat it as a fatal programming error.
    pub fn is_invariant_violation(&self) -> (r: bool)
        ensures
            r == (*self == RpcError::HandlerMissing || *self == RpcError::MissingResult),
    {
        match self {
            RpcError::HandlerMissing => true,
            RpcError::MissingResult => true,
            _ => false,
        }
    }

    /// The HTTP status the error maps to: client errors are 400, upstream
    /// and cache-corruption failures are 500.
    pub fn http_status(&self) -> (r: u16)
        ensures
            (r == 400) == (*self == RpcError::MissingId || *self == RpcError::MissingMethod
                || *self == RpcError::UnknownCorrelation),
            (r == 500) == (*self == RpcError::InvalidResponse || *self == RpcError::RemoteError
                || *self == RpcError::CacheCorrupt || *self == RpcError::HandlerMissing
                || *self == RpcError::MissingResult),
    {
        match self {
            RpcError::MissingId => 400,
            RpcError::MissingMethod => 400,
            RpcError::UnknownCorrelation => 400,
            _ => 500,
        }
    }

    /// A short client-visible description, matching the proxy's responses.
    pub fn message(&self) -> (r: String)
        ensures
            *self == RpcError::MissingId ==> r@ == "id not found"@,
            *self == RpcError::MissingMethod ==> r@ == "method not found"@,
            *self == RpcError::UnknownCorrelation ==> r@ == "unknown response id"@,
            *self == RpcError::InvalidResponse ==> r@ == "invalid rpc response"@,
            *self == RpcError::RemoteError ==> r@ == "remote rpc error"@,
            *self == RpcError::CacheCorrupt ==> r@ == "fail to deserialize cache value"@,
            *self == RpcError::HandlerMissing ==> r@ == "handler not found for pending request"@,
            *self == RpcError::MissingResult ==> r@ == "result not found"@,
    {
        match self {
            RpcError::MissingId => String::from_str("id not found"),
            RpcError::MissingMethod => String::from_str("method not found"),
            RpcError::UnknownCorrelation => String::from_str("unknown response id"),
            RpcError::InvalidResponse => String::from_str("invalid rpc response"),
            RpcError::RemoteError => String::from_str("remote rpc error"),
            RpcError::CacheCorrupt => String::from_str("fail to deserialize cache value"),
            RpcError::HandlerMissing => String::from_str("handler not found for pending request"),
            RpcError::MissingResult => String::from_str("result not found"),
        }
    }
}

/// A best-effort write-back instruction: store `value` under `key`.  The
/// caller performs it and swallows any store failure.
pub struct CacheWrite {
    pub key: String,
    pub value: String,
}

/// The per-call accumulator: the client's id order, the result table, and
/// the requests that must go upstream.
pub struct BatchAcc {
    pub ordered_ids: Vec<u64>,
    pub table: Vec<(u64, Value)>,
    pub pending: Vec<PendingRequest>,
}

/// The mathematical content of a [`BatchAcc`].
pub struct AccView {
    pub ordered: Seq<u64>,
    pub table: Seq<(u64, Value)>,
    pub pending: Seq<PendingRequest>,
}

impl View for BatchAcc {
    type V = AccView;

    open spec fn view(&self) -> AccView {
        AccView { ordered: self.ordered_ids@, table: self.table@, pending: self.pending@ }
    }
}

// ---------------------------------------------------------------------------
// Phase 1: body normalization
// ---------------------------------------------------------------------------

/// The ordered request objects of a call body: the elements of an array, or
/// the body itself as a batch of one.
pub fn normalize_body(body: &Value) -> (r: Vec<Value>)
    ensures
        match json_elems(*body) {
            Some(a) => r@ == a,
            None => r@ =~= seq![*body],
        },
{
    match read_elems(body) {
        Some(a) => a,
        None => {
            let mut one: Vec<Value> = Vec::new();
            one.push(clone_value(body));
            one
        },
    }
}

// ---------------------------------------------------------------------------
// Phase 2: validation
// ---------------------------------------------------------------------------

/// Whether a request object carries what JSON-RPC demands of it here.
pub open spec fn request_valid(v: Value) -> bool {
    json_id(v) is Some && json_method(v) is Some
}

/// The position of the first invalid request object, if any.
pub open spec fn first_invalid(raws: Seq<Value>) -> Option<int>
    decreases raws.len(),
{
    if raws.len() == 0 {
        None
    } else if !request_valid(raws.first()) {
        Some(0int)
    } else {
        match first_invalid(raws.drop_first()) {
            Some(i) => Some(i + 1),
            None => None,
        }
    }
}

proof fn lemma_first_invalid_hit(raws: Seq<Value>, i: int)
    requires
        0 <= i < raws.len(),
        forall|j: int| 0 <= j < i ==> request_valid(#[trigger] raws[j]),
        !request_valid(raws[i]),
    ensures
        first_invalid(raws) == Some(i),
    decreases i,
{
    if i == 0 {
    } else {
        assert(forall|j: int| 0 <= j < i - 1 ==> raws.drop_first()[j] == raws[j + 1]);
        lemma_first_invalid_hit(raws.drop_first(), i - 1);
    }
}

proof fn lemma_first_invalid_none(raws: Seq<Value>)
    requires
        forall|j: int| 0 <= j < raws.len() ==> request_valid(#[trigger] raws[j]),
    ensures
        first_invalid(raws) is None,
    decreases raws.len(),
{
    if raws.len() > 0 {
        lemma_first_invalid_none(raws.drop_first());
    }
}

/// Check that every request object carries a numeric `id` and a string
/// `method`; the first violation rejects the whole call, so a malformed
/// batch never reaches the store or the upstream.
pub fn validate_requests(raws: &Vec<Value>) -> (r: Result<Vec<ClientRequest>, RpcError>)
    ensures
        match r {
            Ok(reqs) => {
                &&& first_invalid(raws@) is None
                &&& reqs@.len() == raws@.len()
                &&& forall|i: int|
                    0 <= i < raws@.len() ==> {
                        &&& json_id(#[trigger] raws@[i]) == Some(reqs@[i].id)
                        &&& json_method(raws@[i]) == Some(reqs@[i].method@)
                        &&& reqs@[i].params == json_params(raws@[i])
                    }
            },
            Err(e) => {
                &&& first_invalid(raws@) matches Some(i)
                &&& e == (if json_id(raws@[first_invalid(raws@)->Some_0]) is None {
                    RpcError::MissingId
                } else {
                    RpcError::MissingMethod
                })
            },
        },
{
    let mut reqs: Vec<ClientRequest> = Vec::new();
    let n: usize = raws.len();
    let mut i: usize = 0;
    while i < n
        invariant
            i <= n,
            n == raws@.len(),
            reqs@.len() == i,
            forall|j: int| 0 <= j < i ==> request_valid(#[trigger] raws@[j]),
            forall|j: int|
                0 <= j < i ==> {
                    &&& json_id(#[trigger] raws@[j]) == Some(reqs@[j].id)
                    &&& json_method(raws@[j]) == Some(reqs@[j].method@)
                    &&& reqs@[j].params == json_params(raws@[j])
                },
        decreases n - i,
    {
        let raw = &raws[i];
        let id: u64 = match read_id(raw) {
            Some(id) => id,
            None => {
                proof {
                    lemma_first_invalid_hit(raws@, i as int);
                }
                return Err(RpcError::MissingId);
            },
        };
        let method: String = match read_method(raw) {
            Some(m) => m,
            None => {
                proof {
                    lemma_first_invalid_hit(raws@, i as int);
                }
                return Err(RpcError::MissingMethod);
            },
        };
        let params = read_params(raw);
        reqs.push(ClientRequest { id, method, params });
        i = i + 1;
    }
    proof {
        lemma_first_invalid_none(raws@);
    }
    Ok(reqs)
}

// ---------------------------------------------------------------------------
// Phase 3: cache planning
// ---------------------------------------------------------------------------

/// Derive the cache key for one request, or `None` when the request cannot
/// be served from or written to the cache: no handler is registered for its
/// method, the handler derived no key, or key extraction failed.  A key is
/// only ever derived through a registered handler.
pub fn cache_probe<H: RpcCacheHandler>(chain: &ChainState<H>, req: &ClientRequest) -> (r: Option<
    String,
>)
    ensures
        r is Some ==> chain.has_handler(req.method@),
{
    match chain.lookup_handler(&req.method) {
        None => None,
        Some(entry) => match entry.handler.extract_cache_key(&req.params) {
            Ok(Some(key)) => Some(key),
            Ok(None) => None,
            Err(_) => None,
        },
    }
}

/// The pending request that forwards `req`, carrying `key` for write-back.
pub open spec fn pend_of(req: ClientRequest, key: Option<String>) -> PendingRequest {
    PendingRequest { id: req.id, method: req.method, params: req.params, cache_key: key }
}

/// The write-back key an event carries: only a clean store miss keeps its
/// key, so nothing is written back after a store failure.
pub open spec fn event_key(ev: CacheEvent) -> Option<String> {
    match ev {
        CacheEvent::Absent { key } => Some(key),
        _ => None,
    }
}

/// Whether an event is a usable cache hit: the store had a value and that
/// value parses as JSON.
pub open spec fn is_hit_event(ev: CacheEvent) -> bool {
    match ev {
        CacheEvent::Found { key: _, raw } => parsed_json(raw@) is Some,
        _ => false,
    }
}

/// How one request and its cache event extend the accumulator: a usable hit
/// resolves the request from the store, a corrupt entry fails the call, and
/// everything else queues the request for the upstream batch.
pub open spec fn step_plan(acc: AccView, req: ClientRequest, ev: CacheEvent) -> Option<AccView> {
    match ev {
        CacheEvent::Found { key: _, raw } => match parsed_json(raw@) {
            Some(w) => Some(
                AccView {
                    ordered: acc.ordered.push(req.id),
                    table: acc.table.push((req.id, w)),
                    pending: acc.pending,
                },
            ),
            None => None,
        },
        _ => Some(
            AccView {
                ordered: acc.ordered.push(req.id),
                table: acc.table,
                pending: acc.pending.push(pend_of(req, event_key(ev))),
            },
        ),
    }
}

/// The accumulator before any request is folded in.
pub open spec fn empty_acc() -> AccView {
    AccView { ordered: Seq::empty(), table: Seq::empty(), pending: Seq::empty() }
}

/// The accumulator that a sequence of requests and their cache events folds
/// to, or `None` when some stored value is corrupt.
pub open spec fn replay_plan(pairs: Seq<(ClientRequest, CacheEvent)>) -> Option<AccView>
    decreases pairs.len(),
{
    if pairs.len() == 0 {
        Some(empty_acc())
    } else {
        match replay_plan(pairs.drop_last()) {
            Some(acc) => step_plan(acc, pairs.last().0, pairs.last().1),
            None => None,
        }
    }
}

proof fn lemma_replay_plan_extends_none(pairs: Seq<(ClientRequest, CacheEvent)>, i: int)
    requires
        0 <= i <= pairs.len(),
        replay_plan(pairs.take(i)) is None,
    ensures
        replay_plan(pairs) is None,
    decreases pairs.len() - i,
{
    if i == pairs.len() {
        assert(pairs.take(i) =~= pairs);
    } else {
        assert(pairs.take(i + 1).drop_last() =~= pairs.take(i));
        lemma_replay_plan_extends_none(pairs, i + 1);
    }
}

/// Fold the per-request cache events into the accumulator that the rest of
/// the call works on.  The caller pairs each validated request, in order,
/// with what the cache layer reported for it.
pub fn plan_batch(pairs: Vec<(ClientRequest, CacheEvent)>) -> (r: Result<BatchAcc, RpcError>)
    ensures
        match r {
            Ok(acc) => replay_plan(pairs@) == Some(acc@),
            Err(e) => replay_plan(pairs@) is None && e == RpcError::CacheCorrupt,
        },
{
    let mut acc = BatchAcc { ordered_ids: Vec::new(), table: Vec::new(), pending: Vec::new() };
    let n: usize = pairs.len();
    let mut i: usize = 0;
    while i < n
        invariant
            i <= n,
            n == pairs@.len(),
            replay_plan(pairs@.take(i as int)) == Some(acc@),
        decreases n - i,
    {
        proof {
            assert(pairs@.take(i + 1).drop_last() =~= pairs@.take(i as int));
            assert(pairs@.take(i + 1).last() == pairs@[i as int]);
        }
        let req = &pairs[i].0;
        let ev = &pairs[i].1;
        acc.ordered_ids.push(req.id);
        match ev {
            CacheEvent::Found { key: _, raw } => {
                match parse_json(raw.as_str()) {
                    Some(w) => {
                        acc.table.push((req.id, w));
                    },
                    None => {
                        proof {
                            lemma_replay_plan_extends_none(pairs@, i + 1);
                        }
                        return Err(RpcError::CacheCorrupt);
                    },
                }
            },
            CacheEvent::Absent { key } => {
                let pend = PendingRequest {
                    id: req.id,
                    method: req.method.clone(),
                    params: clone_value(&req.params),
                    cache_key: Some(key.clone()),
                };
                acc.pending.push(pend);
            },
            _ => {
                let pend = PendingRequest {
                    id: req.id,
                    method: req.method.clone(),
                    params: clone_value(&req.params),
                    cache_key: None,
                };
                acc.pending.push(pend);
            },
        }
        i = i + 1;
    }
    proof {
        assert(pairs@.take(n as int) =~= pairs@);
    }
    Ok(acc)
}

/// Whether anything must be sent upstream; when this is false the call is
/// served entirely from the cache.
pub fn has_pending(acc: &BatchAcc) -> (r: bool)
    ensures
        r == (acc@.pending.len() > 0),
{
    acc.pending.len() > 0
}

// ---------------------------------------------------------------------------
// Phase 4a: the upstream batch
// ---------------------------------------------------------------------------

/// The one JSON-RPC batch that carries every pending request upstream, each
/// element keeping its request's original id, method and params.
pub fn build_upstream_batch(acc: &BatchAcc) -> (r: Value)
    ensures
        match json_elems(r) {
            Some(b) => {
                &&& b.len() == acc@.pending.len()
                &&& forall|i: int|
                    0 <= i < b.len() ==> {
                        &&& json_id(#[trigger] b[i]) == Some(acc@.pending[i].id)
                        &&& json_method(b[i]) == Some(acc@.pending[i].method@)
                        &&& json_params(b[i]) == acc@.pending[i].params
                    }
            },
            None => false,
        },
{
    let mut items: Vec<Value> = Vec::new();
    let n: usize = acc.pending.len();
    let mut i: usize = 0;
    while i < n
        invariant
            i <= n,
            n == acc@.pending.len(),
            items@.len() == i,
            forall|j: int|
                0 <= j < i ==> {
                    &&& json_id(#[trigger] items@[j]) == Some(acc@.pending[j].id)
                    &&& json_method(items@[j]) == Some(acc@.pending[j].method@)
                    &&& json_params(items@[j]) == acc@.pending[j].params
                },
        decreases n - i,
    {
        let p = &acc.pending[i];
        items.push(make_rpc_request(p.id, &p.method, &p.params));
        i = i + 1;
    }
    make_array(items)
}

// ---------------------------------------------------------------------------
// Phase 4b: reconciliation
// ---------------------------------------------------------------------------

/// The position of the pending request that a response id correlates with;
/// the latest queued one wins, as a table keyed by id would behave.
pub open spec fn pending_index(pending: Seq<PendingRequest>, id: u64) -> Option<int>
    decreases pending.len(),
{
    if pending.len() == 0 {
        None
    } else if pending.last().id == id {
        Some(pending.len() - 1)
    } else {
        pending_index(pending.drop_last(), id)
    }
}

proof fn lemma_pending_index_hit(pending: Seq<PendingRequest>, id: u64, i: int)
    requires
        0 <= i < pending.len(),
        pending[i].id == id,
        forall|j: int| i < j < pending.len() ==> (#[trigger] pending[j]).id != id,
    ensures
        pending_index(pending, id) == Some(i),
    decreases pending.len(),
{
    if i == pending.len() - 1 {
    } else {
        assert(pending.drop_last()[i] == pending[i]);
        lemma_pending_index_hit(pending.drop_last(), id, i);
    }
}

proof fn lemma_pending_index_miss(pending: Seq<PendingRequest>, id: u64)
    requires
        forall|j: int| 0 <= j < pending.len() ==> (#[trigger] pending[j]).id != id,
    ensures
        pending_index(pending, id) is None,
    decreases pending.len(),
{
    if pending.len() > 0 {
        lemma_pending_index_miss(pending.drop_last(), id);
    }
}

/// A found correlation index is in range and carries the id it was found
/// by.
pub proof fn lemma_pending_index_range(pending: Seq<PendingRequest>, id: u64)
    requires
        pending_index(pending, id) is Some,
    ensures
        0 <= pending_index(pending, id)->Some_0 < pending.len(),
        pending[pending_index(pending, id)->Some_0].id == id,
    decreases pending.len(),
{
    if pending.len() > 0 && pending.last().id != id {
        lemma_pending_index_range(pending.drop_last(), id);
        assert(pending.drop_last()[pending_index(pending, id)->Some_0] == pending[pending_index(
            pending,
            id,
        )->Some_0]);
    }
}

/// The pending request a response id correlates with, if any.
fn find_pending<'a>(pending: &'a Vec<PendingRequest>, id: u64) -> (r: Option<&'a PendingRequest>)
    ensures
        match r {
            Some(p) => {
                &&& pending_index(pending@, id) matches Some(j)
                &&& *p == pending@[pending_index(pending@, id)->Some_0]
            },
            None => pending_index(pending@, id) is None,
        },
{
    let n: usize = pending.len();
    let mut i: usize = n;
    while i > 0
        invariant
            i <= n,
            n == pending@.len(),
            forall|j: int| i <= j < n ==> (#[trigger] pending@[j]).id != id,
        decreases i,
    {
        i = i - 1;
        if pending[i].id == id {
            proof {
                lemma_pending_index_hit(pending@, id, i as int);
            }
            return Some(&pending[i]);
        }
    }
    proof {
        lemma_pending_index_miss(pending@, id);
    }
    None
}

/// What one upstream response element contributes, or why it fails the
/// call: it must carry an id, the id must correlate with a pending request,
/// it must not carry an error, and a pending request that expects a cache
/// write-back must still have its handler registered.
pub open spec fn reconcile_step<H>(
    entries: Seq<(String, CacheEntry<H>)>,
    pending: Seq<PendingRequest>,
    elem: Value,
) -> Result<(u64, Value), RpcError> {
    match json_id(elem) {
        None => Err(RpcError::UnknownCorrelation),
        Some(id) => match pending_index(pending, id) {
            None => Err(RpcError::UnknownCorrelation),
            Some(j) => {
                if json_error_present(elem) {
                    Err(RpcError::RemoteError)
                } else if pending[j].cache_key is Some && keyed_index(
                    entries,
                    pending[j].method@,
                ) is None {
                    Err(RpcError::HandlerMissing)
                } else {
                    Ok((id, json_result(elem)))
                }
            },
        },
    }
}

/// The id-to-result rows that an upstream response array adds to the result
/// table, in response order, or the failure of the first offending element.
pub open spec fn reconcile_additions<H>(
    entries: Seq<(String, CacheEntry<H>)>,
    pending: Seq<PendingRequest>,
    elems: Seq<Value>,
) -> Result<Seq<(u64, Value)>, RpcError>
    decreases elems.len(),
{
    if elems.len() == 0 {
        Ok(Seq::empty())
    } else {
        match reconcile_additions(entries, pending, elems.drop_last()) {
            Err(e) => Err(e),
            Ok(adds) => match reconcile_step(entries, pending, elems.last()) {
                Err(e) => Err(e),
                Ok(a) => Ok(adds.push(a)),
            },
        }
    }
}

proof fn lemma_additions_extend_err<H>(
    entries: Seq<(String, CacheEntry<H>)>,
    pending: Seq<PendingRequest>,
    elems: Seq<Value>,
    i: int,
)
    requires
        0 <= i <= elems.len(),
        reconcile_additions(entries, pending, elems.take(i)) is Err,
    ensures
        reconcile_additions(entries, pending, elems) == reconcile_additions(
            entries,
            pending,
            elems.take(i),
        ),
    decreases elems.len() - i,
{
    if i == elems.len() {
        assert(elems.take(i) =~= elems);
    } else {
        assert(elems.take(i + 1).drop_last() =~= elems.take(i));
        lemma_additions_extend_err(entries, pending, elems, i + 1);
    }
}

/// Correlate the upstream batch response with the pending requests, grow
/// the result table, and collect the write-back instructions for results
/// whose pending request carried a cache key and whose handler calls them
/// cacheable.  Any per-element failure rejects the whole call and leaves
/// the accumulator as it was: one failing sub-call poisons the batch.
pub fn reconcile_upstream<H: RpcCacheHandler>(
    chain: &ChainState<H>,
    acc: &mut BatchAcc,
    response: &Value,
) -> (r: Result<Vec<CacheWrite>, RpcError>)
    ensures
        final(acc).ordered_ids == old(acc).ordered_ids,
        final(acc).pending == old(acc).pending,
        match r {
            Ok(writes) => {
                &&& json_elems(*response) matches Some(elems)
                &&& reconcile_additions(
                    chain.cache_entries@,
                    old(acc)@.pending,
                    json_elems(*response)->Some_0,
                ) matches Ok(adds)
                &&& final(acc)@.table == old(acc)@.table + reconcile_additions(
                    chain.cache_entries@,
                    old(acc)@.pending,
                    json_elems(*response)->Some_0,
                )->Ok_0
                &&& forall|k: int|
                    0 <= k < writes@.len() ==> exists|j: int|
                        {
                            &&& 0 <= j < old(acc)@.pending.len()
                            &&& (#[trigger] old(acc)@.pending[j]).cache_key == Some(
                                (#[trigger] writes@[k]).key,
                            )
                        }
            },
            Err(e) => {
                &&& final(acc)@.table == old(acc)@.table
                &&& (json_elems(*response) is None ==> e == RpcError::InvalidResponse)
                &&& (json_elems(*response) matches Some(elems) ==> reconcile_additions(
                    chain.cache_entries@,
                    old(acc)@.pending,
                    elems,
                ) == Err::<Seq<(u64, Value)>, RpcError>(e))
            },
        },
{
    let elems: Vec<Value> = match read_elems(response) {
        Some(a) => a,
        None => {
            return Err(RpcError::InvalidResponse);
        },
    };
    let mut adds: Vec<(u64, Value)> = Vec::new();
    let mut writes: Vec<CacheWrite> = Vec::new();
    let n: usize = elems.len();
    let mut i: usize = 0;
    while i < n
        invariant
            i <= n,
            n == elems@.len(),
            json_elems(*response) == Some(elems@),
            acc.pending == old(acc).pending,
            reconcile_additions(chain.cache_entries@, acc@.pending, elems@.take(i as int)) == Ok::<
                Seq<(u64, Value)>,
                RpcError,
            >(adds@),
            forall|k: int|
                0 <= k < writes@.len() ==> exists|j: int|
                    {
                        &&& 0 <= j < acc@.pending.len()
                        &&& (#[trigger] acc@.pending[j]).cache_key == Some(
                            (#[trigger] writes@[k]).key,
                        )
                    },
        decreases n - i,
    {
        proof {
            assert(elems@.take(i + 1).drop_last() =~= elems@.take(i as int));
            assert(elems@.take(i + 1).last() == elems@[i as int]);
        }
        let elem = &elems[i];
        let id: u64 = match read_id(elem) {
            Some(id) => id,
            None => {
                proof {
                    lemma_additions_extend_err(
                        chain.cache_entries@,
                        acc@.pending,
                        elems@,
                        i + 1,
                    );
                }
                return Err(RpcError::UnknownCorrelation);
            },
        };
        let pend: &PendingRequest = match find_pending(&acc.pending, id) {
            Some(p) => p,
            None => {
                proof {
                    lemma_additions_extend_err(
                        chain.cache_entries@,
                        acc@.pending,
                        elems@,
                        i + 1,
                    );
                }
                return Err(RpcError::UnknownCorrelation);
            },
        };
        if read_error_present(elem) {
            proof {
                lemma_additions_extend_err(chain.cache_entries@, acc@.pending, elems@, i + 1);
            }
            return Err(RpcError::RemoteError);
        }
        let result: Value = read_result(elem);
        match &pend.cache_key {
            Some(key) => {
                match chain.lookup_handler(&pend.method) {
                    None => {
                        proof {
                            lemma_additions_extend_err(
                                chain.cache_entries@,
                                acc@.pending,
                                elems@,
                                i + 1,
                            );
                        }
                        return Err(RpcError::HandlerMissing);
                    },
                    Some(entry) => {
                        match entry.handler.extract_cache_value(&result) {
                            Ok((true, value)) => {
                                writes.push(CacheWrite { key: key.clone(), value });
                                proof {
                                    lemma_pending_index_range(acc@.pending, id);
                                    let pi = pending_index(acc@.pending, id)->Some_0;
                                    assert(0 <= pi < acc@.pending.len());
                                    assert(acc@.pending[pi].cache_key == Some(
                                        writes@.last().key,
                                    ));
                                }
                            },
                            Ok((false, _)) => (),
                            // A value-extraction failure skips the write;
                            // it never fails the call.
                            Err(_) => (),
                        }
                    },
                }
            },
            None => (),
        }
        adds.push((id, result));
        i = i + 1;
    }
    proof {
        assert(elems@.take(n as int) =~= elems@);
    }
    acc.table.append(&mut adds);
    Ok(writes)
}

// ---------------------------------------------------------------------------
// Phase 5: assembly
// ---------------------------------------------------------------------------

/// The position of the result that an id resolves to; the latest written
/// row wins, as a table keyed by id would behave.
pub open spec fn table_index(table: Seq<(u64, Value)>, id: u64) -> Option<int>
    decreases table.len(),
{
    if table.len() == 0 {
        None
    } else if table.last().0 == id {
        Some(table.len() - 1)
    } else {
        table_index(table.drop_last(), id)
    }
}

/// The result that an id resolves to; meaningful when `table_index` finds
/// one.
pub open spec fn table_value(table: Seq<(u64, Value)>, id: u64) -> Value {
    table[table_index(table, id)->Some_0].1
}

proof fn lemma_table_index_hit(table: Seq<(u64, Value)>, id: u64, i: int)
    requires
        0 <= i < table.len(),
        table[i].0 == id,
        forall|j: int| i < j < table.len() ==> (#[trigger] table[j]).0 != id,
    ensures
        table_index(table, id) == Some(i),
    decreases table.len(),
{
    if i == table.len() - 1 {
    } else {
        assert(table.drop_last()[i] == table[i]);
        lemma_table_index_hit(table.drop_last(), id, i);
    }
}

proof fn lemma_table_index_miss(table: Seq<(u64, Value)>, id: u64)
    requires
        forall|j: int| 0 <= j < table.len() ==> (#[trigger] table[j]).0 != id,
    ensures
        table_index(table, id) is None,
    decreases table.len(),
{
    if table.len() > 0 {
        lemma_table_index_miss(table.drop_last(), id);
    }
}

/// The result a request id resolves to, if any.
fn find_result<'a>(table: &'a Vec<(u64, Value)>, id: u64) -> (r: Option<&'a Value>)
    ensures
        match r {
            Some(v) => {
                &&& table_index(table@, id) matches Some(j)
                &&& *v == table_value(table@, id)
            },
            None => table_index(table@, id) is None,
        },
{
    let n: usize = table.len();
    let mut i: usize = n;
    while i > 0
        invariant
            i <= n,
            n == table@.len(),
            forall|j: int| i <= j < n ==> (#[trigger] table@[j]).0 != id,
        decreases i,
    {
        i = i - 1;
        if table[i].0 == id {
            proof {
                lemma_table_index_hit(table@, id, i as int);
            }
            return Some(&table[i].1);
        }
    }
    proof {
        lemma_table_index_miss(table@, id);
    }
    None
}

/// Rebuild the client-visible response by walking the original id order:
/// one JSON-RPC response object per id, unwrapped to a bare object when the
/// client submitted exactly one request.  An id with no result is an engine
/// invariant violation, never a client error.
pub fn assemble_response(acc: &BatchAcc) -> (r: Result<Value, RpcError>)
    ensures
        match r {
            Ok(v) => {
                &&& forall|i: int|
                    0 <= i < acc@.ordered.len() ==> table_index(
                        acc@.table,
                        #[trigger] acc@.ordered[i],
                    ) is Some
                &&& (acc@.ordered.len() == 1 ==> {
                    &&& json_elems(v) is None
                    &&& json_id(v) == Some(acc@.ordered[0])
                    &&& json_result(v) == table_value(acc@.table, acc@.ordered[0])
                })
                &&& (acc@.ordered.len() != 1 ==> {
                    &&& json_elems(v) matches Some(out)
                    &&& json_elems(v)->Some_0.len() == acc@.ordered.len()
                    &&& forall|i: int|
                        0 <= i < acc@.ordered.len() ==> {
                            &&& json_id(#[trigger] json_elems(v)->Some_0[i]) == Some(
                                acc@.ordered[i],
                            )
                            &&& json_result(json_elems(v)->Some_0[i]) == table_value(
                                acc@.table,
                                acc@.ordered[i],
                            )
                        }
                })
            },
            Err(e) => {
                &&& e == RpcError::MissingResult
                &&& exists|i: int|
                    0 <= i < acc@.ordered.len() && table_index(
                        acc@.table,
                        #[trigger] acc@.ordered[i],
                    ) is None
            },
        },
{
    let mut out: Vec<Value> = Vec::new();
    let n: usize = acc.ordered_ids.len();
    let mut i: usize = 0;
    while i < n
        invariant
            i <= n,
            n == acc@.ordered.len(),
            out@.len() == i,
            forall|j: int|
                0 <= j < i ==> table_index(acc@.table, #[trigger] acc@.ordered[j]) is Some,
            forall|j: int|
                0 <= j < i ==> {
                    &&& json_id(#[trigger] out@[j]) == Some(acc@.ordered[j])
                    &&& json_result(out@[j]) == table_value(acc@.table, acc@.ordered[j])
                    &&& json_elems(out@[j]) is None
                },
        decreases n - i,
    {
        let id: u64 = acc.ordered_ids[i];
        match find_result(&acc.table, id) {
            Some(v) => {
                out.push(make_rpc_response(id, v));
            },
            None => {
                return Err(RpcError::MissingResult);
            },
        }
        i = i + 1;
    }
    if out.len() == 1 {
        match out.pop() {
            Some(v) => Ok(v),
            None => Err(RpcError::MissingResult),
        }
    } else {
        Ok(make_array(out))
    }
}

} // verus!
