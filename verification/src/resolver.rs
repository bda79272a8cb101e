//! The batch metadata resolver: asset ids in, metadata records out.
//!
//! The ids are cut into chunks of at most `BATCH_SIZE`. Each chunk is asked
//! for in one batch request, which is sent again after a timeout or an
//! unreadable response, up to `MAX_ATTEMPTS` requests for the chunk in all. Where the service marks an item of the response as
//! permission-denied, the hosting context of that item is looked up and the
//! whole chunk is asked for again with the context attached; nothing of
//! such a response is kept.
//!
//! The resolver is a state machine. [`Resolver::new`] returns the first
//! request; the caller sends each request and reports the answer with
//! [`Resolver::on_event`], which returns the next request, until the
//! resolver is done or has failed.

use vstd::prelude::*;
use vstd::slice::slice_subrange;
use crate::context::{
    listing_result, on_owner_reply, owner_result, ContextCache, ContextError, ListingReply, Owner,
    OwnerReply,
};
use crate::asset_id::{parse_id, token_id};
use crate::fault::{retry_allowed, retryable, should_retry, is_retryable, ServiceFault};
use crate::record::{
    any_denied, create_batch_payloads, filter_animations, has_403_error, is_denied,
    payloads_match, wanted_records, BatchPayload, MetadataRecord, BATCH_SIZE,
};

verus! {

/// How often one chunk is asked for at most: the first request and every
/// request that repeats it, after a fault or after a denial.
pub const MAX_ATTEMPTS: u32 = 9;

/// The timeout of the first request for a chunk, in seconds.
pub const INITIAL_TIMEOUT_SECS: u64 = 4;

/// By how much the timeout grows with each retry after a fault, in seconds.
pub const TIMEOUT_STEP_SECS: u64 = 1;

/// The pause before a retry after a fault, in seconds.
pub const RETRY_DELAY_SECS: u64 = 2;

/// Why a resolution failed.
#[derive(Clone, Copy, Debug, PartialEq, Eq, Structural)]
pub enum ResolveError {
    /// A request failed with a fault that is not worth a retry.
    Fatal(ServiceFault),
    /// The last request that a chunk may have failed with a timeout or an
    /// unreadable response; the fault is that of this request.
    Exhausted(ServiceFault),
    /// Items are permission-denied and none of them carries a correlation
    /// token.
    MissingToken,
    /// The correlation token of the permission-denied item at this position
    /// of the response is not an asset id. The resolver keeps the token.
    BadToken { position: usize },
    /// The last request that a chunk may have was answered and the asset
    /// is still permission-denied.
    Denied { asset_id: u64 },
    /// No hosting context was found for the permission-denied asset.
    Context { asset_id: u64, cause: ContextError },
}

/// What the resolver is waiting for.
#[derive(Clone, Copy, Debug, PartialEq, Eq, Structural)]
pub enum Phase {
    /// The answer to the batch request for the current chunk.
    AwaitingBatch,
    /// The owner of a permission-denied asset.
    AwaitingOwner { asset_id: u64 },
    /// The experiences of the owner of a permission-denied asset.
    AwaitingListing { asset_id: u64, owner: Owner },
    /// Nothing: every chunk is resolved.
    Done,
    /// Nothing: the resolution failed.
    Failed(ResolveError),
}

/// The answer to a batch request.
#[derive(Clone, Debug)]
pub enum BatchReply {
    /// The service answered with these items.
    Records(Vec<MetadataRecord>),
    /// The request failed.
    Failed(ServiceFault),
}

/// What the caller reports to the resolver.
#[derive(Clone, Debug)]
pub enum ResolverEvent {
    Batch(BatchReply),
    Owner(OwnerReply),
    Listing(ListingReply),
}

/// What the resolver asks the caller to do.
#[derive(Clone, Debug)]
pub enum ResolverCommand {
    /// Wait `delay_secs`, then send one batch request with these items, with
    /// the hosting context attached if there is one, and with this timeout.
    SendBatch { payloads: Vec<BatchPayload>, context: Option<u64>, timeout_secs: u64, delay_secs: u64 },
    /// Look up the owner of the asset.
    LookupOwner { asset_id: u64 },
    /// List the experiences of the owner.
    ListExperiences { owner: Owner },
}

/// A command as a mathematical value: the batch request is described by
/// the asset ids it asks for.
pub enum Request {
    SendBatch { chunk: Seq<u64>, context: Option<u64>, timeout_secs: u64, delay_secs: u64 },
    LookupOwner { asset_id: u64 },
    ListExperiences { owner: Owner },
}

/// Whether a command is the request `request`: a batch request has one item
/// for each id of the chunk, in order, with the decimal text of the id both
/// as the asset to look up and as the correlation token.
pub open spec fn command_is(command: ResolverCommand, request: Request) -> bool {
    match (command, request) {
        (
            ResolverCommand::SendBatch { payloads, context, timeout_secs, delay_secs },
            Request::SendBatch { chunk, context: c, timeout_secs: t, delay_secs: d },
        ) => payloads_match(payloads@, chunk) && context == c && timeout_secs == t && delay_secs
            == d,
        (ResolverCommand::LookupOwner { asset_id }, Request::LookupOwner { asset_id: a }) => asset_id
            == a,
        (ResolverCommand::ListExperiences { owner }, Request::ListExperiences { owner: o }) => owner
            == o,
        _ => false,
    }
}

/// Whether an optional command is the optional request.
pub open spec fn commands_agree(command: Option<ResolverCommand>, request: Option<Request>) -> bool {
    match (command, request) {
        (Some(c), Some(r)) => command_is(c, r),
        (None, None) => true,
        _ => false,
    }
}

/// Whether the resolution has failed for a token that is not an asset id.
pub open spec fn is_bad_token(phase: Phase) -> bool {
    match phase {
        Phase::Failed(ResolveError::BadToken { .. }) => true,
        _ => false,
    }
}

/// Whether a record is marked permission-denied and carries a correlation
/// token, so that its hosting context can be looked up.
pub open spec fn is_traceable(record: MetadataRecord) -> bool {
    is_denied(record) && record.request_id is Some
}

/// The position of the first traceable record of a response.
pub open spec fn first_traceable(records: Seq<MetadataRecord>) -> Option<int>
    decreases records.len(),
{
    if records.len() == 0 {
        None
    } else {
        match first_traceable(records.drop_last()) {
            Some(p) => Some(p),
            None => if is_traceable(records.last()) {
                Some(records.len() - 1)
            } else {
                None
            },
        }
    }
}

/// The number of chunks that `n` ids are cut into.
pub open spec fn chunk_count(n: nat) -> nat {
    (n + BATCH_SIZE - 1) as nat / (BATCH_SIZE as nat)
}

/// The state of a resolver as a mathematical value.
pub struct ResolverModel {
    /// The asset ids to resolve.
    pub ids: Seq<u64>,
    /// Where the current chunk starts.
    pub cursor: nat,
    /// How many requests have been sent for the current chunk.
    pub requests: u32,
    /// The timeout of the next request for the current chunk, in seconds.
    pub timeout_secs: u64,
    /// The hosting context that is attached to requests.
    pub context: Option<u64>,
    /// The hosting contexts found so far, by asset id.
    pub cache: Map<u64, u64>,
    /// The records accepted so far.
    pub records: Seq<MetadataRecord>,
    /// The correlation token that could not be read as an asset id, once
    /// the resolution has failed for it.
    pub bad_token: Option<String>,
    pub phase: Phase,
}

impl ResolverModel {
    /// Where the current chunk ends.
    pub open spec fn chunk_end(self) -> nat {
        if self.cursor + BATCH_SIZE <= self.ids.len() {
            self.cursor + BATCH_SIZE as nat
        } else {
            self.ids.len()
        }
    }

    /// The ids of the current chunk.
    pub open spec fn chunk(self) -> Seq<u64> {
        self.ids.subrange(self.cursor as int, self.chunk_end() as int)
    }

    /// Whether the resolver is waiting for an answer.
    pub open spec fn active(self) -> bool {
        self.phase is AwaitingBatch || self.phase is AwaitingOwner || self.phase is AwaitingListing
    }

    /// What holds of every state that a resolver can reach.
    pub open spec fn inv(self) -> bool {
        &&& self.cursor <= self.ids.len()
        &&& self.active() ==> self.cursor < self.ids.len()
        &&& self.phase is Done ==> self.cursor == self.ids.len()
        &&& 1 <= self.requests <= MAX_ATTEMPTS
        &&& INITIAL_TIMEOUT_SECS <= self.timeout_secs <= INITIAL_TIMEOUT_SECS + (self.requests
            - 1) * TIMEOUT_STEP_SECS
        &&& (self.phase is AwaitingOwner || self.phase is AwaitingListing) ==> self.requests
            < MAX_ATTEMPTS
        &&& self.bad_token is Some <==> is_bad_token(self.phase)
        &&& self.bad_token matches Some(token) ==> token_id(token@) is None
        &&& self.phase matches Phase::AwaitingOwner { asset_id } ==> !self.cache.contains_key(
            asset_id,
        )
        &&& self.phase matches Phase::AwaitingListing { asset_id, .. } ==> !self.cache.contains_key(
            asset_id,
        )
    }

    /// The batch request for the current chunk, sent after `delay_secs`.
    pub open spec fn send(self, delay_secs: u64) -> Request {
        Request::SendBatch {
            chunk: self.chunk(),
            context: self.context,
            timeout_secs: self.timeout_secs,
            delay_secs,
        }
    }

    /// The resolution fails for a token that is not an asset id: the token
    /// is kept.
    pub open spec fn fail_for_token(self, position: int, token: String) -> (
        ResolverModel,
        Option<Request>,
    ) {
        ResolverModel { bad_token: Some(token), ..self }.fail(
            ResolveError::BadToken { position: position as usize },
        )
    }

    /// The resolution fails.
    pub open spec fn fail(self, error: ResolveError) -> (ResolverModel, Option<Request>) {
        (ResolverModel { phase: Phase::Failed(error), ..self }, None)
    }

    /// The current chunk is asked for again at once, with the hosting
    /// context `context` attached. This is one more request for the chunk.
    pub open spec fn reissue_with(self, context: u64) -> (ResolverModel, Option<Request>) {
        let next = ResolverModel {
            context: Some(context),
            requests: (self.requests + 1) as u32,
            phase: Phase::AwaitingBatch,
            ..self
        };
        (next, Some(next.send(0)))
    }

    /// The current chunk is asked for again after a fault: after a pause and
    /// with a longer timeout. This is one more request for the chunk.
    pub open spec fn retry(self) -> (ResolverModel, Option<Request>) {
        let next = ResolverModel {
            requests: (self.requests + 1) as u32,
            timeout_secs: (self.timeout_secs + TIMEOUT_STEP_SECS) as u64,
            ..self
        };
        (next, Some(next.send(RETRY_DELAY_SECS)))
    }

    /// The response `records` for the current chunk is accepted: its wanted
    /// records are kept and the next chunk, if there is one, is asked for.
    pub open spec fn accept(self, records: Seq<MetadataRecord>) -> (ResolverModel, Option<Request>) {
        let next = ResolverModel {
            records: self.records + wanted_records(records),
            cursor: self.chunk_end(),
            requests: 1,
            timeout_secs: INITIAL_TIMEOUT_SECS,
            ..self
        };
        if next.cursor < next.ids.len() {
            (next, Some(next.send(0)))
        } else {
            (ResolverModel { phase: Phase::Done, ..next }, None)
        }
    }

    /// What the resolver does with a response that holds a
    /// permission-denied item.
    ///
    /// The first denied item that carries a token decides. Its token is
    /// read as an asset id. If the cache holds the hosting context of that
    /// asset, the chunk is asked for again with it; else the owner of the
    /// asset is looked up. The resolution fails where no denied item
    /// carries a token, where the token is not an asset id, or where the
    /// chunk has been asked for `MAX_ATTEMPTS` times.
    pub open spec fn on_denied(self, records: Seq<MetadataRecord>) -> (
        ResolverModel,
        Option<Request>,
    ) {
        match first_traceable(records) {
            None => self.fail(ResolveError::MissingToken),
            Some(p) => match token_id(records[p].request_id->0@) {
                None => self.fail_for_token(p, records[p].request_id->0),
                Some(asset_id) => if self.requests >= MAX_ATTEMPTS {
                    self.fail(ResolveError::Denied { asset_id })
                } else if self.cache.contains_key(asset_id) {
                    self.reissue_with(self.cache[asset_id])
                } else {
                    (
                        ResolverModel { phase: Phase::AwaitingOwner { asset_id }, ..self },
                        Some(Request::LookupOwner { asset_id }),
                    )
                },
            },
        }
    }

    /// What the resolver does with the answer to a batch request.
    ///
    /// A request that failed with a timeout or an unreadable response is
    /// sent again while the chunk has been asked for fewer than
    /// `MAX_ATTEMPTS` times; when the last of these requests fails so, the
    /// resolution fails and names that fault. Any other fault makes the
    /// resolution fail at once.
    pub open spec fn on_batch(self, reply: BatchReply) -> (ResolverModel, Option<Request>) {
        match reply {
            BatchReply::Failed(fault) => if retry_allowed(fault, self.requests, MAX_ATTEMPTS) {
                self.retry()
            } else if retryable(fault) {
                self.fail(ResolveError::Exhausted(fault))
            } else {
                self.fail(ResolveError::Fatal(fault))
            },
            BatchReply::Records(records) => if any_denied(records@) {
                self.on_denied(records@)
            } else {
                self.accept(records@)
            },
        }
    }

    /// What the resolver does with the answer to an owner lookup.
    pub open spec fn on_owner(self, asset_id: u64, reply: OwnerReply) -> (
        ResolverModel,
        Option<Request>,
    ) {
        match owner_result(reply) {
            Ok(owner) => (
                ResolverModel { phase: Phase::AwaitingListing { asset_id, owner }, ..self },
                Some(Request::ListExperiences { owner }),
            ),
            Err(cause) => self.fail(ResolveError::Context { asset_id, cause }),
        }
    }

    /// What the resolver does with the answer to a listing: the context
    /// that was found is entered into the cache, and the chunk is asked for
    /// again with it.
    pub open spec fn on_listing(self, asset_id: u64, reply: ListingReply) -> (
        ResolverModel,
        Option<Request>,
    ) {
        match listing_result(reply) {
            Ok(context) => ResolverModel {
                cache: self.cache.insert(asset_id, context),
                ..self
            }.reissue_with(context),
            Err(cause) => self.fail(ResolveError::Context { asset_id, cause }),
        }
    }

    /// The state after an event, and the request that follows. An event
    /// that the resolver is not waiting for changes nothing.
    pub open spec fn step(self, event: ResolverEvent) -> (ResolverModel, Option<Request>) {
        match (self.phase, event) {
            (Phase::AwaitingBatch, ResolverEvent::Batch(reply)) => self.on_batch(reply),
            (Phase::AwaitingOwner { asset_id }, ResolverEvent::Owner(reply)) => self.on_owner(
                asset_id,
                reply,
            ),
            (Phase::AwaitingListing { asset_id, .. }, ResolverEvent::Listing(reply)) => self.on_listing(
                asset_id,
                reply,
            ),
            _ => (self, None),
        }
    }

    /// The state of a new resolver for `ids` that starts with the hosting
    /// contexts of `cache`, and its first request. With no ids the resolver
    /// is done at once.
    pub open spec fn start_with(ids: Seq<u64>, cache: Map<u64, u64>) -> (
        ResolverModel,
        Option<Request>,
    ) {
        let first = ResolverModel {
            ids,
            cursor: 0,
            requests: 1,
            timeout_secs: INITIAL_TIMEOUT_SECS,
            context: None,
            cache,
            records: Seq::empty(),
            bad_token: None,
            phase: Phase::AwaitingBatch,
        };
        if ids.len() > 0 {
            (first, Some(first.send(0)))
        } else {
            (ResolverModel { phase: Phase::Done, ..first }, None)
        }
    }

    /// The state of a new resolver for `ids` with an empty cache, and its
    /// first request.
    pub open spec fn start(ids: Seq<u64>) -> (ResolverModel, Option<Request>) {
        ResolverModel::start_with(ids, Map::empty())
    }
}

/// The state after a sequence of events.
pub open spec fn run(start: ResolverModel, events: Seq<ResolverEvent>) -> ResolverModel
    decreases events.len(),
{
    if events.len() == 0 {
        start
    } else {
        run(start.step(events[0]).0, events.drop_first())
    }
}

/// Whether a request is a batch request.
pub open spec fn is_batch(request: Option<Request>) -> bool {
    request matches Some(Request::SendBatch { .. })
}

/// Whether a request is the owner lookup for `asset_id`.
pub open spec fn is_lookup_of(request: Option<Request>, asset_id: u64) -> bool {
    request == Some(Request::LookupOwner { asset_id })
}

/// The number of batch requests with which the resolver answers a sequence
/// of events.
pub open spec fn batches_sent(start: ResolverModel, events: Seq<ResolverEvent>) -> nat
    decreases events.len(),
{
    if events.len() == 0 {
        0
    } else {
        let (next, request) = start.step(events[0]);
        (if is_batch(request) {
            1nat
        } else {
            0nat
        }) + batches_sent(next, events.drop_first())
    }
}

/// The number of owner lookups for `asset_id` with which the resolver
/// answers a sequence of events.
pub open spec fn owner_lookups(
    start: ResolverModel,
    events: Seq<ResolverEvent>,
    asset_id: u64,
) -> nat
    decreases events.len(),
{
    if events.len() == 0 {
        0
    } else {
        let (next, request) = start.step(events[0]);
        (if is_lookup_of(request, asset_id) {
            1nat
        } else {
            0nat
        }) + owner_lookups(next, events.drop_first(), asset_id)
    }
}

/// The number of listings for the owner of `asset_id` with which the
/// resolver answers a sequence of events.
pub open spec fn owner_listings(
    start: ResolverModel,
    events: Seq<ResolverEvent>,
    asset_id: u64,
) -> nat
    decreases events.len(),
{
    if events.len() == 0 {
        0
    } else {
        let (next, request) = start.step(events[0]);
        (if is_listing_for(next, request, asset_id) {
            1nat
        } else {
            0nat
        }) + owner_listings(next, events.drop_first(), asset_id)
    }
}

/// Whether a request is the listing that belongs to the lookup of the
/// hosting context of `asset_id`.
pub open spec fn is_listing_for(next: ResolverModel, request: Option<Request>, asset_id: u64) -> bool {
    match (request, next.phase) {
        (Some(Request::ListExperiences { .. }), Phase::AwaitingListing { asset_id: a, .. }) => a
            == asset_id,
        _ => false,
    }
}

/// Whether an event is a response without a permission-denied item.
pub open spec fn is_clean(event: ResolverEvent) -> bool {
    event matches ResolverEvent::Batch(BatchReply::Records(records)) && !any_denied(records@)
}

/// A new resolver is in a valid state.
pub proof fn lemma_start_inv(ids: Seq<u64>, cache: Map<u64, u64>)
    ensures
        ResolverModel::start_with(ids, cache).0.inv(),
        ResolverModel::start_with(ids, cache).0.ids == ids,
        ResolverModel::start(ids).0.inv(),
        ResolverModel::start(ids).0.ids == ids,
{
}

/// An event keeps the state valid. It leaves the ids alone, and every
/// hosting context that the cache holds stays in it.
pub proof fn lemma_step_keeps_inv(m: ResolverModel, event: ResolverEvent)
    requires
        m.inv(),
    ensures
        m.step(event).0.inv(),
        m.step(event).0.ids == m.ids,
        forall|a: u64| #[trigger]
            m.cache.contains_key(a) ==> m.step(event).0.cache.contains_key(a) && m.step(
                event,
            ).0.cache[a] == m.cache[a],
{
}

/// While the resolver waits for an answer, the current chunk holds at
/// least one id and at most `BATCH_SIZE`, and the chunks follow each other
/// without a gap: the next chunk starts where the current one ends.
pub proof fn lemma_chunk_bounds(m: ResolverModel, records: Seq<MetadataRecord>)
    requires
        m.inv(),
        m.active(),
    ensures
        1 <= m.chunk().len() <= BATCH_SIZE,
        m.chunk().len() == BATCH_SIZE || m.chunk_end() == m.ids.len(),
        m.accept(records).0.cursor == m.cursor + m.chunk().len(),
{
}

/// A traceable record is found exactly where there is one, and the one
/// that is found is the first.
pub proof fn lemma_first_traceable(records: Seq<MetadataRecord>)
    ensures
        match first_traceable(records) {
            Some(p) => 0 <= p < records.len() && is_traceable(records[p]) && forall|k: int|
                0 <= k < p ==> !is_traceable(#[trigger] records[k]),
            None => forall|k: int| 0 <= k < records.len() ==> !is_traceable(#[trigger] records[k]),
        },
    decreases records.len(),
{
    if records.len() > 0 {
        lemma_first_traceable(records.drop_last());
        assert forall|k: int| 0 <= k < records.len() - 1 implies records.drop_last()[k]
            == records[k] by {}
        match first_traceable(records.drop_last()) {
            Some(p) => {
                assert forall|k: int| 0 <= k < p implies !is_traceable(#[trigger] records[k]) by {
                    assert(!is_traceable(records.drop_last()[k]));
                }
            },
            None => {
                assert forall|k: int| 0 <= k < records.len() - 1 implies !is_traceable(
                    #[trigger] records[k],
                ) by {
                    assert(!is_traceable(records.drop_last()[k]));
                }
            },
        }
    }
}

/// Whether a request asks again for the whole current chunk of `m`, with a
/// hosting context attached.
pub open spec fn retries_whole_chunk(m: ResolverModel, request: Option<Request>) -> bool {
    match request {
        Some(Request::SendBatch { chunk, context, .. }) => chunk == m.chunk() && context is Some,
        _ => false,
    }
}

/// The hosting context that a listing event settles, if it settles one.
pub open spec fn found_context(event: ResolverEvent) -> Option<u64> {
    match event {
        ResolverEvent::Listing(reply) => match listing_result(reply) {
            Ok(context) => Some(context),
            Err(_) => None,
        },
        _ => None,
    }
}

/// A response that holds a permission-denied item is never accepted in
/// part.
///
/// Whatever else the response holds, none of its records is kept and the
/// resolver stays at the chunk. Either the resolution fails, or the whole
/// chunk is asked for again with a hosting context from the cache, or the
/// owner of the denied asset is looked up.
pub proof fn lemma_denied_never_accepted(m: ResolverModel, records: Vec<MetadataRecord>)
    requires
        m.inv(),
        m.phase is AwaitingBatch,
        any_denied(records@),
    ensures
        ({
            let (next, request) = m.step(ResolverEvent::Batch(BatchReply::Records(records)));
            &&& next.records == m.records
            &&& next.cursor == m.cursor
            &&& next.ids == m.ids
            &&& {
                ||| next.phase is Failed && request is None
                ||| next.phase is AwaitingOwner && request is Some && request->0 is LookupOwner
                ||| next.phase is AwaitingBatch && retries_whole_chunk(m, request)
            }
        }),
{
}

/// While the hosting context of a denied asset is looked up, nothing is
/// kept and the resolver stays at the chunk. When the context is found,
/// the whole chunk is asked for again with that context attached;
/// otherwise the resolution fails.
pub proof fn lemma_discovery_retries_chunk(m: ResolverModel, event: ResolverEvent)
    requires
        m.inv(),
        m.phase is AwaitingOwner || m.phase is AwaitingListing,
    ensures
        ({
            let (next, request) = m.step(event);
            &&& next.records == m.records
            &&& next.cursor == m.cursor
            &&& next.ids == m.ids
            &&& {
                ||| next == m && request is None
                ||| next.phase is Failed && request is None
                ||| next.phase is AwaitingListing && request is Some && request->0 is ListExperiences
                ||| next.phase is AwaitingBatch && m.phase is AwaitingListing && found_context(
                    event,
                ) is Some && request == Some(
                    Request::SendBatch {
                        chunk: m.chunk(),
                        context: found_context(event),
                        timeout_secs: m.timeout_secs,
                        delay_secs: 0,
                    },
                ) && next.cache == m.cache.insert(
                    m.phase->AwaitingListing_asset_id,
                    found_context(event)->0,
                )
            }
        }),
{
}

/// Records are kept only from a response without a permission-denied
/// item, and then exactly its wanted records are kept.
pub proof fn lemma_records_from_clean_only(m: ResolverModel, event: ResolverEvent)
    requires
        m.inv(),
    ensures
        m.step(event).0.records == m.records || (m.phase is AwaitingBatch && is_clean(event)
            && m.step(event).0.records == m.records + wanted_records(
            event->Batch_0->Records_0@,
        )),
{
}

/// Without permission errors and faults, the resolver sends one batch
/// request for each chunk.
///
/// Let a resolver for `ids` get, to each of its requests, a response
/// without a permission-denied item. Then it is done after as many
/// responses as `ids` has chunks, and it has sent that many batch
/// requests, the first one included.
pub proof fn lemma_clean_run_requests(ids: Seq<u64>, events: Seq<ResolverEvent>)
    requires
        events.len() == chunk_count(ids.len()),
        forall|i: int| 0 <= i < events.len() ==> is_clean(#[trigger] events[i]),
    ensures
        run(ResolverModel::start(ids).0, events).phase is Done,
        (if is_batch(ResolverModel::start(ids).1) {
            1nat
        } else {
            0nat
        }) + batches_sent(ResolverModel::start(ids).0, events) == chunk_count(ids.len()),
{
    let (first, request) = ResolverModel::start(ids);
    if ids.len() > 0 {
        lemma_clean_from(first, events);
    } else {
        assert(events.len() == 0);
    }
}

/// From a state that waits for a batch response, clean responses take the
/// resolver through the remaining chunks, one request for each chunk after
/// the current one.
pub proof fn lemma_clean_from(m: ResolverModel, events: Seq<ResolverEvent>)
    requires
        m.inv(),
        m.phase is AwaitingBatch,
        events.len() == chunk_count((m.ids.len() - m.cursor) as nat),
        forall|i: int| 0 <= i < events.len() ==> is_clean(#[trigger] events[i]),
    ensures
        run(m, events).phase is Done,
        batches_sent(m, events) + 1 == events.len(),
    decreases events.len(),
{
    assert(is_clean(events[0]));
    let (next, request) = m.step(events[0]);
    let rest = events.drop_first();
    assert forall|i: int| 0 <= i < rest.len() implies is_clean(#[trigger] rest[i]) by {
        assert(rest[i] == events[i + 1]);
    }
    lemma_step_keeps_inv(m, events[0]);
    assert(run(m, events) == run(next, rest));
    if next.cursor < next.ids.len() {
        assert(next.cursor == m.cursor + BATCH_SIZE);
        lemma_clean_from(next, rest);
    } else {
        assert(batches_sent(next, rest) == 0);
    }
}

/// Every batch request is counted: it is either one more request for the
/// chunk at which the resolver stands, or the first request for the next
/// chunk. As the count never exceeds `MAX_ATTEMPTS`, no chunk is asked for
/// more often than that, requests after a denial included.
pub proof fn lemma_requests_counted(m: ResolverModel, event: ResolverEvent)
    requires
        m.inv(),
    ensures
        ({
            let (next, request) = m.step(event);
            &&& next.requests <= MAX_ATTEMPTS
            &&& is_batch(request) ==> (next.cursor == m.cursor && next.requests == m.requests + 1)
                || (next.cursor > m.cursor && next.requests == 1)
            &&& !is_batch(request) && next.active() ==> next.cursor == m.cursor && next.requests
                == m.requests
        }),
{
}

/// Whether an event is a request that failed with a timeout or an
/// unreadable response.
pub open spec fn is_retryable_fault(event: ResolverEvent) -> bool {
    match event {
        ResolverEvent::Batch(BatchReply::Failed(fault)) => retryable(fault),
        _ => false,
    }
}

/// The fault of a failed request.
pub open spec fn fault_of(event: ResolverEvent) -> ServiceFault {
    match event {
        ResolverEvent::Batch(BatchReply::Failed(fault)) => fault,
        _ => ServiceFault::Transport,
    }
}

/// Where every request for a chunk fails with a timeout or an unreadable
/// response, the chunk is asked for `MAX_ATTEMPTS` times in all and the
/// resolution then fails, naming the fault of the last request.
///
/// From a state in which `m.requests` requests have been sent, the
/// resolver answers the failures of these and of the remaining requests
/// with `MAX_ATTEMPTS - m.requests` further requests.
pub proof fn lemma_faults_exhaust(m: ResolverModel, events: Seq<ResolverEvent>)
    requires
        m.inv(),
        m.phase is AwaitingBatch,
        events.len() == MAX_ATTEMPTS - m.requests + 1,
        forall|i: int| 0 <= i < events.len() ==> is_retryable_fault(#[trigger] events[i]),
    ensures
        batches_sent(m, events) + m.requests == MAX_ATTEMPTS,
        run(m, events).phase == Phase::Failed(ResolveError::Exhausted(fault_of(events.last()))),
        run(m, events).records == m.records,
    decreases events.len(),
{
    assert(is_retryable_fault(events[0]));
    let (next, request) = m.step(events[0]);
    let rest = events.drop_first();
    lemma_step_keeps_inv(m, events[0]);
    assert(run(m, events) == run(next, rest));
    if m.requests < MAX_ATTEMPTS {
        assert forall|i: int| 0 <= i < rest.len() implies is_retryable_fault(
            #[trigger] rest[i],
        ) by {
            assert(rest[i] == events[i + 1]);
        }
        assert(rest.last() == events.last());
        lemma_faults_exhaust(next, rest);
    } else {
        assert(rest.len() == 0);
        assert(events.last() == events[0]);
        assert(batches_sent(next, rest) == 0);
    }
}

/// A new resolver whose every request fails with a timeout or an
/// unreadable response sends `MAX_ATTEMPTS` requests, the first one
/// included, and then fails with the fault of the last one.
pub proof fn lemma_new_resolver_exhausts(ids: Seq<u64>, events: Seq<ResolverEvent>)
    requires
        ids.len() > 0,
        events.len() == MAX_ATTEMPTS,
        forall|i: int| 0 <= i < events.len() ==> is_retryable_fault(#[trigger] events[i]),
    ensures
        is_batch(ResolverModel::start(ids).1),
        1 + batches_sent(ResolverModel::start(ids).0, events) == MAX_ATTEMPTS,
        run(ResolverModel::start(ids).0, events).phase == Phase::Failed(
            ResolveError::Exhausted(fault_of(events.last())),
        ),
{
    lemma_start_inv(ids, Map::empty());
    lemma_faults_exhaust(ResolverModel::start(ids).0, events);
}

/// The number of first requests for a chunk with which the resolver
/// answers a sequence of events: the batch requests that come with a move
/// to the next chunk.
pub open spec fn chunks_opened(start: ResolverModel, events: Seq<ResolverEvent>) -> nat
    decreases events.len(),
{
    if events.len() == 0 {
        0
    } else {
        let (next, request) = start.step(events[0]);
        (if is_batch(request) && next.cursor != start.cursor {
            1nat
        } else {
            0nat
        }) + chunks_opened(next, events.drop_first())
    }
}

/// Once the resolver is done or has failed, it stays as it is and asks for
/// nothing more.
pub proof fn lemma_ended_stays(m: ResolverModel, events: Seq<ResolverEvent>)
    requires
        m.phase is Done || m.phase is Failed,
    ensures
        run(m, events) == m,
        batches_sent(m, events) == 0,
        chunks_opened(m, events) == 0,
    decreases events.len(),
{
    if events.len() > 0 {
        lemma_ended_stays(m, events.drop_first());
    }
}

/// From a state that waits for an answer, a run that ends with every chunk
/// resolved moves on to each of the remaining chunks once.
pub proof fn lemma_chunks_opened_from(m: ResolverModel, events: Seq<ResolverEvent>)
    requires
        m.inv(),
        m.active(),
        run(m, events).phase is Done,
    ensures
        chunks_opened(m, events) + 1 == chunk_count((m.ids.len() - m.cursor) as nat),
    decreases events.len(),
{
    if events.len() > 0 {
        let (next, request) = m.step(events[0]);
        let rest = events.drop_first();
        lemma_step_keeps_inv(m, events[0]);
        assert(run(m, events) == run(next, rest));
        if next.active() {
            lemma_chunks_opened_from(next, rest);
            if next.cursor != m.cursor {
                assert(next.cursor == m.cursor + BATCH_SIZE);
                assert(is_batch(request));
            }
        } else {
            lemma_ended_stays(next, rest);
            assert(next.phase is Done);
            assert(!is_batch(request));
        }
    }
}

/// Each chunk is asked for afresh exactly once, retries aside.
///
/// Whatever the services answer, a resolution of `ids` that ends with
/// every chunk resolved has made as many first requests for a chunk as
/// `ids` has chunks: the request that a new resolver starts with, and one
/// with each move to the next chunk. Every other batch request repeats the
/// request for the chunk at which the resolver stands.
pub proof fn lemma_chunks_requested_once(ids: Seq<u64>, events: Seq<ResolverEvent>)
    requires
        run(ResolverModel::start(ids).0, events).phase is Done,
    ensures
        (if is_batch(ResolverModel::start(ids).1) {
            1nat
        } else {
            0nat
        }) + chunks_opened(ResolverModel::start(ids).0, events) == chunk_count(ids.len()),
{
    let (first, request) = ResolverModel::start(ids);
    if ids.len() > 0 {
        lemma_chunks_opened_from(first, events);
    } else {
        lemma_ended_stays(first, events);
    }
}

/// The asset whose hosting context a response with denied items calls for:
/// the one that the token of the first traceable record names.
pub open spec fn denied_asset(records: Seq<MetadataRecord>) -> Option<u64> {
    match first_traceable(records) {
        Some(p) => token_id(records[p].request_id->0@),
        None => None,
    }
}

/// The most owner lookups for `asset_id` that can still follow from a
/// state: none once its context is cached, is being looked up, or the
/// resolver has ended; else one.
pub open spec fn lookups_left(m: ResolverModel, asset_id: u64) -> nat {
    if m.cache.contains_key(asset_id) || m.phase is Done || m.phase is Failed || looking_up(
        m.phase,
        asset_id,
    ) {
        0
    } else {
        1
    }
}

/// Whether the hosting context of `asset_id` is being looked up.
pub open spec fn looking_up(phase: Phase, asset_id: u64) -> bool {
    match phase {
        Phase::AwaitingOwner { asset_id: a } => a == asset_id,
        Phase::AwaitingListing { asset_id: a, .. } => a == asset_id,
        _ => false,
    }
}

/// From any state, the owner lookups for an asset that follow are at most
/// those that are left.
pub proof fn lemma_lookups_bounded(m: ResolverModel, events: Seq<ResolverEvent>, asset_id: u64)
    ensures
        owner_lookups(m, events, asset_id) <= lookups_left(m, asset_id),
    decreases events.len(),
{
    if events.len() > 0 {
        let (next, request) = m.step(events[0]);
        lemma_lookups_bounded(next, events.drop_first(), asset_id);
    }
}

/// The most listings for the owner of `asset_id` that can still follow
/// from a state: none once the context is cached, the listing is under
/// way, or the resolver has ended; else one.
pub open spec fn listings_left(m: ResolverModel, asset_id: u64) -> nat {
    if m.cache.contains_key(asset_id) || m.phase is Done || m.phase is Failed || (m.phase
        is AwaitingListing && looking_up(m.phase, asset_id)) {
        0
    } else {
        1
    }
}

/// From any valid state, the listings for the owner of an asset that
/// follow are at most those that are left.
pub proof fn lemma_listings_bounded(m: ResolverModel, events: Seq<ResolverEvent>, asset_id: u64)
    requires
        m.inv(),
    ensures
        owner_listings(m, events, asset_id) <= listings_left(m, asset_id),
    decreases events.len(),
{
    if events.len() > 0 {
        let (next, request) = m.step(events[0]);
        lemma_step_keeps_inv(m, events[0]);
        lemma_listings_bounded(next, events.drop_first(), asset_id);
    }
}

/// The hosting context of an asset is looked up at most once in a
/// resolution, whatever the services answer: there is at most one owner
/// lookup and at most one listing for it.
pub proof fn lemma_owner_looked_up_once(ids: Seq<u64>, events: Seq<ResolverEvent>, asset_id: u64)
    ensures
        owner_lookups(ResolverModel::start(ids).0, events, asset_id) <= 1,
        owner_listings(ResolverModel::start(ids).0, events, asset_id) <= 1,
{
    lemma_lookups_bounded(ResolverModel::start(ids).0, events, asset_id);
    lemma_start_inv(ids, Map::empty());
    lemma_listings_bounded(ResolverModel::start(ids).0, events, asset_id);
}

/// A resolution that starts with a cache from an earlier one never looks
/// up the hosting context of an asset that the cache holds.
pub proof fn lemma_memoized_never_looked_up(
    ids: Seq<u64>,
    cache: Map<u64, u64>,
    events: Seq<ResolverEvent>,
    asset_id: u64,
)
    requires
        cache.contains_key(asset_id),
    ensures
        owner_lookups(ResolverModel::start_with(ids, cache).0, events, asset_id) == 0,
        owner_listings(ResolverModel::start_with(ids, cache).0, events, asset_id) == 0,
{
    lemma_lookups_bounded(ResolverModel::start_with(ids, cache).0, events, asset_id);
    lemma_start_inv(ids, cache);
    lemma_listings_bounded(ResolverModel::start_with(ids, cache).0, events, asset_id);
}

/// An asset whose hosting context is in the cache costs no remote call:
/// when it is denied again, the chunk is asked for again at once with the
/// cached context.
pub proof fn lemma_cached_context_reused(
    m: ResolverModel,
    records: Vec<MetadataRecord>,
    asset_id: u64,
)
    requires
        m.inv(),
        m.phase is AwaitingBatch,
        m.requests < MAX_ATTEMPTS,
        any_denied(records@),
        denied_asset(records@) == Some(asset_id),
        m.cache.contains_key(asset_id),
    ensures
        m.step(ResolverEvent::Batch(BatchReply::Records(records))).1 == Some(
            Request::SendBatch {
                chunk: m.chunk(),
                context: Some(m.cache[asset_id]),
                timeout_secs: m.timeout_secs,
                delay_secs: 0,
            },
        ),
{
}

/// The first traceable record of a response is the one at `p` if that
/// record is traceable and none before it is.
pub proof fn lemma_first_traceable_is(records: Seq<MetadataRecord>, p: int)
    requires
        0 <= p < records.len(),
        is_traceable(records[p]),
        forall|k: int| 0 <= k < p ==> !is_traceable(#[trigger] records[k]),
    ensures
        first_traceable(records) == Some(p),
{
    lemma_first_traceable(records);
    match first_traceable(records) {
        Some(q) => {
            if q < p {
                assert(!is_traceable(records[q]));
            } else if p < q {
                assert(!is_traceable(records[p]));
            }
        },
        None => {
            assert(!is_traceable(records[p]));
        },
    }
}

/// Finds the first record of a response that is marked permission-denied
/// and carries a correlation token.
pub fn find_first_traceable(records: &Vec<MetadataRecord>) -> (position: Option<usize>)
    ensures
        match position {
            Some(p) => first_traceable(records@) == Some(p as int),
            None => first_traceable(records@) is None,
        },
{
    let mut i: usize = 0;
    while i < records.len()
        invariant
            i <= records.len(),
            forall|k: int| 0 <= k < i ==> !is_traceable(#[trigger] records@[k]),
        decreases records.len() - i,
    {
        if has_403_error(&records[i]) && records[i].request_id.is_some() {
            proof {
                lemma_first_traceable_is(records@, i as int);
            }
            return Some(i);
        }
        i = i + 1;
    }
    proof {
        lemma_first_traceable(records@);
    }
    None
}

/// Whether any record of a response is marked permission-denied.
pub fn contains_denied(records: &Vec<MetadataRecord>) -> (denied: bool)
    ensures
        denied == any_denied(records@),
{
    let mut i: usize = 0;
    while i < records.len()
        invariant
            i <= records.len(),
            forall|k: int| 0 <= k < i ==> !is_denied(#[trigger] records@[k]),
        decreases records.len() - i,
    {
        if has_403_error(&records[i]) {
            assert(is_denied(records@[i as int]));
            return true;
        }
        i = i + 1;
    }
    false
}

fn clone_token(token: &Option<String>) -> (copy: Option<String>)
    ensures
        copy == *token,
{
    match token {
        Some(text) => Some(text.clone()),
        None => None,
    }
}

/// The batch metadata resolver of one resolution.
pub struct Resolver {
    ids: Vec<u64>,
    cursor: usize,
    requests: u32,
    timeout_secs: u64,
    context: Option<u64>,
    cache: ContextCache,
    records: Vec<MetadataRecord>,
    bad_token: Option<String>,
    phase: Phase,
}

impl View for Resolver {
    type V = ResolverModel;

    closed spec fn view(&self) -> ResolverModel {
        ResolverModel {
            ids: self.ids@,
            cursor: self.cursor as nat,
            requests: self.requests,
            timeout_secs: self.timeout_secs,
            context: self.context,
            cache: self.cache@,
            records: self.records@,
            bad_token: self.bad_token,
            phase: self.phase,
        }
    }
}

impl Resolver {
    /// Whether the resolver is in a valid state.
    pub closed spec fn wf(&self) -> bool {
        self@.inv()
    }

    /// A valid resolver is in a valid state of the model.
    pub proof fn lemma_wf_inv(&self)
        requires
            self.wf(),
        ensures
            self@.inv(),
    {
    }

    /// Sets up the resolution of `ids` and returns the request for the
    /// first chunk. With no ids there is nothing to ask for and the
    /// resolver is done. The cache of hosting contexts starts empty and
    /// lives as long as the resolver.
    pub fn new(ids: Vec<u64>) -> (r: (Resolver, Option<ResolverCommand>))
        ensures
            r.0.wf(),
            r.0@ == ResolverModel::start(ids@).0,
            commands_agree(r.1, ResolverModel::start(ids@).1),
    {
        Resolver::with_cache(ids, ContextCache::new())
    }

    /// Sets up the resolution of `ids` with the hosting contexts that an
    /// earlier resolution has found, and returns the request for the first
    /// chunk.
    pub fn with_cache(ids: Vec<u64>, cache: ContextCache) -> (r: (
        Resolver,
        Option<ResolverCommand>,
    ))
        ensures
            r.0.wf(),
            r.0@ == ResolverModel::start_with(ids@, cache@).0,
            commands_agree(r.1, ResolverModel::start_with(ids@, cache@).1),
    {
        let some = ids.len() > 0;
        let mut resolver = Resolver {
            ids,
            cursor: 0,
            requests: 1,
            timeout_secs: INITIAL_TIMEOUT_SECS,
            context: None,
            cache,
            records: Vec::new(),
            bad_token: None,
            phase: Phase::AwaitingBatch,
        };
        if some {
            let command = resolver.send_command(0);
            (resolver, Some(command))
        } else {
            resolver.phase = Phase::Done;
            (resolver, None)
        }
    }

    fn chunk_end(&self) -> (end: usize)
        requires
            self.cursor <= self.ids.len(),
        ensures
            end == self@.chunk_end(),
            self.cursor <= end <= self.ids.len(),
    {
        if self.ids.len() - self.cursor >= BATCH_SIZE {
            self.cursor + BATCH_SIZE
        } else {
            self.ids.len()
        }
    }

    fn send_command(&self, delay_secs: u64) -> (command: ResolverCommand)
        requires
            self.cursor <= self.ids.len(),
        ensures
            command_is(command, self@.send(delay_secs)),
    {
        let end = self.chunk_end();
        let chunk = slice_subrange(self.ids.as_slice(), self.cursor, end);
        ResolverCommand::SendBatch {
            payloads: create_batch_payloads(chunk),
            context: self.context,
            timeout_secs: self.timeout_secs,
            delay_secs,
        }
    }

    fn fail(&mut self, error: ResolveError) -> (command: Option<ResolverCommand>)
        ensures
            final(self)@ == old(self)@.fail(error).0,
            command is None,
    {
        self.phase = Phase::Failed(error);
        None
    }

    fn reissue_with(&mut self, context: u64) -> (command: Option<ResolverCommand>)
        requires
            old(self).cursor <= old(self).ids.len(),
            old(self).requests < MAX_ATTEMPTS,
        ensures
            final(self)@ == old(self)@.reissue_with(context).0,
            commands_agree(command, old(self)@.reissue_with(context).1),
    {
        self.context = Some(context);
        self.requests = self.requests + 1;
        self.phase = Phase::AwaitingBatch;
        Some(self.send_command(0))
    }

    fn accept(&mut self, records: Vec<MetadataRecord>) -> (command: Option<ResolverCommand>)
        requires
            old(self).cursor <= old(self).ids.len(),
        ensures
            final(self)@ == old(self)@.accept(records@).0,
            commands_agree(command, old(self)@.accept(records@).1),
    {
        let mut kept = filter_animations(records);
        self.records.append(&mut kept);
        self.cursor = self.chunk_end();
        self.requests = 1;
        self.timeout_secs = INITIAL_TIMEOUT_SECS;
        if self.cursor < self.ids.len() {
            Some(self.send_command(0))
        } else {
            self.phase = Phase::Done;
            None
        }
    }

    fn on_denied(&mut self, records: &Vec<MetadataRecord>) -> (command: Option<ResolverCommand>)
        requires
            old(self).cursor <= old(self).ids.len(),
        ensures
            final(self)@ == old(self)@.on_denied(records@).0,
            commands_agree(command, old(self)@.on_denied(records@).1),
    {
        match find_first_traceable(records) {
            None => self.fail(ResolveError::MissingToken),
            Some(p) => {
                proof {
                    lemma_first_traceable(records@);
                }
                let token: &Option<String> = &records[p].request_id;
                let parsed: Option<u64> = match token {
                    Some(text) => parse_id(text.as_str()),
                    None => None,
                };
                match parsed {
                    None => {
                        self.bad_token = clone_token(token);
                        self.fail(ResolveError::BadToken { position: p })
                    },
                    Some(asset_id) => {
                        if self.requests >= MAX_ATTEMPTS {
                            self.fail(ResolveError::Denied { asset_id })
                        } else {
                            match self.cache.get(asset_id) {
                                Some(context) => self.reissue_with(context),
                                None => {
                                    self.phase = Phase::AwaitingOwner { asset_id };
                                    Some(ResolverCommand::LookupOwner { asset_id })
                                },
                            }
                        }
                    },
                }
            },
        }
    }

    /// Takes in an answer and returns the request that follows, if one
    /// does. An answer that the resolver is not waiting for changes
    /// nothing.
    pub fn on_event(&mut self, event: ResolverEvent) -> (command: Option<ResolverCommand>)
        requires
            old(self).wf(),
        ensures
            final(self).wf(),
            final(self)@ == old(self)@.step(event).0,
            commands_agree(command, old(self)@.step(event).1),
    {
        proof {
            lemma_step_keeps_inv(self@, event);
        }
        let phase: Phase = self.phase;
        match phase {
            Phase::AwaitingBatch => match event {
                ResolverEvent::Batch(BatchReply::Failed(fault)) => {
                    if should_retry(fault, self.requests, MAX_ATTEMPTS) {
                        self.requests = self.requests + 1;
                        self.timeout_secs = self.timeout_secs + TIMEOUT_STEP_SECS;
                        Some(self.send_command(RETRY_DELAY_SECS))
                    } else if is_retryable(fault) {
                        self.fail(ResolveError::Exhausted(fault))
                    } else {
                        self.fail(ResolveError::Fatal(fault))
                    }
                },
                ResolverEvent::Batch(BatchReply::Records(records)) => {
                    if contains_denied(&records) {
                        self.on_denied(&records)
                    } else {
                        self.accept(records)
                    }
                },
                _ => None,
            },
            Phase::AwaitingOwner { asset_id } => match event {
                ResolverEvent::Owner(reply) => match on_owner_reply(reply) {
                    Ok(owner) => {
                        self.phase = Phase::AwaitingListing { asset_id, owner };
                        Some(ResolverCommand::ListExperiences { owner })
                    },
                    Err(cause) => self.fail(ResolveError::Context { asset_id, cause }),
                },
                _ => None,
            },
            Phase::AwaitingListing { asset_id, owner: _ } => match event {
                ResolverEvent::Listing(reply) => match self.cache.on_listing_reply(asset_id, reply) {
                    Ok(context) => self.reissue_with(context),
                    Err(cause) => self.fail(ResolveError::Context { asset_id, cause }),
                },
                _ => None,
            },
            _ => None,
        }
    }

    /// What the resolver is waiting for.
    pub fn phase(&self) -> (phase: Phase)
        ensures
            phase == self@.phase,
    {
        self.phase
    }

    /// The records accepted so far.
    pub fn records(&self) -> (records: &Vec<MetadataRecord>)
        ensures
            records@ == self@.records,
    {
        &self.records
    }

    /// The hosting context that the cache holds for an asset.
    pub fn cached_context(&self, asset_id: u64) -> (context: Option<u64>)
        ensures
            context == if self@.cache.contains_key(asset_id) {
                Some(self@.cache[asset_id])
            } else {
                None
            },
    {
        self.cache.get(asset_id)
    }

    /// The correlation token that could not be read as an asset id: there is
    /// one exactly when the resolution has failed with `BadToken`, and it is
    /// the token of the denied item at the position that the error names.
    pub fn bad_token(&self) -> (token: Option<&String>)
        requires
            self.wf(),
        ensures
            token is Some <==> is_bad_token(self@.phase),
            match token {
                Some(text) => self@.bad_token == Some(*text) && token_id(text@) is None,
                None => self@.bad_token is None,
            },
    {
        self.bad_token.as_ref()
    }

    /// Ends the resolution and hands out its cache of hosting contexts, for
    /// a later resolution to start with.
    pub fn into_cache(self) -> (cache: ContextCache)
        ensures
            cache@ == self@.cache,
    {
        self.cache
    }

    /// The result of the resolution: the accepted records once every chunk
    /// is resolved, the error once the resolution has failed, and `None`
    /// while the resolver waits for an answer.
    pub fn finish(self) -> (result: Option<Result<Vec<MetadataRecord>, ResolveError>>)
        ensures
            match self@.phase {
                Phase::Done => result matches Some(Ok(records)) && records@ == self@.records,
                Phase::Failed(error) => result == Some(
                    Err::<Vec<MetadataRecord>, ResolveError>(error),
                ),
                _ => result is None,
            },
    {
        match self.phase {
            Phase::Done => Some(Ok(self.records)),
            Phase::Failed(error) => Some(Err(error)),
            _ => None,
        }
    }
}

} // verus!
