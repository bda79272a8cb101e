use animation_replace_roblox::context::{ContextError, ListingReply, Owner, OwnerReply};
use animation_replace_roblox::fault::ServiceFault;
use animation_replace_roblox::record::{AssetKind, BatchPayload, ItemError, MetadataRecord};
use animation_replace_roblox::resolver::{
    contains_denied, find_first_traceable, BatchReply, Phase, ResolveError,
    Resolver, ResolverCommand, ResolverEvent, INITIAL_TIMEOUT_SECS, MAX_ATTEMPTS, RETRY_DELAY_SECS,
};

fn animation(id: u64) -> MetadataRecord {
    MetadataRecord {
        request_id: Some(id.to_string()),
        asset_kind: AssetKind::Animation,
        locations: vec![Some(format!("https://x/{}", id))],
        errors: None,
    }
}

fn other(id: u64) -> MetadataRecord {
    MetadataRecord { asset_kind: AssetKind::Other, ..animation(id) }
}

fn denied(token: Option<&str>) -> MetadataRecord {
    MetadataRecord {
        request_id: token.map(|t| t.to_string()),
        asset_kind: AssetKind::Other,
        locations: vec![],
        errors: Some(vec![ItemError { code: 403, message: "denied".to_string() }]),
    }
}

fn clean_reply(payloads: &Vec<BatchPayload>) -> ResolverEvent {
    let records = payloads.iter().map(|p| animation(p.asset_id.parse().unwrap())).collect();
    ResolverEvent::Batch(BatchReply::Records(records))
}

fn failed(fault: ServiceFault) -> ResolverEvent {
    ResolverEvent::Batch(BatchReply::Failed(fault))
}

fn expect_batch(command: Option<ResolverCommand>) -> (Vec<BatchPayload>, Option<u64>, u64, u64) {
    match command {
        Some(ResolverCommand::SendBatch { payloads, context, timeout_secs, delay_secs }) => {
            (payloads, context, timeout_secs, delay_secs)
        }
        other => panic!("expected a batch request, got {:?}", other),
    }
}

fn asked_ids(payloads: &Vec<BatchPayload>) -> Vec<u64> {
    for p in payloads {
        assert_eq!(p.asset_id, p.request_id);
    }
    payloads.iter().map(|p| p.request_id.parse().unwrap()).collect()
}

#[test]
fn resolver_policy_constants() {
    assert_eq!(MAX_ATTEMPTS, 9);
    assert_eq!(INITIAL_TIMEOUT_SECS, 4);
    assert_eq!(RETRY_DELAY_SECS, 2);
}

#[test]
fn no_ids_means_done_without_a_request() {
    let (resolver, command) = Resolver::new(Vec::new());
    assert!(command.is_none());
    assert_eq!(resolver.phase(), Phase::Done);
    assert_eq!(resolver.finish().unwrap().unwrap().len(), 0);
}

#[test]
fn chunk_requests_are_ceil_of_n_over_250() {
    for (n, expected) in [(1u64, 1usize), (249, 1), (250, 1), (251, 2), (500, 2), (600, 3), (1000, 4)] {
        let ids: Vec<u64> = (1..=n).map(|i| 10_000 + i).collect();
        let (mut resolver, mut command) = Resolver::new(ids.clone());
        let mut requests = 0;
        let mut asked: Vec<u64> = Vec::new();
        while let Some(c) = command {
            let (payloads, context, timeout, delay) = expect_batch(Some(c));
            assert!(payloads.len() <= 250 && !payloads.is_empty());
            assert_eq!((context, timeout, delay), (None, 4, 0));
            asked.extend(asked_ids(&payloads));
            requests += 1;
            command = resolver.on_event(clean_reply(&payloads));
        }
        assert_eq!(requests, expected, "{} ids", n);
        assert_eq!(asked, ids);
        assert_eq!(resolver.phase(), Phase::Done);
        assert_eq!(resolver.finish().unwrap().unwrap().len(), n as usize);
    }
}

#[test]
fn only_wanted_records_are_kept() {
    let (mut resolver, command) = Resolver::new(vec![11111, 22222, 33333]);
    expect_batch(command);
    let mut faulty = animation(33333);
    faulty.errors = Some(vec![ItemError { code: 404, message: String::new() }]);
    let reply = ResolverEvent::Batch(BatchReply::Records(vec![animation(11111), other(22222), faulty]));
    assert!(resolver.on_event(reply).is_none());
    let records = resolver.finish().unwrap().unwrap();
    assert_eq!(records.len(), 1);
    assert_eq!(records[0].request_id, Some("11111".to_string()));
}

#[test]
fn six_hundred_ids_with_one_denied_item_in_the_second_chunk() {
    let ids: Vec<u64> = (0..600).map(|i| 100_000 + i).collect();
    let (mut resolver, command) = Resolver::new(ids.clone());
    let (first, context, _, _) = expect_batch(command);
    assert_eq!(asked_ids(&first), ids[0..250].to_vec());
    assert_eq!(context, None);

    let (second, context, _, _) = expect_batch(resolver.on_event(clean_reply(&first)));
    assert_eq!(asked_ids(&second), ids[250..500].to_vec());
    assert_eq!(context, None);
    assert_eq!(resolver.records().len(), 250);

    let mut records: Vec<MetadataRecord> =
        second.iter().map(|p| animation(p.asset_id.parse().unwrap())).collect();
    records[17] = denied(Some("100267"));
    let command = resolver.on_event(ResolverEvent::Batch(BatchReply::Records(records)));
    assert!(matches!(command, Some(ResolverCommand::LookupOwner { asset_id: 100267 })));
    assert_eq!(resolver.phase(), Phase::AwaitingOwner { asset_id: 100267 });
    assert_eq!(resolver.records().len(), 250);

    let command = resolver.on_event(ResolverEvent::Owner(OwnerReply::Found(Owner::Group(55))));
    assert!(matches!(command, Some(ResolverCommand::ListExperiences { owner: Owner::Group(55) })));
    assert_eq!(resolver.records().len(), 250);

    let command = resolver.on_event(ResolverEvent::Listing(ListingReply::Listed(vec![9001, 9002])));
    let (retried, context, timeout, delay) = expect_batch(command);
    assert_eq!(asked_ids(&retried), ids[250..500].to_vec());
    assert_eq!(context, Some(9001));
    assert_eq!((timeout, delay), (4, 0));
    assert_eq!(resolver.cached_context(100267), Some(9001));
    assert_eq!(resolver.records().len(), 250);

    let (third, context, _, _) = expect_batch(resolver.on_event(clean_reply(&retried)));
    assert_eq!(asked_ids(&third), ids[500..600].to_vec());
    assert_eq!(context, Some(9001));
    assert_eq!(resolver.records().len(), 500);

    assert!(resolver.on_event(clean_reply(&third)).is_none());
    assert_eq!(resolver.phase(), Phase::Done);
    let records = resolver.finish().unwrap().unwrap();
    assert_eq!(records.len(), 600);
}

#[test]
fn cached_context_is_used_without_another_lookup() {
    let (mut resolver, command) = Resolver::new(vec![11111, 22222]);
    let (payloads, _, _, _) = expect_batch(command);
    let reply = || ResolverEvent::Batch(BatchReply::Records(vec![denied(Some("11111")), animation(22222)]));
    assert!(matches!(resolver.on_event(reply()), Some(ResolverCommand::LookupOwner { asset_id: 11111 })));
    resolver.on_event(ResolverEvent::Owner(OwnerReply::Found(Owner::User(3))));
    let (_, context, _, _) =
        expect_batch(resolver.on_event(ResolverEvent::Listing(ListingReply::Listed(vec![808]))));
    assert_eq!(context, Some(808));
    let (again, context, timeout, delay) = expect_batch(resolver.on_event(reply()));
    assert_eq!(asked_ids(&again), asked_ids(&payloads));
    assert_eq!((context, timeout, delay), (Some(808), 4, 0));
    assert_eq!(resolver.phase(), Phase::AwaitingBatch);
    assert!(resolver.records().is_empty());
}

#[test]
fn denied_chunk_fails_when_the_retries_are_spent() {
    let (mut resolver, command) = Resolver::new(vec![11111]);
    expect_batch(command);
    let reply = || ResolverEvent::Batch(BatchReply::Records(vec![denied(Some("11111"))]));
    resolver.on_event(reply());
    resolver.on_event(ResolverEvent::Owner(OwnerReply::Found(Owner::User(3))));
    expect_batch(resolver.on_event(ResolverEvent::Listing(ListingReply::Listed(vec![808]))));
    let mut requests = 2;
    while requests < MAX_ATTEMPTS {
        expect_batch(resolver.on_event(reply()));
        requests += 1;
    }
    assert_eq!(requests, 9);
    assert!(resolver.on_event(reply()).is_none());
    assert_eq!(resolver.phase(), Phase::Failed(ResolveError::Denied { asset_id: 11111 }));
    assert_eq!(resolver.finish().unwrap().err(), Some(ResolveError::Denied { asset_id: 11111 }));
}

#[test]
fn timeouts_are_retried_with_growing_timeout() {
    let (mut resolver, command) = Resolver::new(vec![11111, 22222]);
    let (first, _, timeout, delay) = expect_batch(command);
    assert_eq!((timeout, delay), (4, 0));
    for retry in 1..=8u64 {
        let fault = if retry % 2 == 0 { ServiceFault::MalformedResponse } else { ServiceFault::Timeout };
        let (payloads, context, timeout, delay) = expect_batch(resolver.on_event(failed(fault)));
        assert_eq!(asked_ids(&payloads), asked_ids(&first));
        assert_eq!(context, None);
        assert_eq!(timeout, 4 + retry);
        assert_eq!(delay, 2);
    }
    assert!(resolver.on_event(failed(ServiceFault::Timeout)).is_none());
    assert_eq!(resolver.phase(), Phase::Failed(ResolveError::Exhausted(ServiceFault::Timeout)));
    assert!(resolver.on_event(clean_reply(&first)).is_none());
    assert_eq!(
        resolver.finish().unwrap().err(),
        Some(ResolveError::Exhausted(ServiceFault::Timeout))
    );
}

#[test]
fn retry_budget_and_timeout_start_afresh_with_each_chunk() {
    let ids: Vec<u64> = (0..300).map(|i| 50_000 + i).collect();
    let (mut resolver, command) = Resolver::new(ids);
    let (first, _, _, _) = expect_batch(command);
    let (_, _, timeout, _) = expect_batch(resolver.on_event(failed(ServiceFault::Timeout)));
    assert_eq!(timeout, 5);
    let (second, _, timeout, delay) = expect_batch(resolver.on_event(clean_reply(&first)));
    assert_eq!(second.len(), 50);
    assert_eq!((timeout, delay), (4, 0));
    for retry in 1..=8u64 {
        let (_, _, timeout, _) = expect_batch(resolver.on_event(failed(ServiceFault::Timeout)));
        assert_eq!(timeout, 4 + retry);
    }
    assert!(resolver.on_event(clean_reply(&second)).is_none());
    assert_eq!(resolver.phase(), Phase::Done);
}

#[test]
fn other_faults_are_fatal_at_once() {
    for fault in [
        ServiceFault::InvalidCredential,
        ServiceFault::MissingCredential,
        ServiceFault::BadRequest,
        ServiceFault::TooManyRequests,
        ServiceFault::ServerError,
        ServiceFault::Status(404),
        ServiceFault::Transport,
    ] {
        let (mut resolver, command) = Resolver::new(vec![11111]);
        expect_batch(command);
        assert!(resolver.on_event(failed(fault)).is_none());
        assert_eq!(resolver.phase(), Phase::Failed(ResolveError::Fatal(fault)));
        assert!(resolver.records().is_empty());
    }
}

#[test]
fn denied_items_without_token_are_fatal() {
    let (mut resolver, command) = Resolver::new(vec![11111, 22222]);
    expect_batch(command);
    let reply = ResolverEvent::Batch(BatchReply::Records(vec![animation(11111), denied(None)]));
    assert!(resolver.on_event(reply).is_none());
    assert_eq!(resolver.phase(), Phase::Failed(ResolveError::MissingToken));
    assert!(resolver.records().is_empty());
}

#[test]
fn denied_item_with_unreadable_token_is_fatal() {
    let (mut resolver, command) = Resolver::new(vec![11111, 22222]);
    expect_batch(command);
    let reply = ResolverEvent::Batch(BatchReply::Records(vec![
        animation(11111),
        denied(None),
        denied(Some("not-a-number")),
        denied(Some("22222")),
    ]));
    assert_eq!(resolver.bad_token(), None);
    assert!(resolver.on_event(reply).is_none());
    assert_eq!(resolver.phase(), Phase::Failed(ResolveError::BadToken { position: 2 }));
    assert_eq!(resolver.bad_token(), Some(&"not-a-number".to_string()));
    assert!(resolver.records().is_empty());
}

#[test]
fn failed_context_lookups_are_fatal_and_named() {
    let start = || {
        let (mut resolver, command) = Resolver::new(vec![11111]);
        expect_batch(command);
        resolver.on_event(ResolverEvent::Batch(BatchReply::Records(vec![denied(Some("11111"))])));
        resolver
    };
    let mut r = start();
    assert!(r.on_event(ResolverEvent::Owner(OwnerReply::Undetermined)).is_none());
    assert_eq!(
        r.phase(),
        Phase::Failed(ResolveError::Context { asset_id: 11111, cause: ContextError::OwnerUndetermined })
    );
    let mut r = start();
    assert!(r.on_event(ResolverEvent::Owner(OwnerReply::Failed(ServiceFault::Timeout))).is_none());
    assert_eq!(
        r.phase(),
        Phase::Failed(ResolveError::Context {
            asset_id: 11111,
            cause: ContextError::OwnerLookupFailed(ServiceFault::Timeout)
        })
    );
    let mut r = start();
    r.on_event(ResolverEvent::Owner(OwnerReply::Found(Owner::User(1))));
    assert!(r.on_event(ResolverEvent::Listing(ListingReply::Listed(vec![]))).is_none());
    assert_eq!(
        r.phase(),
        Phase::Failed(ResolveError::Context { asset_id: 11111, cause: ContextError::NoExperiences })
    );
    assert_eq!(r.cached_context(11111), None);
    let mut r = start();
    r.on_event(ResolverEvent::Owner(OwnerReply::Found(Owner::User(1))));
    assert!(r
        .on_event(ResolverEvent::Listing(ListingReply::Failed(ServiceFault::ServerError)))
        .is_none());
    assert_eq!(
        r.phase(),
        Phase::Failed(ResolveError::Context {
            asset_id: 11111,
            cause: ContextError::ListingFailed(ServiceFault::ServerError)
        })
    );
}

#[test]
fn answers_that_are_not_awaited_change_nothing() {
    let (mut resolver, command) = Resolver::new(vec![11111]);
    let (payloads, _, _, _) = expect_batch(command);
    assert!(resolver.on_event(ResolverEvent::Owner(OwnerReply::Undetermined)).is_none());
    assert!(resolver.on_event(ResolverEvent::Listing(ListingReply::Listed(vec![1]))).is_none());
    assert_eq!(resolver.phase(), Phase::AwaitingBatch);
    assert_eq!(resolver.cached_context(11111), None);
    assert!(resolver.on_event(clean_reply(&payloads)).is_none());
    assert!(resolver.on_event(clean_reply(&payloads)).is_none());
    assert_eq!(resolver.records().len(), 1);
}

#[test]
fn unfinished_resolution_has_no_result() {
    let (resolver, command) = Resolver::new(vec![11111]);
    expect_batch(command);
    assert!(resolver.finish().is_none());
}

#[test]
fn first_traceable_record_skips_denied_items_without_token() {
    let records = vec![animation(1), denied(None), denied(Some("5")), denied(Some("6"))];
    assert_eq!(find_first_traceable(&records), Some(2));
    assert!(contains_denied(&records));
    assert_eq!(find_first_traceable(&vec![animation(1), denied(None)]), None);
    assert!(contains_denied(&vec![animation(1), denied(None)]));
    assert_eq!(find_first_traceable(&vec![animation(1)]), None);
    assert!(!contains_denied(&vec![animation(1)]));
}

#[test]
fn cache_can_be_carried_to_a_later_resolution() {
    let (mut first, command) = Resolver::new(vec![11111]);
    expect_batch(command);
    first.on_event(ResolverEvent::Batch(BatchReply::Records(vec![denied(Some("11111"))])));
    first.on_event(ResolverEvent::Owner(OwnerReply::Found(Owner::Group(4))));
    expect_batch(first.on_event(ResolverEvent::Listing(ListingReply::Listed(vec![606]))));
    let cache = first.into_cache();
    assert_eq!(cache.get(11111), Some(606));

    let (mut second, command) = Resolver::with_cache(vec![22222, 11111], cache);
    let (_, context, _, _) = expect_batch(command);
    assert_eq!(context, None);
    let reply = ResolverEvent::Batch(BatchReply::Records(vec![animation(22222), denied(Some("11111"))]));
    let (payloads, context, _, delay) = expect_batch(second.on_event(reply));
    assert_eq!(asked_ids(&payloads), vec![22222, 11111]);
    assert_eq!((context, delay), (Some(606), 0));
    assert_eq!(second.cached_context(11111), Some(606));
}

#[test]
fn a_chunk_that_only_times_out_is_requested_nine_times() {
    let (mut resolver, mut command) = Resolver::new(vec![11111, 22222, 33333]);
    let mut requests = 0;
    while let Some(current) = command {
        let (payloads, _, timeout, _) = expect_batch(Some(current));
        requests += 1;
        assert_eq!(payloads.len(), 3);
        assert_eq!(timeout, 3 + requests);
        command = resolver.on_event(failed(ServiceFault::Timeout));
    }
    assert_eq!(requests, 9);
    assert_eq!(resolver.phase(), Phase::Failed(ResolveError::Exhausted(ServiceFault::Timeout)));
    assert_eq!(resolver.bad_token(), None);
    assert_eq!(
        resolver.finish().unwrap().err(),
        Some(ResolveError::Exhausted(ServiceFault::Timeout))
    );
}

#[test]
fn faults_and_denials_share_the_nine_requests_of_a_chunk() {
    let (mut resolver, command) = Resolver::new(vec![11111]);
    expect_batch(command);
    let mut requests = 1;
    for _ in 0..4 {
        expect_batch(resolver.on_event(failed(ServiceFault::Timeout)));
        requests += 1;
    }
    resolver.on_event(ResolverEvent::Batch(BatchReply::Records(vec![denied(Some("11111"))])));
    resolver.on_event(ResolverEvent::Owner(OwnerReply::Found(Owner::User(3))));
    let (_, context, timeout, delay) =
        expect_batch(resolver.on_event(ResolverEvent::Listing(ListingReply::Listed(vec![808]))));
    requests += 1;
    assert_eq!((context, timeout, delay), (Some(808), 8, 0));
    for _ in 0..3 {
        expect_batch(resolver.on_event(failed(ServiceFault::MalformedResponse)));
        requests += 1;
    }
    assert_eq!(requests, 9);
    assert!(resolver
        .on_event(ResolverEvent::Batch(BatchReply::Records(vec![denied(Some("11111"))])))
        .is_none());
    assert_eq!(resolver.phase(), Phase::Failed(ResolveError::Denied { asset_id: 11111 }));
}
