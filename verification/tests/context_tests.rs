use animation_replace_roblox::context::{
    identify_owner, on_owner_reply, ContextCache, ContextError, ListingReply, Owner, OwnerReply,
};
use animation_replace_roblox::fault::ServiceFault;

#[test]
fn group_owner_wins_over_user() {
    let group = Some("3190902".to_string());
    let user = Some("17".to_string());
    assert_eq!(identify_owner(&group, &user), Some(Owner::Group(3190902)));
    assert_eq!(identify_owner(&None, &user), Some(Owner::User(17)));
    assert_eq!(identify_owner(&group, &None), Some(Owner::Group(3190902)));
    assert_eq!(identify_owner(&None, &None), None);
}

#[test]
fn owner_id_that_is_no_number_names_nobody() {
    assert_eq!(identify_owner(&Some("abc".to_string()), &Some("17".to_string())), None);
    assert_eq!(identify_owner(&None, &Some("".to_string())), None);
}

#[test]
fn owner_reply_settles_owner_or_reason() {
    assert_eq!(on_owner_reply(OwnerReply::Found(Owner::User(5))), Ok(Owner::User(5)));
    assert_eq!(on_owner_reply(OwnerReply::Undetermined), Err(ContextError::OwnerUndetermined));
    assert_eq!(
        on_owner_reply(OwnerReply::Failed(ServiceFault::Timeout)),
        Err(ContextError::OwnerLookupFailed(ServiceFault::Timeout))
    );
}

#[test]
fn cache_starts_empty_and_keeps_entries() {
    let mut cache = ContextCache::new();
    assert_eq!(cache.get(1), None);
    cache.insert(1, 100);
    cache.insert(2, 200);
    assert_eq!(cache.get(1), Some(100));
    assert_eq!(cache.get(2), Some(200));
    assert_eq!(cache.get(3), None);
    cache.insert(1, 101);
    assert_eq!(cache.get(1), Some(101));
}

#[test]
fn first_listed_experience_becomes_the_context() {
    let mut cache = ContextCache::new();
    let result = cache.on_listing_reply(42, ListingReply::Listed(vec![700, 800, 900]));
    assert_eq!(result, Ok(700));
    assert_eq!(cache.get(42), Some(700));
    assert_eq!(cache.get(700), None);
}

#[test]
fn empty_or_failed_listing_leaves_the_cache_alone() {
    let mut cache = ContextCache::new();
    cache.insert(1, 10);
    assert_eq!(
        cache.on_listing_reply(42, ListingReply::Listed(vec![])),
        Err(ContextError::NoExperiences)
    );
    assert_eq!(
        cache.on_listing_reply(42, ListingReply::Failed(ServiceFault::ServerError)),
        Err(ContextError::ListingFailed(ServiceFault::ServerError))
    );
    assert_eq!(cache.get(42), None);
    assert_eq!(cache.get(1), Some(10));
}
