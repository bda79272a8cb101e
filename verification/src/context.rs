//! The hosting context of an asset: the place through which its metadata
//! can be read when the service denies a plain request.
//!
//! The context of an asset is the root place of the first experience that
//! the asset's owner lists. Finding it takes two remote calls, so contexts
//! that were found are kept in a cache for the rest of the resolution.

use std::collections::HashMap;
use vstd::prelude::*;
use vstd::std_specs::hash::*;
use crate::asset_id::{parse_id, token_id};
use crate::fault::ServiceFault;

verus! {

/// The owner of an asset.
#[derive(Clone, Copy, Debug, PartialEq, Eq, Structural)]
pub enum Owner {
    User(u64),
    Group(u64),
}

/// Why no hosting context was found for an asset.
#[derive(Clone, Copy, Debug, PartialEq, Eq, Structural)]
pub enum ContextError {
    /// The asset names neither a group nor a user as its owner.
    OwnerUndetermined,
    /// The call that looks up the owner failed.
    OwnerLookupFailed(ServiceFault),
    /// The owner lists no experience.
    NoExperiences,
    /// The call that lists the owner's experiences failed.
    ListingFailed(ServiceFault),
}

/// The answer to an owner lookup.
#[derive(Clone, Copy, Debug, PartialEq, Eq, Structural)]
pub enum OwnerReply {
    Found(Owner),
    Undetermined,
    Failed(ServiceFault),
}

/// The answer to a listing of an owner's experiences: the root places of
/// the listed experiences in the order of the listing, or the fault.
#[derive(Clone, Debug)]
pub enum ListingReply {
    Listed(Vec<u64>),
    Failed(ServiceFault),
}

/// The owner that the creator fields of an asset name: the group if a
/// group id is given, else the user. An id that is not a number names
/// nobody.
pub open spec fn owner_of(group_id: Option<String>, user_id: Option<String>) -> Option<Owner> {
    match group_id {
        Some(group) => match token_id(group@) {
            Some(id) => Some(Owner::Group(id)),
            None => None,
        },
        None => match user_id {
            Some(user) => match token_id(user@) {
                Some(id) => Some(Owner::User(id)),
                None => None,
            },
            None => None,
        },
    }
}

/// Reads the owner of an asset from its creator fields.
pub fn identify_owner(group_id: &Option<String>, user_id: &Option<String>) -> (owner: Option<Owner>)
    ensures
        owner == owner_of(*group_id, *user_id),
{
    match group_id {
        Some(group) => match parse_id(group.as_str()) {
            Some(id) => Some(Owner::Group(id)),
            None => None,
        },
        None => match user_id {
            Some(user) => match parse_id(user.as_str()) {
                Some(id) => Some(Owner::User(id)),
                None => None,
            },
            None => None,
        },
    }
}

/// What an owner lookup settles: the owner, or why the context cannot be
/// found.
pub open spec fn owner_result(reply: OwnerReply) -> Result<Owner, ContextError> {
    match reply {
        OwnerReply::Found(owner) => Ok(owner),
        OwnerReply::Undetermined => Err(ContextError::OwnerUndetermined),
        OwnerReply::Failed(fault) => Err(ContextError::OwnerLookupFailed(fault)),
    }
}

/// What a listing settles: the root place of the first listed experience,
/// or why the context cannot be found.
pub open spec fn listing_result(reply: ListingReply) -> Result<u64, ContextError> {
    match reply {
        ListingReply::Listed(places) => if places@.len() > 0 {
            Ok(places@[0])
        } else {
            Err(ContextError::NoExperiences)
        },
        ListingReply::Failed(fault) => Err(ContextError::ListingFailed(fault)),
    }
}

/// Decides what an owner lookup settles.
pub fn on_owner_reply(reply: OwnerReply) -> (result: Result<Owner, ContextError>)
    ensures
        result == owner_result(reply),
{
    match reply {
        OwnerReply::Found(owner) => Ok(owner),
        OwnerReply::Undetermined => Err(ContextError::OwnerUndetermined),
        OwnerReply::Failed(fault) => Err(ContextError::OwnerLookupFailed(fault)),
    }
}

/// The hosting contexts found so far, by asset id.
pub struct ContextCache {
    places: HashMap<u64, u64>,
}

impl View for ContextCache {
    type V = Map<u64, u64>;

    closed spec fn view(&self) -> Map<u64, u64> {
        self.places@
    }
}

impl ContextCache {
    /// An empty cache.
    pub fn new() -> (cache: ContextCache)
        ensures
            cache@ == Map::<u64, u64>::empty(),
    {
        ContextCache { places: HashMap::new() }
    }

    /// The hosting context that the cache holds for an asset.
    pub fn get(&self, asset_id: u64) -> (context: Option<u64>)
        ensures
            context == if self@.contains_key(asset_id) {
                Some(self@[asset_id])
            } else {
                None
            },
    {
        broadcast use group_hash_axioms;

        match self.places.get(&asset_id) {
            Some(place) => Some(*place),
            None => None,
        }
    }

    /// Enters the hosting context of an asset.
    pub fn insert(&mut self, asset_id: u64, context: u64)
        ensures
            final(self)@ == old(self)@.insert(asset_id, context),
    {
        broadcast use group_hash_axioms;

        self.places.insert(asset_id, context);
    }

    /// Takes in the listing of the experiences of the owner of `asset_id`.
    ///
    /// Where the listing names an experience, the root place of the first
    /// one becomes the hosting context of the asset: it is entered into the
    /// cache and returned. Otherwise the cache stays as it is and the
    /// reason is returned.
    pub fn on_listing_reply(&mut self, asset_id: u64, reply: ListingReply) -> (result: Result<
        u64,
        ContextError,
    >)
        ensures
            result == listing_result(reply),
            final(self)@ == match listing_result(reply) {
                Ok(context) => old(self)@.insert(asset_id, context),
                Err(_) => old(self)@,
            },
    {
        match reply {
            ListingReply::Listed(places) => {
                if places.len() > 0 {
                    let context: u64 = places[0];
                    self.insert(asset_id, context);
                    Ok(context)
                } else {
                    Err(ContextError::NoExperiences)
                }
            },
            ListingReply::Failed(fault) => Err(ContextError::ListingFailed(fault)),
        }
    }
}

} // verus!
