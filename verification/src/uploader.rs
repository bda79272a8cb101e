//! The uploader: the holder of the credential, from which resolutions and
//! migration runs are started.

use vstd::prelude::*;
use crate::context::Owner;
use crate::record::MetadataRecord;
use crate::resolver::{commands_agree, Resolver, ResolverCommand, ResolverModel};
use crate::scheduler::{limit_for, scheduled, Scheduler, SchedulerModel};

verus! {

/// The name under which a migrated animation is created.
pub const UPLOAD_NAME: &'static str = "reuploaded_animation";

/// The description with which a migrated animation is created.
pub const UPLOAD_DESCRIPTION: &'static str = "This is a example";

/// Starts resolutions and migration runs on behalf of one credential.
pub struct AnimationUploader {
    pub roblosecurity: String,
}

/// A metadata record together with the hosting context through which it
/// was read.
#[derive(Debug)]
pub struct AnimationWithPlace {
    pub animation: MetadataRecord,
    pub place_id: u64,
}

/// Whether the owner of an asset is a user or a group.
#[derive(Clone, Copy, Debug, PartialEq, Eq, Structural)]
pub enum CreatorType {
    User,
    Group,
}

/// The owner of an asset, by id and kind.
pub struct OwnerInfo {
    pub owner_id: u64,
    pub owner_type: CreatorType,
}

impl OwnerInfo {
    /// The owner as the hosting-context lookup takes it.
    pub fn owner(&self) -> (owner: Owner)
        ensures
            owner == match self.owner_type {
                CreatorType::User => Owner::User(self.owner_id),
                CreatorType::Group => Owner::Group(self.owner_id),
            },
    {
        match self.owner_type {
            CreatorType::User => Owner::User(self.owner_id),
            CreatorType::Group => Owner::Group(self.owner_id),
        }
    }
}

/// The descriptive metadata with which a payload is uploaded as a new
/// animation.
#[derive(Clone, Debug)]
pub struct NewAnimationInfo {
    pub name: String,
    pub description: String,
    pub group_id: Option<u64>,
}

impl AnimationUploader {
    /// An uploader that acts with the credential `roblosecurity`.
    pub fn new(roblosecurity: String) -> (uploader: Self)
        ensures
            uploader.roblosecurity == roblosecurity,
    {
        Self { roblosecurity }
    }

    /// The descriptive metadata for the upload of one payload: the fixed
    /// name and description, and the destination group if one is given.
    pub fn upload_animation(&self, group_id: Option<u64>) -> (info: NewAnimationInfo)
        ensures
            info.name@ == UPLOAD_NAME@,
            info.description@ == UPLOAD_DESCRIPTION@,
            info.group_id == group_id,
    {
        NewAnimationInfo {
            name: UPLOAD_NAME.to_owned(),
            description: UPLOAD_DESCRIPTION.to_owned(),
            group_id,
        }
    }

    /// Starts the migration of `animations`: the records with a download
    /// location are scheduled, with `task_count` slots or the default
    /// number where none is given.
    pub fn reupload_all_animations(
        &self,
        animations: &Vec<MetadataRecord>,
        group_id: Option<u64>,
        task_count: Option<u64>,
    ) -> (scheduler: Scheduler)
        requires
            task_count != Some(0u64),
        ensures
            scheduler.wf(),
            scheduler@ == SchedulerModel::initial(
                scheduled(animations@),
                limit_for(task_count),
                group_id,
            ),
    {
        Scheduler::new(animations, group_id, task_count)
    }

    /// Starts the resolution of `asset_ids` and returns the resolver with
    /// its first request.
    pub fn fetch_animation_assets(&self, asset_ids: Vec<u64>) -> (r: (
        Resolver,
        Option<ResolverCommand>,
    ))
        ensures
            r.0.wf(),
            r.0@ == ResolverModel::start(asset_ids@).0,
            commands_agree(r.1, ResolverModel::start(asset_ids@).1),
    {
        Resolver::new(asset_ids)
    }
}

} // verus!
