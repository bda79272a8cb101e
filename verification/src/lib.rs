//! Migration of externally referenced animation assets to newly created
//! assets under another owner.
//!
//! The library holds the decisions of the migration pipeline as verified
//! functions and state machines over plain values. Network calls, file
//! access and task spawning belong to the caller, which performs the
//! commands a machine returns and hands back what happened.

pub mod asset_id;
pub mod fault;
pub mod record;
pub mod outcome;
pub mod scheduler;
pub mod context;
pub mod resolver;
pub mod script;
pub mod uploader;
pub mod studio;
pub mod patch;
pub mod request_types;
pub mod session;
