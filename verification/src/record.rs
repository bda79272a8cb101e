//! Metadata records as the batch service returns them, and the requests
//! that ask for them.

use vstd::prelude::*;
use crate::asset_id::{decimal, id_to_string};

verus! {

/// The error code with which the service marks an item that the caller may
/// not read without a hosting context.
pub const PERMISSION_DENIED: u16 = 403;

/// The largest number of assets that one batch request may ask for.
pub const BATCH_SIZE: usize = 250;

/// The kind of an asset, as far as the migration cares.
#[derive(Clone, Copy, Debug, PartialEq, Eq, Structural)]
pub enum AssetKind {
    /// An animation: the kind that is migrated.
    Animation,
    /// Any other kind, or none reported.
    Other,
}

/// One error that the service attached to an item of a batch response.
#[derive(Clone, Debug)]
pub struct ItemError {
    pub code: u16,
    pub message: String,
}

/// One item of a batch response.
#[derive(Clone, Debug)]
pub struct MetadataRecord {
    /// The correlation token of the request that this item answers.
    pub request_id: Option<String>,
    /// The kind of the asset.
    pub asset_kind: AssetKind,
    /// Where the payload can be downloaded; the first entry counts.
    pub locations: Vec<Option<String>>,
    /// The errors attached to the item, if the service attached a list.
    pub errors: Option<Vec<ItemError>>,
}

/// One item of a batch request.
#[derive(Clone, Debug)]
pub struct BatchPayload {
    /// The asset to look up, as decimal text.
    pub asset_id: String,
    /// The correlation token, echoed by the service.
    pub request_id: String,
}

/// Whether an error list holds a permission-denied marker.
pub open spec fn errors_deny(errors: Seq<ItemError>) -> bool {
    exists|i: int| 0 <= i < errors.len() && (#[trigger] errors[i]).code == PERMISSION_DENIED
}

/// Whether the service marked the record as permission-denied.
pub open spec fn is_denied(record: MetadataRecord) -> bool {
    record.errors matches Some(errors) && errors_deny(errors@)
}

/// Whether any record of a response is marked permission-denied.
pub open spec fn any_denied(records: Seq<MetadataRecord>) -> bool {
    exists|i: int| 0 <= i < records.len() && is_denied(#[trigger] records[i])
}

/// Whether a record is kept in the result: it is an animation and the
/// service attached no error list to it.
pub open spec fn is_wanted(record: MetadataRecord) -> bool {
    record.errors is None && record.asset_kind == AssetKind::Animation
}

/// The download location of a record: the first entry of its location
/// list, if the list has one and that entry names a location.
pub open spec fn download_location(record: MetadataRecord) -> Option<String> {
    if record.locations@.len() > 0 {
        record.locations@[0]
    } else {
        None
    }
}

/// Whether the service marked the record as permission-denied.
pub fn has_403_error(record: &MetadataRecord) -> (denied: bool)
    ensures
        denied == is_denied(*record),
{
    match &record.errors {
        None => false,
        Some(errors) => {
            let mut i: usize = 0;
            while i < errors.len()
                invariant
                    i <= errors.len(),
                    record.errors == Some(*errors),
                    forall|k: int| 0 <= k < i ==> (#[trigger] errors@[k]).code != PERMISSION_DENIED,
                decreases errors.len() - i,
            {
                if errors[i].code == PERMISSION_DENIED {
                    assert(errors@[i as int].code == PERMISSION_DENIED);
                    return true;
                }
                i = i + 1;
            }
            false
        },
    }
}

/// The download location of a record, if it has one.
pub fn first_location(record: &MetadataRecord) -> (location: Option<&String>)
    ensures
        match location {
            Some(url) => download_location(*record) == Some(*url),
            None => download_location(*record) is None,
        },
{
    if record.locations.len() > 0 {
        record.locations[0].as_ref()
    } else {
        None
    }
}

/// The wanted records of a response, in their order.
pub open spec fn wanted_records(records: Seq<MetadataRecord>) -> Seq<MetadataRecord> {
    records.filter(|r: MetadataRecord| is_wanted(r))
}

/// The wanted records of a response that grew by one record.
pub proof fn lemma_wanted_push(records: Seq<MetadataRecord>, record: MetadataRecord)
    ensures
        wanted_records(records.push(record)) == if is_wanted(record) {
            wanted_records(records).push(record)
        } else {
            wanted_records(records)
        },
{
    reveal(Seq::filter);
    assert(records.push(record).drop_last() =~= records);
}

/// Every wanted record of a response is a record of that response, and is
/// wanted.
pub proof fn lemma_wanted_members(records: Seq<MetadataRecord>)
    ensures
        forall|i: int|
            0 <= i < wanted_records(records).len() ==> is_wanted(
                #[trigger] wanted_records(records)[i],
            ) && records.contains(wanted_records(records)[i]),
        wanted_records(records).len() <= records.len(),
    decreases records.len(),
{
    reveal(Seq::filter);
    if records.len() > 0 {
        let front = records.drop_last();
        lemma_wanted_members(front);
        assert(records =~= front.push(records.last()));
        lemma_wanted_push(front, records.last());
        assert forall|i: int| 0 <= i < wanted_records(records).len() implies is_wanted(
            #[trigger] wanted_records(records)[i],
        ) && records.contains(wanted_records(records)[i]) by {
            if i < wanted_records(front).len() {
                let r = wanted_records(front)[i];
                assert(front.contains(r));
                let j = choose|j: int| 0 <= j < front.len() && front[j] == r;
                assert(records[j] == r);
            } else {
                assert(records[records.len() - 1] == records.last());
            }
        }
    }
}

/// Keeps the wanted records of a response, in their order.
pub fn filter_animations(records: Vec<MetadataRecord>) -> (kept: Vec<MetadataRecord>)
    ensures
        kept@ == wanted_records(records@),
{
    let ghost all = records@;
    let mut kept: Vec<MetadataRecord> = Vec::new();
    proof {
        reveal(Seq::filter);
        assert(all.take(0) =~= Seq::<MetadataRecord>::empty());
    }
    for record in it: records
        invariant
            it.seq() == all,
            kept@ == wanted_records(all.take(it.index() as int)),
    {
        proof {
            assert(all.take(it.index() + 1) =~= all.take(it.index() as int).push(record));
            lemma_wanted_push(all.take(it.index() as int), record);
        }
        if record.errors.is_none() && record.asset_kind == AssetKind::Animation {
            kept.push(record);
        }
    }
    proof {
        assert(all.take(all.len() as int) =~= all);
    }
    kept
}

/// The request item that asks for `id`: both the asset to look up and the
/// correlation token are the decimal text of the id.
pub open spec fn payload_matches(payload: BatchPayload, id: u64) -> bool {
    payload.asset_id@ == decimal(id as nat) && payload.request_id@ == decimal(id as nat)
}

/// Whether `payloads` asks for exactly the ids of `ids`, one item per id
/// and in the same order.
pub open spec fn payloads_match(payloads: Seq<BatchPayload>, ids: Seq<u64>) -> bool {
    payloads.len() == ids.len() && forall|i: int|
        0 <= i < ids.len() ==> payload_matches(#[trigger] payloads[i], ids[i])
}

/// Builds the request items for a chunk of asset ids.
pub fn create_batch_payloads(asset_ids: &[u64]) -> (payloads: Vec<BatchPayload>)
    ensures
        payloads_match(payloads@, asset_ids@),
{
    let mut payloads: Vec<BatchPayload> = Vec::new();
    let mut i: usize = 0;
    while i < asset_ids.len()
        invariant
            i <= asset_ids.len(),
            payloads_match(payloads@, asset_ids@.take(i as int)),
        decreases asset_ids.len() - i,
    {
        let id: u64 = asset_ids[i];
        payloads.push(BatchPayload { asset_id: id_to_string(id), request_id: id_to_string(id) });
        i = i + 1;
    }
    proof {
        assert(asset_ids@.take(i as int) =~= asset_ids@);
    }
    payloads
}

} // verus!
