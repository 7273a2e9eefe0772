//! A row of the merged records view (records from zone files and from the API together),
//! and the record it is served as.

use crate::error::GoatNsError;
use crate::resourcerecord::InternalResourceRecord;
use crate::zonedata::{
    has_long_label, zone_record, zone_record_error, zone_record_ok, zone_record_overrun, check_long_labels,
    RdataReadings,
};
use vstd::prelude::*;
use vstd::utf8::encode_utf8;

verus! {

/// A record of the merged view.
#[derive(Debug, Clone)]
pub struct Model {
    /// The record's UUID, as its 128 bits
    pub record_id: u128,
    /// The zone's UUID, as its 128 bits
    pub zoneid: u128,
    pub name: String,
    pub ttl: u32,
    pub rrtype: u16,
    pub rclass: u16,
    pub rdata: String,
}

/// Whether a merged record passes the checks made before it is served: no label over 63
/// bytes and a name of at most 255 bytes.
pub open spec fn servable(record: Model) -> bool {
    !has_long_label(record.name@) && encode_utf8(record.name@).len() <= 255
}

impl InternalResourceRecord {
    /// The record to serve for a merged record: refused when a label of its name is over
    /// 63 bytes or its name is over 255 bytes; otherwise built with
    /// [InternalResourceRecord::new].
    pub fn try_from_merged(record: &Model, readings: &RdataReadings) -> (r: Result<InternalResourceRecord, GoatNsError>)
        requires
            servable(*record) ==> !zone_record_overrun(record.rrtype, record.rdata@),
        ensures
            r is Ok <==> (servable(*record) && zone_record_ok(record.rrtype, record.rdata@, *readings)),
            r matches Ok(x) ==> zone_record(x, record.rrtype, record.rdata@, record.ttl, record.rclass, *readings),
            !servable(*record) ==> (r matches Err(e) && e is Generic),
            servable(*record) ==> (r matches Err(e) ==> zone_record_error(e, record.rrtype, record.rdata@)),
    {
        if check_long_labels(record.name.as_str()) {
            return Err(GoatNsError::Generic(String::from_str("At least one label is of length over 63! I'm refusing to serve this record.")));
        }
        if record.name.as_str().as_bytes().len() > 255 {
            return Err(GoatNsError::Generic(String::from_str("The length of name is over 255 octets! I'm refusing to serve this record.")));
        }
        InternalResourceRecord::new(record.name.as_str(), record.rrtype, record.rdata.as_str(), record.ttl, record.rclass, readings)
    }
}

/// The smallest TTL among the records; 0 when there are none.
pub open spec fn min_ttl(records: Seq<Model>) -> u32
    decreases records.len(),
{
    if records.len() == 0 {
        0
    } else if records.len() == 1 {
        records[0].ttl
    } else {
        let m = min_ttl(records.drop_last());
        if records.last().ttl < m {
            records.last().ttl
        } else {
            m
        }
    }
}

/// The TTL that [normalize_ttls] gives every record is the smallest of their TTLs: no
/// record's TTL is below it, and some record has it.
pub proof fn lemma_min_ttl(records: Seq<Model>)
    requires
        records.len() > 0,
    ensures
        forall|i: int| 0 <= i < records.len() ==> min_ttl(records) <= #[trigger] records[i].ttl,
        exists|i: int| 0 <= i < records.len() && min_ttl(records) == #[trigger] records[i].ttl,
    decreases records.len(),
{
    if records.len() > 1 {
        lemma_min_ttl(records.drop_last());
        let w = choose|i: int| 0 <= i < records.drop_last().len() && min_ttl(records.drop_last()) == #[trigger] records.drop_last()[i].ttl;
        assert(records[w] == records.drop_last()[w]);
        assert forall|i: int| 0 <= i < records.len() implies min_ttl(records) <= #[trigger] records[i].ttl by {
            if i < records.len() - 1 {
                assert(records[i] == records.drop_last()[i]);
            }
        }
        if records.last().ttl < min_ttl(records.drop_last()) {
            assert(records[records.len() - 1].ttl == min_ttl(records));
        } else {
            assert(records[w].ttl == min_ttl(records));
        }
    } else {
        assert(records[0].ttl == min_ttl(records));
    }
}

/// Gives every record the smallest TTL among them (see [min_ttl]), so that a set of
/// answers expires together; nothing else about the records changes.
pub fn normalize_ttls(records: &mut Vec<Model>)
    ensures
        final(records)@.len() == old(records)@.len(),
        forall|i: int| 0 <= i < old(records)@.len() ==> #[trigger] final(records)@[i] == (Model { ttl: min_ttl(old(records)@), ..old(records)@[i] }),
{
    let ghost original = records@;
    let mut m: u32 = 0;
    let mut i: usize = 0;
    while i < records.len()
        invariant
            records@ == original,
            0 <= i <= records@.len(),
            m == min_ttl(records@.take(i as int)),
        decreases records@.len() - i,
    {
        assert(records@.take(i + 1).drop_last() =~= records@.take(i as int));
        if i == 0 || records[i].ttl < m {
            m = records[i].ttl;
        }
        i = i + 1;
    }
    assert(records@.take(records@.len() as int) =~= records@);
    let mut j: usize = 0;
    while j < records.len()
        invariant
            records@.len() == original.len(),
            0 <= j <= records@.len(),
            m == min_ttl(original),
            forall|k: int| 0 <= k < j ==> #[trigger] records@[k] == (Model { ttl: m, ..original[k] }),
            forall|k: int| j <= k < records@.len() ==> #[trigger] records@[k] == original[k],
        decreases records@.len() - j,
    {
        records[j].ttl = m;
        j = j + 1;
    }
}

} // verus!
