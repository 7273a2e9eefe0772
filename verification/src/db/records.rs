//! A row of the records table, and the record it is served as.

use crate::error::GoatNsError;
use crate::resourcerecord::InternalResourceRecord;
use crate::zonedata::{
    has_long_label, zone_record, zone_record_error, zone_record_ok, zone_record_overrun, check_long_labels,
    RdataReadings,
};
use vstd::prelude::*;
use vstd::utf8::encode_utf8;

verus! {

/// A stored resource record.
#[derive(Debug, Clone)]
pub struct Model {
    /// The record's UUID, as its 128 bits
    pub id: u128,
    /// The zone's UUID, as its 128 bits
    pub zoneid: u128,
    pub name: String,
    pub ttl: Option<u32>,
    pub rrtype: u16,
    pub rclass: u16,
    pub rdata: String,
}

/// Whether a stored record passes the checks made before it is served: no label over 63
/// bytes, a TTL, and a name of at most 255 bytes.
pub open spec fn servable(record: Model) -> bool {
    !has_long_label(record.name@) && record.ttl is Some && encode_utf8(record.name@).len() <= 255
}

impl InternalResourceRecord {
    /// The record to serve for a stored record: refused when a label of its name is over
    /// 63 bytes, when it has no TTL, or when its name is over 255 bytes; otherwise built
    /// with [InternalResourceRecord::new].
    pub fn try_from_record(record: &Model, readings: &RdataReadings) -> (r: Result<InternalResourceRecord, GoatNsError>)
        requires
            servable(*record) ==> !zone_record_overrun(record.rrtype, record.rdata@),
        ensures
            r is Ok <==> (servable(*record) && zone_record_ok(record.rrtype, record.rdata@, *readings)),
            r matches Ok(x) ==> zone_record(x, record.rrtype, record.rdata@, record.ttl->0, record.rclass, *readings),
            !servable(*record) ==> (r matches Err(e) && e is Generic),
            servable(*record) ==> (r matches Err(e) ==> zone_record_error(e, record.rrtype, record.rdata@)),
    {
        if check_long_labels(record.name.as_str()) {
            return Err(GoatNsError::Generic(String::from_str("At least one label is of length over 63! I'm refusing to serve this record.")));
        }
        let ttl = match record.ttl {
            Some(t) => t,
            None => {
                return Err(GoatNsError::Generic(String::from_str("Record has no TTL set! I'm refusing to serve this record.")));
            },
        };
        if record.name.as_str().as_bytes().len() > 255 {
            return Err(GoatNsError::Generic(String::from_str("The length of name is over 255 octets! I'm refusing to serve this record.")));
        }
        InternalResourceRecord::new(record.name.as_str(), record.rrtype, record.rdata.as_str(), ttl, record.rclass, readings)
    }
}

} // verus!
