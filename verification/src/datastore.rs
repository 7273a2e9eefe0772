//! What the datastore answers a record query with, from the rows the database returned.

use crate::db::records_merged::{servable, Model};
use crate::resourcerecord::InternalResourceRecord;
use crate::servers::ZoneRecord;
use crate::zonedata::{zone_record, zone_record_ok, zone_record_overrun, RdataReadings};
use vstd::prelude::*;

verus! {

/// Whether a merged row is served: it passes the checks and its record can be built from
/// it and what was read out of its RDATA.
pub open spec fn row_served(row: (Model, RdataReadings)) -> bool {
    servable(row.0) && zone_record_ok(row.0.rrtype, row.0.rdata@, row.1)
}

/// Whether `out` are the records built from the rows that are served, in the rows' order.
/// Each row comes with what was read out of its RDATA.
pub open spec fn served_records(out: Seq<InternalResourceRecord>, rows: Seq<(Model, RdataReadings)>) -> bool
    decreases rows.len(),
{
    if rows.len() == 0 {
        out.len() == 0
    } else if row_served(rows.last()) {
        &&& out.len() > 0
        &&& zone_record(
            out.last(),
            rows.last().0.rrtype,
            rows.last().0.rdata@,
            rows.last().0.ttl,
            rows.last().0.rclass,
            rows.last().1,
        )
        &&& served_records(out.drop_last(), rows.drop_last())
    } else {
        served_records(out, rows.drop_last())
    }
}

/// Whether building the record of a servable row would fail hard.
pub open spec fn row_overruns(row: (Model, RdataReadings)) -> bool {
    servable(row.0) && zone_record_overrun(row.0.rrtype, row.0.rdata@)
}

/// The answer to a record query for `name`: the records built from the served rows (see
/// [served_records]); `None` when there are none.
pub fn zone_record_from_rows(name: Vec<u8>, rows: &Vec<(Model, RdataReadings)>) -> (r: Option<ZoneRecord>)
    requires
        forall|i: int| 0 <= i < rows@.len() ==> !row_overruns(#[trigger] rows@[i]),
    ensures
        match r {
            Some(zr) => zr.name@ == name@ && zr.typerecords@.len() > 0 && served_records(zr.typerecords@, rows@),
            None => served_records(Seq::empty(), rows@),
        },
{
    let mut typerecords: Vec<InternalResourceRecord> = Vec::new();
    let mut i: usize = 0;
    while i < rows.len()
        invariant
            forall|k: int| 0 <= k < rows@.len() ==> !row_overruns(#[trigger] rows@[k]),
            0 <= i <= rows@.len(),
            served_records(typerecords@, rows@.take(i as int)),
        decreases rows@.len() - i,
    {
        let ghost before = typerecords@;
        proof {
            assert(rows@.take(i + 1).drop_last() =~= rows@.take(i as int));
            assert(rows@.take(i + 1).last() == rows@[i as int]);
            assert(!row_overruns(rows@[i as int]));
        }
        let row = &rows[i];
        match InternalResourceRecord::try_from_merged(&row.0, &row.1) {
            Ok(rec) => {
                typerecords.push(rec);
                assert(typerecords@.drop_last() =~= before);
            },
            Err(_) => {},
        }
        i = i + 1;
    }
    assert(rows@.take(rows@.len() as int) =~= rows@);
    if typerecords.len() == 0 {
        assert(typerecords@ =~= Seq::<InternalResourceRecord>::empty());
        None
    } else {
        Some(ZoneRecord { name, typerecords })
    }
}

} // verus!
