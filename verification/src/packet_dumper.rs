//! Names for the files that captured packets are written to.

use vstd::prelude::*;

verus! {

/// What kind of packet is being dumped.
#[derive(Debug, Clone, Copy, PartialEq, Eq)]
pub enum DumpType {
    ClientRequest,
}

/// The name a dump type goes by in a file name.
pub open spec fn dump_type_name(t: DumpType) -> Seq<char> {
    match t {
        DumpType::ClientRequest => "client_request"@,
    }
}

impl DumpType {
    /// The dump type's name, see [dump_type_name].
    pub fn to_string(&self) -> (r: String)
        ensures
            r@ == dump_type_name(*self),
    {
        match self {
            DumpType::ClientRequest => String::from_str("client_request"),
        }
    }
}

/// The file a packet is dumped to: `dir/type-timestamp.cap`, in `./captures` when no
/// directory is given.
pub open spec fn capture_path(dest_dir: Option<Seq<char>>, dump_type: DumpType, timestamp: Seq<char>) -> Seq<char> {
    let dir = match dest_dir {
        Some(d) => d,
        None => "./captures"@,
    };
    dir + "/"@ + dump_type_name(dump_type) + "-"@ + timestamp + ".cap"@
}

/// The name of the file to dump a packet to, see [capture_path]; `timestamp` is the
/// time of the dump as `%Y-%m-%dT%H%M%SZ`.
pub fn capture_filename(dest_dir: Option<&str>, dump_type: DumpType, timestamp: &str) -> (r: String)
    ensures
        r@ == capture_path(
            match dest_dir {
                Some(d) => Some(d@),
                None => None,
            },
            dump_type,
            timestamp@,
        ),
{
    let mut name = match dest_dir {
        Some(d) => String::from_str(d),
        None => String::from_str("./captures"),
    };
    name.append("/");
    let t = dump_type.to_string();
    name.append(t.as_str());
    name.append("-");
    name.append(timestamp);
    name.append(".cap");
    name
}

} // verus!
