//! The enumerations of the DNS protocol that the server speaks, and their wire codes.

use crate::bytes::str_equal;
use crate::text::{first_index, lemma_first_index, split_char, split_str, string_views};
use vstd::string::StrSliceExecFns;
use vstd::prelude::*;

verus! {

/// The parts of the running server that report their state
#[derive(Clone, Copy, Debug, PartialEq, Eq, Structural)]
pub enum Agent {
    Datastore,
    API,
    UDPServer,
    TCPServer,
}

/// A state change of one agent
#[derive(Clone, Copy, Debug, PartialEq, Eq, Structural)]
pub enum AgentState {
    Started { agent: Agent },
    Stopped { agent: Agent },
}

/// What the whole system is doing
#[derive(Clone, Copy, Debug, PartialEq, Eq, Structural)]
pub enum SystemState {
    Import,
    Export,
    Server,
    ShuttingDown,
}

/// A four bit field that specifies kind of query in this message.
/// This value is set by the originator of a query and copied into the response.
#[derive(Clone, Copy, Debug, PartialEq, Eq, Structural)]
pub enum OpCode {
    /// A standard query (QUERY), code 0
    Query,
    /// Server status request (STATUS), code 2
    Status,
    /// Reserved for future use, code 15
    Reserved,
}

/// The four-bit wire code of an opcode.
pub open spec fn opcode_code(o: OpCode) -> u8 {
    match o {
        OpCode::Query => 0,
        OpCode::Status => 2,
        OpCode::Reserved => 15,
    }
}

/// The opcode that a four-bit field holds, if it names one.
pub open spec fn opcode_from_code(c: u8) -> Option<OpCode> {
    if c == 0 {
        Some(OpCode::Query)
    } else if c == 2 {
        Some(OpCode::Status)
    } else if c == 15 {
        Some(OpCode::Reserved)
    } else {
        None
    }
}

impl OpCode {
    /// The four-bit wire code
    pub fn code(self) -> (r: u8)
        ensures
            r == opcode_code(self),
            r < 16,
    {
        match self {
            OpCode::Query => 0,
            OpCode::Status => 2,
            OpCode::Reserved => 15,
        }
    }

    /// Decodes a four-bit opcode field; codes that name no opcode are refused.
    pub fn from_code(c: u8) -> (r: Option<OpCode>)
        ensures
            r == opcode_from_code(c),
    {
        if c == 0 {
            Some(OpCode::Query)
        } else if c == 2 {
            Some(OpCode::Status)
        } else if c == 15 {
            Some(OpCode::Reserved)
        } else {
            None
        }
    }

    /// Any byte as an opcode: 0 and 2 name theirs, everything else is reserved.
    pub fn from_u8(input: u8) -> (r: OpCode)
        ensures
            r == (if input == 0 {
                OpCode::Query
            } else if input == 2 {
                OpCode::Status
            } else {
                OpCode::Reserved
            }),
    {
        match input {
            0 => OpCode::Query,
            2 => OpCode::Status,
            _ => OpCode::Reserved,
        }
    }

    /// The opcode as an integer: QUERY is 0, STATUS is 2, and the reserved range is 3.
    pub fn as_i32(self) -> (r: i32)
        ensures
            r == (match self {
                OpCode::Query => 0i32,
                OpCode::Status => 2i32,
                OpCode::Reserved => 3i32,
            }),
    {
        match self {
            OpCode::Query => 0b00,
            OpCode::Status => 0b10,
            OpCode::Reserved => 0b11,
        }
    }
}

/// Response code, things like NOERROR, FORMATERROR, SERVFAIL etc.
#[derive(Clone, Copy, Debug, PartialEq, Eq, Structural)]
pub enum Rcode {
    /// No error condition
    NoError,
    /// Format error - The name server was unable to interpret the query.
    FormatError,
    /// Server failure - The name server was unable to process this query due to a problem with the name server.
    ServFail,
    /// Name Error - the domain name referenced in the query does not exist.
    NameError,
    /// Not Implemented - The name server does not support the requested kind of query.
    NotImplemented,
    /// Refused - The name server refuses to perform the specified operation for policy reasons.
    Refused,
}

/// The four-bit wire code of a response code.
pub open spec fn rcode_code(r: Rcode) -> u8 {
    match r {
        Rcode::NoError => 0,
        Rcode::FormatError => 1,
        Rcode::ServFail => 2,
        Rcode::NameError => 3,
        Rcode::NotImplemented => 4,
        Rcode::Refused => 5,
    }
}

/// The response code that a four-bit field holds, if it names one.
pub open spec fn rcode_from_code(c: u8) -> Option<Rcode> {
    if c == 0 {
        Some(Rcode::NoError)
    } else if c == 1 {
        Some(Rcode::FormatError)
    } else if c == 2 {
        Some(Rcode::ServFail)
    } else if c == 3 {
        Some(Rcode::NameError)
    } else if c == 4 {
        Some(Rcode::NotImplemented)
    } else if c == 5 {
        Some(Rcode::Refused)
    } else {
        None
    }
}

impl Rcode {
    /// The four-bit wire code
    pub fn code(self) -> (r: u8)
        ensures
            r == rcode_code(self),
            r < 16,
    {
        match self {
            Rcode::NoError => 0,
            Rcode::FormatError => 1,
            Rcode::ServFail => 2,
            Rcode::NameError => 3,
            Rcode::NotImplemented => 4,
            Rcode::Refused => 5,
        }
    }

    /// Decodes a four-bit response code field; the reserved codes 6 to 15 are refused.
    pub fn from_code(c: u8) -> (r: Option<Rcode>)
        ensures
            r == rcode_from_code(c),
    {
        match c {
            0 => Some(Rcode::NoError),
            1 => Some(Rcode::FormatError),
            2 => Some(Rcode::ServFail),
            3 => Some(Rcode::NameError),
            4 => Some(Rcode::NotImplemented),
            5 => Some(Rcode::Refused),
            _ => None,
        }
    }
}

/// Is a message a query or an answer
#[derive(Clone, Copy, Debug, PartialEq, Eq, Structural)]
pub enum PacketType {
    Query,
    Answer,
}

impl PacketType {
    /// The QR bit: `false` is a query, `true` an answer.
    pub fn from_bool(input: bool) -> (r: PacketType)
        ensures
            r == (if input { PacketType::Answer } else { PacketType::Query }),
    {
        if input {
            PacketType::Answer
        } else {
            PacketType::Query
        }
    }
}

/// RRType, eg A, NS, MX, etc
#[allow(non_camel_case_types)]
#[derive(Clone, Copy, Debug, PartialEq, Eq, Structural)]
pub enum RecordType {
    /// A host address (code 1)
    A,
    /// Authoritative name server (code 2)
    NS,
    /// The canonical name for an alias (code 5)
    CNAME,
    /// Marks the start of a zone of authority (code 6)
    SOA,
    /// A mailbox domain name (EXPERIMENTAL) (code 7)
    MB,
    /// A mail group member (EXPERIMENTAL) (code 8)
    MG,
    /// A mail rename domain name (EXPERIMENTAL) (code 9)
    MR,
    /// A null RR (EXPERIMENTAL) (code 10)
    NULL,
    /// A well known service description (code 11)
    WKS,
    /// A domain name pointer (code 12)
    PTR,
    /// Host information (code 13)
    HINFO,
    /// Mailbox or mail list information (code 14)
    MINFO,
    /// Mail exchange (code 15)
    MX,
    /// Text strings (code 16)
    TXT,
    /// IPv6 Records <https://www.rfc-editor.org/rfc/rfc3596#section-2.1> (code 28)
    AAAA,
    /// For when you want to know the physical location of a thing! <https://www.rfc-editor.org/rfc/rfc1876> (code 29)
    LOC,
    /// NAPTR <https://www.rfc-editor.org/rfc/rfc2915> (code 35)
    NAPTR,
    /// Delegation signer (code 43)
    DS,
    /// DNSSEC signature (code 46)
    RRSIG,
    /// Next secure record (code 47)
    NSEC,
    /// DNSSEC public key (code 48)
    DNSKEY,
    /// Hashed next secure record (code 50)
    NSEC3,
    /// NSEC3 parameters (code 51)
    NSEC3PARAM,
    /// Child copy of a DS record (code 59)
    CDS,
    /// Child copy of a DNSKEY record (code 60)
    CDNSKEY,
    /// A request for a transfer of an entire zone (code 252)
    AXFR,
    /// A request for mailbox-related records (MB, MG or MR) (code 253)
    MAILB,
    /// A request for all records (*) (code 255)
    ANY,
    /// Uniform resource identifier (code 256)
    URI,
    /// Certification Authority Restriction - <https://www.rfc-editor.org/rfc/rfc6844.txt> (code 257)
    CAA,
    /// Anything that is not one of the above (code 258)
    InvalidType,
}

/// The 16-bit wire code of a record type.
pub open spec fn rt_code(t: RecordType) -> u16 {
    match t {
        RecordType::A => 1,
        RecordType::NS => 2,
        RecordType::CNAME => 5,
        RecordType::SOA => 6,
        RecordType::MB => 7,
        RecordType::MG => 8,
        RecordType::MR => 9,
        RecordType::NULL => 10,
        RecordType::WKS => 11,
        RecordType::PTR => 12,
        RecordType::HINFO => 13,
        RecordType::MINFO => 14,
        RecordType::MX => 15,
        RecordType::TXT => 16,
        RecordType::AAAA => 28,
        RecordType::LOC => 29,
        RecordType::NAPTR => 35,
        RecordType::DS => 43,
        RecordType::RRSIG => 46,
        RecordType::NSEC => 47,
        RecordType::DNSKEY => 48,
        RecordType::NSEC3 => 50,
        RecordType::NSEC3PARAM => 51,
        RecordType::CDS => 59,
        RecordType::CDNSKEY => 60,
        RecordType::AXFR => 252,
        RecordType::MAILB => 253,
        RecordType::ANY => 255,
        RecordType::URI => 256,
        RecordType::CAA => 257,
        RecordType::InvalidType => 258,
    }
}

/// The record type that a 16-bit code names; unknown codes are [RecordType::InvalidType].
pub open spec fn rt_from_code(c: u16) -> RecordType {
    match c {
        1 => RecordType::A,
        2 => RecordType::NS,
        5 => RecordType::CNAME,
        6 => RecordType::SOA,
        7 => RecordType::MB,
        8 => RecordType::MG,
        9 => RecordType::MR,
        10 => RecordType::NULL,
        11 => RecordType::WKS,
        12 => RecordType::PTR,
        13 => RecordType::HINFO,
        14 => RecordType::MINFO,
        15 => RecordType::MX,
        16 => RecordType::TXT,
        28 => RecordType::AAAA,
        29 => RecordType::LOC,
        35 => RecordType::NAPTR,
        43 => RecordType::DS,
        46 => RecordType::RRSIG,
        47 => RecordType::NSEC,
        48 => RecordType::DNSKEY,
        50 => RecordType::NSEC3,
        51 => RecordType::NSEC3PARAM,
        59 => RecordType::CDS,
        60 => RecordType::CDNSKEY,
        252 => RecordType::AXFR,
        253 => RecordType::MAILB,
        255 => RecordType::ANY,
        256 => RecordType::URI,
        257 => RecordType::CAA,
        _ => RecordType::InvalidType,
    }
}

/// The mnemonic of a record type; the invalid type has the empty name.
pub open spec fn rt_name(t: RecordType) -> Seq<char> {
    match t {
        RecordType::A => "A"@,
        RecordType::NS => "NS"@,
        RecordType::CNAME => "CNAME"@,
        RecordType::SOA => "SOA"@,
        RecordType::MB => "MB"@,
        RecordType::MG => "MG"@,
        RecordType::MR => "MR"@,
        RecordType::NULL => "NULL"@,
        RecordType::WKS => "WKS"@,
        RecordType::PTR => "PTR"@,
        RecordType::HINFO => "HINFO"@,
        RecordType::MINFO => "MINFO"@,
        RecordType::MX => "MX"@,
        RecordType::TXT => "TXT"@,
        RecordType::AAAA => "AAAA"@,
        RecordType::LOC => "LOC"@,
        RecordType::NAPTR => "NAPTR"@,
        RecordType::DS => "DS"@,
        RecordType::RRSIG => "RRSIG"@,
        RecordType::NSEC => "NSEC"@,
        RecordType::DNSKEY => "DNSKEY"@,
        RecordType::NSEC3 => "NSEC3"@,
        RecordType::NSEC3PARAM => "NSEC3PARAM"@,
        RecordType::CDS => "CDS"@,
        RecordType::CDNSKEY => "CDNSKEY"@,
        RecordType::AXFR => "AXFR"@,
        RecordType::MAILB => "MAILB"@,
        RecordType::ANY => "ANY"@,
        RecordType::URI => "URI"@,
        RecordType::CAA => "CAA"@,
        RecordType::InvalidType => ""@,
    }
}

/// Every named record type, in the order the parser tries their mnemonics.
pub open spec fn rt_named_types() -> Seq<RecordType> {
    seq![RecordType::A, RecordType::NS, RecordType::CNAME, RecordType::SOA, RecordType::MB, RecordType::MG, RecordType::MR, RecordType::NULL, RecordType::WKS, RecordType::PTR, RecordType::HINFO, RecordType::MINFO, RecordType::MX, RecordType::TXT, RecordType::AAAA, RecordType::LOC, RecordType::NAPTR, RecordType::DS, RecordType::RRSIG, RecordType::NSEC, RecordType::DNSKEY, RecordType::NSEC3, RecordType::NSEC3PARAM, RecordType::CDS, RecordType::CDNSKEY, RecordType::AXFR, RecordType::MAILB, RecordType::ANY, RecordType::URI, RecordType::CAA]
}

/// The first type in `table` whose mnemonic is `s`, or [RecordType::InvalidType].
pub open spec fn rt_lookup_name(table: Seq<RecordType>, s: Seq<char>) -> RecordType
    decreases table.len(),
{
    if table.len() == 0 {
        RecordType::InvalidType
    } else if rt_name(table[0]) == s {
        table[0]
    } else {
        rt_lookup_name(table.drop_first(), s)
    }
}

/// The record type that a mnemonic names; anything else is [RecordType::InvalidType].
pub open spec fn rt_from_name(s: Seq<char>) -> RecordType {
    rt_lookup_name(rt_named_types(), s)
}

fn named_types() -> (v: Vec<RecordType>)
    ensures
        v@ == rt_named_types(),
{
    let v = vec![RecordType::A, RecordType::NS, RecordType::CNAME, RecordType::SOA, RecordType::MB, RecordType::MG, RecordType::MR, RecordType::NULL, RecordType::WKS, RecordType::PTR, RecordType::HINFO, RecordType::MINFO, RecordType::MX, RecordType::TXT, RecordType::AAAA, RecordType::LOC, RecordType::NAPTR, RecordType::DS, RecordType::RRSIG, RecordType::NSEC, RecordType::DNSKEY, RecordType::NSEC3, RecordType::NSEC3PARAM, RecordType::CDS, RecordType::CDNSKEY, RecordType::AXFR, RecordType::MAILB, RecordType::ANY, RecordType::URI, RecordType::CAA];
    assert(v@ =~= rt_named_types());
    v
}

/// The record types that the server answers queries for.
pub open spec fn rt_supported(t: RecordType) -> bool {
    match t {
        RecordType::A | RecordType::AAAA | RecordType::ANY | RecordType::CAA | RecordType::CNAME
        | RecordType::HINFO | RecordType::LOC | RecordType::MX | RecordType::NS | RecordType::PTR
        | RecordType::SOA | RecordType::TXT | RecordType::URI => true,
        _ => false,
    }
}

impl RecordType {
    /// The 16-bit wire code
    pub fn code(self) -> (r: u16)
        ensures
            r == rt_code(self),
    {
        match self {
            RecordType::A => 1,
            RecordType::NS => 2,
            RecordType::CNAME => 5,
            RecordType::SOA => 6,
            RecordType::MB => 7,
            RecordType::MG => 8,
            RecordType::MR => 9,
            RecordType::NULL => 10,
            RecordType::WKS => 11,
            RecordType::PTR => 12,
            RecordType::HINFO => 13,
            RecordType::MINFO => 14,
            RecordType::MX => 15,
            RecordType::TXT => 16,
            RecordType::AAAA => 28,
            RecordType::LOC => 29,
            RecordType::NAPTR => 35,
            RecordType::DS => 43,
            RecordType::RRSIG => 46,
            RecordType::NSEC => 47,
            RecordType::DNSKEY => 48,
            RecordType::NSEC3 => 50,
            RecordType::NSEC3PARAM => 51,
            RecordType::CDS => 59,
            RecordType::CDNSKEY => 60,
            RecordType::AXFR => 252,
            RecordType::MAILB => 253,
            RecordType::ANY => 255,
            RecordType::URI => 256,
            RecordType::CAA => 257,
            RecordType::InvalidType => 258,
        }
    }

    /// Decodes a 16-bit type code
    pub fn from_code(input: u16) -> (r: RecordType)
        ensures
            r == rt_from_code(input),
    {
        match input {
            1 => RecordType::A,
            2 => RecordType::NS,
            5 => RecordType::CNAME,
            6 => RecordType::SOA,
            7 => RecordType::MB,
            8 => RecordType::MG,
            9 => RecordType::MR,
            10 => RecordType::NULL,
            11 => RecordType::WKS,
            12 => RecordType::PTR,
            13 => RecordType::HINFO,
            14 => RecordType::MINFO,
            15 => RecordType::MX,
            16 => RecordType::TXT,
            28 => RecordType::AAAA,
            29 => RecordType::LOC,
            35 => RecordType::NAPTR,
            43 => RecordType::DS,
            46 => RecordType::RRSIG,
            47 => RecordType::NSEC,
            48 => RecordType::DNSKEY,
            50 => RecordType::NSEC3,
            51 => RecordType::NSEC3PARAM,
            59 => RecordType::CDS,
            60 => RecordType::CDNSKEY,
            252 => RecordType::AXFR,
            253 => RecordType::MAILB,
            255 => RecordType::ANY,
            256 => RecordType::URI,
            257 => RecordType::CAA,
            _ => RecordType::InvalidType,
        }
    }

    /// The mnemonic, eg `"MX"`
    pub fn as_str(self) -> (r: &'static str)
        ensures
            r@ == rt_name(self),
    {
        match self {
            RecordType::A => "A",
            RecordType::NS => "NS",
            RecordType::CNAME => "CNAME",
            RecordType::SOA => "SOA",
            RecordType::MB => "MB",
            RecordType::MG => "MG",
            RecordType::MR => "MR",
            RecordType::NULL => "NULL",
            RecordType::WKS => "WKS",
            RecordType::PTR => "PTR",
            RecordType::HINFO => "HINFO",
            RecordType::MINFO => "MINFO",
            RecordType::MX => "MX",
            RecordType::TXT => "TXT",
            RecordType::AAAA => "AAAA",
            RecordType::LOC => "LOC",
            RecordType::NAPTR => "NAPTR",
            RecordType::DS => "DS",
            RecordType::RRSIG => "RRSIG",
            RecordType::NSEC => "NSEC",
            RecordType::DNSKEY => "DNSKEY",
            RecordType::NSEC3 => "NSEC3",
            RecordType::NSEC3PARAM => "NSEC3PARAM",
            RecordType::CDS => "CDS",
            RecordType::CDNSKEY => "CDNSKEY",
            RecordType::AXFR => "AXFR",
            RecordType::MAILB => "MAILB",
            RecordType::ANY => "ANY",
            RecordType::URI => "URI",
            RecordType::CAA => "CAA",
            RecordType::InvalidType => "",
        }
    }

    /// Parses a mnemonic, eg `"MX"`
    pub fn from_name(input: &str) -> (r: RecordType)
        ensures
            r == rt_from_name(input@),
    {
        let table = named_types();
        let mut i: usize = 0;
        assert(table@.skip(0) =~= table@);
        while i < table.len()
            invariant
                table@ == rt_named_types(),
                0 <= i <= table@.len(),
                rt_lookup_name(table@.skip(i as int), input@) == rt_from_name(input@),
            decreases table@.len() - i,
        {
            let t = table[i];
            let name = t.as_str();
            assert(table@.skip(i as int)[0] == t);
            if str_equal(input, name) {
                return t;
            }
            assert(table@.skip(i as int).drop_first() =~= table@.skip(i + 1));
            i = i + 1;
        }
        RecordType::InvalidType
    }

    /// Whether the server answers queries for this type
    pub fn supported(self) -> (r: bool)
        ensures
            r == rt_supported(self),
    {
        match self {
            RecordType::A | RecordType::AAAA | RecordType::ANY | RecordType::CAA | RecordType::CNAME
            | RecordType::HINFO | RecordType::LOC | RecordType::MX | RecordType::NS | RecordType::PTR
            | RecordType::SOA | RecordType::TXT | RecordType::URI => true,
            _ => false,
        }
    }
}

/// Decoding the code of a record type gives the type back.
pub proof fn lemma_rt_code_roundtrip(t: RecordType)
    requires
        t != RecordType::InvalidType,
    ensures
        rt_from_code(rt_code(t)) == t,
{
}

/// A code that names a record type is that type's code.
pub proof fn lemma_rt_from_code_roundtrip(c: u16)
    requires
        rt_from_code(c) != RecordType::InvalidType,
    ensures
        rt_code(rt_from_code(c)) == c,
{
}


/// CLASS fields appear in resource records, most entries should be IN, but CHAOS is typically used for management-layer things. Ref RFC1035 3.2.4.
#[derive(Clone, Copy, Debug, PartialEq, Eq, Structural)]
pub enum RecordClass {
    /// IN - Internet (code 1)
    Internet,
    /// CS - CSNET class (code 2, obsolete)
    CsNet,
    /// CH - Chaos (code 3)
    Chaos,
    /// Hesiod (code 4)
    Hesiod,
    /// Anything else (code 0)
    InvalidType,
}

/// The 16-bit wire code of a class.
pub open spec fn rc_code(c: RecordClass) -> u16 {
    match c {
        RecordClass::Internet => 1,
        RecordClass::CsNet => 2,
        RecordClass::Chaos => 3,
        RecordClass::Hesiod => 4,
        RecordClass::InvalidType => 0,
    }
}

/// The class that a 16-bit code names; unknown codes are [RecordClass::InvalidType].
pub open spec fn rc_from_code(c: u16) -> RecordClass {
    if c == 1 {
        RecordClass::Internet
    } else if c == 2 {
        RecordClass::CsNet
    } else if c == 3 {
        RecordClass::Chaos
    } else if c == 4 {
        RecordClass::Hesiod
    } else {
        RecordClass::InvalidType
    }
}

/// The display name of a class.
pub open spec fn rc_name(c: RecordClass) -> Seq<char> {
    match c {
        RecordClass::Internet => "IN"@,
        RecordClass::CsNet => "CS"@,
        RecordClass::Chaos => "CHAOS"@,
        RecordClass::Hesiod => "HESIOD"@,
        RecordClass::InvalidType => "Invalid"@,
    }
}

/// The class that a display name names; anything else is [RecordClass::InvalidType].
pub open spec fn rc_from_name(s: Seq<char>) -> RecordClass {
    if s == "IN"@ {
        RecordClass::Internet
    } else if s == "CS"@ {
        RecordClass::CsNet
    } else if s == "CHAOS"@ {
        RecordClass::Chaos
    } else if s == "HESIOD"@ {
        RecordClass::Hesiod
    } else {
        RecordClass::InvalidType
    }
}

impl RecordClass {
    /// The 16-bit wire code
    pub fn code(self) -> (r: u16)
        ensures
            r == rc_code(self),
    {
        match self {
            RecordClass::Internet => 1,
            RecordClass::CsNet => 2,
            RecordClass::Chaos => 3,
            RecordClass::Hesiod => 4,
            RecordClass::InvalidType => 0,
        }
    }

    /// Decodes a 16-bit class code
    pub fn from_code(input: u16) -> (r: RecordClass)
        ensures
            r == rc_from_code(input),
    {
        match input {
            1 => RecordClass::Internet,
            2 => RecordClass::CsNet,
            3 => RecordClass::Chaos,
            4 => RecordClass::Hesiod,
            _ => RecordClass::InvalidType,
        }
    }

    /// The display name, eg `"IN"`
    pub fn as_str(self) -> (r: &'static str)
        ensures
            r@ == rc_name(self),
    {
        match self {
            RecordClass::Internet => "IN",
            RecordClass::CsNet => "CS",
            RecordClass::Chaos => "CHAOS",
            RecordClass::Hesiod => "HESIOD",
            RecordClass::InvalidType => "Invalid",
        }
    }

    /// Parses a display name, eg `"IN"`
    pub fn from_name(value: &str) -> (r: RecordClass)
        ensures
            r == rc_from_name(value@),
    {
        if str_equal(value, "IN") {
            RecordClass::Internet
        } else if str_equal(value, "CS") {
            RecordClass::CsNet
        } else if str_equal(value, "CHAOS") {
            RecordClass::Chaos
        } else if str_equal(value, "HESIOD") {
            RecordClass::Hesiod
        } else {
            RecordClass::InvalidType
        }
    }
}

/// Decoding the code of a class gives the class back.
pub proof fn lemma_rc_code_roundtrip(c: RecordClass)
    requires
        c != RecordClass::InvalidType,
    ensures
        rc_from_code(rc_code(c)) == c,
{
}



/// How to reach the administrator.
#[derive(Debug, PartialEq, Eq, Clone)]
pub enum ContactDetails {
    Mastodon { contact: String, server: String },
    Email { contact: String },
    Twitter { contact: String },
}

/// The contact details as an HTML link.
pub open spec fn contact_link(c: ContactDetails) -> Seq<char> {
    match c {
        ContactDetails::Mastodon { contact, server } => "<a href=\"https://"@ + server@ + "/@"@ + contact@
            + "\">"@ + contact@ + "</a>"@,
        ContactDetails::Email { contact } => "<a href=\"mailto:"@ + contact@ + "\">"@ + contact@ + "</a>"@,
        ContactDetails::Twitter { contact } => "<a href=\"https://twitter.com/"@ + contact@ + "\">"@ + contact@
            + "</a>"@,
    }
}

/// `s` without the `c` characters it starts with.
pub open spec fn trim_leading(s: Seq<char>, c: char) -> Seq<char>
    decreases s.len(),
{
    if s.len() > 0 && s[0] == c {
        trim_leading(s.drop_first(), c)
    } else {
        s
    }
}

/// Whether `type:value` text describes contact details: there is a `:`, and the type is
/// `Email`, `Twitter`, or `Mastodon` with an `@` in the value once its leading `@`s are
/// gone.
pub open spec fn contact_text_ok(value: Seq<char>) -> bool {
    let parts = split_char(value, ':');
    &&& parts.len() >= 2
    &&& (parts[0] == "Email"@ || parts[0] == "Twitter"@ || (parts[0] == "Mastodon"@ && trim_leading(
        parts[1],
        '@',
    ).contains('@')))
}

/// The contact details that `type:value` text describes: `Email:x` and `Twitter:x` take
/// the value (up to any further `:`) as the contact; `Mastodon:user@server` drops the
/// value's leading `@`s and takes what comes before its first `@` as the contact and what
/// comes after it, up to any further `@`, as the server.
pub open spec fn contact_from_text(c: ContactDetails, value: Seq<char>) -> bool {
    let parts = split_char(value, ':');
    &&& parts.len() >= 2
    &&& if parts[0] == "Email"@ {
        c matches ContactDetails::Email { contact } && contact@ == parts[1]
    } else if parts[0] == "Twitter"@ {
        c matches ContactDetails::Twitter { contact } && contact@ == parts[1]
    } else {
        let at = split_char(trim_leading(parts[1], '@'), '@');
        &&& parts[0] == "Mastodon"@
        &&& at.len() >= 2
        &&& c matches ContactDetails::Mastodon { contact, server }
        &&& contact@ == at[0]
        &&& server@ == at[1]
    }
}

fn trim_start_char(s: &str, c: char) -> (r: &str)
    ensures
        r@ == trim_leading(s@, c),
{
    let n = s.unicode_len();
    let mut i: usize = 0;
    assert(s@.skip(0) =~= s@);
    while i < n && s.get_char(i) == c
        invariant
            n == s@.len(),
            i <= n,
            trim_leading(s@, c) == trim_leading(s@.skip(i as int), c),
        decreases n - i,
    {
        assert(s@.skip(i as int).drop_first() =~= s@.skip(i + 1));
        i = i + 1;
    }
    let r = s.substring_char(i, n);
    assert(r@ =~= s@.skip(i as int));
    r
}

proof fn lemma_split_two(s: Seq<char>, c: char)
    requires
        s.contains(c),
    ensures
        split_char(s, c).len() >= 2,
{
    lemma_first_index(s, c);
    let k = choose|k: int| 0 <= k < s.len() && s[k] == c;
    assert(first_index(s, c) <= k);
    let i = first_index(s, c);
    lemma_first_index(s.skip(i + 1), c);
    assert(split_char(s.skip(i + 1), c).len() >= 1);
}

impl ContactDetails {
    /// The contact details as an HTML link, see [contact_link].
    pub fn to_string(&self) -> (r: String)
        ensures
            r@ == contact_link(*self),
    {
        match self {
            ContactDetails::Mastodon { contact, server } => {
                let mut s = String::from_str("<a href=\"https://");
                s.append(server.as_str());
                s.append("/@");
                s.append(contact.as_str());
                s.append("\">");
                s.append(contact.as_str());
                s.append("</a>");
                s
            },
            ContactDetails::Email { contact } => {
                let mut s = String::from_str("<a href=\"mailto:");
                s.append(contact.as_str());
                s.append("\">");
                s.append(contact.as_str());
                s.append("</a>");
                s
            },
            ContactDetails::Twitter { contact } => {
                let mut s = String::from_str("<a href=\"https://twitter.com/");
                s.append(contact.as_str());
                s.append("\">");
                s.append(contact.as_str());
                s.append("</a>");
                s
            },
        }
    }

    /// Reads contact details from `type:value` text, see [contact_text_ok] and
    /// [contact_from_text].
    pub fn try_from(value: String) -> (r: Result<ContactDetails, String>)
        ensures
            r is Ok <==> contact_text_ok(value@),
            r matches Ok(c) ==> contact_from_text(c, value@),
    {
        let parts = split_str(value.as_str(), ':');
        if parts.len() < 2 {
            return Err(String::from_str("Length of input is wrong please ensure it's in the format type:username@server (server for Mastodon)"));
        }
        assert(string_views(parts@)[0] == parts@[0]@);
        assert(string_views(parts@)[1] == parts@[1]@);
        let contact_type = parts[0].as_str();
        let contact_value = parts[1].as_str();
        proof {
            reveal_strlit("Mastodon");
            reveal_strlit("Email");
            reveal_strlit("Twitter");
        }
        if str_equal(contact_type, "Mastodon") {
            let cv = trim_start_char(contact_value, '@');
            let at = split_str(cv, '@');
            if at.len() < 2 {
                proof {
                    if cv@.contains('@') {
                        lemma_split_two(cv@, '@');
                    }
                }
                return Err(String::from_str("Input format is wrong please ensure it's in the format Mastodon:username@server for Mastodon"));
            }
            proof {
                if !cv@.contains('@') {
                    lemma_first_index(cv@, '@');
                    assert(split_char(cv@, '@').len() == 1);
                }
            }
            assert(string_views(at@)[0] == at@[0]@);
            assert(string_views(at@)[1] == at@[1]@);
            let contact = String::from_str(at[0].as_str());
            let server = String::from_str(at[1].as_str());
            Ok(ContactDetails::Mastodon { contact, server })
        } else if str_equal(contact_type, "Email") {
            Ok(ContactDetails::Email { contact: String::from_str(contact_value) })
        } else if str_equal(contact_type, "Twitter") {
            Ok(ContactDetails::Twitter { contact: String::from_str(contact_value) })
        } else {
            Err(String::from_str("Contact type wrong, please ensure it's in the format type:value where type is one of Email/Twitter/Mastodon"))
        }
    }
}


/// Reading back the mnemonic of a record type gives the type: the names of the types are
/// all different, and the invalid type's empty name names nothing.
#[verifier::rlimit(100)]
pub proof fn lemma_rt_name_roundtrip(t: RecordType)
    ensures
        rt_from_name(rt_name(t)) == t,
{
    reveal_strlit("A");
    assert("A"@.len() == 1 && "A"@[0] == 'A' && "A"@[0] == 'A');
    reveal_strlit("NS");
    assert("NS"@.len() == 2 && "NS"@[0] == 'N' && "NS"@[1] == 'S');
    reveal_strlit("CNAME");
    assert("CNAME"@.len() == 5 && "CNAME"@[0] == 'C' && "CNAME"@[4] == 'E');
    reveal_strlit("SOA");
    assert("SOA"@.len() == 3 && "SOA"@[0] == 'S' && "SOA"@[2] == 'A');
    reveal_strlit("MB");
    assert("MB"@.len() == 2 && "MB"@[0] == 'M' && "MB"@[1] == 'B');
    reveal_strlit("MG");
    assert("MG"@.len() == 2 && "MG"@[0] == 'M' && "MG"@[1] == 'G');
    reveal_strlit("MR");
    assert("MR"@.len() == 2 && "MR"@[0] == 'M' && "MR"@[1] == 'R');
    reveal_strlit("NULL");
    assert("NULL"@.len() == 4 && "NULL"@[0] == 'N' && "NULL"@[3] == 'L');
    reveal_strlit("WKS");
    assert("WKS"@.len() == 3 && "WKS"@[0] == 'W' && "WKS"@[2] == 'S');
    reveal_strlit("PTR");
    assert("PTR"@.len() == 3 && "PTR"@[0] == 'P' && "PTR"@[2] == 'R');
    reveal_strlit("HINFO");
    assert("HINFO"@.len() == 5 && "HINFO"@[0] == 'H' && "HINFO"@[4] == 'O');
    reveal_strlit("MINFO");
    assert("MINFO"@.len() == 5 && "MINFO"@[0] == 'M' && "MINFO"@[4] == 'O');
    reveal_strlit("MX");
    assert("MX"@.len() == 2 && "MX"@[0] == 'M' && "MX"@[1] == 'X');
    reveal_strlit("TXT");
    assert("TXT"@.len() == 3 && "TXT"@[0] == 'T' && "TXT"@[2] == 'T');
    reveal_strlit("AAAA");
    assert("AAAA"@.len() == 4 && "AAAA"@[0] == 'A' && "AAAA"@[3] == 'A');
    reveal_strlit("LOC");
    assert("LOC"@.len() == 3 && "LOC"@[0] == 'L' && "LOC"@[2] == 'C');
    reveal_strlit("NAPTR");
    assert("NAPTR"@.len() == 5 && "NAPTR"@[0] == 'N' && "NAPTR"@[4] == 'R');
    reveal_strlit("DS");
    assert("DS"@.len() == 2 && "DS"@[0] == 'D' && "DS"@[1] == 'S');
    reveal_strlit("RRSIG");
    assert("RRSIG"@.len() == 5 && "RRSIG"@[0] == 'R' && "RRSIG"@[4] == 'G');
    reveal_strlit("NSEC");
    assert("NSEC"@.len() == 4 && "NSEC"@[0] == 'N' && "NSEC"@[3] == 'C');
    reveal_strlit("DNSKEY");
    assert("DNSKEY"@.len() == 6 && "DNSKEY"@[0] == 'D' && "DNSKEY"@[5] == 'Y');
    reveal_strlit("NSEC3");
    assert("NSEC3"@.len() == 5 && "NSEC3"@[0] == 'N' && "NSEC3"@[4] == '3');
    reveal_strlit("NSEC3PARAM");
    assert("NSEC3PARAM"@.len() == 10 && "NSEC3PARAM"@[0] == 'N' && "NSEC3PARAM"@[9] == 'M');
    reveal_strlit("CDS");
    assert("CDS"@.len() == 3 && "CDS"@[0] == 'C' && "CDS"@[2] == 'S');
    reveal_strlit("CDNSKEY");
    assert("CDNSKEY"@.len() == 7 && "CDNSKEY"@[0] == 'C' && "CDNSKEY"@[6] == 'Y');
    reveal_strlit("AXFR");
    assert("AXFR"@.len() == 4 && "AXFR"@[0] == 'A' && "AXFR"@[3] == 'R');
    reveal_strlit("MAILB");
    assert("MAILB"@.len() == 5 && "MAILB"@[0] == 'M' && "MAILB"@[4] == 'B');
    reveal_strlit("ANY");
    assert("ANY"@.len() == 3 && "ANY"@[0] == 'A' && "ANY"@[2] == 'Y');
    reveal_strlit("URI");
    assert("URI"@.len() == 3 && "URI"@[0] == 'U' && "URI"@[2] == 'I');
    reveal_strlit("CAA");
    assert("CAA"@.len() == 3 && "CAA"@[0] == 'C' && "CAA"@[2] == 'A');
    reveal_strlit("");
    assert(""@.len() == 0);
    reveal_with_fuel(rt_lookup_name, 32);
}

/// Reading back the display name of a class gives the class.
pub proof fn lemma_rc_name_roundtrip(c: RecordClass)
    ensures
        rc_from_name(rc_name(c)) == c,
{
    reveal_strlit("IN");
    reveal_strlit("CS");
    reveal_strlit("CHAOS");
    reveal_strlit("HESIOD");
    reveal_strlit("Invalid");
    assert("IN"@.len() == 2 && "IN"@[0] == 'I');
    assert("CS"@.len() == 2 && "CS"@[0] == 'C');
    assert("CHAOS"@.len() == 5 && "CHAOS"@[0] == 'C');
    assert("HESIOD"@.len() == 6);
    assert("Invalid"@.len() == 7);
}

} // verus!
