//! Resource records: the internal representation, building them from zone data, and
//! their RDATA on the wire.

use crate::bytes::{be_bytes, extend_bytes, push_be};
use crate::enums::{rc_code, rt_code, RecordClass, RecordType};
use crate::error::GoatNsError;
use crate::external::string_push;
use crate::names::{
    form_bytes, form_bytes_with_trailing_null, lemma_name_form_reads_back, name_as_bytes, name_form,
    opt_bytes, read_name, NameAsBytes,
};
use crate::question::labels_nonempty;
use vstd::utf8::encode_utf8;
use vstd::prelude::*;
use vstd::string::StringSliceAdditionalSpecFns;
use vstd::string::StrSliceExecFns;

verus! {

/// A domain name, as text.
#[derive(Clone, Debug, Eq, PartialEq)]
pub struct DomainName {
    pub name: String,
}

/// A zone-file name with each `@` written as `.`, so a mailbox `dns@example.com` becomes
/// the name `dns.example.com`.
pub open spec fn at_to_dot(s: Seq<char>) -> Seq<char> {
    s.map_values(|c: char| if c == '@' { '.' } else { c })
}

impl DomainName {
    /// A domain name from zone-file text, see [at_to_dot].
    pub fn from_str(input: &str) -> (r: DomainName)
        ensures
            r.name@ == at_to_dot(input@),
    {
        let n = input.unicode_len();
        let mut name = String::new();
        let mut i: usize = 0;
        while i < n
            invariant
                n == input@.len(),
                i <= n,
                name@ == at_to_dot(input@.take(i as int)),
            decreases n - i,
        {
            let c = input.get_char(i);
            string_push(&mut name, if c == '@' { '.' } else { c });
            assert(at_to_dot(input@.take(i + 1)) =~= at_to_dot(input@.take(i as int)).push(
                if c == '@' { '.' } else { c },
            ));
            i = i + 1;
        }
        assert(input@.take(n as int) =~= input@);
        DomainName { name }
    }

    /// A domain name holding exactly `name`.
    pub fn from_string(name: String) -> (r: DomainName)
        ensures
            r.name@ == name@,
    {
        DomainName { name }
    }

    /// Push the name through [name_as_bytes].
    pub fn as_bytes_compressed(
        &self,
        compress_target: Option<u16>,
        compress_reference: Option<&Vec<u8>>,
    ) -> (r: Result<NameAsBytes, GoatNsError>)
        ensures
            match name_form(dn_bytes(*self), compress_target, opt_bytes(compress_reference)) {
                Some(f) => r matches Ok(n) && n@ == f,
                None => r matches Err(e) && e is InvalidName,
            },
    {
        name_as_bytes(self.name.as_str().as_bytes(), compress_target, compress_reference)
    }

    /// The name written out in full as wire labels ending in the root label.
    pub fn to_wire(&self) -> (r: Result<Vec<u8>, GoatNsError>)
        ensures
            match name_form(dn_bytes(*self), None, None) {
                Some(f) => r matches Ok(v) && v@ == form_bytes(f),
                None => r matches Err(e) && e is InvalidName,
            },
    {
        Ok(name_as_bytes(self.name.as_str().as_bytes(), None, None)?.into_bytes())
    }
}

/// The UTF-8 bytes of a domain name's text.
pub open spec fn dn_bytes(d: DomainName) -> Seq<u8> {
    encode_utf8(d.name@)
}

/// `<character-string>` is a single length octet followed by that number of characters.
/// `<character-string>` is treated as binary information, and can be up to 256 characters
/// in length (including the length octet).
#[derive(Eq, PartialEq, Debug, Clone)]
pub struct DNSCharString {
    pub data: Vec<u8>,
}

/// The wire form of a character string: a length octet and at most 255 data octets.
pub open spec fn charstring_bytes(data: Seq<u8>) -> Seq<u8> {
    let d = if data.len() > 255 {
        data.take(255)
    } else {
        data
    };
    seq![d.len() as u8] + d
}

impl DNSCharString {
    /// The character string holding the UTF-8 bytes of `input`.
    pub fn from_str(input: &str) -> (r: DNSCharString)
        ensures
            r.data@ == input.spec_bytes(),
    {
        DNSCharString { data: vstd::slice::slice_to_vec(input.as_bytes()) }
    }

    /// Returns the bytes for a packet, ie - the length and then the string, cut to 255 octets.
    pub fn as_bytes(&self) -> (r: Vec<u8>)
        ensures
            r@ == charstring_bytes(self.data@),
    {
        let n: usize = if self.data.len() > 255 {
            255
        } else {
            self.data.len()
        };
        let mut res: Vec<u8> = Vec::new();
        res.push(n as u8);
        extend_bytes(&mut res, vstd::slice::slice_subrange(self.data.as_slice(), 0, n));
        assert(res@ =~= charstring_bytes(self.data@));
        res
    }

    /// The length octet and all the data: the length wraps modulo 256 for data over 255 octets.
    pub fn into_bytes(self) -> (r: Vec<u8>)
        ensures
            r@ == seq![(self.data@.len() % 256) as u8] + self.data@,
    {
        let mut data: Vec<u8> = Vec::new();
        data.push((self.data.len() % 256) as u8);
        extend_bytes(&mut data, self.data.as_slice());
        data
    }
}

/// Internal representation of a resource record
#[allow(non_camel_case_types)]
#[derive(Debug, PartialEq, Eq, Clone)]
pub enum InternalResourceRecord {
    /// A single host address
    A {
        address: u32,
        ttl: u32,
        rclass: RecordClass,
    },
    /// An IPv6 host address <https://www.rfc-editor.org/rfc/rfc3596#section-2.1>
    AAAA {
        address: u128,
        ttl: u32,
        rclass: RecordClass,
    },
    /// A request for a transfer of an entire zone
    AXFR {
        ttl: u32,
        rclass: RecordClass,
    },
    /// [RFC8659](https://www.rfc-editor.org/rfc/rfc8659) - CAA Record
    CAA {
        flag: u8,
        tag: DNSCharString,
        value: Vec<u8>,
        ttl: u32,
        rclass: RecordClass,
    },
    /// The canonical name for an alias
    CNAME {
        cname: DomainName,
        ttl: u32,
        rclass: RecordClass,
    },
    /// Where a thing physically is <https://www.rfc-editor.org/rfc/rfc1876>
    LOC {
        ttl: u32,
        rclass: RecordClass,
        version: u8,
        size: u8,
        horiz_pre: u8,
        vert_pre: u8,
        latitude: u32,
        longitude: u32,
        altitude: i32,
    },
    /// Naming authority pointer <https://www.rfc-editor.org/rfc/rfc2915>
    NAPTR {
        ttl: u32,
        rclass: RecordClass,
        domain: DomainName,
        order: u16,
        preference: u16,
        flags: String,
    },
    /// An authoritative name server
    NS {
        nsdname: DomainName,
        ttl: u32,
        rclass: RecordClass,
    },
    /// Marks the start of a zone of authority; `zone` is the zone it is for, `rname` the mailbox of the person responsible, with the `@` written as a dot
    SOA {
        zone: DomainName,
        mname: DomainName,
        rname: DomainName,
        serial: u32,
        refresh: u32,
        retry: u32,
        expire: u32,
        minimum: u32,
        rclass: RecordClass,
    },
    /// A domain name pointer
    PTR {
        ptrdname: DomainName,
        ttl: u32,
        rclass: RecordClass,
    },
    /// Host information (RFC1035); a missing field means the host this runs on
    HINFO {
        cpu: Option<DNSCharString>,
        os: Option<DNSCharString>,
        ttl: u32,
        rclass: RecordClass,
    },
    /// Mail exchange
    MX {
        preference: u16,
        exchange: DomainName,
        ttl: u32,
        rclass: RecordClass,
    },
    /// Text strings
    TXT {
        txtdata: DNSCharString,
        ttl: u32,
        class: RecordClass,
    },
    /// A uniform resource identifier
    URI {
        priority: u16,
        weight: u16,
        target: DNSCharString,
        ttl: u32,
        rclass: RecordClass,
    },
    /// A DNSSEC public key
    DNSKEY {
        flags: u16,
        protocol: u8,
        algorithm: u8,
        public_key: Vec<u8>,
        ttl: u32,
        rclass: RecordClass,
    },
    /// A DNSSEC signature
    RRSIG {
        type_covered: RecordType,
        algorithm: u8,
        labels: u8,
        original_ttl: u32,
        signature_expiration: u32,
        signature_inception: u32,
        key_tag: u16,
        signer_name: DomainName,
        signature: Vec<u8>,
        ttl: u32,
        rclass: RecordClass,
    },
    /// The next name in the zone and the types at this one
    NSEC {
        next_domain_name: DomainName,
        type_bit_maps: Vec<u8>,
        ttl: u32,
        rclass: RecordClass,
    },
    /// Hashed authenticated denial of existence
    NSEC3 {
        hash_algorithm: u8,
        flags: u8,
        iterations: u16,
        salt: Vec<u8>,
        next_hashed_owner_name: Vec<u8>,
        type_bit_maps: Vec<u8>,
        ttl: u32,
        rclass: RecordClass,
    },
    /// NSEC3 parameters
    NSEC3PARAM {
        hash_algorithm: u8,
        flags: u8,
        iterations: u16,
        salt: Vec<u8>,
        ttl: u32,
        rclass: RecordClass,
    },
    /// Delegation signer
    DS {
        key_tag: u16,
        algorithm: u8,
        digest_type: u8,
        digest: Vec<u8>,
        ttl: u32,
        rclass: RecordClass,
    },
    /// Child copy of a DNSKEY
    CDNSKEY {
        flags: u16,
        protocol: u8,
        algorithm: u8,
        public_key: Vec<u8>,
        ttl: u32,
        rclass: RecordClass,
    },
    /// Child copy of a DS
    CDS {
        key_tag: u16,
        algorithm: u8,
        digest_type: u8,
        digest: Vec<u8>,
        ttl: u32,
        rclass: RecordClass,
    },
    InvalidType,
}

/// The record type of a record.
pub open spec fn rr_type(rr: InternalResourceRecord) -> RecordType {
    match rr {
        InternalResourceRecord::A { .. } => RecordType::A,
        InternalResourceRecord::AAAA { .. } => RecordType::AAAA,
        InternalResourceRecord::AXFR { .. } => RecordType::AXFR,
        InternalResourceRecord::CAA { .. } => RecordType::CAA,
        InternalResourceRecord::CNAME { .. } => RecordType::CNAME,
        InternalResourceRecord::LOC { .. } => RecordType::LOC,
        InternalResourceRecord::NAPTR { .. } => RecordType::NAPTR,
        InternalResourceRecord::NS { .. } => RecordType::NS,
        InternalResourceRecord::SOA { .. } => RecordType::SOA,
        InternalResourceRecord::PTR { .. } => RecordType::PTR,
        InternalResourceRecord::HINFO { .. } => RecordType::HINFO,
        InternalResourceRecord::MX { .. } => RecordType::MX,
        InternalResourceRecord::TXT { .. } => RecordType::TXT,
        InternalResourceRecord::URI { .. } => RecordType::URI,
        InternalResourceRecord::DNSKEY { .. } => RecordType::DNSKEY,
        InternalResourceRecord::RRSIG { .. } => RecordType::RRSIG,
        InternalResourceRecord::NSEC { .. } => RecordType::NSEC,
        InternalResourceRecord::NSEC3 { .. } => RecordType::NSEC3,
        InternalResourceRecord::NSEC3PARAM { .. } => RecordType::NSEC3PARAM,
        InternalResourceRecord::DS { .. } => RecordType::DS,
        InternalResourceRecord::CDNSKEY { .. } => RecordType::CDNSKEY,
        InternalResourceRecord::CDS { .. } => RecordType::CDS,
        InternalResourceRecord::InvalidType => RecordType::InvalidType,
    }
}

/// The time to live of a record: the minimum of an SOA, zero for the invalid type.
pub open spec fn rr_ttl(rr: InternalResourceRecord) -> u32 {
    match rr {
        InternalResourceRecord::A { ttl, .. } => ttl,
        InternalResourceRecord::AAAA { ttl, .. } => ttl,
        InternalResourceRecord::AXFR { ttl, .. } => ttl,
        InternalResourceRecord::CAA { ttl, .. } => ttl,
        InternalResourceRecord::CNAME { ttl, .. } => ttl,
        InternalResourceRecord::LOC { ttl, .. } => ttl,
        InternalResourceRecord::NAPTR { ttl, .. } => ttl,
        InternalResourceRecord::NS { ttl, .. } => ttl,
        InternalResourceRecord::SOA { minimum, .. } => minimum,
        InternalResourceRecord::PTR { ttl, .. } => ttl,
        InternalResourceRecord::HINFO { ttl, .. } => ttl,
        InternalResourceRecord::MX { ttl, .. } => ttl,
        InternalResourceRecord::TXT { ttl, .. } => ttl,
        InternalResourceRecord::URI { ttl, .. } => ttl,
        InternalResourceRecord::DNSKEY { ttl, .. } => ttl,
        InternalResourceRecord::RRSIG { ttl, .. } => ttl,
        InternalResourceRecord::NSEC { ttl, .. } => ttl,
        InternalResourceRecord::NSEC3 { ttl, .. } => ttl,
        InternalResourceRecord::NSEC3PARAM { ttl, .. } => ttl,
        InternalResourceRecord::DS { ttl, .. } => ttl,
        InternalResourceRecord::CDNSKEY { ttl, .. } => ttl,
        InternalResourceRecord::CDS { ttl, .. } => ttl,
        InternalResourceRecord::InvalidType => 0,
    }
}

/// The class a record carries: its `rclass` field, or `class` for TXT; none for the
/// invalid type.
pub open spec fn rr_class(rr: InternalResourceRecord) -> Option<RecordClass> {
    match rr {
        InternalResourceRecord::A { rclass, .. } => Some(rclass),
        InternalResourceRecord::AAAA { rclass, .. } => Some(rclass),
        InternalResourceRecord::AXFR { rclass, .. } => Some(rclass),
        InternalResourceRecord::CAA { rclass, .. } => Some(rclass),
        InternalResourceRecord::CNAME { rclass, .. } => Some(rclass),
        InternalResourceRecord::LOC { rclass, .. } => Some(rclass),
        InternalResourceRecord::NAPTR { rclass, .. } => Some(rclass),
        InternalResourceRecord::NS { rclass, .. } => Some(rclass),
        InternalResourceRecord::SOA { rclass, .. } => Some(rclass),
        InternalResourceRecord::PTR { rclass, .. } => Some(rclass),
        InternalResourceRecord::HINFO { rclass, .. } => Some(rclass),
        InternalResourceRecord::MX { rclass, .. } => Some(rclass),
        InternalResourceRecord::TXT { class, .. } => Some(class),
        InternalResourceRecord::URI { rclass, .. } => Some(rclass),
        InternalResourceRecord::DNSKEY { rclass, .. } => Some(rclass),
        InternalResourceRecord::RRSIG { rclass, .. } => Some(rclass),
        InternalResourceRecord::NSEC { rclass, .. } => Some(rclass),
        InternalResourceRecord::NSEC3 { rclass, .. } => Some(rclass),
        InternalResourceRecord::NSEC3PARAM { rclass, .. } => Some(rclass),
        InternalResourceRecord::DS { rclass, .. } => Some(rclass),
        InternalResourceRecord::CDNSKEY { rclass, .. } => Some(rclass),
        InternalResourceRecord::CDS { rclass, .. } => Some(rclass),
        InternalResourceRecord::InvalidType => None,
    }
}

/// A record with its time to live replaced (the minimum of an SOA); HINFO records and
/// the invalid type come back unchanged.
pub open spec fn rr_with_ttl(rr: InternalResourceRecord, ttl: u32) -> InternalResourceRecord {
    match rr {
        InternalResourceRecord::A { address, rclass, .. } => InternalResourceRecord::A { address, rclass, ttl: ttl },
        InternalResourceRecord::AAAA { address, rclass, .. } => InternalResourceRecord::AAAA { address, rclass, ttl: ttl },
        InternalResourceRecord::AXFR { rclass, .. } => InternalResourceRecord::AXFR { rclass, ttl: ttl },
        InternalResourceRecord::CAA { flag, tag, value, rclass, .. } => InternalResourceRecord::CAA { flag, tag, value, rclass, ttl: ttl },
        InternalResourceRecord::CNAME { cname, rclass, .. } => InternalResourceRecord::CNAME { cname, rclass, ttl: ttl },
        InternalResourceRecord::LOC { rclass, version, size, horiz_pre, vert_pre, latitude, longitude, altitude, .. } => InternalResourceRecord::LOC { rclass, version, size, horiz_pre, vert_pre, latitude, longitude, altitude, ttl: ttl },
        InternalResourceRecord::NAPTR { rclass, domain, order, preference, flags, .. } => InternalResourceRecord::NAPTR { rclass, domain, order, preference, flags, ttl: ttl },
        InternalResourceRecord::NS { nsdname, rclass, .. } => InternalResourceRecord::NS { nsdname, rclass, ttl: ttl },
        InternalResourceRecord::SOA { zone, mname, rname, serial, refresh, retry, expire, rclass, .. } => InternalResourceRecord::SOA { zone, mname, rname, serial, refresh, retry, expire, rclass, minimum: ttl },
        InternalResourceRecord::PTR { ptrdname, rclass, .. } => InternalResourceRecord::PTR { ptrdname, rclass, ttl: ttl },
        InternalResourceRecord::MX { preference, exchange, rclass, .. } => InternalResourceRecord::MX { preference, exchange, rclass, ttl: ttl },
        InternalResourceRecord::TXT { txtdata, class, .. } => InternalResourceRecord::TXT { txtdata, class, ttl: ttl },
        InternalResourceRecord::URI { priority, weight, target, rclass, .. } => InternalResourceRecord::URI { priority, weight, target, rclass, ttl: ttl },
        InternalResourceRecord::DNSKEY { flags, protocol, algorithm, public_key, rclass, .. } => InternalResourceRecord::DNSKEY { flags, protocol, algorithm, public_key, rclass, ttl: ttl },
        InternalResourceRecord::RRSIG { type_covered, algorithm, labels, original_ttl, signature_expiration, signature_inception, key_tag, signer_name, signature, rclass, .. } => InternalResourceRecord::RRSIG { type_covered, algorithm, labels, original_ttl, signature_expiration, signature_inception, key_tag, signer_name, signature, rclass, ttl: ttl },
        InternalResourceRecord::NSEC { next_domain_name, type_bit_maps, rclass, .. } => InternalResourceRecord::NSEC { next_domain_name, type_bit_maps, rclass, ttl: ttl },
        InternalResourceRecord::NSEC3 { hash_algorithm, flags, iterations, salt, next_hashed_owner_name, type_bit_maps, rclass, .. } => InternalResourceRecord::NSEC3 { hash_algorithm, flags, iterations, salt, next_hashed_owner_name, type_bit_maps, rclass, ttl: ttl },
        InternalResourceRecord::NSEC3PARAM { hash_algorithm, flags, iterations, salt, rclass, .. } => InternalResourceRecord::NSEC3PARAM { hash_algorithm, flags, iterations, salt, rclass, ttl: ttl },
        InternalResourceRecord::DS { key_tag, algorithm, digest_type, digest, rclass, .. } => InternalResourceRecord::DS { key_tag, algorithm, digest_type, digest, rclass, ttl: ttl },
        InternalResourceRecord::CDNSKEY { flags, protocol, algorithm, public_key, rclass, .. } => InternalResourceRecord::CDNSKEY { flags, protocol, algorithm, public_key, rclass, ttl: ttl },
        InternalResourceRecord::CDS { key_tag, algorithm, digest_type, digest, rclass, .. } => InternalResourceRecord::CDS { key_tag, algorithm, digest_type, digest, rclass, ttl: ttl },
        _ => rr,
    }
}

/// The record class a record compares equal to: its own class for TXT, IN for every other.
pub open spec fn rr_matches_class(rr: InternalResourceRecord, other: RecordClass) -> bool {
    match rr {
        InternalResourceRecord::TXT { class, .. } => class == other,
        _ => other == RecordClass::Internet,
    }
}

impl InternalResourceRecord {
    /// Whether this record is of type `rrtype`.
    pub fn is_type(&self, rrtype: RecordType) -> (r: bool)
        ensures
            r == (rr_type(*self) == rrtype),
    {
        let t = self.record_type();
        t.code() == rrtype.code()
    }

    /// The record type of this record.
    pub fn record_type(&self) -> (r: RecordType)
        ensures
            r == rr_type(*self),
    {
        match self {

            InternalResourceRecord::A { .. } => RecordType::A,
            InternalResourceRecord::AAAA { .. } => RecordType::AAAA,
            InternalResourceRecord::AXFR { .. } => RecordType::AXFR,
            InternalResourceRecord::CAA { .. } => RecordType::CAA,
            InternalResourceRecord::CNAME { .. } => RecordType::CNAME,
            InternalResourceRecord::LOC { .. } => RecordType::LOC,
            InternalResourceRecord::NAPTR { .. } => RecordType::NAPTR,
            InternalResourceRecord::NS { .. } => RecordType::NS,
            InternalResourceRecord::SOA { .. } => RecordType::SOA,
            InternalResourceRecord::PTR { .. } => RecordType::PTR,
            InternalResourceRecord::HINFO { .. } => RecordType::HINFO,
            InternalResourceRecord::MX { .. } => RecordType::MX,
            InternalResourceRecord::TXT { .. } => RecordType::TXT,
            InternalResourceRecord::URI { .. } => RecordType::URI,
            InternalResourceRecord::DNSKEY { .. } => RecordType::DNSKEY,
            InternalResourceRecord::RRSIG { .. } => RecordType::RRSIG,
            InternalResourceRecord::NSEC { .. } => RecordType::NSEC,
            InternalResourceRecord::NSEC3 { .. } => RecordType::NSEC3,
            InternalResourceRecord::NSEC3PARAM { .. } => RecordType::NSEC3PARAM,
            InternalResourceRecord::DS { .. } => RecordType::DS,
            InternalResourceRecord::CDNSKEY { .. } => RecordType::CDNSKEY,
            InternalResourceRecord::CDS { .. } => RecordType::CDS,
            InternalResourceRecord::InvalidType => RecordType::InvalidType,
        }
    }

    /// Compares against a record type, like `record == RecordType::A`.
    pub fn eq_type(&self, other: RecordType) -> (r: bool)
        ensures
            r == (rr_type(*self) == other),
    {
        self.is_type(other)
    }

    /// Compares against a class: TXT records carry their own, all others count as IN.
    pub fn eq_class(&self, other: RecordClass) -> (r: bool)
        ensures
            r == rr_matches_class(*self, other),
    {
        match self {
            InternalResourceRecord::TXT { class, .. } => class.code() == other.code(),
            _ => other.code() == 1,
        }
    }

    /// The time to live, see [rr_ttl].
    pub fn ttl(&self) -> (r: u32)
        ensures
            r == rr_ttl(*self),
    {
        match self {

            InternalResourceRecord::A { ttl, .. } => *ttl,
            InternalResourceRecord::AAAA { ttl, .. } => *ttl,
            InternalResourceRecord::AXFR { ttl, .. } => *ttl,
            InternalResourceRecord::CAA { ttl, .. } => *ttl,
            InternalResourceRecord::CNAME { ttl, .. } => *ttl,
            InternalResourceRecord::LOC { ttl, .. } => *ttl,
            InternalResourceRecord::NAPTR { ttl, .. } => *ttl,
            InternalResourceRecord::NS { ttl, .. } => *ttl,
            InternalResourceRecord::SOA { minimum, .. } => *minimum,
            InternalResourceRecord::PTR { ttl, .. } => *ttl,
            InternalResourceRecord::HINFO { ttl, .. } => *ttl,
            InternalResourceRecord::MX { ttl, .. } => *ttl,
            InternalResourceRecord::TXT { ttl, .. } => *ttl,
            InternalResourceRecord::URI { ttl, .. } => *ttl,
            InternalResourceRecord::DNSKEY { ttl, .. } => *ttl,
            InternalResourceRecord::RRSIG { ttl, .. } => *ttl,
            InternalResourceRecord::NSEC { ttl, .. } => *ttl,
            InternalResourceRecord::NSEC3 { ttl, .. } => *ttl,
            InternalResourceRecord::NSEC3PARAM { ttl, .. } => *ttl,
            InternalResourceRecord::DS { ttl, .. } => *ttl,
            InternalResourceRecord::CDNSKEY { ttl, .. } => *ttl,
            InternalResourceRecord::CDS { ttl, .. } => *ttl,
            InternalResourceRecord::InvalidType => 0,
        }
    }
}

/// Records whose time to live can be replaced.
pub trait SetTTL {
    /// The record with its time to live replaced where the record has one to replace
    /// (for an SOA, its minimum); HINFO records and the invalid type keep theirs.
    fn set_ttl(self, ttl: u32) -> Self;
}

impl SetTTL for InternalResourceRecord {
    /// Sets the time to live, see [rr_with_ttl].
    fn set_ttl(self, ttl: u32) -> (r: InternalResourceRecord)
        ensures
            r == rr_with_ttl(self, ttl),
    {
        match self {

            InternalResourceRecord::A { address, rclass, .. } => InternalResourceRecord::A { address, rclass, ttl: ttl },
            InternalResourceRecord::AAAA { address, rclass, .. } => InternalResourceRecord::AAAA { address, rclass, ttl: ttl },
            InternalResourceRecord::AXFR { rclass, .. } => InternalResourceRecord::AXFR { rclass, ttl: ttl },
            InternalResourceRecord::CAA { flag, tag, value, rclass, .. } => InternalResourceRecord::CAA { flag, tag, value, rclass, ttl: ttl },
            InternalResourceRecord::CNAME { cname, rclass, .. } => InternalResourceRecord::CNAME { cname, rclass, ttl: ttl },
            InternalResourceRecord::LOC { rclass, version, size, horiz_pre, vert_pre, latitude, longitude, altitude, .. } => InternalResourceRecord::LOC { rclass, version, size, horiz_pre, vert_pre, latitude, longitude, altitude, ttl: ttl },
            InternalResourceRecord::NAPTR { rclass, domain, order, preference, flags, .. } => InternalResourceRecord::NAPTR { rclass, domain, order, preference, flags, ttl: ttl },
            InternalResourceRecord::NS { nsdname, rclass, .. } => InternalResourceRecord::NS { nsdname, rclass, ttl: ttl },
            InternalResourceRecord::SOA { zone, mname, rname, serial, refresh, retry, expire, rclass, .. } => InternalResourceRecord::SOA { zone, mname, rname, serial, refresh, retry, expire, rclass, minimum: ttl },
            InternalResourceRecord::PTR { ptrdname, rclass, .. } => InternalResourceRecord::PTR { ptrdname, rclass, ttl: ttl },
            InternalResourceRecord::MX { preference, exchange, rclass, .. } => InternalResourceRecord::MX { preference, exchange, rclass, ttl: ttl },
            InternalResourceRecord::TXT { txtdata, class, .. } => InternalResourceRecord::TXT { txtdata, class, ttl: ttl },
            InternalResourceRecord::URI { priority, weight, target, rclass, .. } => InternalResourceRecord::URI { priority, weight, target, rclass, ttl: ttl },
            InternalResourceRecord::DNSKEY { flags, protocol, algorithm, public_key, rclass, .. } => InternalResourceRecord::DNSKEY { flags, protocol, algorithm, public_key, rclass, ttl: ttl },
            InternalResourceRecord::RRSIG { type_covered, algorithm, labels, original_ttl, signature_expiration, signature_inception, key_tag, signer_name, signature, rclass, .. } => InternalResourceRecord::RRSIG { type_covered, algorithm, labels, original_ttl, signature_expiration, signature_inception, key_tag, signer_name, signature, rclass, ttl: ttl },
            InternalResourceRecord::NSEC { next_domain_name, type_bit_maps, rclass, .. } => InternalResourceRecord::NSEC { next_domain_name, type_bit_maps, rclass, ttl: ttl },
            InternalResourceRecord::NSEC3 { hash_algorithm, flags, iterations, salt, next_hashed_owner_name, type_bit_maps, rclass, .. } => InternalResourceRecord::NSEC3 { hash_algorithm, flags, iterations, salt, next_hashed_owner_name, type_bit_maps, rclass, ttl: ttl },
            InternalResourceRecord::NSEC3PARAM { hash_algorithm, flags, iterations, salt, rclass, .. } => InternalResourceRecord::NSEC3PARAM { hash_algorithm, flags, iterations, salt, rclass, ttl: ttl },
            InternalResourceRecord::DS { key_tag, algorithm, digest_type, digest, rclass, .. } => InternalResourceRecord::DS { key_tag, algorithm, digest_type, digest, rclass, ttl: ttl },
            InternalResourceRecord::CDNSKEY { flags, protocol, algorithm, public_key, rclass, .. } => InternalResourceRecord::CDNSKEY { flags, protocol, algorithm, public_key, rclass, ttl: ttl },
            InternalResourceRecord::CDS { key_tag, algorithm, digest_type, digest, rclass, .. } => InternalResourceRecord::CDS { key_tag, algorithm, digest_type, digest, rclass, ttl: ttl },
            other => other,
        }
    }
}

/// Setting the time to live of a record other than HINFO or the invalid type and reading
/// it back gives the value set.
pub proof fn lemma_set_ttl_then_ttl(rr: InternalResourceRecord, ttl: u32)
    requires
        !(rr is HINFO),
        !(rr is InvalidType),
    ensures
        rr_ttl(rr_with_ttl(rr, ttl)) == ttl,
        rr_type(rr_with_ttl(rr, ttl)) == rr_type(rr),
{
}


/// What the host this runs on reports of itself, for HINFO records that leave a field out.
pub struct Platform {
    /// The CPU architecture, eg `x86_64`
    pub arch: String,
    /// The operating system, eg `linux`
    pub os: String,
}

/// A name compressed against `reference`, the name at offset 12 (right after the header).
pub open spec fn name_bytes_against(d: DomainName, reference: Seq<u8>) -> Option<Seq<u8>> {
    match name_form(dn_bytes(d), Some(12), Some(reference)) {
        Some(f) => Some(form_bytes(f)),
        None => None,
    }
}

/// Like [name_bytes_against], with the root label written after an uncompressed name.
pub open spec fn name_bytes_with_null_against(d: DomainName, reference: Seq<u8>) -> Option<Seq<u8>> {
    match name_form(dn_bytes(d), Some(12), Some(reference)) {
        Some(f) => Some(form_bytes_with_trailing_null(f)),
        None => None,
    }
}

/// A HINFO field: the character string when given, else the host's own value behind a
/// length octet (that wraps modulo 256).
pub open spec fn hinfo_field(field: Option<DNSCharString>, host: Seq<u8>) -> Seq<u8> {
    match field {
        Some(v) => charstring_bytes(v.data@),
        None => seq![(host.len() % 256) as u8] + host,
    }
}

/// The sixteen bytes of a LOC record's RDATA (RFC1876): the size field keeps its low seven bits.
pub open spec fn loc_bytes(
    version: u8,
    size: u8,
    horiz_pre: u8,
    vert_pre: u8,
    latitude: u32,
    longitude: u32,
    altitude: i32,
) -> Seq<u8> {
    seq![version, (size % 128) as u8, horiz_pre, vert_pre] + be_bytes(latitude as int, 4) + be_bytes(
        longitude as int,
        4,
    ) + be_bytes(altitude as u32 as int, 4)
}

/// The RDATA of a record on the wire. Names inside it are compressed against the query
/// name `question` (for an SOA, against its zone name). `None` when a name holds a label
/// over 63 octets. AXFR records have no RDATA form.
pub open spec fn rdata_bytes(
    rr: InternalResourceRecord,
    question: Seq<u8>,
    arch: Seq<u8>,
    os: Seq<u8>,
) -> Option<Seq<u8>> {
    match rr {
        InternalResourceRecord::A { address, .. } => Some(be_bytes(address as int, 4)),
        InternalResourceRecord::AAAA { address, .. } => Some(be_bytes(address as int, 16)),
        InternalResourceRecord::CNAME { cname, .. } => name_bytes_against(cname, question),
        InternalResourceRecord::LOC {
            version,
            size,
            horiz_pre,
            vert_pre,
            latitude,
            longitude,
            altitude,
            ..
        } => Some(loc_bytes(version, size, horiz_pre, vert_pre, latitude, longitude, altitude)),
        InternalResourceRecord::NS { nsdname, .. } => name_bytes_against(nsdname, question),
        InternalResourceRecord::PTR { ptrdname, .. } => name_bytes_against(ptrdname, question),
        InternalResourceRecord::SOA { zone, mname, rname, serial, refresh, retry, expire, minimum, .. } => {
            match (name_bytes_with_null_against(mname, dn_bytes(zone)), name_bytes_with_null_against(rname, dn_bytes(zone))) {
                (Some(m), Some(r)) => Some(m + r + be_bytes(serial as int, 4) + be_bytes(refresh as int, 4)
                    + be_bytes(retry as int, 4) + be_bytes(expire as int, 4) + be_bytes(minimum as int, 4)),
                _ => None,
            }
        },
        InternalResourceRecord::TXT { txtdata, .. } => Some(charstring_bytes(txtdata.data@)),
        InternalResourceRecord::URI { priority, weight, target, .. } => Some(
            be_bytes(priority as int, 2) + be_bytes(weight as int, 2) + target.data@,
        ),
        InternalResourceRecord::HINFO { cpu, os: host_os, .. } => Some(hinfo_field(cpu, arch) + hinfo_field(host_os, os)),
        InternalResourceRecord::MX { preference, exchange, .. } => match name_bytes_against(exchange, question) {
            Some(e) => Some(be_bytes(preference as int, 2) + e),
            None => None,
        },
        InternalResourceRecord::AXFR { .. } => None,
        InternalResourceRecord::InvalidType => Some(Seq::empty()),
        InternalResourceRecord::CAA { flag, tag, value, .. } => Some(seq![flag] + charstring_bytes(tag.data@) + value@),
        InternalResourceRecord::NAPTR { .. } => Some(Seq::empty()),
        InternalResourceRecord::DNSKEY { flags, protocol, algorithm, public_key, .. } => Some(
            be_bytes(flags as int, 2) + seq![protocol, algorithm] + public_key@,
        ),
        InternalResourceRecord::CDNSKEY { flags, protocol, algorithm, public_key, .. } => Some(
            be_bytes(flags as int, 2) + seq![protocol, algorithm] + public_key@,
        ),
        InternalResourceRecord::RRSIG {
            type_covered,
            algorithm,
            labels,
            original_ttl,
            signature_expiration,
            signature_inception,
            key_tag,
            signer_name,
            signature,
            ..
        } => match name_bytes_against(signer_name, question) {
            Some(n) => Some(be_bytes(rt_code(type_covered) as int, 2) + seq![algorithm, labels]
                + be_bytes(original_ttl as int, 4) + be_bytes(signature_expiration as int, 4)
                + be_bytes(signature_inception as int, 4) + be_bytes(key_tag as int, 2) + n
                + signature@),
            None => None,
        },
        InternalResourceRecord::NSEC { next_domain_name, type_bit_maps, .. } => match name_bytes_against(next_domain_name, question) {
            Some(n) => Some(n + type_bit_maps@),
            None => None,
        },
        InternalResourceRecord::NSEC3 {
            hash_algorithm,
            flags,
            iterations,
            salt,
            next_hashed_owner_name,
            type_bit_maps,
            ..
        } => Some(seq![hash_algorithm, flags] + be_bytes(iterations as int, 2) + seq![(salt@.len() % 256) as u8]
            + salt@ + seq![(next_hashed_owner_name@.len() % 256) as u8] + next_hashed_owner_name@
            + type_bit_maps@),
        InternalResourceRecord::NSEC3PARAM { hash_algorithm, flags, iterations, salt, .. } => Some(
            seq![hash_algorithm, flags] + be_bytes(iterations as int, 2) + seq![(salt@.len() % 256) as u8] + salt@,
        ),
        InternalResourceRecord::DS { key_tag, algorithm, digest_type, digest, .. } => Some(
            be_bytes(key_tag as int, 2) + seq![algorithm, digest_type] + digest@,
        ),
        InternalResourceRecord::CDS { key_tag, algorithm, digest_type, digest, .. } => Some(
            be_bytes(key_tag as int, 2) + seq![algorithm, digest_type] + digest@,
        ),
    }
}

fn name_against(d: &DomainName, reference: &Vec<u8>) -> (r: Result<Vec<u8>, GoatNsError>)
    ensures
        match name_bytes_against(*d, reference@) {
            Some(b) => r matches Ok(v) && v@ == b,
            None => r matches Err(e) && e is InvalidName,
        },
{
    Ok(d.as_bytes_compressed(Some(12), Some(reference))?.into_bytes())
}

fn name_with_null_against(d: &DomainName, reference: &Vec<u8>) -> (r: Result<Vec<u8>, GoatNsError>)
    ensures
        match name_bytes_with_null_against(*d, reference@) {
            Some(b) => r matches Ok(v) && v@ == b,
            None => r matches Err(e) && e is InvalidName,
        },
{
    Ok(d.as_bytes_compressed(Some(12), Some(reference))?.as_bytes_with_trailing_null())
}

fn hinfo_bytes(field: &Option<DNSCharString>, host: &String) -> (r: Vec<u8>)
    ensures
        r@ == hinfo_field(*field, encode_utf8(host@)),
{
    match field {
        Some(value) => value.as_bytes(),
        None => {
            let b = host.as_str().as_bytes();
            let mut v: Vec<u8> = Vec::new();
            v.push((b.len() % 256) as u8);
            extend_bytes(&mut v, b);
            v
        },
    }
}

fn loc_wire(
    version: u8,
    size: u8,
    horiz_pre: u8,
    vert_pre: u8,
    latitude: u32,
    longitude: u32,
    altitude: i32,
) -> (r: Vec<u8>)
    ensures
        r@ == loc_bytes(version, size, horiz_pre, vert_pre, latitude, longitude, altitude),
{
    let mut v: Vec<u8> = Vec::new();
    v.push(version);
    v.push(size % 128);
    v.push(horiz_pre);
    v.push(vert_pre);
    push_be(&mut v, latitude as u128, 4);
    push_be(&mut v, longitude as u128, 4);
    push_be(&mut v, altitude as u32 as u128, 4);
    assert(v@ =~= loc_bytes(version, size, horiz_pre, vert_pre, latitude, longitude, altitude));
    v
}

/// The RDATA fields of a LOC record (RFC1876).
#[derive(Debug, PartialEq, Eq, Clone, Copy)]
pub struct LocRecord {
    pub version: u8,
    pub size: u8,
    pub horiz_pre: u8,
    pub vert_pre: u8,
    pub latitude: u32,
    pub longitude: u32,
    pub altitude: i32,
}

impl LocRecord {
    /// The sixteen bytes of the fields, see [loc_bytes].
    pub fn pack(&self) -> (r: Vec<u8>)
        ensures
            r@ == loc_bytes(
                self.version,
                self.size,
                self.horiz_pre,
                self.vert_pre,
                self.latitude,
                self.longitude,
                self.altitude,
            ),
    {
        loc_wire(self.version, self.size, self.horiz_pre, self.vert_pre, self.latitude, self.longitude, self.altitude)
    }
}

impl InternalResourceRecord {
    /// The RDATA of this record on the wire, see [rdata_bytes].
    pub fn as_bytes(&self, question: &Vec<u8>, platform: &Platform) -> (r: Result<Vec<u8>, GoatNsError>)
        requires
            !(*self is AXFR),
        ensures
            match rdata_bytes(*self, question@, encode_utf8(platform.arch@), encode_utf8(platform.os@)) {
                Some(b) => r matches Ok(v) && v@ == b,
                None => r matches Err(e) && e is InvalidName,
            },
    {
        let mut res: Vec<u8> = Vec::new();
        match self {
            InternalResourceRecord::A { address, .. } => {
                push_be(&mut res, *address as u128, 4);
            },
            InternalResourceRecord::AAAA { address, .. } => {
                push_be(&mut res, *address, 16);
            },
            InternalResourceRecord::CNAME { cname, .. } => {
                return name_against(cname, question);
            },
            InternalResourceRecord::LOC { version, size, horiz_pre, vert_pre, latitude, longitude, altitude, .. } => {
                return Ok(loc_wire(*version, *size, *horiz_pre, *vert_pre, *latitude, *longitude, *altitude));
            },
            InternalResourceRecord::NS { nsdname, .. } => {
                return name_against(nsdname, question);
            },
            InternalResourceRecord::PTR { ptrdname, .. } => {
                return name_against(ptrdname, question);
            },
            InternalResourceRecord::SOA { zone, mname, rname, serial, refresh, retry, expire, minimum, .. } => {
                let zone_as_bytes = vstd::slice::slice_to_vec(zone.name.as_str().as_bytes());
                let mut m = name_with_null_against(mname, &zone_as_bytes)?;
                let mut rn = name_with_null_against(rname, &zone_as_bytes)?;
                res.append(&mut m);
                res.append(&mut rn);
                push_be(&mut res, *serial as u128, 4);
                push_be(&mut res, *refresh as u128, 4);
                push_be(&mut res, *retry as u128, 4);
                push_be(&mut res, *expire as u128, 4);
                push_be(&mut res, *minimum as u128, 4);
            },
            InternalResourceRecord::TXT { txtdata, .. } => {
                return Ok(txtdata.as_bytes());
            },
            InternalResourceRecord::URI { priority, weight, target, .. } => {
                push_be(&mut res, *priority as u128, 2);
                push_be(&mut res, *weight as u128, 2);
                extend_bytes(&mut res, target.data.as_slice());
            },
            InternalResourceRecord::HINFO { cpu, os, .. } => {
                let mut c = hinfo_bytes(cpu, &platform.arch);
                let mut o = hinfo_bytes(os, &platform.os);
                res.append(&mut c);
                res.append(&mut o);
            },
            InternalResourceRecord::MX { preference, exchange, .. } => {
                push_be(&mut res, *preference as u128, 2);
                let mut e = name_against(exchange, question)?;
                res.append(&mut e);
            },
            InternalResourceRecord::AXFR { .. } => {
                // not reachable: AXFR records are excluded by the precondition
            },
            InternalResourceRecord::InvalidType => {},
            InternalResourceRecord::CAA { flag, tag, value, .. } => {
                res.push(*flag);
                let mut t = tag.as_bytes();
                res.append(&mut t);
                extend_bytes(&mut res, value.as_slice());
            },
            InternalResourceRecord::NAPTR { .. } => {},
            InternalResourceRecord::DNSKEY { flags, protocol, algorithm, public_key, .. } => {
                push_be(&mut res, *flags as u128, 2);
                res.push(*protocol);
                res.push(*algorithm);
                extend_bytes(&mut res, public_key.as_slice());
            },
            InternalResourceRecord::CDNSKEY { flags, protocol, algorithm, public_key, .. } => {
                push_be(&mut res, *flags as u128, 2);
                res.push(*protocol);
                res.push(*algorithm);
                extend_bytes(&mut res, public_key.as_slice());
            },
            InternalResourceRecord::RRSIG {
                type_covered,
                algorithm,
                labels,
                original_ttl,
                signature_expiration,
                signature_inception,
                key_tag,
                signer_name,
                signature,
                ..
            } => {
                push_be(&mut res, type_covered.code() as u128, 2);
                res.push(*algorithm);
                res.push(*labels);
                push_be(&mut res, *original_ttl as u128, 4);
                push_be(&mut res, *signature_expiration as u128, 4);
                push_be(&mut res, *signature_inception as u128, 4);
                push_be(&mut res, *key_tag as u128, 2);
                let mut n = name_against(signer_name, question)?;
                res.append(&mut n);
                extend_bytes(&mut res, signature.as_slice());
            },
            InternalResourceRecord::NSEC { next_domain_name, type_bit_maps, .. } => {
                let mut n = name_against(next_domain_name, question)?;
                res.append(&mut n);
                extend_bytes(&mut res, type_bit_maps.as_slice());
            },
            InternalResourceRecord::NSEC3 {
                hash_algorithm,
                flags,
                iterations,
                salt,
                next_hashed_owner_name,
                type_bit_maps,
                ..
            } => {
                res.push(*hash_algorithm);
                res.push(*flags);
                push_be(&mut res, *iterations as u128, 2);
                res.push((salt.len() % 256) as u8);
                extend_bytes(&mut res, salt.as_slice());
                res.push((next_hashed_owner_name.len() % 256) as u8);
                extend_bytes(&mut res, next_hashed_owner_name.as_slice());
                extend_bytes(&mut res, type_bit_maps.as_slice());
            },
            InternalResourceRecord::NSEC3PARAM { hash_algorithm, flags, iterations, salt, .. } => {
                res.push(*hash_algorithm);
                res.push(*flags);
                push_be(&mut res, *iterations as u128, 2);
                res.push((salt.len() % 256) as u8);
                extend_bytes(&mut res, salt.as_slice());
            },
            InternalResourceRecord::DS { key_tag, algorithm, digest_type, digest, .. } => {
                push_be(&mut res, *key_tag as u128, 2);
                res.push(*algorithm);
                res.push(*digest_type);
                extend_bytes(&mut res, digest.as_slice());
            },
            InternalResourceRecord::CDS { key_tag, algorithm, digest_type, digest, .. } => {
                push_be(&mut res, *key_tag as u128, 2);
                res.push(*algorithm);
                res.push(*digest_type);
                extend_bytes(&mut res, digest.as_slice());
            },
        }
        proof {
            let spec = rdata_bytes(*self, question@, encode_utf8(platform.arch@), encode_utf8(platform.os@));
            assert(spec is Some);
            assert(res@ =~= spec->0);
        }
        Ok(res)
    }
}

/// The answer, authority, and additional sections all share the same format: a variable
/// number of resource records. Ref [RFC1035 Section 4.1.3](https://www.rfc-editor.org/rfc/rfc1035.html#section-4.1.3)
#[derive(Clone, Debug)]
pub struct ResourceRecord {
    /// A domain name to which this resource record pertains.
    pub name: Vec<u8>,
    /// The meaning of the data in the RDATA field.
    pub record_type: RecordType,
    /// The class of the data in the RDATA field.
    pub class: RecordClass,
    /// How long, in seconds, the record may be cached.
    pub ttl: u32,
    /// The data of the record.
    pub rdata: Vec<u8>,
}

/// A resource record on the wire. The owner name is always the compression pointer to
/// offset 12, the query name right after the header; RDLENGTH is the RDATA length modulo
/// 65536.
pub open spec fn rr_wire_bytes(t: RecordType, c: RecordClass, ttl: u32, rdata: Seq<u8>) -> Seq<u8> {
    crate::names::pointer_bytes(12) + be_bytes(rt_code(t) as int, 2) + be_bytes(rc_code(c) as int, 2)
        + be_bytes(ttl as int, 4) + be_bytes(rdata.len() as int, 2) + rdata
}

impl ResourceRecord {
    /// The record on the wire, see [rr_wire_bytes].
    pub fn to_bytes(&self) -> (r: Result<Vec<u8>, GoatNsError>)
        ensures
            r matches Ok(v) && v@ == rr_wire_bytes(self.record_type, self.class, self.ttl, self.rdata@),
    {
        let name = name_as_bytes(self.name.as_slice(), Some(12), None)?;
        let mut retval = name.into_bytes();
        push_be(&mut retval, self.record_type.code() as u128, 2);
        push_be(&mut retval, self.class.code() as u128, 2);
        push_be(&mut retval, self.ttl as u128, 4);
        push_be(&mut retval, self.rdata.len() as u128, 2);
        extend_bytes(&mut retval, self.rdata.as_slice());
        Ok(retval)
    }
}

/// How name-bearing RDATA is laid out (RFC1035 3.3): an MX record's RDATA is its
/// preference, high byte first, followed by its exchange name; the RDATA of a CNAME, NS or
/// PTR record is the target name alone. Each name, of non-empty labels, reads back as
/// itself when a resolver expands the pointer to offset 12 into the query name.
pub proof fn lemma_name_rdata_layout(rr: InternalResourceRecord, question: Seq<u8>, arch: Seq<u8>, os: Seq<u8>)
    requires
        rdata_bytes(rr, question, arch, os) is Some,
    ensures
        match rr {
            InternalResourceRecord::MX { preference, exchange, .. } => {
                let b = rdata_bytes(rr, question, arch, os)->0;
                &&& b.len() >= 2
                &&& b[0] == (preference / 256) as u8
                &&& b[1] == (preference % 256) as u8
                &&& labels_nonempty(dn_bytes(exchange)) ==> read_name(b.skip(2), 12, question) == Some(
                    dn_bytes(exchange),
                )
            },
            InternalResourceRecord::CNAME { cname: d, .. } => labels_nonempty(dn_bytes(d)) ==> read_name(
                rdata_bytes(rr, question, arch, os)->0,
                12,
                question,
            ) == Some(dn_bytes(d)),
            InternalResourceRecord::NS { nsdname: d, .. } => labels_nonempty(dn_bytes(d)) ==> read_name(
                rdata_bytes(rr, question, arch, os)->0,
                12,
                question,
            ) == Some(dn_bytes(d)),
            InternalResourceRecord::PTR { ptrdname: d, .. } => labels_nonempty(dn_bytes(d)) ==> read_name(
                rdata_bytes(rr, question, arch, os)->0,
                12,
                question,
            ) == Some(dn_bytes(d)),
            _ => true,
        },
{
    match rr {
        InternalResourceRecord::MX { preference, exchange, .. } => {
            let b = rdata_bytes(rr, question, arch, os)->0;
            let e = name_bytes_against(exchange, question)->0;
            reveal_with_fuel(be_bytes, 3);
            assert(be_bytes(preference as int, 2) =~= seq![((preference as int / 256) % 256) as u8, (preference as int % 256) as u8]);
            assert(b =~= be_bytes(preference as int, 2) + e);
            assert(b.skip(2) =~= e);
            if labels_nonempty(dn_bytes(exchange)) {
                lemma_name_form_reads_back(dn_bytes(exchange), 12, question);
            }
        },
        InternalResourceRecord::CNAME { cname: d, .. } => {
            if labels_nonempty(dn_bytes(d)) {
                lemma_name_form_reads_back(dn_bytes(d), 12, question);
            }
        },
        InternalResourceRecord::NS { nsdname: d, .. } => {
            if labels_nonempty(dn_bytes(d)) {
                lemma_name_form_reads_back(dn_bytes(d), 12, question);
            }
        },
        InternalResourceRecord::PTR { ptrdname: d, .. } => {
            if labels_nonempty(dn_bytes(d)) {
                lemma_name_form_reads_back(dn_bytes(d), 12, question);
            }
        },
        _ => {},
    }
}

} // verus!
