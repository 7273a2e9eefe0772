//! Building resource records from zone data: a name, a type code, the RDATA as text, a
//! TTL and a class code.

use crate::enums::{rc_from_code, rt_from_code, RecordClass, RecordType};
use crate::error::GoatNsError;
use crate::external::{
    all_hex_digits, hex_decode, hex_decoded, parse_u16, parse_u8, pattern_group, pattern_is_match,
    regex_compiles, regex_group, regex_matches, str_from_utf8, unsigned_numeral,
};
use crate::pattern::Pattern;
use crate::question::be16_at;
use crate::names::{dot_index, encode_labels, form_bytes, lemma_dot_index, name_form, DOT};
use crate::question::labels_nonempty;
use crate::resourcerecord::{
    at_to_dot, dn_bytes, rr_class, rr_ttl, rr_type, DNSCharString, DomainName, InternalResourceRecord,
};
use crate::text::{join_from, join_with, split_char, split_str, string_views};
use vstd::prelude::*;
use vstd::string::StringSliceAdditionalSpecFns;
use vstd::utf8::{decode_utf8, encode_utf8, valid_utf8};

verus! {

/// Four bytes read as a big-endian 32-bit number.
pub open spec fn be32_at(b: Seq<u8>, i: int) -> u32 {
    (b[i] * 16777216 + b[i + 1] * 65536 + b[i + 2] * 256 + b[i + 3]) as u32
}

fn be16(b: &[u8], i: usize) -> (r: u16)
    requires
        i + 1 < b@.len(),
    ensures
        r == be16_at(b@, i as int),
{
    (b[i] as u16) * 256 + (b[i + 1] as u16)
}

fn be32(b: &[u8], i: usize) -> (r: u32)
    requires
        i + 3 < b@.len(),
    ensures
        r == be32_at(b@, i as int),
{
    (b[i] as u32) * 16777216 + (b[i + 1] as u32) * 65536 + (b[i + 2] as u32) * 256 + (b[i + 3] as u32)
}

fn tail(b: &Vec<u8>, from: usize) -> (r: Vec<u8>)
    requires
        from <= b@.len(),
    ensures
        r@ == b@.skip(from as int),
{
    let r = vstd::slice::slice_to_vec(vstd::slice::slice_subrange(b.as_slice(), from, b.len()));
    assert(r@ =~= b@.skip(from as int));
    r
}

fn part(b: &Vec<u8>, from: usize, to: usize) -> (r: Vec<u8>)
    requires
        from <= to <= b@.len(),
    ensures
        r@ == b@.subrange(from as int, to as int),
{
    vstd::slice::slice_to_vec(vstd::slice::slice_subrange(b.as_slice(), from, to))
}

/// The labels of a domain name at the start of `b` in wire form, read as UTF-8 text, and
/// how many bytes they take: label after label until a zero length octet (which is
/// counted) or the end of the bytes. `None` when a label runs past the end of the bytes
/// or is not UTF-8.
pub open spec fn wire_labels(b: Seq<u8>) -> Option<(Seq<Seq<char>>, int)>
    decreases b.len(),
{
    if b.len() == 0 {
        Some((Seq::empty(), 0))
    } else if b[0] == 0 {
        Some((Seq::empty(), 1))
    } else {
        let l = b[0] as int;
        if 1 + l > b.len() {
            None
        } else if !valid_utf8(b.subrange(1, 1 + l)) {
            None
        } else {
            match wire_labels(b.skip(1 + l)) {
                Some((ls, n)) => Some((seq![decode_utf8(b.subrange(1, 1 + l))] + ls, 1 + l + n)),
                None => None,
            }
        }
    }
}

/// The text of a name from its labels: `.` for no labels, otherwise the labels joined
/// with dots.
pub open spec fn wire_name_text(labels: Seq<Seq<char>>) -> Seq<char> {
    if labels.len() == 0 {
        "."@
    } else {
        join_with(labels, "."@)
    }
}

/// What [wire_labels] gives for the rest of the bytes, with the labels already read and
/// the bytes already taken put in front.
pub open spec fn after_labels(done: Seq<Seq<char>>, pos: int, rest: Option<(Seq<Seq<char>>, int)>) -> Option<
    (Seq<Seq<char>>, int),
> {
    match rest {
        Some((ls, n)) => Some((done + ls, pos + n)),
        None => None,
    }
}

/// Reads a domain name in wire form (without compression) from the start of `input`:
/// the name and the bytes that follow it, see [wire_labels] and [wire_name_text].
pub fn parse_domain_name_from_wire(input: &[u8]) -> (r: Result<(DomainName, Vec<u8>), GoatNsError>)
    ensures
        match wire_labels(input@) {
            Some((ls, n)) => r matches Ok((d, rest)) && d.name@ == wire_name_text(ls) && rest@ == input@.skip(n),
            None => r matches Err(e) && e is Generic,
        },
{
    let len = input.len();
    let mut pos: usize = 0;
    let mut name = String::new();
    let mut first = true;
    let ghost mut done: Seq<Seq<char>> = Seq::empty();
    assert(input@.skip(0) =~= input@);
    loop
        invariant
            len == input@.len(),
            pos <= len,
            wire_labels(input@) == after_labels(done, pos as int, wire_labels(input@.skip(pos as int))),
            name@ == join_with(done, "."@),
            first <==> done.len() == 0,
        decreases len - pos,
    {
        let ghost rest = input@.skip(pos as int);
        if pos == len {
            assert(rest.len() == 0);
            assert(done + Seq::<Seq<char>>::empty() =~= done);
            let text = if first {
                String::from_str(".")
            } else {
                name
            };
            let r = vstd::slice::slice_to_vec(vstd::slice::slice_subrange(input, pos, len));
            assert(r@ =~= input@.skip(pos as int));
            return Ok((DomainName::from_string(text), r));
        }
        let label_len = input[pos] as usize;
        if label_len == 0 {
            assert(rest[0] == 0);
            assert(done + Seq::<Seq<char>>::empty() =~= done);
            let text = if first {
                String::from_str(".")
            } else {
                name
            };
            let r = vstd::slice::slice_to_vec(vstd::slice::slice_subrange(input, pos + 1, len));
            assert(r@ =~= input@.skip(pos + 1));
            return Ok((DomainName::from_string(text), r));
        }
        if label_len > len - pos - 1 {
            return Err(GoatNsError::Generic(String::from_str("domain name label extends past end of rdata")));
        }
        let label_bytes = vstd::slice::slice_subrange(input, pos + 1, pos + 1 + label_len);
        assert(label_bytes@ =~= rest.subrange(1, 1 + label_len as int));
        let label = match str_from_utf8(label_bytes) {
            Ok(value) => value,
            Err(_) => {
                return Err(GoatNsError::Generic(String::from_str("invalid utf8 in domain name label")));
            },
        };
        proof {
            broadcast use vstd::utf8::encode_utf8_decode_utf8;

            assert(decode_utf8(encode_utf8(label@)) == label@);
            assert(rest.skip(1 + label_len) =~= input@.skip(pos + 1 + label_len));
        }
        let ghost before = done;
        if !first {
            name.append(".");
        }
        name.append(label);
        first = false;
        proof {
            done = before.push(label@);
            assert(done.drop_last() =~= before);
            if before.len() == 0 {
                assert(done =~= seq![label@]);
            }
            match wire_labels(input@.skip(pos + 1 + label_len)) {
                Some((ls, n)) => {
                    assert(before + (seq![label@] + ls) =~= done + ls);
                },
                None => {},
            }
        }
        pos = pos + 1 + label_len;
    }
}

/// A LOC record's fields as read from its zone-file text (the reading works with
/// fractional degrees and metres, and happens before the record is built).
#[derive(Clone, Copy, Debug, PartialEq, Eq)]
pub struct LocReading {
    pub size: u8,
    pub horiz_pre: u8,
    pub vert_pre: u8,
    pub latitude: u32,
    pub longitude: u32,
    pub altitude: i32,
}

/// What was read out of a record's RDATA text before the record is built: the IPv4
/// address it spells (if it does), the IPv6 address it spells (if it does), and the LOC
/// fields it gives (if it gives them).
#[derive(Clone, Copy, Debug, PartialEq, Eq)]
pub struct RdataReadings {
    pub ipv4: Option<u32>,
    pub ipv6: Option<u128>,
    pub loc: Option<LocReading>,
}

/// Whether the text is an even number of hexadecimal digits.
pub open spec fn hex_ok(rdata: Seq<char>) -> bool {
    encode_utf8(rdata).len() % 2 == 0 && all_hex_digits(encode_utf8(rdata))
}

/// The bytes that hexadecimal text spells.
pub open spec fn hex_bytes(rdata: Seq<char>) -> Seq<u8> {
    hex_decoded(encode_utf8(rdata))
}

fn decode_hex(rdata: &str) -> (r: Result<Vec<u8>, GoatNsError>)
    ensures
        r is Ok <==> hex_ok(rdata@),
        r matches Ok(b) ==> b@ == hex_bytes(rdata@),
        r matches Err(e) ==> e is Generic,
{
    match hex_decode(rdata) {
        Ok(b) => Ok(b),
        Err(_) => Err(GoatNsError::Generic(String::from_str("Failed to hex-decode rdata"))),
    }
}

/// The pattern a CAA tag must match somewhere.
pub open spec fn caa_tag_pattern() -> Seq<char> {
    "[a-zA-Z0-9]"@
}

/// The pattern of a URI record's text: priority, weight and target.
pub open spec fn uri_pattern() -> Seq<char> {
    "^(?P<priority>\\d+) (?P<weight>\\d+) (?P<target>.*)"@
}

/// A number that fits in 16 bits, from decimal text.
pub open spec fn u16_text(t: Seq<char>) -> Option<u16> {
    match unsigned_numeral(t) {
        Some(v) => if v <= u16::MAX {
            Some(v as u16)
        } else {
            None
        },
        None => None,
    }
}

/// A number that fits in 8 bits, from decimal text.
pub open spec fn u8_text(t: Seq<char>) -> Option<u8> {
    match unsigned_numeral(t) {
        Some(v) => if v <= u8::MAX {
            Some(v as u8)
        } else {
            None
        },
        None => None,
    }
}

/// Whether MX text can be read: two space-separated fields, the first a 16-bit number.
pub open spec fn mx_ok(rdata: Seq<char>) -> bool {
    let p = split_char(rdata, ' ');
    p.len() == 2 && u16_text(p[0]) is Some
}

/// The MX record read from its text: the preference, then the exchange name.
pub open spec fn mx_record(x: InternalResourceRecord, rdata: Seq<char>, ttl: u32, c: RecordClass) -> bool {
    let p = split_char(rdata, ' ');
    &&& p.len() == 2
    &&& x matches InternalResourceRecord::MX { preference, exchange, ttl: t, rclass: k }
    &&& u16_text(p[0]) == Some(preference)
    &&& exchange.name@ == at_to_dot(p[1])
    &&& t == ttl
    &&& k == c
}

/// Whether CAA text can be read: at least three space-separated fields, the first an
/// 8-bit number, the second a tag that the tag pattern matches.
pub open spec fn caa_ok(rdata: Seq<char>) -> bool {
    let p = split_char(rdata, ' ');
    &&& p.len() >= 3
    &&& u8_text(p[0]) is Some
    &&& regex_compiles(caa_tag_pattern())
    &&& regex_matches(caa_tag_pattern(), p[1])
}

/// The CAA record read from its text: flag, tag, and the remaining fields joined with
/// single spaces as the value.
pub open spec fn caa_record(x: InternalResourceRecord, rdata: Seq<char>, ttl: u32, c: RecordClass) -> bool {
    let p = split_char(rdata, ' ');
    &&& p.len() >= 3
    &&& x matches InternalResourceRecord::CAA { flag, tag, value, ttl: t, rclass: k }
    &&& u8_text(p[0]) == Some(flag)
    &&& tag.data@ == encode_utf8(p[1])
    &&& value@ == encode_utf8(join_with(p.skip(2), " "@))
    &&& t == ttl
    &&& k == c
}

/// Whether reading CAA text stops at the tag pattern, which does not compile: after at
/// least three fields with an 8-bit flag.
pub open spec fn caa_regex_failure(rdata: Seq<char>) -> bool {
    let p = split_char(rdata, ' ');
    p.len() >= 3 && u8_text(p[0]) is Some && !regex_compiles(caa_tag_pattern())
}

/// Whether URI text can be read: the URI pattern matches, with a 16-bit priority and
/// weight.
pub open spec fn uri_ok(rdata: Seq<char>) -> bool {
    &&& regex_compiles(uri_pattern())
    &&& regex_group(uri_pattern(), rdata, "priority"@) matches Some(pr) && u16_text(pr) is Some
    &&& regex_group(uri_pattern(), rdata, "weight"@) matches Some(w) && u16_text(w) is Some
    &&& regex_group(uri_pattern(), rdata, "target"@) is Some
}

/// The URI record read from its text through the URI pattern's groups.
pub open spec fn uri_record(x: InternalResourceRecord, rdata: Seq<char>, ttl: u32, c: RecordClass) -> bool {
    &&& x matches InternalResourceRecord::URI { priority, weight, target, ttl: t, rclass: k }
    &&& regex_group(uri_pattern(), rdata, "priority"@) matches Some(pr) && u16_text(pr) == Some(priority)
    &&& regex_group(uri_pattern(), rdata, "weight"@) matches Some(w) && u16_text(w) == Some(weight)
    &&& regex_group(uri_pattern(), rdata, "target"@) matches Some(tg) && target.data@ == encode_utf8(tg)
    &&& t == ttl
    &&& k == c
}

/// A DNSKEY (or, for a child copy, CDNSKEY) record from its RDATA bytes: flags, protocol,
/// algorithm, then the public key.
pub open spec fn key_record(x: InternalResourceRecord, b: Seq<u8>, ttl: u32, c: RecordClass, child: bool) -> bool {
    if child {
        &&& x matches InternalResourceRecord::CDNSKEY { flags, protocol, algorithm, public_key, ttl: t, rclass: k }
        &&& flags == be16_at(b, 0) && protocol == b[2] && algorithm == b[3]
        &&& public_key@ == b.skip(4) && t == ttl && k == c
    } else {
        &&& x matches InternalResourceRecord::DNSKEY { flags, protocol, algorithm, public_key, ttl: t, rclass: k }
        &&& flags == be16_at(b, 0) && protocol == b[2] && algorithm == b[3]
        &&& public_key@ == b.skip(4) && t == ttl && k == c
    }
}

/// A DS (or, for a child copy, CDS) record from its RDATA bytes: key tag, algorithm,
/// digest type, then the digest.
pub open spec fn ds_record(x: InternalResourceRecord, b: Seq<u8>, ttl: u32, c: RecordClass, child: bool) -> bool {
    if child {
        &&& x matches InternalResourceRecord::CDS { key_tag, algorithm, digest_type, digest, ttl: t, rclass: k }
        &&& key_tag == be16_at(b, 0) && algorithm == b[2] && digest_type == b[3]
        &&& digest@ == b.skip(4) && t == ttl && k == c
    } else {
        &&& x matches InternalResourceRecord::DS { key_tag, algorithm, digest_type, digest, ttl: t, rclass: k }
        &&& key_tag == be16_at(b, 0) && algorithm == b[2] && digest_type == b[3]
        &&& digest@ == b.skip(4) && t == ttl && k == c
    }
}

/// Whether RRSIG RDATA bytes can be read: 18 fixed bytes, then a signer name.
pub open spec fn rrsig_ok(b: Seq<u8>) -> bool {
    b.len() >= 18 && wire_labels(b.skip(18)) is Some
}

/// The RRSIG record from its RDATA bytes: the fixed fields, the signer name, and the rest
/// as the signature.
pub open spec fn rrsig_record(x: InternalResourceRecord, b: Seq<u8>, ttl: u32, c: RecordClass) -> bool {
    &&& x matches InternalResourceRecord::RRSIG {
        type_covered,
        algorithm,
        labels,
        original_ttl,
        signature_expiration,
        signature_inception,
        key_tag,
        signer_name,
        signature,
        ttl: t,
        rclass: k,
    }
    &&& type_covered == rt_from_code(be16_at(b, 0)) && algorithm == b[2] && labels == b[3]
    &&& original_ttl == be32_at(b, 4) && signature_expiration == be32_at(b, 8)
    &&& signature_inception == be32_at(b, 12) && key_tag == be16_at(b, 16)
    &&& wire_labels(b.skip(18)) matches Some((ls, n)) && signer_name.name@ == wire_name_text(ls)
        && signature@ == b.skip(18).skip(n)
    &&& t == ttl && k == c
}

/// The NSEC record from its RDATA bytes: the next name, then the type bit maps.
pub open spec fn nsec_record(x: InternalResourceRecord, b: Seq<u8>, ttl: u32, c: RecordClass) -> bool {
    &&& x matches InternalResourceRecord::NSEC { next_domain_name, type_bit_maps, ttl: t, rclass: k }
    &&& wire_labels(b) matches Some((ls, n)) && next_domain_name.name@ == wire_name_text(ls)
        && type_bit_maps@ == b.skip(n)
    &&& t == ttl && k == c
}

/// Whether NSEC3 RDATA bytes can be read: five fixed bytes, the salt its length octet
/// announces, a hash length octet and the hash it announces.
pub open spec fn nsec3_ok(b: Seq<u8>) -> bool {
    b.len() >= 5 && b.len() >= 6 + b[4] && b.len() >= 6 + b[4] + b[5 + b[4]]
}

/// The NSEC3 record from its RDATA bytes.
pub open spec fn nsec3_record(x: InternalResourceRecord, b: Seq<u8>, ttl: u32, c: RecordClass) -> bool {
    let sl = b[4] as int;
    let hl = b[5 + sl] as int;
    &&& x matches InternalResourceRecord::NSEC3 {
        hash_algorithm,
        flags,
        iterations,
        salt,
        next_hashed_owner_name,
        type_bit_maps,
        ttl: t,
        rclass: k,
    }
    &&& hash_algorithm == b[0] && flags == b[1] && iterations == be16_at(b, 2)
    &&& salt@ == b.subrange(5, 5 + sl)
    &&& next_hashed_owner_name@ == b.subrange(6 + sl, 6 + sl + hl)
    &&& type_bit_maps@ == b.skip(6 + sl + hl)
    &&& t == ttl && k == c
}

/// The NSEC3PARAM record from its RDATA bytes.
pub open spec fn nsec3param_record(x: InternalResourceRecord, b: Seq<u8>, ttl: u32, c: RecordClass) -> bool {
    &&& x matches InternalResourceRecord::NSEC3PARAM { hash_algorithm, flags, iterations, salt, ttl: t, rclass: k }
    &&& hash_algorithm == b[0] && flags == b[1] && iterations == be16_at(b, 2)
    &&& salt@ == b.subrange(5, 5 + b[4])
    &&& t == ttl && k == c
}

fn mx_from_text(rdata: &str, ttl: u32, c: RecordClass) -> (r: Result<InternalResourceRecord, GoatNsError>)
    ensures
        r is Ok <==> mx_ok(rdata@),
        r matches Ok(x) ==> mx_record(x, rdata@, ttl, c),
        r matches Err(e) ==> e is Generic,
{
    let parts = split_str(rdata, ' ');
    if parts.len() != 2 {
        return Err(GoatNsError::Generic(String::from_str("While trying to parse MX record, got the wrong number of fields")));
    }
    assert(string_views(parts@)[0] == parts@[0]@);
    assert(string_views(parts@)[1] == parts@[1]@);
    let preference = match parse_u16(parts[0].as_str()) {
        Ok(value) => value,
        Err(_) => {
            return Err(GoatNsError::Generic(String::from_str("Failed to parse the MX preference into a number")));
        },
    };
    let exchange = DomainName::from_str(parts[1].as_str());
    Ok(InternalResourceRecord::MX { preference, exchange, ttl, rclass: c })
}

fn caa_from_text(name: &str, rdata: &str, ttl: u32, c: RecordClass) -> (r: Result<InternalResourceRecord, GoatNsError>)
    ensures
        r is Ok <==> caa_ok(rdata@),
        r matches Ok(x) ==> caa_record(x, rdata@, ttl, c),
        r matches Err(e) ==> (e is Generic || e is Regex),
        r matches Err(e) ==> (e is Regex <==> caa_regex_failure(rdata@)),
{
    let parts = split_str(rdata, ' ');
    if parts.len() < 3 {
        return Err(GoatNsError::Generic(String::from_str("While trying to parse CAA record, got too few fields")));
    }
    assert(string_views(parts@)[0] == parts@[0]@);
    assert(string_views(parts@)[1] == parts@[1]@);
    let flag = match parse_u8(parts[0].as_str()) {
        Ok(value) => value,
        Err(_) => {
            return Err(GoatNsError::Generic(String::from_str("Failed to parse the CAA flag into a number")));
        },
    };
    let tag = DNSCharString::from_str(parts[1].as_str());
    let validator = match Pattern::new("[a-zA-Z0-9]") {
        Ok(p) => p,
        Err(_) => {
            return Err(GoatNsError::Regex(String::from_str("Failed to parse an internal regex!")));
        },
    };
    if !pattern_is_match(&validator, parts[1].as_str()) {
        return Err(GoatNsError::Generic(String::from_str("Invalid tag value for the CAA record")));
    }
    let joined = join_from(&parts, 2, " ");
    let value = vstd::slice::slice_to_vec(joined.as_str().as_bytes());
    proof {
        assert(string_views(parts@).skip(2) == split_char(rdata@, ' ').skip(2));
    }
    Ok(InternalResourceRecord::CAA { flag, tag, value, ttl, rclass: c })
}

fn uri_from_text(rdata: &str, ttl: u32, c: RecordClass) -> (r: Result<InternalResourceRecord, GoatNsError>)
    ensures
        r is Ok <==> uri_ok(rdata@),
        r matches Ok(x) ==> uri_record(x, rdata@, ttl, c),
        r matches Err(e) ==> (e is Generic || e is Regex),
        r matches Err(e) ==> (e is Regex <==> !regex_compiles(uri_pattern())),
{
    let matcher = match Pattern::new("^(?P<priority>\\d+) (?P<weight>\\d+) (?P<target>.*)") {
        Ok(p) => p,
        Err(_) => {
            return Err(GoatNsError::Regex(String::from_str("Failed to parse an internal regex!")));
        },
    };
    let priority = match pattern_group(&matcher, rdata, "priority") {
        Some(value) => match parse_u16(value.as_str()) {
            Ok(v) => v,
            Err(_) => {
                return Err(GoatNsError::Generic(String::from_str("Failed to parse priority into u16")));
            },
        },
        None => {
            return Err(GoatNsError::Generic(String::from_str("Failed to parse URI record!")));
        },
    };
    let weight = match pattern_group(&matcher, rdata, "weight") {
        Some(value) => match parse_u16(value.as_str()) {
            Ok(v) => v,
            Err(_) => {
                return Err(GoatNsError::Generic(String::from_str("Failed to parse weight into u16")));
            },
        },
        None => {
            return Err(GoatNsError::Generic(String::from_str("No weight found in record?")));
        },
    };
    let target = match pattern_group(&matcher, rdata, "target") {
        Some(value) => DNSCharString::from_str(value.as_str()),
        None => {
            return Err(GoatNsError::Generic(String::from_str("No target found in record?")));
        },
    };
    Ok(InternalResourceRecord::URI { priority, weight, target, ttl, rclass: c })
}

fn key_from_text(rdata: &str, ttl: u32, c: RecordClass, child: bool) -> (r: Result<InternalResourceRecord, GoatNsError>)
    ensures
        r is Ok <==> (hex_ok(rdata@) && hex_bytes(rdata@).len() >= 4),
        r matches Ok(x) ==> key_record(x, hex_bytes(rdata@), ttl, c, child),
        r matches Err(e) ==> e is Generic,
{
    let bytes = decode_hex(rdata)?;
    if bytes.len() < 4 {
        return Err(GoatNsError::Generic(String::from_str("Key rdata too short (need >= 4 bytes)")));
    }
    let flags = be16(bytes.as_slice(), 0);
    let protocol = bytes[2];
    let algorithm = bytes[3];
    let public_key = tail(&bytes, 4);
    if child {
        Ok(InternalResourceRecord::CDNSKEY { flags, protocol, algorithm, public_key, ttl, rclass: c })
    } else {
        Ok(InternalResourceRecord::DNSKEY { flags, protocol, algorithm, public_key, ttl, rclass: c })
    }
}

fn ds_from_text(rdata: &str, ttl: u32, c: RecordClass, child: bool) -> (r: Result<InternalResourceRecord, GoatNsError>)
    ensures
        r is Ok <==> (hex_ok(rdata@) && hex_bytes(rdata@).len() >= 4),
        r matches Ok(x) ==> ds_record(x, hex_bytes(rdata@), ttl, c, child),
        r matches Err(e) ==> e is Generic,
{
    let bytes = decode_hex(rdata)?;
    if bytes.len() < 4 {
        return Err(GoatNsError::Generic(String::from_str("DS rdata too short (need >= 4 bytes)")));
    }
    let key_tag = be16(bytes.as_slice(), 0);
    let algorithm = bytes[2];
    let digest_type = bytes[3];
    let digest = tail(&bytes, 4);
    if child {
        Ok(InternalResourceRecord::CDS { key_tag, algorithm, digest_type, digest, ttl, rclass: c })
    } else {
        Ok(InternalResourceRecord::DS { key_tag, algorithm, digest_type, digest, ttl, rclass: c })
    }
}

fn rrsig_from_text(rdata: &str, ttl: u32, c: RecordClass) -> (r: Result<InternalResourceRecord, GoatNsError>)
    ensures
        r is Ok <==> (hex_ok(rdata@) && rrsig_ok(hex_bytes(rdata@))),
        r matches Ok(x) ==> rrsig_record(x, hex_bytes(rdata@), ttl, c),
        r matches Err(e) ==> e is Generic,
{
    let bytes = decode_hex(rdata)?;
    if bytes.len() < 18 {
        return Err(GoatNsError::Generic(String::from_str("RRSIG rdata too short (need >= 18 bytes before signer name)")));
    }
    let b = bytes.as_slice();
    let type_covered = RecordType::from_code(be16(b, 0));
    let algorithm = bytes[2];
    let labels = bytes[3];
    let original_ttl = be32(b, 4);
    let signature_expiration = be32(b, 8);
    let signature_inception = be32(b, 12);
    let key_tag = be16(b, 16);
    let rest_in = vstd::slice::slice_subrange(b, 18, bytes.len());
    assert(rest_in@ =~= bytes@.skip(18));
    let (signer_name, signature) = parse_domain_name_from_wire(rest_in)?;
    Ok(
        InternalResourceRecord::RRSIG {
            type_covered,
            algorithm,
            labels,
            original_ttl,
            signature_expiration,
            signature_inception,
            key_tag,
            signer_name,
            signature,
            ttl,
            rclass: c,
        },
    )
}

fn nsec_from_text(rdata: &str, ttl: u32, c: RecordClass) -> (r: Result<InternalResourceRecord, GoatNsError>)
    ensures
        r is Ok <==> (hex_ok(rdata@) && wire_labels(hex_bytes(rdata@)) is Some),
        r matches Ok(x) ==> nsec_record(x, hex_bytes(rdata@), ttl, c),
        r matches Err(e) ==> e is Generic,
{
    let bytes = decode_hex(rdata)?;
    let (next_domain_name, type_bit_maps) = parse_domain_name_from_wire(bytes.as_slice())?;
    Ok(InternalResourceRecord::NSEC { next_domain_name, type_bit_maps, ttl, rclass: c })
}

fn nsec3_from_text(rdata: &str, ttl: u32, c: RecordClass) -> (r: Result<InternalResourceRecord, GoatNsError>)
    ensures
        r is Ok <==> (hex_ok(rdata@) && nsec3_ok(hex_bytes(rdata@))),
        r matches Ok(x) ==> nsec3_record(x, hex_bytes(rdata@), ttl, c),
        r matches Err(e) ==> e is Generic,
{
    let bytes = decode_hex(rdata)?;
    if bytes.len() < 5 {
        return Err(GoatNsError::Generic(String::from_str("NSEC3 rdata too short")));
    }
    let hash_algorithm = bytes[0];
    let flags = bytes[1];
    let iterations = be16(bytes.as_slice(), 2);
    let salt_len = bytes[4] as usize;
    if bytes.len() < 5 + salt_len + 1 {
        return Err(GoatNsError::Generic(String::from_str("NSEC3 rdata too short for salt")));
    }
    let salt = part(&bytes, 5, 5 + salt_len);
    let hash_len = bytes[5 + salt_len] as usize;
    if bytes.len() < 5 + salt_len + 1 + hash_len {
        return Err(GoatNsError::Generic(String::from_str("NSEC3 rdata too short for hash")));
    }
    let next_hashed_owner_name = part(&bytes, 5 + salt_len + 1, 5 + salt_len + 1 + hash_len);
    let type_bit_maps = tail(&bytes, 5 + salt_len + 1 + hash_len);
    Ok(
        InternalResourceRecord::NSEC3 {
            hash_algorithm,
            flags,
            iterations,
            salt,
            next_hashed_owner_name,
            type_bit_maps,
            ttl,
            rclass: c,
        },
    )
}

/// Whether the NSEC3PARAM RDATA text announces a salt longer than the bytes that follow
/// its length octet: reading such a record fails hard.
pub open spec fn nsec3param_salt_overrun(rdata: Seq<char>) -> bool {
    hex_ok(rdata) && hex_bytes(rdata).len() >= 5 && hex_bytes(rdata).len() < 5 + hex_bytes(rdata)[4]
}

fn nsec3param_from_text(rdata: &str, ttl: u32, c: RecordClass) -> (r: Result<InternalResourceRecord, GoatNsError>)
    requires
        !nsec3param_salt_overrun(rdata@),
    ensures
        r is Ok <==> (hex_ok(rdata@) && hex_bytes(rdata@).len() >= 5),
        r matches Ok(x) ==> nsec3param_record(x, hex_bytes(rdata@), ttl, c),
        r matches Err(e) ==> e is Generic,
{
    let bytes = decode_hex(rdata)?;
    if bytes.len() < 5 {
        return Err(GoatNsError::Generic(String::from_str("NSEC3PARAM rdata too short")));
    }
    let hash_algorithm = bytes[0];
    let flags = bytes[1];
    let iterations = be16(bytes.as_slice(), 2);
    let salt_len = bytes[4] as usize;
    let salt = part(&bytes, 5, 5 + salt_len);
    Ok(InternalResourceRecord::NSEC3PARAM { hash_algorithm, flags, iterations, salt, ttl, rclass: c })
}

/// The IPv4 address read from the RDATA, or 0 when it did not spell one.
pub open spec fn ipv4_or_zero(readings: RdataReadings) -> u32 {
    match readings.ipv4 {
        Some(a) => a,
        None => 0,
    }
}

/// Whether a record of type code `rrtype` can be built from the RDATA text `rdata` (and
/// what was read out of it).
pub open spec fn zone_record_ok(rrtype: u16, rdata: Seq<char>, readings: RdataReadings) -> bool {
    match rt_from_code(rrtype) {
        RecordType::A => true,
        RecordType::AAAA => readings.ipv6 is Some,
        RecordType::CNAME => true,
        RecordType::PTR => true,
        RecordType::TXT => true,
        RecordType::MX => mx_ok(rdata),
        RecordType::NS => true,
        RecordType::CAA => caa_ok(rdata),
        RecordType::LOC => readings.loc is Some,
        RecordType::URI => uri_ok(rdata),
        RecordType::DNSKEY => hex_ok(rdata) && hex_bytes(rdata).len() >= 4,
        RecordType::DS => hex_ok(rdata) && hex_bytes(rdata).len() >= 4,
        RecordType::CDNSKEY => hex_ok(rdata) && hex_bytes(rdata).len() >= 4,
        RecordType::CDS => hex_ok(rdata) && hex_bytes(rdata).len() >= 4,
        RecordType::RRSIG => hex_ok(rdata) && rrsig_ok(hex_bytes(rdata)),
        RecordType::NSEC => hex_ok(rdata) && wire_labels(hex_bytes(rdata)) is Some,
        RecordType::NSEC3 => hex_ok(rdata) && nsec3_ok(hex_bytes(rdata)),
        RecordType::NSEC3PARAM => hex_ok(rdata) && hex_bytes(rdata).len() >= 5,
        _ => false,
    }
}

/// Whether records of a type are built from zone data.
pub open spec fn zone_type(t: RecordType) -> bool {
    match t {
        RecordType::A | RecordType::AAAA | RecordType::CNAME | RecordType::PTR | RecordType::TXT
        | RecordType::MX | RecordType::NS | RecordType::CAA | RecordType::LOC | RecordType::URI
        | RecordType::DNSKEY | RecordType::DS | RecordType::CDNSKEY | RecordType::CDS
        | RecordType::RRSIG | RecordType::NSEC | RecordType::NSEC3 | RecordType::NSEC3PARAM => true,
        _ => false,
    }
}

/// Whether building a record fails because a pattern it is read with does not compile.
pub open spec fn regex_failure(rrtype: u16, rdata: Seq<char>) -> bool {
    match rt_from_code(rrtype) {
        RecordType::CAA => caa_regex_failure(rdata),
        RecordType::URI => !regex_compiles(uri_pattern()),
        _ => false,
    }
}

/// The error that building a record from zone data gives: for a type not built from zone
/// data a generic error saying the type is invalid, a regex error when a pattern does not
/// compile, and a generic error otherwise.
pub open spec fn zone_record_error(e: GoatNsError, rrtype: u16, rdata: Seq<char>) -> bool {
    if !zone_type(rt_from_code(rrtype)) {
        e matches GoatNsError::Generic(m) && m@ == "Invalid type specified!"@
    } else if regex_failure(rrtype, rdata) {
        e is Regex
    } else {
        e is Generic
    }
}

/// The record built from zone data: of the type that `rrtype` names, in the class that
/// `rclass` names, with TTL `ttl`, and the fields read from `rdata` as each type reads
/// them. A name goes through [at_to_dot]; TXT takes the text's bytes as they are; an A
/// record takes address 0 when the text did not spell an IPv4 address.
pub open spec fn zone_record(
    x: InternalResourceRecord,
    rrtype: u16,
    rdata: Seq<char>,
    ttl: u32,
    rclass: u16,
    readings: RdataReadings,
) -> bool {
    let c = rc_from_code(rclass);
    let b = hex_bytes(rdata);
    match rt_from_code(rrtype) {
        RecordType::A => x matches InternalResourceRecord::A { address, ttl: t, rclass: k }
            && address == ipv4_or_zero(readings) && t == ttl && k == c,
        RecordType::AAAA => x matches InternalResourceRecord::AAAA { address, ttl: t, rclass: k }
            && readings.ipv6 == Some(address) && t == ttl && k == c,
        RecordType::CNAME => x matches InternalResourceRecord::CNAME { cname, ttl: t, rclass: k }
            && cname.name@ == at_to_dot(rdata) && t == ttl && k == c,
        RecordType::PTR => x matches InternalResourceRecord::PTR { ptrdname, ttl: t, rclass: k }
            && ptrdname.name@ == at_to_dot(rdata) && t == ttl && k == c,
        RecordType::TXT => x matches InternalResourceRecord::TXT { txtdata, ttl: t, class: k }
            && txtdata.data@ == encode_utf8(rdata) && t == ttl && k == c,
        RecordType::MX => mx_record(x, rdata, ttl, c),
        RecordType::NS => x matches InternalResourceRecord::NS { nsdname, ttl: t, rclass: k }
            && nsdname.name@ == at_to_dot(rdata) && t == ttl && k == c,
        RecordType::CAA => caa_record(x, rdata, ttl, c),
        RecordType::LOC => x matches InternalResourceRecord::LOC {
            ttl: t,
            rclass: k,
            version,
            size,
            horiz_pre,
            vert_pre,
            latitude,
            longitude,
            altitude,
        } && t == ttl && k == c && version == 0 && readings.loc == Some(
            LocReading { size, horiz_pre, vert_pre, latitude, longitude, altitude },
        ),
        RecordType::URI => uri_record(x, rdata, ttl, c),
        RecordType::DNSKEY => key_record(x, b, ttl, c, false),
        RecordType::DS => ds_record(x, b, ttl, c, false),
        RecordType::CDNSKEY => key_record(x, b, ttl, c, true),
        RecordType::CDS => ds_record(x, b, ttl, c, true),
        RecordType::RRSIG => rrsig_record(x, b, ttl, c),
        RecordType::NSEC => nsec_record(x, b, ttl, c),
        RecordType::NSEC3 => nsec3_record(x, b, ttl, c),
        RecordType::NSEC3PARAM => nsec3param_record(x, b, ttl, c),
        _ => false,
    }
}

/// Whether building a record of type code `rrtype` from `rdata` fails hard (an
/// NSEC3PARAM whose salt runs past its bytes).
pub open spec fn zone_record_overrun(rrtype: u16, rdata: Seq<char>) -> bool {
    rt_from_code(rrtype) == RecordType::NSEC3PARAM && nsec3param_salt_overrun(rdata)
}

impl InternalResourceRecord {
    /// Builds a record from zone data, see [zone_record_ok], [zone_record] and
    /// [zone_record_error]. `readings` holds what was read out of `rdata` as an IP address
    /// or LOC fields. Types that are not built from zone data are an error. The name takes
    /// no part in the outcome.
    pub fn new(
        name: &str,
        rrtype: u16,
        rdata: &str,
        ttl: u32,
        rclass: u16,
        readings: &RdataReadings,
    ) -> (r: Result<InternalResourceRecord, GoatNsError>)
        requires
            !zone_record_overrun(rrtype, rdata@),
        ensures
            r is Ok <==> zone_record_ok(rrtype, rdata@, *readings),
            r matches Ok(x) ==> zone_record(x, rrtype, rdata@, ttl, rclass, *readings),
            r matches Err(e) ==> zone_record_error(e, rrtype, rdata@),
    {
        let c = RecordClass::from_code(rclass);
        match RecordType::from_code(rrtype) {
            RecordType::A => {
                let address: u32 = match readings.ipv4 {
                    Some(a) => a,
                    None => 0,
                };
                Ok(InternalResourceRecord::A { address, ttl, rclass: c })
            },
            RecordType::AAAA => match readings.ipv6 {
                Some(address) => Ok(InternalResourceRecord::AAAA { address, ttl, rclass: c }),
                None => Err(GoatNsError::Generic(String::from_str("Failed to parse the rdata into an IPv6 address"))),
            },
            RecordType::CNAME => Ok(InternalResourceRecord::CNAME { cname: DomainName::from_str(rdata), ttl, rclass: c }),
            RecordType::PTR => Ok(InternalResourceRecord::PTR { ptrdname: DomainName::from_str(rdata), ttl, rclass: c }),
            RecordType::TXT => Ok(InternalResourceRecord::TXT { txtdata: DNSCharString::from_str(rdata), ttl, class: c }),
            RecordType::MX => mx_from_text(rdata, ttl, c),
            RecordType::NS => Ok(InternalResourceRecord::NS { nsdname: DomainName::from_str(rdata), ttl, rclass: c }),
            RecordType::CAA => caa_from_text(name, rdata, ttl, c),
            RecordType::LOC => match readings.loc {
                Some(l) => Ok(
                    InternalResourceRecord::LOC {
                        ttl,
                        rclass: c,
                        version: 0,
                        size: l.size,
                        horiz_pre: l.horiz_pre,
                        vert_pre: l.vert_pre,
                        latitude: l.latitude,
                        longitude: l.longitude,
                        altitude: l.altitude,
                    },
                ),
                None => Err(GoatNsError::Generic(String::from_str("Failed to parse the LOC record"))),
            },
            RecordType::URI => uri_from_text(rdata, ttl, c),
            RecordType::DNSKEY => key_from_text(rdata, ttl, c, false),
            RecordType::DS => ds_from_text(rdata, ttl, c, false),
            RecordType::CDNSKEY => key_from_text(rdata, ttl, c, true),
            RecordType::CDS => ds_from_text(rdata, ttl, c, true),
            RecordType::RRSIG => rrsig_from_text(rdata, ttl, c),
            RecordType::NSEC => nsec_from_text(rdata, ttl, c),
            RecordType::NSEC3 => nsec3_from_text(rdata, ttl, c),
            RecordType::NSEC3PARAM => nsec3param_from_text(rdata, ttl, c),
            _ => Err(GoatNsError::Generic(String::from_str("Invalid type specified!"))),
        }
    }
}

/// A record built from zone data is of the type its type code names, carries the TTL it
/// was given, and is in the class its class code names.
pub proof fn lemma_zone_record_shape(
    x: InternalResourceRecord,
    rrtype: u16,
    rdata: Seq<char>,
    ttl: u32,
    rclass: u16,
    readings: RdataReadings,
)
    requires
        zone_record(x, rrtype, rdata, ttl, rclass, readings),
    ensures
        rr_type(x) == rt_from_code(rrtype),
        rr_ttl(x) == ttl,
        rr_class(x) == Some(rc_from_code(rclass)),
{
}

/// Whether some `.`-separated label of a name is longer than 63 bytes.
pub open spec fn has_long_label(name: Seq<char>) -> bool {
    exists|i: int| 0 <= i < split_char(name, '.').len() && encode_utf8(#[trigger] split_char(name, '.')[i]).len() > 63
}

/// Tests whether some label in the name is longer than 63 octets (bytes), see
/// [has_long_label].
pub fn check_long_labels(testval: &str) -> (r: bool)
    ensures
        r == has_long_label(testval@),
{
    let parts = split_str(testval, '.');
    let mut i: usize = 0;
    while i < parts.len()
        invariant
            0 <= i <= parts@.len(),
            string_views(parts@) == split_char(testval@, '.'),
            forall|k: int| 0 <= k < i ==> encode_utf8(#[trigger] split_char(testval@, '.')[k]).len() <= 63,
        decreases parts@.len() - i,
    {
        assert(string_views(parts@)[i as int] == parts@[i as int]@);
        if parts[i].as_str().as_bytes().len() > 63 {
            return true;
        }
        i = i + 1;
    }
    assert(string_views(parts@).len() == parts@.len());
    false
}


/// Whether building a record from this zone data would fail hard, see
/// [zone_record_overrun]; callers of [InternalResourceRecord::new] test this first.
pub fn zone_data_overruns(rrtype: u16, rdata: &str) -> (r: bool)
    ensures
        r == zone_record_overrun(rrtype, rdata@),
{
    if rrtype != 51 {
        return false;
    }
    match decode_hex(rdata) {
        Ok(bytes) => bytes.len() >= 5 && bytes.len() < 5 + bytes[4] as usize,
        Err(_) => false,
    }
}


proof fn lemma_join_prepend(a: Seq<char>, rest: Seq<Seq<char>>, sep: Seq<char>)
    requires
        rest.len() > 0,
    ensures
        join_with(seq![a] + rest, sep) == a + sep + join_with(rest, sep),
    decreases rest.len(),
{
    let all = seq![a] + rest;
    assert(all.drop_last() =~= seq![a] + rest.drop_last());
    assert(all.last() == rest.last());
    assert(all.len() >= 2);
    assert(join_with(all, sep) == join_with(all.drop_last(), sep) + sep + all.last());
    if rest.len() == 1 {
        assert(all.drop_last() =~= seq![a]);
        assert(join_with(seq![a], sep) == a);
        assert(join_with(rest, sep) == rest[0]);
        assert(rest.last() == rest[0]);
    } else {
        assert(join_with(rest, sep) == join_with(rest.drop_last(), sep) + sep + rest.last());
        lemma_join_prepend(a, rest.drop_last(), sep);
        assert((a + sep + join_with(rest.drop_last(), sep)) + sep + rest.last() =~= a + sep + (join_with(
            rest.drop_last(),
            sep,
        ) + sep + rest.last()));
    }
}

proof fn lemma_dot_split(s: Seq<u8>, i: int)
    requires
        valid_utf8(s),
        0 <= i < s.len(),
        s[i] == DOT,
    ensures
        valid_utf8(s.take(i)),
        valid_utf8(s.skip(i + 1)),
        decode_utf8(s) == decode_utf8(s.take(i)) + seq!['.'] + decode_utf8(s.skip(i + 1)),
{
    vstd::utf8::is_char_boundary_iff_not_is_continuation_byte(s, i);
    vstd::utf8::valid_utf8_split(s, i);
    vstd::utf8::decode_utf8_split(s, i);
    let t = s.subrange(i, s.len() as int);
    assert(s.take(i) =~= s.subrange(0, i));
    assert(t[0] == 46u8);
    assert((46u8 & 0x7Fu8) == 46u8) by (bit_vector);
    assert(vstd::utf8::length_of_first_scalar(t) == 1);
    assert(vstd::utf8::pop_first_scalar(t) =~= s.skip(i + 1));
    assert(vstd::utf8::decode_first_scalar(t) == 46u32);
    assert((46u32 as char) == '.');
    assert(decode_utf8(t) =~= seq!['.'] + decode_utf8(s.skip(i + 1)));
}

proof fn lemma_wire_encoded(s: Seq<u8>, tail: Seq<u8>)
    requires
        labels_nonempty(s),
        encode_labels(s) is Some,
        valid_utf8(s),
    ensures
        wire_labels(encode_labels(s)->0 + seq![0u8] + tail) matches Some((ls, n)) && n == s.len() + 2
            && ls.len() > 0 && join_with(ls, "."@) == decode_utf8(s),
    decreases s.len(),
{
    lemma_dot_index(s);
    let i = dot_index(s);
    let e = encode_labels(s)->0;
    let b = e + seq![0u8] + tail;
    reveal_strlit(".");
    assert("."@ =~= seq!['.']);
    assert(i >= 1) by {
        if i == 0 {
            assert(s[0] == DOT);
        }
    }
    if i >= s.len() {
        assert(e =~= seq![i as u8] + s);
        assert(b[0] == i as u8);
        assert(b.subrange(1, 1 + i) =~= s);
        let r = b.skip(1 + i);
        assert(r =~= seq![0u8] + tail);
        assert(r[0] == 0);
        assert(wire_labels(r) == Some((Seq::<Seq<char>>::empty(), 1int)));
        let ls = seq![decode_utf8(s)] + Seq::<Seq<char>>::empty();
        assert(ls =~= seq![decode_utf8(s)]);
    } else {
        let s2 = s.skip(i + 1);
        assert(i < s.len() - 1) by {
            if i == s.len() - 1 {
                assert(s.last() == DOT);
            }
        }
        assert(labels_nonempty(s2)) by {
            assert(s2[0] == s[i + 1]);
            assert(!(s[i] == DOT && s[i + 1] == DOT));
            assert(s2.last() == s.last());
            assert forall|k: int| 0 <= k < s2.len() - 1 implies !(#[trigger] s2[k] == DOT && s2[k + 1] == DOT) by {
                assert(s2[k] == s[k + i + 1]);
                assert(s2[k + 1] == s[k + i + 2]);
            }
        }
        lemma_dot_split(s, i);
        lemma_wire_encoded(s2, tail);
        let e2 = encode_labels(s2)->0;
        assert(e =~= seq![i as u8] + s.take(i) + e2);
        assert(b[0] == i as u8);
        assert(b.subrange(1, 1 + i) =~= s.take(i));
        let r = b.skip(1 + i);
        assert(r =~= e2 + seq![0u8] + tail);
        let ls2 = (wire_labels(r)->0).0;
        lemma_join_prepend(decode_utf8(s.take(i)), ls2, "."@);
    }
}

/// A domain name written out in full as labels (see [DomainName::to_wire]) reads back as
/// the same name, with the bytes that follow it left over: for names made of non-empty
/// labels of at most 63 bytes.
pub proof fn lemma_wire_name_round_trip(d: DomainName, rest: Seq<u8>)
    requires
        labels_nonempty(dn_bytes(d)),
        name_form(dn_bytes(d), None, None) is Some,
    ensures
        wire_labels(form_bytes(name_form(dn_bytes(d), None, None)->0) + rest) matches Some((ls, n))
            && wire_name_text(ls) == d.name@ && (form_bytes(name_form(dn_bytes(d), None, None)->0) + rest).skip(n)
            == rest,
{
    let s = dn_bytes(d);
    broadcast use vstd::utf8::encode_utf8_valid_utf8, vstd::utf8::encode_utf8_decode_utf8;

    assert(valid_utf8(s));
    assert(decode_utf8(s) == d.name@);
    let e = encode_labels(s)->0;
    let f = form_bytes(name_form(s, None, None)->0);
    assert(f =~= e.push(0));
    assert(f + rest =~= e + seq![0u8] + rest);
    lemma_wire_encoded(s, rest);
    let n = (wire_labels(f + rest)->0).1;
    assert(n == s.len() + 2);
    assert(e.len() == s.len() + 1) by {
        crate::question::lemma_encoded_len(s);
    }
    assert((f + rest).skip(n) =~= rest);
}

/// Name records are served from any zone text: a row of type code 5 (CNAME), 2 (NS) or 12
/// (PTR) always builds, its target being the text with `@` read as `.`; a row of type
/// code 16 (TXT) always builds with the text's bytes; and a row of type code 1 (A) always
/// builds.
pub proof fn lemma_name_rows_build(
    x: InternalResourceRecord,
    rdata: Seq<char>,
    ttl: u32,
    rclass: u16,
    readings: RdataReadings,
)
    ensures
        zone_record_ok(1, rdata, readings),
        zone_record_ok(2, rdata, readings),
        zone_record_ok(5, rdata, readings),
        zone_record_ok(12, rdata, readings),
        zone_record_ok(16, rdata, readings),
        zone_record(x, 12, rdata, ttl, rclass, readings) ==> (x matches InternalResourceRecord::PTR {
            ptrdname,
            ttl: t,
            ..
        } && ptrdname.name@ == at_to_dot(rdata) && t == ttl),
        zone_record(x, 5, rdata, ttl, rclass, readings) ==> (x matches InternalResourceRecord::CNAME {
            cname,
            ttl: t,
            ..
        } && cname.name@ == at_to_dot(rdata) && t == ttl),
        zone_record(x, 2, rdata, ttl, rclass, readings) ==> (x matches InternalResourceRecord::NS {
            nsdname,
            ttl: t,
            ..
        } && nsdname.name@ == at_to_dot(rdata) && t == ttl),
{
    assert(rt_from_code(1) == RecordType::A);
    assert(rt_from_code(2) == RecordType::NS);
    assert(rt_from_code(5) == RecordType::CNAME);
    assert(rt_from_code(12) == RecordType::PTR);
    assert(rt_from_code(16) == RecordType::TXT);
}

} // verus!
