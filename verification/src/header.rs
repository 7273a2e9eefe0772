//! The header of a DNS transmission, either a Query or Reply. Ref [RFC1035](https://www.rfc-editor.org/rfc/rfc1035#section-4.1.1) section 4.1.1.

use crate::enums::{opcode_code, opcode_from_code, rcode_code, rcode_from_code, OpCode, PacketType, Rcode};
use crate::error::GoatNsError;
use vstd::prelude::*;

verus! {

/// The header of a DNS transmission: twelve bytes, most significant bit first.
#[derive(Clone, Copy, Debug, PartialEq, Eq, Structural)]
pub struct Header {
    /// The query ID
    pub id: u16,
    /// Is it a query or response
    pub qr: PacketType,
    pub opcode: OpCode,
    pub authoritative: bool,
    pub truncated: bool,
    /// RD - Recursion Desired - this bit may be set in a query and is copied into the response.
    pub recursion_desired: bool,
    pub recursion_available: bool,
    /// reserved, must be 0
    pub z: bool,
    pub ad: bool,
    pub cd: bool,
    pub rcode: Rcode,
    /// the number of entries in the question section.
    pub qdcount: u16,
    /// the number of resource records in the answer section.
    pub ancount: u16,
    /// the number of name server resource records in the authority records section.
    pub nscount: u16,
    /// the number of resource records in the additional records section.
    pub arcount: u16,
}

/// A boolean as one bit.
pub open spec fn bit(b: bool) -> int {
    if b {
        1
    } else {
        0
    }
}

/// The third byte of a packed header: QR, OPCODE, AA, TC, RD.
pub open spec fn flags_high(h: Header) -> u8 {
    (bit(h.qr == PacketType::Answer) * 128 + opcode_code(h.opcode) * 8 + bit(h.authoritative) * 4
        + bit(h.truncated) * 2 + bit(h.recursion_desired)) as u8
}

/// The fourth byte of a packed header: RA, Z, AD, CD, RCODE.
pub open spec fn flags_low(h: Header) -> u8 {
    (bit(h.recursion_available) * 128 + bit(h.z) * 64 + bit(h.ad) * 32 + bit(h.cd) * 16
        + rcode_code(h.rcode)) as u8
}

/// The twelve bytes of a header on the wire.
pub open spec fn header_bytes(h: Header) -> Seq<u8> {
    seq![
        (h.id / 256) as u8,
        (h.id % 256) as u8,
        flags_high(h),
        flags_low(h),
        (h.qdcount / 256) as u8,
        (h.qdcount % 256) as u8,
        (h.ancount / 256) as u8,
        (h.ancount % 256) as u8,
        (h.nscount / 256) as u8,
        (h.nscount % 256) as u8,
        (h.arcount / 256) as u8,
        (h.arcount % 256) as u8,
    ]
}

/// Two bytes read as a big-endian 16-bit number.
pub open spec fn word(hi: u8, lo: u8) -> u16 {
    (hi * 256 + lo) as u16
}

/// The header that twelve bytes hold, if the opcode and response code fields name valid codes.
pub open spec fn header_from_bytes(b: Seq<u8>) -> Option<Header>
    recommends
        b.len() >= 12,
{
    let hi = b[2];
    let lo = b[3];
    match (opcode_from_code(((hi / 8) % 16) as u8), rcode_from_code((lo % 16) as u8)) {
        (Some(opcode), Some(rcode)) => Some(
            Header {
                id: word(b[0], b[1]),
                qr: if hi / 128 == 1 {
                    PacketType::Answer
                } else {
                    PacketType::Query
                },
                opcode,
                authoritative: (hi / 4) % 2 == 1,
                truncated: (hi / 2) % 2 == 1,
                recursion_desired: hi % 2 == 1,
                recursion_available: lo / 128 == 1,
                z: (lo / 64) % 2 == 1,
                ad: (lo / 32) % 2 == 1,
                cd: (lo / 16) % 2 == 1,
                rcode,
                qdcount: word(b[4], b[5]),
                ancount: word(b[6], b[7]),
                nscount: word(b[8], b[9]),
                arcount: word(b[10], b[11]),
            },
        ),
        _ => None,
    }
}

/// The default header: a query with every flag clear except Authoritative, since we
/// *are* an authoritative DNS server after all, every count zero and no error.
pub open spec fn default_header() -> Header {
    Header {
        id: 0,
        qr: PacketType::Query,
        opcode: OpCode::Query,
        authoritative: true,
        truncated: false,
        recursion_desired: false,
        recursion_available: false,
        z: false,
        ad: false,
        cd: false,
        rcode: Rcode::NoError,
        qdcount: 0,
        ancount: 0,
        nscount: 0,
        arcount: 0,
    }
}

fn bool_bit(b: bool) -> (r: u8)
    ensures
        r == bit(b),
{
    if b {
        1
    } else {
        0
    }
}

fn pack_flags_high(h: &Header) -> (r: u8)
    ensures
        r == flags_high(*h),
{
    let qr = bool_bit(
        match h.qr {
            PacketType::Answer => true,
            PacketType::Query => false,
        },
    );
    let op = h.opcode.code();
    let aa = bool_bit(h.authoritative);
    let tc = bool_bit(h.truncated);
    let rd = bool_bit(h.recursion_desired);
    proof {
        lemma_byte_fields_split(qr, op, aa, tc, rd);
    }
    qr * 128 + op * 8 + aa * 4 + tc * 2 + rd
}

fn pack_flags_low(h: &Header) -> (r: u8)
    ensures
        r == flags_low(*h),
{
    let ra = bool_bit(h.recursion_available);
    let z = bool_bit(h.z);
    let ad = bool_bit(h.ad);
    let cd = bool_bit(h.cd);
    let rc = h.rcode.code();
    proof {
        lemma_low_fields_split(ra, z, ad, cd, rc);
    }
    ra * 128 + z * 64 + ad * 32 + cd * 16 + rc
}

impl Header {
    /// The default header, see [default_header].
    pub fn default() -> (h: Header)
        ensures
            h == default_header(),
    {
        Header {
            id: 0,
            qr: PacketType::Query,
            opcode: OpCode::Query,
            authoritative: true,
            truncated: false,
            recursion_desired: false,
            recursion_available: false,
            z: false,
            ad: false,
            cd: false,
            rcode: Rcode::NoError,
            qdcount: 0,
            ancount: 0,
            nscount: 0,
            arcount: 0,
        }
    }

    /// The same header, marked as an answer.
    pub fn as_answer(self) -> (r: Header)
        ensures
            r == (Header { qr: PacketType::Answer, ..self }),
    {
        let mut response = self;
        response.qr = PacketType::Answer;
        response
    }

    /// Packs the header into its twelve wire bytes.
    pub fn pack(&self) -> (r: Vec<u8>)
        ensures
            r@ == header_bytes(*self),
    {
        let mut v: Vec<u8> = Vec::new();
        v.push((self.id / 256) as u8);
        v.push((self.id % 256) as u8);
        v.push(pack_flags_high(self));
        v.push(pack_flags_low(self));
        v.push((self.qdcount / 256) as u8);
        v.push((self.qdcount % 256) as u8);
        v.push((self.ancount / 256) as u8);
        v.push((self.ancount % 256) as u8);
        v.push((self.nscount / 256) as u8);
        v.push((self.nscount % 256) as u8);
        v.push((self.arcount / 256) as u8);
        v.push((self.arcount % 256) as u8);
        assert(v@ =~= header_bytes(*self));
        v
    }

    /// Unpacks a header from the first twelve bytes of `b`; fewer than twelve bytes, or an
    /// opcode or response code field that names no known code, is an error.
    pub fn unpack(b: &[u8]) -> (r: Result<Header, GoatNsError>)
        ensures
            r is Ok <==> (b@.len() >= 12 && header_from_bytes(b@) is Some),
            r matches Ok(h) ==> Some(h) == header_from_bytes(b@),
            r matches Err(e) ==> e is BytePackingError,
    {
        if b.len() < 12 {
            return Err(GoatNsError::BytePackingError(String::from_str("header needs twelve bytes")));
        }
        let hi = b[2];
        let lo = b[3];
        let opcode = match OpCode::from_code((hi / 8) % 16) {
            Some(o) => o,
            None => {
                return Err(
                    GoatNsError::BytePackingError(String::from_str("invalid opcode in header")),
                )
            },
        };
        let rcode = match Rcode::from_code(lo % 16) {
            Some(c) => c,
            None => {
                return Err(
                    GoatNsError::BytePackingError(String::from_str("invalid rcode in header")),
                )
            },
        };
        Ok(
            Header {
                id: (b[0] as u16) * 256 + b[1] as u16,
                qr: PacketType::from_bool(hi / 128 == 1),
                opcode,
                authoritative: (hi / 4) % 2 == 1,
                truncated: (hi / 2) % 2 == 1,
                recursion_desired: hi % 2 == 1,
                recursion_available: lo / 128 == 1,
                z: (lo / 64) % 2 == 1,
                ad: (lo / 32) % 2 == 1,
                cd: (lo / 16) % 2 == 1,
                rcode,
                qdcount: (b[4] as u16) * 256 + b[5] as u16,
                ancount: (b[6] as u16) * 256 + b[7] as u16,
                nscount: (b[8] as u16) * 256 + b[9] as u16,
                arcount: (b[10] as u16) * 256 + b[11] as u16,
            },
        )
    }
}

/// A byte built from a one-bit, a four-bit, and three one-bit fields splits back into them.
proof fn lemma_byte_fields_split(a: u8, b: u8, c: u8, d: u8, e: u8)
    requires
        a < 2,
        b < 16,
        c < 2,
        d < 2,
        e < 2,
    ensures
        a * 128 + b * 8 + c * 4 + d * 2 + e < 256,
        ((a * 128 + b * 8 + c * 4 + d * 2 + e) as u8) / 128 == a,
        (((a * 128 + b * 8 + c * 4 + d * 2 + e) as u8) / 8) % 16 == b,
        (((a * 128 + b * 8 + c * 4 + d * 2 + e) as u8) / 4) % 2 == c,
        (((a * 128 + b * 8 + c * 4 + d * 2 + e) as u8) / 2) % 2 == d,
        ((a * 128 + b * 8 + c * 4 + d * 2 + e) as u8) % 2 == e,
{
    assert(a * 128 + b * 8 + c * 4 + d * 2 + e < 256) by (bit_vector)
        requires
            a < 2,
            b < 16,
            c < 2,
            d < 2,
            e < 2,
    ;
    assert(((a * 128 + b * 8 + c * 4 + d * 2 + e) as u8) / 128 == a && (((a * 128 + b * 8 + c
        * 4 + d * 2 + e) as u8) / 8) % 16 == b && (((a * 128 + b * 8 + c * 4 + d * 2 + e) as u8)
        / 4) % 2 == c && (((a * 128 + b * 8 + c * 4 + d * 2 + e) as u8) / 2) % 2 == d && ((a * 128
        + b * 8 + c * 4 + d * 2 + e) as u8) % 2 == e) by (bit_vector)
        requires
            a < 2,
            b < 16,
            c < 2,
            d < 2,
            e < 2,
    ;
}

/// A byte is the sum of its one-bit, four-bit and three one-bit fields.
proof fn lemma_byte_fields_join(x: u8)
    ensures
        x / 128 < 2,
        (x / 8) % 16 < 16,
        x == ((x / 128) * 128 + ((x / 8) % 16) * 8 + ((x / 4) % 2) * 4 + ((x / 2) % 2) * 2 + x % 2)
            as u8,
{
    assert(x / 128 < 2 && x == ((x / 128) * 128 + ((x / 8) % 16) * 8 + ((x / 4) % 2) * 4 + ((x
        / 2) % 2) * 2 + x % 2) as u8) by (bit_vector);
}

/// A byte built from four one-bit fields and a four-bit field splits back into them.
proof fn lemma_low_fields_split(a: u8, b: u8, c: u8, d: u8, e: u8)
    requires
        a < 2,
        b < 2,
        c < 2,
        d < 2,
        e < 16,
    ensures
        a * 128 + b * 64 + c * 32 + d * 16 + e < 256,
        ((a * 128 + b * 64 + c * 32 + d * 16 + e) as u8) / 128 == a,
        (((a * 128 + b * 64 + c * 32 + d * 16 + e) as u8) / 64) % 2 == b,
        (((a * 128 + b * 64 + c * 32 + d * 16 + e) as u8) / 32) % 2 == c,
        (((a * 128 + b * 64 + c * 32 + d * 16 + e) as u8) / 16) % 2 == d,
        ((a * 128 + b * 64 + c * 32 + d * 16 + e) as u8) % 16 == e,
{
    assert(a * 128 + b * 64 + c * 32 + d * 16 + e < 256) by (bit_vector)
        requires
            a < 2,
            b < 2,
            c < 2,
            d < 2,
            e < 16,
    ;
    assert(((a * 128 + b * 64 + c * 32 + d * 16 + e) as u8) / 128 == a && (((a * 128 + b * 64
        + c * 32 + d * 16 + e) as u8) / 64) % 2 == b && (((a * 128 + b * 64 + c * 32 + d * 16 + e)
        as u8) / 32) % 2 == c && (((a * 128 + b * 64 + c * 32 + d * 16 + e) as u8) / 16) % 2 == d
        && ((a * 128 + b * 64 + c * 32 + d * 16 + e) as u8) % 16 == e) by (bit_vector)
        requires
            a < 2,
            b < 2,
            c < 2,
            d < 2,
            e < 16,
    ;
}

/// A byte is the sum of its four one-bit fields and its low four-bit field.
proof fn lemma_low_fields_join(x: u8)
    ensures
        x == ((x / 128) * 128 + ((x / 64) % 2) * 64 + ((x / 32) % 2) * 32 + ((x / 16) % 2) * 16 + x
            % 16) as u8,
{
    assert(x == ((x / 128) * 128 + ((x / 64) % 2) * 64 + ((x / 32) % 2) * 32 + ((x / 16) % 2) * 16
        + x % 16) as u8) by (bit_vector);
}

proof fn lemma_word_split(x: u16)
    ensures
        word((x / 256) as u8, (x % 256) as u8) == x,
{
}

proof fn lemma_word_join(hi: u8, lo: u8)
    ensures
        (word(hi, lo) / 256) as u8 == hi,
        (word(hi, lo) % 256) as u8 == lo,
{
}

/// Unpacking the bytes of a packed header gives the header back.
pub proof fn lemma_header_unpack_pack(h: Header)
    ensures
        header_from_bytes(header_bytes(h)) == Some(h),
{
    let b = header_bytes(h);
    lemma_byte_fields_split(
        bit(h.qr == PacketType::Answer) as u8,
        opcode_code(h.opcode),
        bit(h.authoritative) as u8,
        bit(h.truncated) as u8,
        bit(h.recursion_desired) as u8,
    );
    lemma_low_fields_split(
        bit(h.recursion_available) as u8,
        bit(h.z) as u8,
        bit(h.ad) as u8,
        bit(h.cd) as u8,
        rcode_code(h.rcode),
    );
    lemma_word_split(h.id);
    lemma_word_split(h.qdcount);
    lemma_word_split(h.ancount);
    lemma_word_split(h.nscount);
    lemma_word_split(h.arcount);
    let r = header_from_bytes(b)->0;
    assert(r == h);
}

/// Packing a header that was unpacked from twelve bytes gives those twelve bytes back.
pub proof fn lemma_header_pack_unpack(b: Seq<u8>)
    requires
        b.len() == 12,
        header_from_bytes(b) is Some,
    ensures
        header_bytes(header_from_bytes(b)->0) == b,
{
    let h = header_from_bytes(b)->0;
    lemma_byte_fields_join(b[2]);
    lemma_low_fields_join(b[3]);
    lemma_word_join(b[0], b[1]);
    lemma_word_join(b[4], b[5]);
    lemma_word_join(b[6], b[7]);
    lemma_word_join(b[8], b[9]);
    lemma_word_join(b[10], b[11]);
    assert(header_bytes(h) =~= b);
}

} // verus!
