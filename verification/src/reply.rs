//! Replies: what the server sends back, and how it goes on the wire.

use crate::enums::{PacketType, Rcode, RecordClass};
use crate::error::GoatNsError;
use crate::header::{default_header, header_bytes, header_from_bytes, Header};
use crate::question::{question_bytes, same_question, Question};
use crate::resourcerecord::{
    rdata_bytes, rr_ttl, rr_type, rr_wire_bytes, DNSCharString, InternalResourceRecord, Platform,
    ResourceRecord,
};
use crate::UDP_BUFFER_SIZE;
use vstd::prelude::*;
use vstd::utf8::encode_utf8;

verus! {

/// A reply to a query.
#[derive(Debug, Clone)]
pub struct Reply {
    pub header: Header,
    pub question: Option<Question>,
    pub answers: Vec<InternalResourceRecord>,
    pub authorities: Vec<ResourceRecord>,
    pub additional: Vec<ResourceRecord>,
}

/// The TTL an answer goes out with: its own, or 1 for the invalid type.
pub open spec fn answer_ttl(a: InternalResourceRecord) -> u32 {
    if a is InvalidType {
        1
    } else {
        rr_ttl(a)
    }
}

/// One answer on the wire: owner name pointing at the query name, the answer's type, the
/// question's class, the answer's TTL and its RDATA compressed against the query name.
pub open spec fn answer_bytes(
    a: InternalResourceRecord,
    qname: Seq<u8>,
    qclass: RecordClass,
    arch: Seq<u8>,
    os: Seq<u8>,
) -> Option<Seq<u8>> {
    match rdata_bytes(a, qname, arch, os) {
        Some(rd) => Some(rr_wire_bytes(rr_type(a), qclass, answer_ttl(a), rd)),
        None => None,
    }
}

/// All answers on the wire, in order; `None` if one of them cannot be written.
pub open spec fn answers_bytes(
    answers: Seq<InternalResourceRecord>,
    qname: Seq<u8>,
    qclass: RecordClass,
    arch: Seq<u8>,
    os: Seq<u8>,
) -> Option<Seq<u8>>
    decreases answers.len(),
{
    if answers.len() == 0 {
        Some(Seq::empty())
    } else {
        match (
            answers_bytes(answers.drop_last(), qname, qclass, arch, os),
            answer_bytes(answers.last(), qname, qclass, arch, os),
        ) {
            (Some(front), Some(last)) => Some(front + last),
            _ => None,
        }
    }
}

/// The header a reply goes out with: its own, with ANCOUNT set to the number of answers
/// (modulo 65536).
pub open spec fn reply_header(r: Reply) -> Header {
    Header { ancount: (r.answers@.len() % 65536) as u16, ..r.header }
}

/// A reply on the wire: the header, then, if there is a question, the question and every
/// answer. Authority and additional records are not written.
pub open spec fn reply_bytes(r: Reply, arch: Seq<u8>, os: Seq<u8>) -> Option<Seq<u8>> {
    match r.question {
        None => Some(header_bytes(reply_header(r))),
        Some(q) => match (
            question_bytes(q.qname@, q.qtype, q.qclass),
            answers_bytes(r.answers@, q.qname@, q.qclass, arch, os),
        ) {
            (Some(qb), Some(ab)) => Some(header_bytes(reply_header(r)) + qb + ab),
            _ => None,
        },
    }
}

/// Whether a reply holds an answer that has no wire form.
pub open spec fn has_axfr_answer(r: Reply) -> bool {
    r.question is Some && exists|i: int| 0 <= i < r.answers@.len() && (#[trigger] r.answers@[i]) is AXFR
}

fn answer_to_bytes(a: &InternalResourceRecord, question: &Question, platform: &Platform) -> (r:
    Result<Vec<u8>, GoatNsError>)
    requires
        !(*a is AXFR),
    ensures
        match answer_bytes(*a, question.qname@, question.qclass, encode_utf8(platform.arch@), encode_utf8(platform.os@)) {
            Some(b) => r matches Ok(v) && v@ == b,
            None => r is Err,
        },
{
    let ttl: u32 = match a {
        InternalResourceRecord::InvalidType => 1,
        _ => a.ttl(),
    };
    let answer_record = ResourceRecord {
        name: question.qname.clone(),
        record_type: a.record_type(),
        class: question.qclass,
        ttl,
        rdata: a.as_bytes(&question.qname, platform)?,
    };
    answer_record.to_bytes()
}

impl Reply {
    /// Turns the reply into the bytes to send back to the client, see [reply_bytes].
    pub fn as_bytes(&self, platform: &Platform) -> (r: Result<Vec<u8>, GoatNsError>)
        requires
            !has_axfr_answer(*self),
        ensures
            match reply_bytes(*self, encode_utf8(platform.arch@), encode_utf8(platform.os@)) {
                Some(b) => r matches Ok(v) && v@ == b,
                None => r is Err,
            },
    {
        let mut header = self.header;
        header.ancount = (self.answers.len() % 65536) as u16;
        let mut retval = header.pack();
        match &self.question {
            None => {},
            Some(question) => {
                let mut qb = question.try_to_bytes()?;
                retval.append(&mut qb);
                let ghost start = retval@;
                let ghost arch = encode_utf8(platform.arch@);
                let ghost os = encode_utf8(platform.os@);
                let mut i: usize = 0;
                while i < self.answers.len()
                    invariant
                        0 <= i <= self.answers@.len(),
                        self.question == Some(*question),
                        !has_axfr_answer(*self),
                        answers_bytes(self.answers@.take(i as int), question.qname@, question.qclass, arch, os)
                            matches Some(done) && retval@ == start + done,
                        arch == encode_utf8(platform.arch@),
                        os == encode_utf8(platform.os@),
                    decreases self.answers@.len() - i,
                {
                    let a = &self.answers[i];
                    assert(!(self.answers@[i as int] is AXFR));
                    let ghost prev = retval@;
                    let mut ab = match answer_to_bytes(a, question, platform) {
                        Ok(v) => v,
                        Err(e) => {
                            proof {
                                lemma_answers_bytes_fail(self.answers@, i as int, question.qname@, question.qclass, arch, os);
                            }
                            return Err(e);
                        },
                    };
                    retval.append(&mut ab);
                    proof {
                        assert(self.answers@.take(i + 1).drop_last() =~= self.answers@.take(i as int));
                        assert(self.answers@.take(i + 1).last() == self.answers@[i as int]);
                    }
                    i = i + 1;
                }
                assert(self.answers@.take(self.answers@.len() as int) =~= self.answers@);
            },
        }
        Ok(retval)
    }

    /// The reply's bytes, cut to [UDP_BUFFER_SIZE] octets.
    pub fn as_bytes_udp(&self, platform: &Platform) -> (r: Result<Vec<u8>, GoatNsError>)
        requires
            !has_axfr_answer(*self),
        ensures
            match reply_bytes(*self, encode_utf8(platform.arch@), encode_utf8(platform.os@)) {
                Some(b) => r matches Ok(v) && v@ == (if b.len() > UDP_BUFFER_SIZE {
                    b.take(UDP_BUFFER_SIZE as int)
                } else {
                    b
                }),
                None => r is Err,
            },
    {
        let mut result = self.as_bytes(platform)?;
        if result.len() > UDP_BUFFER_SIZE {
            result.truncate(UDP_BUFFER_SIZE);
        }
        Ok(result)
    }

    /// The reply with the truncated flag set when its bytes are over [UDP_BUFFER_SIZE]
    /// octets; otherwise (or when it cannot be written) the same reply.
    pub fn check_set_truncated(self, platform: &Platform) -> (r: Reply)
        requires
            !has_axfr_answer(self),
        ensures
            r == (if reply_bytes(self, encode_utf8(platform.arch@), encode_utf8(platform.os@))
                matches Some(b) && b.len() > UDP_BUFFER_SIZE {
                Reply { header: Header { truncated: true, ..self.header }, ..self }
            } else {
                self
            }),
    {
        let long = match self.as_bytes(platform) {
            Ok(ret_bytes) => ret_bytes.len() > UDP_BUFFER_SIZE,
            Err(_) => false,
        };
        let mut r = self;
        if long {
            r.header.truncated = true;
        }
        r
    }
}

proof fn lemma_answers_bytes_fail(
    answers: Seq<InternalResourceRecord>,
    i: int,
    qname: Seq<u8>,
    qclass: RecordClass,
    arch: Seq<u8>,
    os: Seq<u8>,
)
    requires
        0 <= i < answers.len(),
        answer_bytes(answers[i], qname, qclass, arch, os) is None,
    ensures
        answers_bytes(answers, qname, qclass, arch, os) is None,
    decreases answers.len(),
{
    if i < answers.len() - 1 {
        lemma_answers_bytes_fail(answers.drop_last(), i, qname, qclass, arch, os);
    }
}

/// The header of a reply that has only a header: an answer to `id` with response code
/// `rcode`, every other field as in [default_header].
pub open spec fn built_header(id: u16, rcode: Rcode) -> Header {
    Header { id, qr: PacketType::Answer, rcode, ..default_header() }
}

/// Want a generic empty reply with an ID and an RCODE? Here's your function.
pub fn reply_builder(id: u16, rcode: Rcode) -> (r: Result<Reply, String>)
    ensures
        r matches Ok(reply) && reply.header == built_header(id, rcode) && reply.question is None
            && reply.answers@.len() == 0 && reply.authorities@.len() == 0
            && reply.additional@.len() == 0,
{
    let mut header = Header::default();
    header.id = id;
    header.qr = PacketType::Answer;
    header.rcode = rcode;
    Ok(Reply {
        header,
        question: None,
        answers: Vec::new(),
        authorities: Vec::new(),
        additional: Vec::new(),
    })
}

/// Build a NXDOMAIN response (RFC 2308 2.1 Name Error)
pub fn reply_nxdomain(id: u16) -> (r: Result<Reply, String>)
    ensures
        r matches Ok(reply) && reply.header == built_header(id, Rcode::NameError)
            && reply.question is None && reply.answers@.len() == 0 && reply.authorities@.len() == 0
            && reply.additional@.len() == 0,
{
    reply_builder(id, Rcode::NameError)
}

/// The one answer to an ANY query (RFC8482): a HINFO record "RFC8482" "" with TTL 3789
/// in the question's class.
pub open spec fn any_answer(hinfo: InternalResourceRecord, qclass: RecordClass) -> bool {
    hinfo matches InternalResourceRecord::HINFO { cpu: Some(cpu), os: Some(os), ttl, rclass }
        && cpu.data@ == "RFC8482"@.map_values(|c: char| c as u8) && os.data@.len() == 0 && ttl == 3789
        && rclass == qclass
}

/// Reply to an ANY request with a HINFO "RFC8482" "" response
pub fn reply_any(id: u16, question: &Question) -> (r: Result<Reply, String>)
    ensures
        r matches Ok(reply) && reply.header == (Header {
            id,
            qr: PacketType::Answer,
            rcode: Rcode::NoError,
            authoritative: true,
            qdcount: 1,
            ancount: 1,
            ..default_header()
        }) && (reply.question matches Some(q) && same_question(q, *question)) && reply.answers@.len() == 1 && any_answer(
            reply.answers@[0],
            question.qclass,
        ) && reply.authorities@.len() == 0 && reply.additional@.len() == 0,
{
    let mut header = Header::default();
    header.id = id;
    header.qr = PacketType::Answer;
    header.rcode = Rcode::NoError;
    header.authoritative = true;
    header.qdcount = 1;
    header.ancount = 1;
    let cpu = DNSCharString { data: vec![82u8, 70, 67, 56, 52, 56, 50] };
    let os = DNSCharString { data: Vec::new() };
    proof {
        reveal_strlit("RFC8482");
        assert(cpu.data@ =~= "RFC8482"@.map_values(|c: char| c as u8));
    }
    let mut answers: Vec<InternalResourceRecord> = Vec::new();
    answers.push(InternalResourceRecord::HINFO { cpu: Some(cpu), os: Some(os), ttl: 3789, rclass: question.qclass });
    Ok(Reply {
        header,
        question: Some(question.clone_question()),
        answers,
        authorities: Vec::new(),
        additional: Vec::new(),
    })
}


/// A reply's bytes start with its header, ANCOUNT set to the number of its answers: they
/// unpack to [reply_header].
pub proof fn lemma_reply_header_reads_back(r: Reply, arch: Seq<u8>, os: Seq<u8>)
    requires
        reply_bytes(r, arch, os) is Some,
    ensures
        header_from_bytes(reply_bytes(r, arch, os)->0) == Some(reply_header(r)),
{
    let h = reply_header(r);
    crate::header::lemma_header_unpack_pack(h);
    let b = reply_bytes(r, arch, os)->0;
    assert forall|i: int| 0 <= i < 12 implies b[i] == header_bytes(h)[i] by {}
}

} // verus!
