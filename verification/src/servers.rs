//! The decisions the DNS servers make about each query and reply; the sockets, the
//! timers and the datastore channel are driven by the caller.

use crate::enums::{rt_supported, Agent, OpCode, PacketType, Rcode, RecordClass, RecordType};
use crate::error::GoatNsError;
use crate::external::{lowered, str_from_utf8};
use crate::bytes::{be_bytes, extend_bytes, push_be};
use crate::header::{default_header, header_bytes, header_from_bytes, Header};
use crate::question::{question_from_bytes, same_question, Question};
use crate::reply::{
    any_answer, built_header, has_axfr_answer, reply_any, reply_builder, reply_bytes,
    reply_nxdomain, Reply,
};
use crate::resourcerecord::{rr_type, DNSCharString, InternalResourceRecord, Platform};
use crate::{HEADER_BYTES, UDP_BUFFER_SIZE};
use vstd::prelude::*;
use vstd::string::StringSliceAdditionalSpecFns;
use vstd::utf8::{decode_utf8, encode_utf8, valid_utf8};

verus! {

/// The records the datastore found for a name.
#[derive(Debug)]
pub struct ZoneRecord {
    /// The name that was looked up
    pub name: Vec<u8>,
    /// The records of the requested type and class
    pub typerecords: Vec<InternalResourceRecord>,
}

/// What answering a query needs next.
pub enum QueryStep {
    /// The query is answered (or refused) without the datastore.
    Done(Result<Reply, String>),
    /// The datastore must be asked for the records of the question's name, type and class;
    /// then [finish_lookup] builds the reply.
    Lookup { header: Header, question: Question },
}

/// What came back from asking the datastore.
pub enum LookupOutcome {
    /// The datastore did not answer
    ChannelFailed,
    /// No records for the name, type and class
    NotFound,
    /// The records found
    Found(ZoneRecord),
}

/// The ways a well-formed question is dealt with before any lookup.
pub enum QuestionPlan {
    /// The type is not one the server answers
    NotImplemented,
    /// A CHAOS-class `shutdown` request: echoed back as is
    Shutdown,
    /// An ANY request
    Any,
    /// Look the records up
    Lookup,
}

/// The text `shutdown` that asks the server to stop.
pub open spec fn shutdown_name() -> Seq<char> {
    "shutdown"@
}

/// How a question is dealt with; `None` when its name cannot be read as text.
pub open spec fn question_plan(qname: Seq<u8>, qtype: RecordType, qclass: RecordClass) -> Option<
    QuestionPlan,
> {
    if !rt_supported(qtype) {
        Some(QuestionPlan::NotImplemented)
    } else if qclass == RecordClass::Chaos && !valid_utf8(qname) {
        None
    } else if qclass == RecordClass::Chaos && lowered(decode_utf8(qname)) == shutdown_name() {
        Some(QuestionPlan::Shutdown)
    } else if qtype == RecordType::ANY {
        Some(QuestionPlan::Any)
    } else {
        Some(QuestionPlan::Lookup)
    }
}

/// The header of a reply built from records found for a query: the query's ID, opcode and
/// recursion-desired bit, authoritative, one question, as many answers as records and as
/// many name servers as NS records among them (both modulo 65536).
pub open spec fn found_header(query: Header, answers: Seq<InternalResourceRecord>) -> Header {
    Header {
        id: query.id,
        qr: PacketType::Answer,
        opcode: query.opcode,
        authoritative: true,
        truncated: false,
        recursion_desired: query.recursion_desired,
        recursion_available: false,
        z: false,
        ad: false,
        cd: false,
        rcode: Rcode::NoError,
        qdcount: 1,
        ancount: (answers.len() % 65536) as u16,
        nscount: (count_ns(answers) % 65536) as u16,
        arcount: 0,
    }
}

/// The number of NS records in `rs`.
pub open spec fn count_ns(rs: Seq<InternalResourceRecord>) -> nat
    decreases rs.len(),
{
    if rs.len() == 0 {
        0
    } else {
        count_ns(rs.drop_last()) + if rr_type(rs.last()) == RecordType::NS {
            1nat
        } else {
            0nat
        }
    }
}

fn count_ns_records(rs: &Vec<InternalResourceRecord>) -> (n: u16)
    ensures
        n == count_ns(rs@) % 65536,
{
    let mut n: u16 = 0;
    let mut i: usize = 0;
    while i < rs.len()
        invariant
            0 <= i <= rs@.len(),
            n == count_ns(rs@.take(i as int)) % 65536,
        decreases rs@.len() - i,
    {
        assert(rs@.take(i + 1).drop_last() =~= rs@.take(i as int));
        if rs[i].is_type(RecordType::NS) {
            n = if n == 65535 {
                0
            } else {
                n + 1
            };
        }
        i = i + 1;
    }
    assert(rs@.take(rs@.len() as int) =~= rs@);
    n
}

/// Decides how a question is dealt with, see [question_plan].
pub fn plan_question(q: &Question) -> (r: Result<QuestionPlan, String>)
    ensures
        match question_plan(q.qname@, q.qtype, q.qclass) {
            Some(p) => r matches Ok(x) && x == p,
            None => r is Err,
        },
{
    if !q.qtype.supported() {
        return Ok(QuestionPlan::NotImplemented);
    }
    if q.qclass.code() == 3 {
        let name = q.normalized_name()?;
        if crate::bytes::str_equal(name.as_str(), "shutdown") {
            return Ok(QuestionPlan::Shutdown);
        }
    }
    match q.qtype {
        RecordType::ANY => Ok(QuestionPlan::Any),
        _ => Ok(QuestionPlan::Lookup),
    }
}

/// Whether a reply carries no answer, authority or additional records.
pub open spec fn empty_sections(reply: Reply) -> bool {
    reply.answers@.len() == 0 && reply.authorities@.len() == 0 && reply.additional@.len() == 0
}

/// What answering a query with header `header` and question section `section` comes to:
/// an error for an opcode other than QUERY; SERVFAIL for a question that does not parse;
/// then as [question_plan] decides: an error, NOTIMP, the query echoed back for a CHAOS
/// `shutdown`, the RFC8482 answer for ANY, or a lookup of the question.
pub open spec fn query_step(r: QueryStep, header: Header, section: Seq<u8>) -> bool {
    &&& (header.opcode != OpCode::Query ==> (r matches QueryStep::Done(Err(_))))
    &&& header.opcode == OpCode::Query ==> match question_from_bytes(section) {
        None => r matches QueryStep::Done(Ok(reply)) && reply.header == built_header(header.id, Rcode::ServFail)
            && reply.question is None && empty_sections(reply),
        Some((qname, qtype, qclass)) => {
            match question_plan(qname, qtype, qclass) {
                None => r matches QueryStep::Done(Err(_)),
                Some(QuestionPlan::NotImplemented) => r matches QueryStep::Done(Ok(reply))
                    && reply.header == built_header(header.id, Rcode::NotImplemented)
                    && reply.question is None && empty_sections(reply),
                Some(QuestionPlan::Shutdown) => r matches QueryStep::Done(Ok(reply))
                    && reply.header == header && (reply.question matches Some(x) && x.qname@ == qname
                    && x.qtype == qtype && x.qclass == qclass) && empty_sections(reply),
                Some(QuestionPlan::Any) => r matches QueryStep::Done(Ok(reply))
                    && reply.header == (Header {
                        id: header.id,
                        qr: PacketType::Answer,
                        rcode: Rcode::NoError,
                        authoritative: true,
                        qdcount: 1,
                        ancount: 1,
                        ..default_header()
                    }) && (reply.question matches Some(x) && x.qname@ == qname && x.qtype == qtype
                    && x.qclass == qclass) && reply.answers@.len() == 1 && any_answer(reply.answers@[0], qclass)
                    && reply.authorities@.len() == 0 && reply.additional@.len() == 0,
                Some(QuestionPlan::Lookup) => r matches QueryStep::Lookup { header: h, question: x }
                    && h == header && x.qname@ == qname && x.qtype == qtype && x.qclass == qclass,
            }
        },
    }
}

/// The generic handler for the packets once they've been pulled out of their protocol
/// handlers: `buf[12..len]` is the question section of a query whose header is `header`.
///
/// A query whose opcode is not QUERY is an error; a question that cannot be parsed is
/// answered with SERVFAIL, an unsupported type with NOTIMP, a CHAOS `shutdown` is echoed
/// back, an ANY query gets the RFC8482 answer, and anything else needs a lookup.
pub fn get_result(header: Header, len: usize, buf: &[u8]) -> (r: QueryStep)
    requires
        HEADER_BYTES <= len <= buf@.len(),
    ensures
        query_step(r, header, buf@.subrange(HEADER_BYTES as int, len as int)),
{
    if header.opcode.code() != 0 {
        return QueryStep::Done(Err(String::from_str("Invalid OPCODE")));
    }
    let section = vstd::slice::slice_subrange(buf, HEADER_BYTES, len);
    let question = match Question::from_packets(section) {
        Ok(value) => value,
        Err(_) => return QueryStep::Done(reply_builder(header.id, Rcode::ServFail)),
    };
    match plan_question(&question) {
        Err(e) => QueryStep::Done(Err(e)),
        Ok(QuestionPlan::NotImplemented) => QueryStep::Done(reply_builder(header.id, Rcode::NotImplemented)),
        Ok(QuestionPlan::Shutdown) => QueryStep::Done(
            Ok(
                Reply {
                    header,
                    question: Some(question),
                    answers: Vec::new(),
                    authorities: Vec::new(),
                    additional: Vec::new(),
                },
            ),
        ),
        Ok(QuestionPlan::Any) => QueryStep::Done(reply_any(header.id, &question)),
        Ok(QuestionPlan::Lookup) => QueryStep::Lookup { header, question },
    }
}

/// What a CHAOS-class check of a reply decided.
pub enum ChaosResult {
    /// The request is refused; the reply says so
    Refused(Reply),
    /// The server shuts down; the reply says so
    Shutdown(Reply),
    /// The reply is not to a shutdown request; it goes out as it is
    Unchanged(Reply),
}

/// A CHAOS-class TXT answer with TTL 0 holding `text`.
pub open spec fn chaos_txt(x: InternalResourceRecord, text: Seq<u8>) -> bool {
    x matches InternalResourceRecord::TXT { txtdata, ttl, class } && txtdata.data@ == text && ttl == 0
        && class == RecordClass::Chaos
}

/// `r` with one more answer after the others that satisfies [chaos_txt] for `text`, and
/// with response code `rcode`; its question the same.
pub open spec fn with_chaos_answer(x: Reply, r: Reply, text: Seq<u8>, rcode: Rcode) -> bool {
    &&& x.header == Header { rcode, ..r.header }
    &&& match (x.question, r.question) {
        (Some(a), Some(b)) => same_question(a, b),
        (None, None) => true,
        _ => false,
    }
    &&& x.answers@.len() == r.answers@.len() + 1
    &&& x.answers@.take(r.answers@.len() as int) == r.answers@
    &&& chaos_txt(x.answers@.last(), text)
}

/// Whether the reply answers a CHAOS-class question.
pub open spec fn chaos_question(r: Reply) -> bool {
    r.question matches Some(q) && q.qclass == RecordClass::Chaos
}

fn chaos_answer(ok: bool) -> (x: InternalResourceRecord)
    ensures
        chaos_txt(x, if ok { seq![79u8, 75u8] } else { seq![78u8, 79u8] }),
{
    let data: Vec<u8> = if ok {
        vec![79u8, 75u8]
    } else {
        vec![78u8, 79u8]
    };
    proof {
        if ok {
            assert(data@ =~= seq![79u8, 75u8]);
        } else {
            assert(data@ =~= seq![78u8, 79u8]);
        }
    }
    InternalResourceRecord::TXT { txtdata: DNSCharString { data }, ttl: 0, class: RecordClass::Chaos }
}

/// Whether the reply answers a CHAOS-class question for the name `shutdown` (in UTF-8).
pub open spec fn shutdown_request(r: Reply) -> bool {
    chaos_question(r) && valid_utf8(r.question->0.qname@) && decode_utf8(r.question->0.qname@)
        == shutdown_name()
}

/// Handles a CHAOS `shutdown` request. When the reply answers a CHAOS-class question for
/// the name `shutdown`: if shutting down is allowed the reply gets a TXT "OK" answer and
/// the server shuts down, else it gets a TXT "NO" answer and REFUSED. Every other reply
/// goes out unchanged. A CHAOS-class name that is not UTF-8 is an error.
pub fn check_for_shutdown(r: Reply, allowed_shutdown: bool) -> (res: Result<ChaosResult, GoatNsError>)
    ensures
        chaos_question(r) && !valid_utf8(r.question->0.qname@) ==> (res matches Err(e) && e is Utf8Error),
        shutdown_request(r) && allowed_shutdown ==> (res matches Ok(ChaosResult::Shutdown(x))
            && with_chaos_answer(x, r, seq![79u8, 75u8], r.header.rcode)),
        shutdown_request(r) && !allowed_shutdown ==> (res matches Ok(ChaosResult::Refused(x))
            && with_chaos_answer(x, r, seq![78u8, 79u8], Rcode::Refused)),
        !chaos_question(r) || (valid_utf8(r.question->0.qname@) && !shutdown_request(r)) ==> (res matches Ok(
            ChaosResult::Unchanged(x),
        ) && x == r),
{
    let mut is_request = false;
    match &r.question {
        Some(q) => {
            if q.qclass.code() == 3 {
                let qname = match str_from_utf8(q.qname.as_slice()) {
                    Ok(value) => value,
                    Err(_) => {
                        return Err(GoatNsError::Utf8Error(String::from_str("Failed to parse the query name")));
                    },
                };
                proof {
                    broadcast use vstd::utf8::encode_utf8_decode_utf8;

                    assert(decode_utf8(encode_utf8(qname@)) == qname@);
                }
                if crate::bytes::str_equal(qname, "shutdown") {
                    is_request = true;
                }
            }
        },
        None => {},
    }
    if !is_request {
        return Ok(ChaosResult::Unchanged(r));
    }
    let ghost old_answers = r.answers@;
    let mut reply = r;
    reply.answers.push(chaos_answer(allowed_shutdown));
    assert(reply.answers@.take(old_answers.len() as int) =~= old_answers);
    if allowed_shutdown {
        Ok(ChaosResult::Shutdown(reply))
    } else {
        reply.header.rcode = Rcode::Refused;
        Ok(ChaosResult::Refused(reply))
    }
}

/// Parses a query: its header from the first twelve bytes of `buf`, then the rest as
/// [get_result] does; a query shorter than a header, or a header that does not unpack, is
/// an error.
pub fn parse_query(len: usize, buf: &[u8]) -> (r: Result<QueryStep, String>)
    requires
        len <= buf@.len(),
    ensures
        len < HEADER_BYTES ==> r is Err,
        len >= HEADER_BYTES && header_from_bytes(buf@) is None ==> r is Err,
        len >= HEADER_BYTES ==> (header_from_bytes(buf@) matches Some(h) ==> (r matches Ok(step)
            && query_step(step, h, buf@.subrange(HEADER_BYTES as int, len as int)))),
{
    if len < HEADER_BYTES {
        return Err(String::from_str("Query shorter than a header"));
    }
    let header = match Header::unpack(buf) {
        Ok(value) => value,
        Err(_) => {
            return Err(String::from_str("Failed to parse header"));
        },
    };
    Ok(get_result(header, len, buf))
}

/// Builds the reply once the datastore has been asked: SERVFAIL when it did not answer,
/// NXDOMAIN when it found nothing, and otherwise the records found as the answers, under
/// [found_header].
pub fn finish_lookup(header: Header, question: Question, outcome: LookupOutcome) -> (r: Result<Reply, String>)
    ensures
        outcome is ChannelFailed ==> (r matches Ok(reply) && reply.header == built_header(header.id, Rcode::ServFail)
            && reply.question is None && empty_sections(reply)),
        outcome is NotFound ==> (r matches Ok(reply) && reply.header == built_header(header.id, Rcode::NameError)
            && reply.question is None && empty_sections(reply)),
        outcome matches LookupOutcome::Found(zr) ==> (r matches Ok(reply) && reply.header == found_header(
            header,
            zr.typerecords@,
        ) && (reply.question matches Some(q) && same_question(q, question)) && reply.answers@ == zr.typerecords@
            && reply.authorities@.len() == 0 && reply.additional@.len() == 0),
{
    match outcome {
        LookupOutcome::ChannelFailed => reply_builder(header.id, Rcode::ServFail),
        LookupOutcome::NotFound => reply_nxdomain(header.id),
        LookupOutcome::Found(record) => {
            let nscount = count_ns_records(&record.typerecords);
            let ancount: u16 = (record.typerecords.len() % 65536) as u16;
            let ghost answers = record.typerecords@;
            let reply = Reply {
                header: Header {
                    id: header.id,
                    qr: PacketType::Answer,
                    opcode: header.opcode,
                    authoritative: true,
                    truncated: false,
                    recursion_desired: header.recursion_desired,
                    recursion_available: false,
                    z: false,
                    ad: false,
                    cd: false,
                    rcode: Rcode::NoError,
                    qdcount: 1,
                    ancount,
                    nscount,
                    arcount: 0,
                },
                question: Some(question),
                answers: record.typerecords,
                authorities: Vec::new(),
                additional: Vec::new(),
            };
            Ok(reply)
        },
    }
}

/// The reply with the truncated flag set.
pub open spec fn truncated_reply(r: Reply) -> Reply {
    Reply { header: Header { truncated: true, ..r.header }, ..r }
}

/// The bytes a UDP reply goes out as: the reply's bytes when they fit in
/// [UDP_BUFFER_SIZE] octets; otherwise the bytes of the reply with the truncated flag
/// set, cut to [UDP_BUFFER_SIZE] octets. An error when the reply cannot be written.
pub fn udp_reply_bytes(reply: Reply, platform: &Platform) -> (r: Result<Vec<u8>, GoatNsError>)
    requires
        !has_axfr_answer(reply),
    ensures
        match reply_bytes(reply, encode_utf8(platform.arch@), encode_utf8(platform.os@)) {
            None => r is Err,
            Some(b) => r matches Ok(v) && (if b.len() <= UDP_BUFFER_SIZE {
                v@ == b
            } else {
                reply_bytes(truncated_reply(reply), encode_utf8(platform.arch@), encode_utf8(platform.os@))
                    matches Some(tb) && v@ == tb.take(UDP_BUFFER_SIZE as int)
            }),
        },
        r matches Ok(v) ==> v@.len() <= UDP_BUFFER_SIZE,
{
    let value = reply.as_bytes(platform)?;
    if value.len() > UDP_BUFFER_SIZE {
        let cut = reply.check_set_truncated(platform);
        assert(cut == truncated_reply(reply));
        cut.as_bytes_udp(platform)
    } else {
        Ok(value)
    }
}

/// A UDP reply that had to be cut says so: the reply with the truncated flag set has bytes
/// as long as the reply's, and the header at the front of its cut bytes has the truncated
/// flag set.
pub proof fn lemma_udp_cut_sets_truncated(reply: Reply, arch: Seq<u8>, os: Seq<u8>)
    requires
        reply_bytes(reply, arch, os) matches Some(b) && b.len() > UDP_BUFFER_SIZE,
    ensures
        reply_bytes(truncated_reply(reply), arch, os) matches Some(tb) && tb.len() == reply_bytes(reply, arch, os)->0.len()
            && (header_from_bytes(tb.take(UDP_BUFFER_SIZE as int)) matches Some(h) && h.truncated),
{
    let t = truncated_reply(reply);
    let h = crate::reply::reply_header(t);
    crate::header::lemma_header_unpack_pack(h);
    let tb = reply_bytes(t, arch, os)->0;
    assert(tb.take(UDP_BUFFER_SIZE as int).subrange(0, 12) =~= header_bytes(h));
    assert forall|i: int| 0 <= i < 12 implies tb.take(UDP_BUFFER_SIZE as int)[i] == header_bytes(h)[i] by {}
}

/// The bytes of a TCP reply: the reply's length as two big-endian bytes, then the reply.
/// The length is taken modulo 65536.
pub fn tcp_frame(reply_bytes: &Vec<u8>) -> (r: Vec<u8>)
    ensures
        r@ == be_bytes((reply_bytes@.len() % 65536) as int, 2) + reply_bytes@,
{
    let mut out: Vec<u8> = Vec::new();
    let n: u16 = (reply_bytes.len() % 65536) as u16;
    push_be(&mut out, n as u128, 2);
    extend_bytes(&mut out, reply_bytes.as_slice());
    out
}

/// Which of the servers were started, and of those which have finished.
#[derive(Debug, Clone, Copy)]
pub struct ServerStates {
    /// `None` when the API server was not started, else whether it has finished
    pub apiserver: Option<bool>,
    /// `None` when the datastore was not started, else whether it has finished
    pub datastore: Option<bool>,
    /// `None` when the TCP server was not started, else whether it has finished
    pub tcpserver: Option<bool>,
    /// `None` when the UDP server was not started, else whether it has finished
    pub udpserver: Option<bool>,
}

/// The agents whose servers have finished, in the order API, datastore, TCP, UDP.
pub open spec fn finished_agents(s: ServerStates) -> Seq<Agent> {
    (if s.apiserver == Some(true) { seq![Agent::API] } else { Seq::empty() })
        + (if s.datastore == Some(true) { seq![Agent::Datastore] } else { Seq::empty() })
        + (if s.tcpserver == Some(true) { seq![Agent::TCPServer] } else { Seq::empty() })
        + (if s.udpserver == Some(true) { seq![Agent::UDPServer] } else { Seq::empty() })
}

impl ServerStates {
    /// The agents to announce as stopped, see [finished_agents].
    pub fn stopped_agents(&self) -> (r: Vec<Agent>)
        ensures
            r@ == finished_agents(*self),
    {
        let mut r: Vec<Agent> = Vec::new();
        if self.apiserver == Some(true) {
            r.push(Agent::API);
        }
        if self.datastore == Some(true) {
            r.push(Agent::Datastore);
        }
        if self.tcpserver == Some(true) {
            r.push(Agent::TCPServer);
        }
        if self.udpserver == Some(true) {
            r.push(Agent::UDPServer);
        }
        assert(r@ =~= finished_agents(*self));
        r
    }

    /// Whether any started server has finished.
    pub fn all_finished(&self) -> (r: bool)
        ensures
            r == (finished_agents(*self).len() > 0),
    {
        let agents = self.stopped_agents();
        agents.len() > 0
    }
}


/// The protocol a query came in over.
#[derive(Debug, Clone, Copy, PartialEq, Eq)]
pub enum QueryProtocol {
    Udp,
    Tcp,
    DoH,
}

/// The name of a query protocol.
pub open spec fn protocol_name(p: QueryProtocol) -> Seq<char> {
    match p {
        QueryProtocol::Udp => "UDP"@,
        QueryProtocol::Tcp => "TCP"@,
        QueryProtocol::DoH => "DoH"@,
    }
}

impl QueryProtocol {
    /// The protocol's name, see [protocol_name].
    pub fn to_string(&self) -> (r: String)
        ensures
            r@ == protocol_name(*self),
    {
        match self {
            QueryProtocol::Udp => String::from_str("UDP"),
            QueryProtocol::Tcp => String::from_str("TCP"),
            QueryProtocol::DoH => String::from_str("DoH"),
        }
    }
}

/// Which query types are answered: an IN-class question of type A, AAAA, CAA, CNAME, HINFO,
/// LOC, MX, NS, PTR, SOA, TXT or URI is looked up, one of type ANY gets the RFC8482
/// answer, and a question of any other type is answered NOTIMP.
pub proof fn lemma_answered_types(qname: Seq<u8>, qtype: RecordType)
    ensures
        question_plan(qname, qtype, RecordClass::Internet) == Some(
            if qtype == RecordType::ANY {
                QuestionPlan::Any
            } else if qtype == RecordType::A || qtype == RecordType::AAAA || qtype == RecordType::CAA
                || qtype == RecordType::CNAME || qtype == RecordType::HINFO || qtype == RecordType::LOC
                || qtype == RecordType::MX || qtype == RecordType::NS || qtype == RecordType::PTR
                || qtype == RecordType::SOA || qtype == RecordType::TXT || qtype == RecordType::URI {
                QuestionPlan::Lookup
            } else {
                QuestionPlan::NotImplemented
            },
        ),
{
}

/// The name server count of a reply built from found records is the number of NS records
/// among them (modulo 65536): each NS answer adds one and no other answer counts.
pub proof fn lemma_found_nscount(query: Header, answers: Seq<InternalResourceRecord>)
    ensures
        found_header(query, answers).nscount as int == answers.filter(
            |x: InternalResourceRecord| x is NS,
        ).len() % 65536,
{
    lemma_count_ns_filter(answers);
}

proof fn lemma_count_ns_filter(rs: Seq<InternalResourceRecord>)
    ensures
        count_ns(rs) == rs.filter(|x: InternalResourceRecord| x is NS).len(),
    decreases rs.len(),
{
    reveal(Seq::filter);
    if rs.len() > 0 {
        lemma_count_ns_filter(rs.drop_last());
    }
}

} // verus!
