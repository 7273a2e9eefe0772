use goatns::enums::{Agent, OpCode, PacketType, Rcode, RecordClass, RecordType};
use goatns::header::Header;
use goatns::question::Question;
use goatns::reply::Reply;
use goatns::resourcerecord::{DNSCharString, InternalResourceRecord, Platform};
use goatns::servers::{
    check_for_shutdown, finish_lookup, parse_query, tcp_frame, udp_reply_bytes, ChaosResult,
    LookupOutcome, QueryStep, ServerStates, ZoneRecord,
};

fn platform() -> Platform {
    Platform {
        arch: "x86_64".to_string(),
        os: "linux".to_string(),
    }
}

fn query(id: u16, opcode_byte: u8, qname: &[u8], qtype: u16, qclass: u16) -> Vec<u8> {
    let mut buf = vec![(id >> 8) as u8, id as u8, opcode_byte, 0, 0, 1, 0, 0, 0, 0, 0, 0];
    for label in qname.split(|b| *b == b'.') {
        buf.push(label.len() as u8);
        buf.extend_from_slice(label);
    }
    buf.push(0);
    buf.extend_from_slice(&qtype.to_be_bytes());
    buf.extend_from_slice(&qclass.to_be_bytes());
    buf
}

#[test]
fn parse_query_lookup_and_any() {
    let buf = query(0x1234, 0x01, b"example.com", 1, 1);
    match parse_query(buf.len(), &buf).expect("query") {
        QueryStep::Lookup { header, question } => {
            assert_eq!(header.id, 0x1234);
            assert_eq!(question.qname, b"example.com".to_vec());
            assert_eq!(question.qtype, RecordType::A);
        }
        _ => panic!("Expected a lookup"),
    }
    let buf = query(5, 0x00, b"example.com", 255, 1);
    match parse_query(buf.len(), &buf).expect("query") {
        QueryStep::Done(Ok(reply)) => {
            assert_eq!(reply.header.ancount, 1);
            assert!(reply.header.authoritative);
        }
        _ => panic!("Expected the ANY answer"),
    }
}

#[test]
fn parse_query_errors() {
    // opcode 2 (status) is not answered
    let buf = query(1, 0x10, b"example.com", 1, 1);
    assert!(matches!(parse_query(buf.len(), &buf), Ok(QueryStep::Done(Err(_)))));
    // an unsupported type gets NOTIMP
    let buf = query(1, 0x00, b"example.com", 7, 1);
    match parse_query(buf.len(), &buf) {
        Ok(QueryStep::Done(Ok(reply))) => assert_eq!(reply.header.rcode, Rcode::NotImplemented),
        _ => panic!("Expected NOTIMP"),
    }
    // a question cut short gets SERVFAIL
    let buf = vec![0u8, 1, 0, 0, 0, 1, 0, 0, 0, 0, 0, 0, 3, b'c', b'o', b'm', 0, 0];
    match parse_query(buf.len(), &buf) {
        Ok(QueryStep::Done(Ok(reply))) => assert_eq!(reply.header.rcode, Rcode::ServFail),
        _ => panic!("Expected SERVFAIL"),
    }
    // an rcode of 15 in the header does not unpack
    let mut buf = query(1, 0x00, b"example.com", 1, 1);
    buf[3] = 0x0f;
    assert!(parse_query(buf.len(), &buf).is_err());
}

#[test]
fn chaos_shutdown_is_echoed_then_checked() {
    let buf = query(3, 0x00, b"shutdown", 16, 3);
    let reply = match parse_query(buf.len(), &buf) {
        Ok(QueryStep::Done(Ok(reply))) => reply,
        _ => panic!("Expected the query echoed back"),
    };
    assert_eq!(reply.header.id, 3);
    assert_eq!(reply.answers.len(), 0);
    let copy = Reply {
        header: reply.header,
        question: reply.question.clone(),
        answers: vec![],
        authorities: vec![],
        additional: vec![],
    };
    match check_for_shutdown(reply, true).expect("check") {
        ChaosResult::Shutdown(r) => match &r.answers[0] {
            InternalResourceRecord::TXT { txtdata, ttl, class } => {
                assert_eq!(txtdata.data, b"OK".to_vec());
                assert_eq!(*ttl, 0);
                assert_eq!(*class, RecordClass::Chaos);
            }
            _ => panic!("Expected TXT"),
        },
        _ => panic!("Expected shutdown"),
    }
    match check_for_shutdown(copy, false).expect("check") {
        ChaosResult::Refused(r) => {
            assert_eq!(r.header.rcode, Rcode::Refused);
            match &r.answers[0] {
                InternalResourceRecord::TXT { txtdata, .. } => assert_eq!(txtdata.data, b"NO".to_vec()),
                _ => panic!("Expected TXT"),
            }
        }
        _ => panic!("Expected refusal"),
    }
}

#[test]
fn finish_lookup_outcomes() {
    let header = Header::default();
    let q = Question {
        qname: b"example.com".to_vec(),
        qtype: RecordType::NS,
        qclass: RecordClass::Internet,
    };
    let r = finish_lookup(header, q.clone(), LookupOutcome::NotFound).unwrap();
    assert_eq!(r.header.rcode, Rcode::NameError);
    let r = finish_lookup(header, q.clone(), LookupOutcome::ChannelFailed).unwrap();
    assert_eq!(r.header.rcode, Rcode::ServFail);
    let zr = ZoneRecord {
        name: b"example.com".to_vec(),
        typerecords: vec![
            InternalResourceRecord::NS {
                nsdname: goatns::resourcerecord::DomainName::from_str("ns1.example.com"),
                ttl: 60,
                rclass: RecordClass::Internet,
            },
            InternalResourceRecord::TXT {
                txtdata: DNSCharString::from_str("x"),
                ttl: 60,
                class: RecordClass::Internet,
            },
        ],
    };
    let r = finish_lookup(header, q, LookupOutcome::Found(zr)).unwrap();
    assert_eq!(r.header.ancount, 2);
    assert_eq!(r.header.nscount, 1);
    assert_eq!(r.header.qr, PacketType::Answer);
    assert_eq!(r.header.opcode, OpCode::Query);
}

#[test]
fn udp_reply_is_cut_and_flagged() {
    let q = Question {
        qname: b"example.com".to_vec(),
        qtype: RecordType::TXT,
        qclass: RecordClass::Internet,
    };
    let mut answers = Vec::new();
    for _ in 0..10 {
        answers.push(InternalResourceRecord::TXT {
            txtdata: DNSCharString { data: vec![b'a'; 200] },
            ttl: 60,
            class: RecordClass::Internet,
        });
    }
    let reply = Reply {
        header: Header::default(),
        question: Some(q),
        answers,
        authorities: vec![],
        additional: vec![],
    };
    let bytes = udp_reply_bytes(reply, &platform()).expect("bytes");
    assert_eq!(bytes.len(), 1232);
    let header = Header::unpack(&bytes).expect("header");
    assert!(header.truncated);
    assert_eq!(header.ancount, 10);
}

#[test]
fn tcp_frame_prefixes_length() {
    assert_eq!(tcp_frame(&vec![1, 2, 3]), vec![0, 3, 1, 2, 3]);
}

#[test]
fn server_states() {
    let s = ServerStates {
        apiserver: None,
        datastore: Some(false),
        tcpserver: Some(true),
        udpserver: Some(true),
    };
    assert_eq!(s.stopped_agents(), vec![Agent::TCPServer, Agent::UDPServer]);
    assert!(s.all_finished());
    let s = ServerStates {
        apiserver: Some(false),
        datastore: None,
        tcpserver: None,
        udpserver: None,
    };
    assert!(!s.all_finished());
}

#[test]
fn non_shutdown_replies_go_out_unchanged() {
    let buf = query(9, 0x00, b"example.com", 1, 1);
    let question = match parse_query(buf.len(), &buf).expect("query") {
        QueryStep::Lookup { question, .. } => question,
        _ => panic!("Expected a lookup"),
    };
    let reply = Reply {
        header: Header::default(),
        question: Some(question),
        answers: vec![],
        authorities: vec![],
        additional: vec![],
    };
    let expected = Reply {
        header: reply.header,
        question: reply.question.clone(),
        answers: vec![],
        authorities: vec![],
        additional: vec![],
    };
    match check_for_shutdown(reply, false).expect("check") {
        ChaosResult::Unchanged(r) => {
            assert_eq!(r.header, expected.header);
            assert_eq!(r.question, expected.question);
            assert!(r.answers.is_empty());
        }
        _ => panic!("Expected the reply unchanged"),
    }
    // a CHAOS question for another name goes out unchanged too
    let buf = query(4, 0x00, b"version", 16, 3);
    let question = match parse_query(buf.len(), &buf).expect("query") {
        QueryStep::Lookup { question, .. } => question,
        _ => panic!("Expected a lookup"),
    };
    let reply = Reply {
        header: Header::default(),
        question: Some(question),
        answers: vec![],
        authorities: vec![],
        additional: vec![],
    };
    assert!(matches!(check_for_shutdown(reply, true), Ok(ChaosResult::Unchanged(_))));
    // with no question at all
    let reply = Reply {
        header: Header::default(),
        question: None,
        answers: vec![],
        authorities: vec![],
        additional: vec![],
    };
    assert!(matches!(check_for_shutdown(reply, true), Ok(ChaosResult::Unchanged(_))));
}

#[test]
fn malformed_queries_are_errors_not_panics() {
    // shorter than a header
    let buf = vec![0u8, 1, 0, 0];
    assert!(parse_query(buf.len(), &buf).is_err());
    // a name that ends without its zero length octet
    let buf = vec![0u8, 1, 0, 0, 0, 1, 0, 0, 0, 0, 0, 0, 3, b'c', b'o', b'm'];
    match parse_query(buf.len(), &buf) {
        Ok(QueryStep::Done(Ok(reply))) => {
            assert_eq!(reply.header.rcode, Rcode::ServFail);
            assert!(reply.answers.is_empty());
            assert!(reply.authorities.is_empty());
            assert!(reply.additional.is_empty());
        }
        _ => panic!("Expected SERVFAIL"),
    }
}
