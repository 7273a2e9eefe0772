use goatns::db::userauthtoken::UserAuthToken;
use goatns::enums::{RecordClass, RecordType};
use goatns::header::Header;
use goatns::question::Question;
use goatns::reply::Reply;
use goatns::resourcerecord::{DNSCharString, DomainName, InternalResourceRecord, Platform};
use goatns::zonedata::parse_domain_name_from_wire;

#[test]
fn record_type_names_and_codes_read_back() {
    for t in [RecordType::A, RecordType::NS, RecordType::MX, RecordType::NSEC3PARAM, RecordType::CAA, RecordType::InvalidType] {
        assert_eq!(RecordType::from_name(t.as_str()), t);
        assert_eq!(RecordType::from_code(t.code()), t);
    }
    for c in [RecordClass::Internet, RecordClass::Chaos, RecordClass::Hesiod, RecordClass::CsNet] {
        assert_eq!(RecordClass::from_name(c.as_str()), c);
        assert_eq!(RecordClass::from_code(c.code()), c);
    }
}

#[test]
fn question_written_reads_back_lowercased() {
    let q = Question {
        qname: b"WWW.Example.com".to_vec(),
        qtype: RecordType::MX,
        qclass: RecordClass::Chaos,
    };
    let bytes = q.try_to_bytes().expect("bytes");
    let back = Question::from_packets(&bytes).expect("question");
    assert_eq!(back.qname, b"www.example.com".to_vec());
    assert_eq!(back.qtype, RecordType::MX);
    assert_eq!(back.qclass, RecordClass::Chaos);
}

#[test]
fn wire_name_written_reads_back() {
    let d = DomainName::from_str("ns1.example.com");
    let mut bytes = d.to_wire().expect("wire");
    bytes.extend_from_slice(&[7, 7]);
    let (name, rest) = parse_domain_name_from_wire(&bytes).expect("name");
    assert_eq!(name.name, "ns1.example.com");
    assert_eq!(rest, vec![7, 7]);
}

#[test]
fn reply_header_reads_back_with_answer_count() {
    let reply = Reply {
        header: Header::default(),
        question: Some(Question {
            qname: b"example.com".to_vec(),
            qtype: RecordType::TXT,
            qclass: RecordClass::Internet,
        }),
        answers: vec![
            InternalResourceRecord::TXT {
                txtdata: DNSCharString::from_str("one"),
                ttl: 1,
                class: RecordClass::Internet,
            },
            InternalResourceRecord::TXT {
                txtdata: DNSCharString::from_str("two"),
                ttl: 1,
                class: RecordClass::Internet,
            },
        ],
        authorities: vec![],
        additional: vec![],
    };
    let platform = Platform {
        arch: "aarch64".to_string(),
        os: "macos".to_string(),
    };
    let bytes = reply.as_bytes(&platform).expect("bytes");
    let header = Header::unpack(&bytes).expect("header");
    assert_eq!(header.ancount, 2);
    assert_eq!(header, Header { ancount: 2, ..Header::default() });
}

#[test]
fn question_descriptions() {
    let q = Question {
        qname: b"example.com".to_vec(),
        qtype: RecordType::AAAA,
        qclass: RecordClass::Internet,
    };
    assert_eq!(q.to_string(), "QNAME=example.com QTYPE=AAAA QCLASS=IN");
    let q = Question {
        qname: vec![0xff, 1],
        qtype: RecordType::InvalidType,
        qclass: RecordClass::Chaos,
    };
    assert_eq!(q.to_string(), "QNAME=[255, 1] QTYPE=InvalidType QCLASS=CHAOS");
    assert_eq!(goatns::servers::QueryProtocol::DoH.to_string(), "DoH");
}

#[test]
fn ipv4_addresses_as_text() {
    assert_eq!(goatns::ip_address::ipv4_text(0xc0000208), "192.0.2.8");
    assert_eq!(goatns::ip_address::ipv4_text(0), "0.0.0.0");
    let ip = goatns::ip_address::IPAddress::new(10, 0, 0, 255);
    assert_eq!(ip.pack(), vec![10, 0, 0, 255]);
}

#[test]
fn auth_tokens_read_and_expire() {
    let t = UserAuthToken::try_from_row(
        Some(1),
        "cli".to_string(),
        "1700000000",
        Some("1700003600"),
        7,
        "key".to_string(),
        "hash".to_string(),
    )
    .expect("token");
    assert_eq!(t.issued, 1700000000);
    assert_eq!(t.expiry, Some(1700003600));
    assert!(!t.is_expired(1700000001));
    assert!(t.is_expired(1700003601));
    let never = UserAuthToken::try_from_row(None, "x".to_string(), "5", None, 1, String::new(), String::new()).expect("token");
    assert!(!never.is_expired(i64::MAX));
    assert!(UserAuthToken::try_from_row(None, "x".to_string(), "soon", None, 1, String::new(), String::new()).is_err());
}
