use goatns::enums::{OpCode, PacketType, Rcode, RecordClass, RecordType};
use goatns::header::Header;
use goatns::names::{get_question_qname, name_as_bytes};
use goatns::question::Question;
use goatns::reply::{reply_any, reply_builder, Reply};
use goatns::resourcerecord::{InternalResourceRecord, Platform};
use goatns::zonedata::parse_domain_name_from_wire;

fn platform() -> Platform {
    Platform {
        arch: "x86_64".to_string(),
        os: "linux".to_string(),
    }
}

#[test]
fn test_resourcerecord_name_to_bytes() {
    let rdata: Vec<u8> = "cheese.world".as_bytes().to_vec();
    assert!(name_as_bytes(&rdata, None, None)
        .expect("name")
        .eq_bytes(&vec![6, 99, 104, 101, 101, 115, 101, 5, 119, 111, 114, 108, 100, 0]));
}

#[test]
fn test_resourcerecord_short_name_to_bytes() {
    let rdata = "cheese".as_bytes().to_vec();
    assert!(name_as_bytes(&rdata, None, None)
        .expect("name")
        .eq_bytes(&vec![6, 99, 104, 101, 101, 115, 101, 0]));
}

#[test]
fn test_build_ackcdn_allzeros() {
    let header = Header {
        id: 0x3DE1,
        qr: PacketType::Answer,
        opcode: OpCode::Query,
        authoritative: true,
        truncated: false,
        recursion_desired: true,
        recursion_available: true,
        z: false,
        ad: false,
        cd: false,
        rcode: Rcode::NoError,
        qdcount: 1,
        ancount: 1,
        arcount: 0,
        nscount: 0,
    };
    let qname = "ackcdn.com".as_bytes().to_vec();
    let question = Question {
        qname: qname.clone(),
        qtype: RecordType::A,
        qclass: RecordClass::Internet,
    };
    let answers = vec![InternalResourceRecord::A {
        address: 0,
        ttl: 2,
        rclass: RecordClass::Internet,
    }];
    let reply = Reply {
        header,
        question: Some(question),
        answers,
        authorities: vec![],
        additional: vec![],
    };
    let reply_bytes: Vec<u8> = reply.as_bytes(&platform()).unwrap();
    let expected_bytes = [
        0x3d, 0xe1, 0x85, 0x80, 0x00, 0x01, 0x00, 0x01, 0x00, 0x00, 0x00, 0x00, 0x06, 0x61,
        0x63, 0x6b, 0x63, 0x64, 0x6e, 0x03, 0x63, 0x6f, 0x6d, 0x00, 0x00, 0x01, 0x00, 0x01,
        0xC0, 0x0c, 0x00, 0x01, 0x00, 0x01, 0x00, 0x00, 0x00, 0x02, 0x00, 0x04, 0x00, 0x00,
        0x00, 0x00,
    ];
    for (index, byte) in reply_bytes.iter().enumerate() {
        match expected_bytes.get(index) {
            Some(_) => {}
            None => panic!("Our reply is longer!"),
        }
        assert_eq!(byte, &expected_bytes[index]);
    }
    assert_eq!([reply_bytes[0], reply_bytes[1]], [0x3D, 0xE1]);
}

#[test]
fn header_pack_unpack_round_trip() {
    let header = Header {
        id: 35112,
        qr: PacketType::Answer,
        opcode: OpCode::Query,
        authoritative: false,
        truncated: true,
        recursion_desired: true,
        recursion_available: false,
        z: false,
        ad: true,
        cd: false,
        rcode: Rcode::NameError,
        qdcount: 1,
        ancount: 300,
        arcount: 2,
        nscount: 7,
    };
    let bytes = header.pack();
    assert_eq!(bytes.len(), 12);
    assert_eq!(&bytes[0..4], &[0x89, 0x28, 0x83, 0x23]);
    let back = Header::unpack(&bytes).expect("unpack");
    assert_eq!(back, header);
    assert_eq!(back.pack(), bytes);
}

#[test]
fn header_unpack_bad_opcode_is_error() {
    // opcode 1 names nothing known here
    let bytes = [0u8, 1, 0x08, 0, 0, 0, 0, 0, 0, 0, 0, 0];
    assert!(Header::unpack(&bytes).is_err());
}

#[test]
fn question_from_packets_lowercases() {
    let section = [3u8, b'W', b'w', b'W', 3, b'c', b'o', b'm', 0, 0, 1, 0, 1];
    let q = Question::from_packets(&section).expect("question");
    assert_eq!(q.qname, b"www.com".to_vec());
    assert_eq!(q.qtype, RecordType::A);
    assert_eq!(q.qclass, RecordClass::Internet);
    assert_eq!(
        q.try_to_bytes().unwrap(),
        vec![3u8, b'w', b'w', b'w', 3, b'c', b'o', b'm', 0, 0, 1, 0, 1]
    );
    assert!(Question::from_packets(&[3u8, b'w', b'w', b'w', 0, 0, 1]).is_err());
}

#[test]
fn reply_builder_and_any() {
    let r = reply_builder(7, Rcode::ServFail).unwrap();
    assert_eq!(r.header.id, 7);
    assert_eq!(r.header.rcode, Rcode::ServFail);
    assert_eq!(r.header.qr, PacketType::Answer);
    assert!(r.question.is_none());
    let bytes = r.as_bytes(&platform()).unwrap();
    assert_eq!(bytes, vec![0, 7, 0x84, 0x02, 0, 0, 0, 0, 0, 0, 0, 0]);
    let q = Question {
        qname: b"example.com".to_vec(),
        qtype: RecordType::ANY,
        qclass: RecordClass::Internet,
    };
    let any = reply_any(9, &q).unwrap();
    assert_eq!(any.answers.len(), 1);
    match &any.answers[0] {
        InternalResourceRecord::HINFO { cpu, os, ttl, .. } => {
            assert_eq!(cpu.as_ref().unwrap().data, b"RFC8482".to_vec());
            assert_eq!(os.as_ref().unwrap().data, Vec::<u8>::new());
            assert_eq!(*ttl, 3789);
        }
        _ => panic!("Expected HINFO"),
    }
}

#[test]
fn hinfo_without_fields_reports_platform() {
    let rr = InternalResourceRecord::HINFO {
        cpu: None,
        os: None,
        ttl: 1,
        rclass: RecordClass::Internet,
    };
    let bytes = rr.as_bytes(&vec![], &platform()).unwrap();
    assert_eq!(bytes[0], 6);
    assert_eq!(&bytes[1..7], b"x86_64");
    assert_eq!(bytes[7], 5);
    assert_eq!(&bytes[8..13], b"linux");
}

#[test]
fn wire_domain_name_parsing() {
    let input = [7u8, b'e', b'x', b'a', b'm', b'p', b'l', b'e', 3, b'c', b'o', b'm', 0, 9, 9];
    let (name, rest) = parse_domain_name_from_wire(&input).expect("name");
    assert_eq!(name.name, "example.com");
    assert_eq!(rest, vec![9, 9]);
    let (root, rest) = parse_domain_name_from_wire(&[0u8, 1]).expect("root");
    assert_eq!(root.name, ".");
    assert_eq!(rest, vec![1]);
    assert!(parse_domain_name_from_wire(&[5u8, b'a']).is_err());
    assert!(parse_domain_name_from_wire(&[1u8, 0xff, 0]).is_err());
}

#[test]
fn question_qname_is_joined_and_lowercased() {
    let input = [7u8, b'e', b'x', b'a', b'm', b'p', b'l', b'e', 3, b'c', b'o', b'm', 0];
    assert_eq!(
        get_question_qname(&input),
        Ok(vec![101, 120, 97, 109, 112, 108, 101, 46, 99, 111, 109])
    );
    assert_eq!(get_question_qname(&[3, b'C', b'O', b'M', 0]), Ok(b"com".to_vec()));
}

#[test]
fn question_qname_without_zero_label_is_error() {
    assert!(get_question_qname(&[3, b'c', b'o', b'm']).is_err());
    assert!(get_question_qname(&[]).is_err());
    assert!(get_question_qname(&[64]).is_err());
    assert!(get_question_qname(&[5, b'a', b'b']).is_err());
}

#[test]
fn header_unpack_short_is_error() {
    assert!(Header::unpack(&[0u8, 1, 0, 0, 0, 1]).is_err());
    assert!(Header::unpack(&[]).is_err());
}
