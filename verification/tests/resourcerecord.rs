use goatns::db::records::Model;
use goatns::error::GoatNsError;
use goatns::enums::{RecordClass, RecordType};
use goatns::resourcerecord::{DNSCharString, DomainName, InternalResourceRecord, Platform, SetTTL};
use goatns::zonedata::{LocReading, RdataReadings};

fn platform() -> Platform {
    Platform {
        arch: "x86_64".to_string(),
        os: "linux".to_string(),
    }
}

fn no_readings() -> RdataReadings {
    RdataReadings {
        ipv4: None,
        ipv6: None,
        loc: None,
    }
}

fn model(rrtype: RecordType, rdata: &str) -> Model {
    Model {
        id: 0,
        zoneid: 0,
        name: "@".to_string(),
        ttl: Some(3600),
        rclass: RecordClass::Internet.code(),
        rrtype: rrtype.code(),
        rdata: rdata.to_string(),
    }
}

#[test]
fn eq_resourcerecord() {
    assert!(InternalResourceRecord::A {
        address: 12345,
        ttl: 1,
        rclass: RecordClass::Internet
    }
    .eq_type(RecordType::A));
    assert!(InternalResourceRecord::AAAA {
        address: 12345,
        ttl: 1,
        rclass: RecordClass::Internet
    }
    .eq_type(RecordType::AAAA));
}

#[test]
fn resourcerecord_from_ipv6_string() {
    let fzr = Model {
        name: "test".to_string(),
        rrtype: RecordType::AAAA.code(),
        rdata: String::from("1234:5678:cafe:beef:ca75:0:4b9:e94d"),
        ttl: Some(160u32),
        rclass: RecordClass::Internet.code(),
        zoneid: 0,
        id: 0,
    };
    // what reading "1234:5678:cafe:beef:ca75:0:4b9:e94d" as an IPv6 address gives
    let readings = RdataReadings {
        ipv4: None,
        ipv6: Some(0x1234_5678_cafe_beef_ca75_0000_04b9_e94d),
        loc: None,
    };
    let rr = match InternalResourceRecord::try_from_record(&fzr, &readings) {
        Ok(value) => value,
        Err(error) => panic!("Failed to get resource record: {error:?}"),
    };
    assert!(rr.eq_type(RecordType::AAAA));
    assert_eq!(
        rr.as_bytes(&vec![], &platform()).expect("failed to convert to bytes"),
        [18, 52, 86, 120, 202, 254, 190, 239, 202, 117, 0, 0, 4, 185, 233, 77].to_vec()
    );
}

#[test]
fn dnscharstring() {
    let test = DNSCharString::from_str("hello world");
    let testbytes: Vec<u8> = test.into_bytes();
    assert_eq!(testbytes[0], 11);
}

#[test]
fn resourcerecord_txt() {
    let foo = InternalResourceRecord::TXT {
        txtdata: DNSCharString::from_str("Hello world"),
        ttl: 1,
        class: RecordClass::Internet,
    };
    if let InternalResourceRecord::TXT { txtdata, .. } = foo {
        let foo_bytes: Vec<u8> = txtdata.into_bytes();
        assert_eq!(foo_bytes[0], 11);
    };
}

#[test]
fn dnssec_dnskey_as_bytes() {
    let rr = InternalResourceRecord::DNSKEY {
        flags: 257,
        protocol: 3,
        algorithm: 8,
        public_key: vec![0xde, 0xad, 0xbe, 0xef],
        ttl: 3600,
        rclass: RecordClass::Internet,
    };
    let empty = Vec::new();
    let bytes = rr.as_bytes(&empty, &platform()).expect("DNSKEY as_bytes");
    assert_eq!(bytes[0..2], [0x01, 0x01]);
    assert_eq!(bytes[2], 3);
    assert_eq!(bytes[3], 8);
    assert_eq!(bytes[4..], [0xde, 0xad, 0xbe, 0xef]);
}

#[test]
fn dnssec_ds_as_bytes() {
    let rr = InternalResourceRecord::DS {
        key_tag: 12345,
        algorithm: 8,
        digest_type: 2,
        digest: vec![0xab, 0xcd, 0xef, 0x01],
        ttl: 3600,
        rclass: RecordClass::Internet,
    };
    let empty = Vec::new();
    let bytes = rr.as_bytes(&empty, &platform()).expect("DS as_bytes");
    assert_eq!(bytes[0..2], [0x30, 0x39]);
    assert_eq!(bytes[2], 8);
    assert_eq!(bytes[3], 2);
    assert_eq!(bytes[4..], [0xab, 0xcd, 0xef, 0x01]);
}

#[test]
fn dnssec_nsec3param_as_bytes() {
    let rr = InternalResourceRecord::NSEC3PARAM {
        hash_algorithm: 1,
        flags: 0,
        iterations: 10,
        salt: vec![0xaa, 0xbb],
        ttl: 3600,
        rclass: RecordClass::Internet,
    };
    let empty = Vec::new();
    let bytes = rr.as_bytes(&empty, &platform()).expect("NSEC3PARAM as_bytes");
    assert_eq!(bytes[0], 1);
    assert_eq!(bytes[1], 0);
    assert_eq!(bytes[2..4], [0x00, 0x0a]);
    assert_eq!(bytes[4], 2);
    assert_eq!(bytes[5..], [0xaa, 0xbb]);
}

#[test]
fn dnssec_rrsig_as_bytes() {
    let rr = InternalResourceRecord::RRSIG {
        type_covered: RecordType::A,
        algorithm: 8,
        labels: 2,
        original_ttl: 3600,
        signature_expiration: 1700000000,
        signature_inception: 1699999000,
        key_tag: 54321,
        signer_name: DomainName::from_str("example.com"),
        signature: vec![0xca, 0xfe],
        ttl: 3600,
        rclass: RecordClass::Internet,
    };
    let question = b"example.com".to_vec();
    let bytes = rr.as_bytes(&question, &platform()).expect("RRSIG as_bytes");
    assert_eq!(bytes[0..2], [0, 1]);
    assert_eq!(bytes[2], 8);
    assert_eq!(bytes[3], 2);
    assert_eq!(bytes[4..8], 3600u32.to_be_bytes());
    assert_eq!(bytes[8..12], 1700000000u32.to_be_bytes());
    assert_eq!(bytes[12..16], 1699999000u32.to_be_bytes());
    assert_eq!(bytes[16..18], 54321u16.to_be_bytes());
    assert_eq!(bytes[18..20], [0xC0, 0x0C]);
    assert_eq!(bytes[20..], [0xca, 0xfe]);
}

#[test]
fn dnssec_dnskey_from_records_model() {
    let m = model(RecordType::DNSKEY, "01010308deadbeef");
    let rr = InternalResourceRecord::try_from_record(&m, &no_readings()).expect("DNSKEY try_from");
    match rr {
        InternalResourceRecord::DNSKEY {
            flags,
            protocol,
            algorithm,
            public_key,
            ..
        } => {
            assert_eq!(flags, 257);
            assert_eq!(protocol, 3);
            assert_eq!(algorithm, 8);
            assert_eq!(public_key, vec![0xde, 0xad, 0xbe, 0xef]);
        }
        _ => panic!("Expected DNSKEY variant"),
    }
}

#[test]
fn dnssec_ds_from_records_model() {
    let m = model(RecordType::DS, "30390802abcdef01");
    let rr = InternalResourceRecord::try_from_record(&m, &no_readings()).expect("DS try_from");
    match rr {
        InternalResourceRecord::DS {
            key_tag,
            algorithm,
            digest_type,
            digest,
            ..
        } => {
            assert_eq!(key_tag, 12345);
            assert_eq!(algorithm, 8);
            assert_eq!(digest_type, 2);
            assert_eq!(digest, vec![0xab, 0xcd, 0xef, 0x01]);
        }
        _ => panic!("Expected DS variant"),
    }
}

#[test]
fn dnssec_nsec3_from_records_model() {
    let m = model(RecordType::NSEC3PARAM, "0100000a02aabb");
    let rr = InternalResourceRecord::try_from_record(&m, &no_readings()).expect("NSEC3PARAM try_from");
    match rr {
        InternalResourceRecord::NSEC3PARAM {
            hash_algorithm,
            flags,
            iterations,
            salt,
            ..
        } => {
            assert_eq!(hash_algorithm, 1);
            assert_eq!(flags, 0);
            assert_eq!(iterations, 10);
            assert_eq!(salt, vec![0xaa, 0xbb]);
        }
        _ => panic!("Expected NSEC3PARAM variant"),
    }
}

#[test]
fn dnssec_nsec_as_bytes() {
    let rr = InternalResourceRecord::NSEC {
        next_domain_name: DomainName::from_str("example.com"),
        type_bit_maps: vec![0x00, 0x04, 0x00, 0x00, 0x00, 0x00],
        ttl: 3600,
        rclass: RecordClass::Internet,
    };
    let question = b"example.com".to_vec();
    let bytes = rr.as_bytes(&question, &platform()).expect("NSEC as_bytes");
    assert_eq!(bytes[0..2], [0xC0, 0x0C]);
    assert_eq!(bytes[2..], [0x00, 0x04, 0x00, 0x00, 0x00, 0x00]);
}

#[test]
fn test_soa_record() {
    let soa = InternalResourceRecord::SOA {
        zone: DomainName::from_str("example.com"),
        mname: DomainName::from_str("ns1.example.com"),
        rname: DomainName::from_str("hostmasterw.example.com"),
        serial: 123456789,
        refresh: 7200,
        retry: 3600,
        expire: 604800,
        minimum: 86400,
        rclass: RecordClass::Internet,
    };
    assert_eq!(soa.ttl(), 86400);
    let bytes = soa
        .as_bytes(&vec![], &platform())
        .expect("Failed to convert SOA record to bytes");
    assert_eq!(bytes[0], 3);
    assert_eq!(&bytes[1..4], b"ns1");
    assert_eq!(bytes[4], 192);
    assert_eq!(bytes[18..=19], [192, 12]);
    assert_eq!(&bytes[20..24], [7, 91, 205, 21]);
    assert_eq!(&bytes[24..28], [0, 0, 28, 32]);
    assert_eq!(&bytes[28..32], [0, 0, 14, 16]);
    assert_eq!(&bytes[32..36], [0, 9, 58, 128]);
    assert_eq!(&bytes[36..40], [0, 1, 81, 128]);
    assert_eq!(bytes.len(), 40);
}

#[test]
fn new_a_record_reads_address_or_zero() {
    let readings = RdataReadings {
        ipv4: Some(0xc0000208),
        ipv6: None,
        loc: None,
    };
    let rr = InternalResourceRecord::new("www", 1, "192.0.2.8", 300, 1, &readings).expect("A");
    match rr {
        InternalResourceRecord::A { address, ttl, rclass } => {
            assert_eq!(address, 0xc0000208);
            assert_eq!(ttl, 300);
            assert_eq!(rclass, RecordClass::Internet);
        }
        _ => panic!("Expected A"),
    }
    let rr = InternalResourceRecord::new("www", 1, "not an address", 300, 1, &no_readings()).expect("A");
    match rr {
        InternalResourceRecord::A { address, .. } => assert_eq!(address, 0),
        _ => panic!("Expected A"),
    }
}

#[test]
fn new_aaaa_without_address_is_error() {
    assert!(InternalResourceRecord::new("www", 28, "nope", 300, 1, &no_readings()).is_err());
}

#[test]
fn new_mx_record() {
    let rr = InternalResourceRecord::new("@", 15, "10 mail@example.com", 60, 1, &no_readings()).expect("MX");
    match rr {
        InternalResourceRecord::MX { preference, exchange, .. } => {
            assert_eq!(preference, 10);
            assert_eq!(exchange.name, "mail.example.com");
        }
        _ => panic!("Expected MX"),
    }
    assert!(InternalResourceRecord::new("@", 15, "10", 60, 1, &no_readings()).is_err());
    assert!(InternalResourceRecord::new("@", 15, "10 a b", 60, 1, &no_readings()).is_err());
    assert!(InternalResourceRecord::new("@", 15, "x mail.example.com", 60, 1, &no_readings()).is_err());
    assert!(InternalResourceRecord::new("@", 15, "70000 mail.example.com", 60, 1, &no_readings()).is_err());
}

#[test]
fn new_caa_record() {
    let rr = InternalResourceRecord::new("@", 257, "0 issue letsencrypt.org hello", 60, 1, &no_readings()).expect("CAA");
    match rr {
        InternalResourceRecord::CAA { flag, tag, value, .. } => {
            assert_eq!(flag, 0);
            assert_eq!(tag.data, b"issue".to_vec());
            assert_eq!(value, b"letsencrypt.org hello".to_vec());
        }
        _ => panic!("Expected CAA"),
    }
    assert!(InternalResourceRecord::new("@", 257, "0 issue", 60, 1, &no_readings()).is_err());
    assert!(InternalResourceRecord::new("@", 257, "0 --- x", 60, 1, &no_readings()).is_err());
    assert!(InternalResourceRecord::new("@", 257, "256 issue x", 60, 1, &no_readings()).is_err());
}

#[test]
fn new_uri_record() {
    let rr = InternalResourceRecord::new("@", 256, "10 1 https://example.com/", 60, 1, &no_readings()).expect("URI");
    match rr {
        InternalResourceRecord::URI { priority, weight, target, .. } => {
            assert_eq!(priority, 10);
            assert_eq!(weight, 1);
            assert_eq!(target.data, b"https://example.com/".to_vec());
        }
        _ => panic!("Expected URI"),
    }
    assert!(InternalResourceRecord::new("@", 256, "x 1 y", 60, 1, &no_readings()).is_err());
}

#[test]
fn new_loc_record_takes_reading() {
    let readings = RdataReadings {
        ipv4: None,
        ipv6: None,
        loc: Some(LocReading {
            size: 0x12,
            horiz_pre: 0x16,
            vert_pre: 0x13,
            latitude: 1,
            longitude: 2,
            altitude: 3,
        }),
    };
    let rr = InternalResourceRecord::new("@", 29, "whatever", 60, 1, &readings).expect("LOC");
    match rr {
        InternalResourceRecord::LOC { version, size, latitude, longitude, altitude, .. } => {
            assert_eq!(version, 0);
            assert_eq!(size, 0x12);
            assert_eq!((latitude, longitude, altitude), (1, 2, 3));
        }
        _ => panic!("Expected LOC"),
    }
    assert!(InternalResourceRecord::new("@", 29, "whatever", 60, 1, &no_readings()).is_err());
}

#[test]
fn new_text_records_and_invalid_type() {
    match InternalResourceRecord::new("@", 5, "dns@example.com", 60, 1, &no_readings()).expect("CNAME") {
        InternalResourceRecord::CNAME { cname, .. } => assert_eq!(cname.name, "dns.example.com"),
        _ => panic!("Expected CNAME"),
    }
    match InternalResourceRecord::new("@", 16, "hi@there", 60, 3, &no_readings()).expect("TXT") {
        InternalResourceRecord::TXT { txtdata, class, .. } => {
            assert_eq!(txtdata.data, b"hi@there".to_vec());
            assert_eq!(class, RecordClass::Chaos);
        }
        _ => panic!("Expected TXT"),
    }
    assert!(InternalResourceRecord::new("@", 6, "x", 60, 1, &no_readings()).is_err());
    assert!(InternalResourceRecord::new("@", 48, "0102", 60, 1, &no_readings()).is_err());
    assert!(InternalResourceRecord::new("@", 48, "zz", 60, 1, &no_readings()).is_err());
}

#[test]
fn new_nsec3_and_rrsig_from_hex() {
    // hash 1, flags 0, iterations 10, salt aabb, hash length 1, hash cc, bitmap 01
    match InternalResourceRecord::new("@", 50, "0100000a02aabb01cc01", 60, 1, &no_readings()).expect("NSEC3") {
        InternalResourceRecord::NSEC3 { salt, next_hashed_owner_name, type_bit_maps, iterations, .. } => {
            assert_eq!(iterations, 10);
            assert_eq!(salt, vec![0xaa, 0xbb]);
            assert_eq!(next_hashed_owner_name, vec![0xcc]);
            assert_eq!(type_bit_maps, vec![0x01]);
        }
        _ => panic!("Expected NSEC3"),
    }
    assert!(InternalResourceRecord::new("@", 50, "0100000a05aabb", 60, 1, &no_readings()).is_err());
    let rrsig = "0001080200000e1065538f0065538918d431076578616d706c6503636f6d00cafe";
    match InternalResourceRecord::new("@", 46, rrsig, 60, 1, &no_readings()).expect("RRSIG") {
        InternalResourceRecord::RRSIG { type_covered, key_tag, signer_name, signature, original_ttl, .. } => {
            assert_eq!(type_covered, RecordType::A);
            assert_eq!(original_ttl, 3600);
            assert_eq!(key_tag, 0xd431);
            assert_eq!(signer_name.name, "example.com");
            assert_eq!(signature, vec![0xca, 0xfe]);
        }
        _ => panic!("Expected RRSIG"),
    }
}

#[test]
fn try_from_record_refusals() {
    let mut m = model(RecordType::TXT, "hello");
    m.ttl = None;
    assert!(InternalResourceRecord::try_from_record(&m, &no_readings()).is_err());
    let mut m = model(RecordType::TXT, "hello");
    m.name = format!("{}.example.com", "a".repeat(64));
    assert!(InternalResourceRecord::try_from_record(&m, &no_readings()).is_err());
    let mut m = model(RecordType::TXT, "hello");
    m.name = vec!["abc"; 70].join(".");
    assert!(InternalResourceRecord::try_from_record(&m, &no_readings()).is_err());
    let m = model(RecordType::TXT, "hello");
    assert!(InternalResourceRecord::try_from_record(&m, &no_readings()).is_ok());
}

#[test]
fn set_ttl_then_ttl() {
    let rr = InternalResourceRecord::A {
        address: 1,
        ttl: 5,
        rclass: RecordClass::Internet,
    };
    assert_eq!(rr.set_ttl(99).ttl(), 99);
}

#[test]
fn new_with_unsupported_type_is_invalid_type_error() {
    for code in [6u16, 13, 35, 252, 255, 9999] {
        match InternalResourceRecord::new("example.com", code, "hello", 60, 1, &no_readings()) {
            Err(GoatNsError::Generic(m)) => assert_eq!(m, "Invalid type specified!"),
            other => panic!("Expected the invalid type error, got {:?}", other),
        }
    }
}

#[test]
fn new_record_has_type_ttl_and_class_and_ignores_name() {
    let readings = RdataReadings {
        ipv4: Some(0x01020304),
        ipv6: None,
        loc: None,
    };
    let a = InternalResourceRecord::new("one.example.com", 1, "1.2.3.4", 77, 1, &readings).expect("A");
    let b = InternalResourceRecord::new("two.example.org", 1, "1.2.3.4", 77, 1, &readings).expect("A");
    assert_eq!(a, b);
    assert!(a.is_type(RecordType::A));
    assert_eq!(a.ttl(), 77);
    let t = InternalResourceRecord::new("x", 16, "hello", 5, 3, &no_readings()).expect("TXT");
    match t {
        InternalResourceRecord::TXT { class, ttl, .. } => {
            assert_eq!(class, RecordClass::Chaos);
            assert_eq!(ttl, 5);
        }
        _ => panic!("Expected TXT"),
    }
}

#[test]
fn try_from_record_errors_are_generic() {
    let mut m = model(RecordType::TXT, "hello");
    m.ttl = None;
    assert!(matches!(
        InternalResourceRecord::try_from_record(&m, &no_readings()),
        Err(GoatNsError::Generic(_))
    ));
    let m = model(RecordType::SOA, "hello");
    match InternalResourceRecord::try_from_record(&m, &no_readings()) {
        Err(GoatNsError::Generic(msg)) => assert_eq!(msg, "Invalid type specified!"),
        _ => panic!("Expected the invalid type error"),
    }
    let m = model(RecordType::MX, "ten mail.example.com");
    assert!(matches!(
        InternalResourceRecord::try_from_record(&m, &no_readings()),
        Err(GoatNsError::Generic(_))
    ));
}
