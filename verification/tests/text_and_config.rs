use goatns::cert_reloader::{after_reload, hash_file_contents, needs_reload, TlsHashes};
use goatns::config::{
    decimal_string, default_redirect_url, listener_address_text, redirect_url, status_url, str_ends_with, LogFilter,
};
use goatns::csp::{CspDirective, CspDirectiveType, CspUrlMatcher, CspValue};
use goatns::datastore::zone_record_from_rows;
use goatns::db::records_merged::{normalize_ttls, Model as MergedModel};
use goatns::db::ZoneOwnership;
use goatns::enums::ContactDetails;
use goatns::packet_dumper::{capture_filename, DumpType};
use goatns::text::split_str;
use goatns::validators::{dns_name, looks_like_uuid};
use goatns::zonedata::{check_long_labels, RdataReadings};
use regex::RegexSet;

#[test]
fn test_example() {
    let csp_matchers = vec![CspUrlMatcher {
        matcher: RegexSet::new([r#"/hello"#]).unwrap(),
        directives: vec![CspDirective::from(
            CspDirectiveType::DefaultSrc,
            vec![CspValue::SelfSite],
        )],
    }];

    assert!(!csp_matchers.is_empty());
    for matcher in csp_matchers {
        assert!(matcher.matcher.is_match("/hello"));
    }
}

#[test]
fn csp_texts() {
    let directive = CspDirective {
        directive_type: CspDirectiveType::ImgSrc,
        values: vec![CspValue::SelfSite, CspValue::SchemeHttps],
    };
    assert_eq!(directive.to_string(), " 'self' https:;");
    assert_eq!(CspValue::Nonce { value: "abc" }.into_string(), "nonce-abc");
    assert_eq!(CspValue::NoneValue.into_string(), "'none'");
    let mut matcher = CspUrlMatcher::new(RegexSet::new([".*"]).unwrap());
    matcher.with_directive(CspDirective::default_self());
    matcher.with_directive(directive);
    assert_eq!(
        matcher.header_text(),
        " default-src  'self'; img-src  'self' https:;"
    );
    assert!(matcher.header_value().is_ok());
    assert!(matcher.is_match("/anything"));
    let all = CspUrlMatcher::default_all_self().expect("matcher");
    assert_eq!(all.header_text(), " default-src  'self';");
    let bad = CspUrlMatcher {
        matcher: RegexSet::new(["x"]).unwrap(),
        directives: vec![CspDirective::from(
            CspDirectiveType::ScriptSource,
            vec![CspValue::Host { value: "a\nb" }],
        )],
    };
    assert!(bad.header_value().is_err());
}

#[test]
fn dns_names() {
    assert!(dns_name("example.com"));
    assert!(dns_name("my-host.example.com"));
    assert!(!dns_name("localhost"));
    assert!(!dns_name("example..com"));
    assert!(!dns_name(".example.com"));
    assert!(!dns_name("exa_mple.com"));
    assert!(!dns_name(&format!("{}.com", "a".repeat(64))));
    assert!(dns_name(&format!("{}.com", "a".repeat(63))));
    assert!(!dns_name(&vec!["abcdefghi"; 26].join(".")));
}

#[test]
fn uuid_shapes() {
    assert!(looks_like_uuid("0190a1b2-c3d4-7e5f-8a9b-0c1d2e3f4a5b"));
    assert!(looks_like_uuid("0190a1b2c3d47e5f8a9b0c1d2e3f4a5b"));
    assert!(!looks_like_uuid("0190a1b2-c3d4-7e5f-8a9b-0c1d2e3f4a5g"));
    assert!(!looks_like_uuid("0190a1b2c3d4-7e5f-8a9b-0c1d2e3f4a5b-"));
    assert!(!looks_like_uuid("1234"));
}

#[test]
fn long_labels() {
    assert!(!check_long_labels("www.example.com"));
    assert!(check_long_labels(&format!("{}.example.com", "b".repeat(64))));
    assert_eq!(split_str("a..b", '.'), vec!["a".to_string(), "".to_string(), "b".to_string()]);
}

#[test]
fn config_texts() {
    assert_eq!(decimal_string(0), "0");
    assert_eq!(decimal_string(15353), "15353");
    assert_eq!(listener_address_text("127.0.0.1", 15353), "127.0.0.1:15353");
    assert_eq!(status_url("goat", 9000), "https://goat:9000/status");
    assert_eq!(default_redirect_url("goat", 443), "https://goat/auth/login");
    assert_eq!(default_redirect_url("goat", 9000), "https://goat:9000/auth/login");
}

#[test]
fn log_filter() {
    let f = LogFilter::new(vec!["h2", "hyper::proto"]);
    assert!(f.suppresses("hyper::proto::h1"));
    assert!(f.suppresses("h2"));
    assert!(!f.suppresses("goatns::servers"));
    assert!(!f.suppresses("hyper"));
}

#[test]
fn contact_details() {
    let c = ContactDetails::try_from("Mastodon:@@yaleman@example.social".to_string()).unwrap();
    assert_eq!(
        c,
        ContactDetails::Mastodon {
            contact: "yaleman".to_string(),
            server: "example.social".to_string()
        }
    );
    assert_eq!(
        c.to_string(),
        "<a href=\"https://example.social/@yaleman\">yaleman</a>"
    );
    let e = ContactDetails::try_from("Email:dns@example.com".to_string()).unwrap();
    assert_eq!(e.to_string(), "<a href=\"mailto:dns@example.com\">dns@example.com</a>");
    let t = ContactDetails::try_from("Twitter:goat".to_string()).unwrap();
    assert_eq!(t.to_string(), "<a href=\"https://twitter.com/goat\">goat</a>");
    assert!(ContactDetails::try_from("Email".to_string()).is_err());
    assert!(ContactDetails::try_from("Mastodon:nobody".to_string()).is_err());
    assert!(ContactDetails::try_from("Fax:123".to_string()).is_err());
}

#[test]
fn capture_names() {
    assert_eq!(DumpType::ClientRequest.to_string(), "client_request");
    assert_eq!(
        capture_filename(None, DumpType::ClientRequest, "2024-01-01T000000Z"),
        "./captures/client_request-2024-01-01T000000Z.cap"
    );
    assert_eq!(
        capture_filename(Some("/tmp"), DumpType::ClientRequest, "t"),
        "/tmp/client_request-t.cap"
    );
}

#[test]
fn ownership_rows() {
    let o = ZoneOwnership::from_row(1, 2, 3);
    assert_eq!(o, ZoneOwnership { id: Some(1), userid: 2, zoneid: 3 });
    let n = ZoneOwnership { id: None, userid: 5, zoneid: 6 }.with_id(9);
    assert_eq!(n.id, Some(9));
    assert_eq!(n.userid, 5);
}

fn merged(ttl: u32, rrtype: u16, rdata: &str) -> MergedModel {
    MergedModel {
        record_id: 0,
        zoneid: 0,
        name: "foo.example.com".to_string(),
        ttl,
        rrtype,
        rclass: 1,
        rdata: rdata.to_string(),
    }
}

#[test]
fn normalized_ttls_are_the_minimum() {
    let mut rows = vec![merged(300, 16, "a"), merged(60, 16, "b"), merged(900, 16, "c")];
    normalize_ttls(&mut rows);
    assert!(rows.iter().all(|r| r.ttl == 60));
    assert_eq!(rows[2].rdata, "c");
    let mut none: Vec<MergedModel> = vec![];
    normalize_ttls(&mut none);
    assert!(none.is_empty());
}

#[test]
fn rows_to_answer() {
    let none = RdataReadings { ipv4: None, ipv6: None, loc: None };
    let rows = vec![
        (merged(60, 16, "a"), none),
        (merged(60, 28, "bad"), none),
        (merged(60, 16, "c"), none),
    ];
    let zr = zone_record_from_rows(b"foo.example.com".to_vec(), &rows).expect("answer");
    assert_eq!(zr.typerecords.len(), 2);
    assert!(zone_record_from_rows(b"x".to_vec(), &vec![(merged(60, 28, "bad"), none)]).is_none());
}

#[test]
fn tls_hashes() {
    let a = hash_file_contents(b"abc");
    assert_eq!(a.len(), 32);
    assert_eq!(a[0..4], [0xba, 0x78, 0x16, 0xbf]);
    let current = TlsHashes { cert: a.clone(), key: a.clone() };
    let same = TlsHashes { cert: a.clone(), key: a.clone() };
    assert!(!needs_reload(&current, &same));
    let latest = TlsHashes { cert: hash_file_contents(b"abd"), key: a.clone() };
    assert!(needs_reload(&current, &latest));
    let next = after_reload(current, latest, true);
    assert_ne!(next.cert, a);
}

#[test]
fn dns_name_lengths_and_characters() {
    let n253 = format!("{}.{}.{}.{}", "a".repeat(63), "b".repeat(63), "c".repeat(63), "d".repeat(61));
    let n254 = format!("{}.{}.{}.{}", "a".repeat(63), "b".repeat(63), "c".repeat(63), "d".repeat(62));
    assert_eq!(n253.len(), 253);
    assert!(dns_name(&n253));
    assert!(!dns_name(&n254));
    assert!(dns_name(&format!("{}.com", "a".repeat(63))));
    assert!(!dns_name(&format!("{}.com", "a".repeat(64))));
    assert!(!dns_name("_dmarc.example.com"));
    assert!(!dns_name("exa mple.com"));
    assert!(!dns_name("ex*ample.com"));
    assert!(dns_name("EXAMPLE.com"));
    assert!(dns_name("0day.example.com"));
}

#[test]
fn csp_header_value_holds_the_text() {
    let all = CspUrlMatcher::default_all_self().expect("matcher");
    assert!(all.is_match("/any/path"));
    let value = all.header_value().expect("header value");
    assert_eq!(value.as_bytes(), b" default-src  'self';");
    let plain = goatns::csp::header_value("default-src 'none'").expect("header value");
    assert_eq!(plain.as_bytes(), b"default-src 'none'");
    assert!(goatns::csp::header_value("a\u{7f}b").is_err());
}

#[test]
fn oauth2_redirect_urls() {
    assert_eq!(
        redirect_url(None, "example.com", 443).expect("url"),
        "https://example.com/auth/login"
    );
    assert_eq!(
        redirect_url(None, "example.com", 9000).expect("url"),
        "https://example.com:9000/auth/login"
    );
    assert_eq!(
        redirect_url(Some("https://foo.example/bar"), "example.com", 9000).expect("url"),
        "https://foo.example/auth/login"
    );
    assert_eq!(
        redirect_url(Some("https://foo.example/x/auth/login"), "example.com", 9000).expect("url"),
        "https://foo.example/x/auth/login"
    );
    assert_eq!(
        redirect_url(Some("not a url"), "example.com", 443).expect("url"),
        "https://example.com/auth/login"
    );
    assert!(redirect_url(Some("mailto:admin@example.com"), "example.com", 443).is_err());
    assert!(redirect_url(None, "bad host name", 443).is_err());
}

#[test]
fn text_ends_with() {
    assert!(str_ends_with("/a/auth/login", "/auth/login"));
    assert!(!str_ends_with("/auth", "/auth/login"));
    assert!(str_ends_with("abc", ""));
    assert!(!str_ends_with("/auth/logins", "/auth/login"));
}
