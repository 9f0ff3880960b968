use tarantula::error::{push_decimal, Error, Failure};
use tarantula::faq::faq;
use tarantula::link::{compose_url, parse, LinkKey, ParsedUrl};
use tarantula::pubkey::{decode_pubkey, encode_pubkey};
use tarantula::scrapper::{collect_links, next_work_uri, scrap_report, scrap_result_uri};

#[test]
fn error_message_has_module_line_and_text() {
    let e = Error::new(42, "tarantula_daemon::database".to_string(), "boom".to_string());
    assert_eq!(e.message(), "tarantula_daemon::database[42] => boom");
    let z = Error::new(0, "m".to_string(), "".to_string());
    assert_eq!(z.message(), "m[0] => ");
}

#[test]
fn decimal_rendering() {
    for (n, t) in [(0u32, "0"), (7, "7"), (10, "10"), (109, "109"), (4294967295, "4294967295")] {
        let mut s = String::from("x");
        push_decimal(&mut s, n);
        assert_eq!(s, format!("x{}", t));
    }
}

#[test]
fn failure_messages() {
    assert_eq!(Failure::UnsupportedScheme("ftp".to_string()).describe(), "not supported schema: ftp");
    assert_eq!(Failure::InvalidUrl("relative URL without a base".to_string()).describe(), "relative URL without a base");
    assert_eq!(Failure::Store("disk full".to_string()).describe(), "disk full");
    assert_eq!(
        Failure::MissingRow.describe(),
        "no rows returned by a query that expected to return at least one row"
    );
    assert_eq!(Failure::MissingHost.describe(), "url has no host");
    assert_eq!(Failure::InvalidPubKey.describe(), "public key is not 33 bytes of hexadecimal");
}

#[test]
fn parse_gives_url_parts() {
    let p = parse("HTTPS://Example.com/a/b?x=1#frag").ok().unwrap();
    assert_eq!(p.scheme, "https");
    assert_eq!(p.host.as_deref(), Some("example.com"));
    assert_eq!(p.path, "/a/b");
    assert_eq!(p.query.as_deref(), Some("x=1"));
    match parse("not a url") {
        Err(Failure::InvalidUrl(m)) => assert_eq!(m, "relative URL without a base"),
        _ => panic!("expected an invalid URL"),
    }
}

#[test]
fn link_keys_of_urls() {
    let k = LinkKey::parse("https://example.com/search?q=rust").ok().unwrap();
    assert!(k.https);
    assert_eq!((k.host.as_str(), k.path.as_str(), k.query.as_str()), ("example.com", "/search", "q=rust"));
    let k = LinkKey::parse("http://example.com").ok().unwrap();
    assert!(!k.https);
    assert_eq!((k.path.as_str(), k.query.as_str()), ("/", ""));
    assert!(matches!(LinkKey::parse("mailto:someone@example.com"), Err(Failure::MissingHost)));
    let lenient = LinkKey::parse_lenient("mailto:someone@example.com").ok().unwrap();
    assert_eq!(lenient.host, "");
    assert_eq!(lenient.path, "someone@example.com");
    assert!(!lenient.https);
}

#[test]
fn shareable_urls_are_http_or_https() {
    assert!(LinkKey::parse_shareable("https://example.com/x").is_ok());
    assert!(LinkKey::parse_shareable("http://example.com/x").is_ok());
    match LinkKey::parse_shareable("ftp://example.com/file") {
        Err(Failure::UnsupportedScheme(s)) => assert_eq!(s, "ftp"),
        _ => panic!("ftp must be refused"),
    }
    assert!(matches!(LinkKey::parse_shareable("::"), Err(Failure::InvalidUrl(_))));
}

#[test]
fn composed_urls() {
    assert_eq!(compose_url(true, "example.com", "/a", ""), "https://example.com/a");
    assert_eq!(compose_url(false, "example.com", "/a", "b=1"), "http://example.com/a?b=1");
    let k = LinkKey::parse("https://example.com/p?q=2").ok().unwrap();
    assert_eq!(k.url(), "https://example.com/p?q=2");
}

#[test]
fn pubkey_hex_round_trip() {
    let key: [u8; 33] = core::array::from_fn(|i| (i * 7 + 3) as u8);
    let text = encode_pubkey(&key);
    assert_eq!(text.len(), 66);
    assert_eq!(&text[..6], "030a11");
    assert_eq!(decode_pubkey(&text).ok(), Some(key));
    assert_eq!(decode_pubkey(&text.to_uppercase()).ok(), Some(key));
}

#[test]
fn pubkey_refusals() {
    assert!(matches!(decode_pubkey("abc"), Err(Failure::InvalidPubKey)));
    assert!(matches!(decode_pubkey("zz"), Err(Failure::InvalidPubKey)));
    assert!(matches!(decode_pubkey("00ff"), Err(Failure::InvalidPubKey)));
    assert!(matches!(decode_pubkey(&"ab".repeat(34)), Err(Failure::InvalidPubKey)));
    assert_eq!(decode_pubkey(&"ab".repeat(33)).ok(), Some([0xabu8; 33]));
}

#[test]
fn scrapper_uris() {
    assert_eq!(next_work_uri("http://localhost:3000/api", &[0x01, 0xfe]), "http://localhost:3000/api/next-work/01fe");
    assert_eq!(scrap_result_uri("http://localhost:3000/api"), "http://localhost:3000/api/scrap-result");
}

#[test]
fn scrap_report_keeps_present_links() {
    let hrefs = vec![Some("https://a/".to_string()), None, Some("/b".to_string()), None];
    assert_eq!(collect_links(hrefs.clone()), vec!["https://a/".to_string(), "/b".to_string()]);
    let r = scrap_report("https://x/".to_string(), hrefs);
    assert_eq!(r.url, "https://x/");
    assert_eq!(r.keywords.len(), 0);
    assert_eq!(r.links.len(), 2);
    assert!(collect_links(vec![]).is_empty());
}

#[test]
fn faq_entries() {
    let f = faq();
    assert_eq!(f.len(), 5);
    assert_eq!(f[0].0, "Why does this site reload at every interaction?");
    assert_eq!(f[1].1, "To make it impossible to inject anykind of code via third party software.");
    assert_eq!(
        f[2].1,
        "Because this is your private key. We use <a class=\"has-text-info\" href=\"https://en.bitcoin.it/wiki/Secp256k1\">Secp256k1</a> Public and Private key encryption."
    );
    assert!(f[4].1.starts_with("Nothing! Your account is <b>LOST</b>!"));
}

#[test]
fn link_keys_of_parsed_urls() {
    let with_host = ParsedUrl {
        scheme: "https".to_string(),
        host: Some("h.org".to_string()),
        path: "/p".to_string(),
        query: None,
    };
    let k = LinkKey::of_url(&with_host).unwrap();
    assert!(k.https);
    assert_eq!((k.host.as_str(), k.path.as_str(), k.query.as_str()), ("h.org", "/p", ""));
    let without_host =
        ParsedUrl { scheme: "HTTPS".to_string(), host: None, path: "x".to_string(), query: Some("q".to_string()) };
    assert!(LinkKey::of_url(&without_host).is_none());
    let k = LinkKey::of_url_lenient(&without_host);
    assert!(!k.https);
    assert_eq!((k.host.as_str(), k.path.as_str(), k.query.as_str()), ("", "x", "q"));
}
