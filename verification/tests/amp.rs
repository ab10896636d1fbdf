use nodemesh::address::AmpAddress;
use nodemesh::message::{AmpMessage, EMPTY_MESSAGE};
use nodemesh::number;
use nodemesh::strmap::{StrMap, StrSet};
use nodemesh::text;
use nodemesh::validate::{validate, validate_with};

#[test]
fn parse_full_address() {
    let addr = AmpAddress::parse("clipboard.appmesh.cachyos.amp").unwrap();
    assert_eq!(addr.port.as_deref(), Some("clipboard"));
    assert_eq!(addr.app.as_deref(), Some("appmesh"));
    assert_eq!(addr.node, "cachyos");
    assert!(addr.is_for_node("cachyos"));
    assert_eq!(addr.to_string_full(), "clipboard.appmesh.cachyos.amp");
}

#[test]
fn parse_app_address() {
    let addr = AmpAddress::parse("markweb.mko.amp").unwrap();
    assert_eq!(addr.port, None);
    assert_eq!(addr.app.as_deref(), Some("markweb"));
    assert_eq!(addr.node, "mko");
}

#[test]
fn parse_node_address() {
    let addr = AmpAddress::parse("cachyos.amp").unwrap();
    assert_eq!(addr.port, None);
    assert_eq!(addr.app, None);
    assert_eq!(addr.node, "cachyos");
}

#[test]
fn no_amp_suffix_fails() {
    assert!(AmpAddress::parse("cachyos.local").is_none());
    assert!(AmpAddress::parse("just-a-name").is_none());
}

#[test]
fn node_takes_the_rest_of_an_address() {
    let addr = AmpAddress::parse("a.b.c.d.amp").unwrap();
    assert_eq!(addr.port.as_deref(), Some("a"));
    assert_eq!(addr.app.as_deref(), Some("b"));
    assert_eq!(addr.node, "c.d");
    assert!(!addr.is_for_node("c"));
    assert_eq!(AmpAddress::parse(".amp").unwrap().node, "");
    assert!(AmpAddress::parse("amp").is_none());
    assert!(AmpAddress::parse("").is_none());
}

#[test]
fn addresses_read_as_they_are_written() {
    for s in ["mko.amp", "markweb.mko.amp", "clipboard.appmesh.cachyos.amp", ".amp", "..x.y.amp"] {
        let addr = AmpAddress::parse(s).unwrap();
        assert_eq!(addr.to_string_full(), s);
    }
}

#[test]
fn parse_empty_message() {
    let msg = AmpMessage::parse("---\n---\n").unwrap();
    assert!(msg.is_empty_message());
    assert_eq!(msg.to_wire(), "---\n---\n");
}

#[test]
fn parse_command() {
    let raw = "---\namp: 1\ntype: request\nfrom: agent.markweb.cachyos.amp\nto: agent.markweb.mko.amp\ncommand: dispatch\n---\n";
    let msg = AmpMessage::parse(raw).unwrap();
    assert_eq!(msg.get("amp"), Some("1"));
    assert_eq!(msg.from_addr(), Some("agent.markweb.cachyos.amp"));
    assert_eq!(msg.to_addr(), Some("agent.markweb.mko.amp"));
    assert_eq!(msg.command_name(), Some("dispatch"));
    assert!(msg.body.is_empty());
}

#[test]
fn parse_full_message() {
    let raw = "---\namp: 1\ntype: event\nfrom: screenshot.appmesh.cachyos.amp\ncommand: taken\n---\n# Screenshot saved\nPath: `/tmp/screenshot.png`\n";
    let msg = AmpMessage::parse(raw).unwrap();
    assert_eq!(msg.command_name(), Some("taken"));
    assert!(msg.body.starts_with("# Screenshot saved"));
}

#[test]
fn parse_data_shape() {
    let raw = "---\njson: {\"count\": 12, \"unread\": 3}\n---\n";
    let msg = AmpMessage::parse(raw).unwrap();
    let json = msg.json_payload().unwrap();
    assert_eq!(json["count"], 12);
    assert_eq!(json["unread"], 3);
}

#[test]
fn roundtrip() {
    let mut headers = StrMap::new();
    headers.insert("amp".to_string(), "1".to_string());
    headers.insert("type".to_string(), "request".to_string());
    headers.insert("command".to_string(), "ping".to_string());

    let msg = AmpMessage::new(headers, "hello world");
    let wire = msg.to_wire();
    let parsed = AmpMessage::parse(&wire).unwrap();

    assert_eq!(parsed.get("amp"), Some("1"));
    assert_eq!(parsed.command_name(), Some("ping"));
    assert_eq!(parsed.body.trim(), "hello world");
}

#[test]
fn invalid_input_returns_none() {
    assert!(AmpMessage::parse("no frontmatter here").is_none());
    assert!(AmpMessage::parse("").is_none());
}

#[test]
fn args_are_read_as_json() {
    let msg = AmpMessage::parse("---\nargs: {\"wg_ip\":\"10.0.0.1\"}\ntype: event\n---\n").unwrap();
    assert_eq!(msg.args().unwrap()["wg_ip"], "10.0.0.1");
    assert_eq!(msg.message_type(), Some("event"));
    assert!(msg.json_payload().is_none());
    let bad = AmpMessage::parse("---\nargs: {oops\njson: [1\n---\n").unwrap();
    assert!(bad.args().is_none());
    assert!(bad.json_payload().is_none());
}

#[test]
fn wire_keeps_headers_in_order_and_ends_the_body() {
    let msg = AmpMessage::command(vec![
        ("b", "2".to_string()),
        ("a", "1".to_string()),
        ("b", "3".to_string()),
    ]);
    assert_eq!(msg.to_wire(), "---\nb: 3\na: 1\n---\n");
    assert!(!msg.is_empty_message());
    let mut headers = StrMap::new();
    headers.insert("a".to_string(), "1".to_string());
    assert_eq!(AmpMessage::new(headers, "x").to_wire(), "---\na: 1\n---\nx\n");
    let mut headers = StrMap::new();
    headers.insert("a".to_string(), "1".to_string());
    assert_eq!(AmpMessage::new(headers, "x\n").to_wire(), "---\na: 1\n---\nx\n");
    assert_eq!(AmpMessage::empty().to_wire(), EMPTY_MESSAGE);
    assert_eq!(EMPTY_MESSAGE.len(), 8);
}

#[test]
fn odd_frontmatter_is_read() {
    let msg = AmpMessage::parse("---\n  key :  a: b \nno separator\nkey: later\n---\nbody\n---\nrest").unwrap();
    assert_eq!(msg.headers.len(), 1);
    assert_eq!(msg.get("key"), Some("later"));
    assert_eq!(msg.body, "body\n---\nrest");
    let crlf = AmpMessage::parse("---\na: 1\r\nb: 2\r\n---\n").unwrap();
    assert_eq!(crlf.get("a"), Some("1"));
    assert_eq!(crlf.get("b"), Some("2"));
    assert!(AmpMessage::parse("---\na: 1\n").is_none());
    assert!(AmpMessage::parse("---\r\n---\r\n").is_none());
}

#[test]
fn what_was_read_is_forwarded_unchanged() {
    let raw = "---\na: 1\nb: x: y\n---\n\nbody\n";
    let msg = AmpMessage::parse(raw).unwrap();
    let copy = msg.clone();
    assert_eq!(copy.to_wire(), raw);
    assert_eq!(AmpMessage::parse(&copy.to_wire()).unwrap().to_wire(), raw);
}

#[test]
fn message_without_headers_is_read_back() {
    let msg = AmpMessage::new(StrMap::new(), "hello");
    assert_eq!(msg.to_wire(), "---\n---\nhello\n");
    let read = AmpMessage::parse("---\n---\nhello\n").unwrap();
    assert!(read.headers.is_empty());
    assert_eq!(read.body, "hello\n");
    assert!(!read.is_empty_message());
    let read = AmpMessage::parse("---\n---\na: 1\n---\nx").unwrap();
    assert!(read.headers.is_empty());
    assert_eq!(read.body, "a: 1\n---\nx");
    assert!(AmpMessage::parse("---\n---").is_none());
}

#[test]
fn messages_are_equal_whatever_the_order_of_their_headers() {
    let of = |raw: &str| AmpMessage::parse(raw).unwrap();
    let msg = of("---\na: 1\nb: 2\n---\nx\n");
    assert_eq!(msg, msg.clone());
    assert_eq!(msg, of("---\nb: 2\na: 1\n---\nx\n"));
    assert_ne!(msg, of("---\na: 1\nb: 2\n---\ny\n"));
    assert_ne!(msg, of("---\na: 1\nb: 3\n---\nx\n"));
    assert_ne!(msg, of("---\na: 1\n---\nx\n"));
    assert_ne!(of("---\na: 1\n---\nx\n"), msg);
    assert_eq!(AmpMessage::empty(), of("---\n---\n"));
}

#[test]
fn valid_message_no_warnings() {
    let msg = AmpMessage::parse("---\namp: 1\ntype: request\ncommand: ping\n---\n").unwrap();
    assert!(validate(&msg).is_empty());
}

#[test]
fn unknown_header_warns() {
    let msg = AmpMessage::parse("---\nfoo: bar\n---\n").unwrap();
    let warnings = validate(&msg);
    assert_eq!(warnings.len(), 1);
    assert!(warnings[0].contains("unknown header: foo"));
}

#[test]
fn invalid_type_warns() {
    let msg = AmpMessage::parse("---\ntype: banana\n---\n").unwrap();
    let warnings = validate(&msg);
    assert!(warnings.iter().any(|w| w.contains("invalid type")));
}

#[test]
fn empty_message_always_valid() {
    let msg = AmpMessage::empty();
    assert!(validate(&msg).is_empty());
}

#[test]
fn every_fault_of_a_message_warns() {
    let msg = AmpMessage::parse("---\nttl: soon\nargs: {bad\njson: nope\n---\n").unwrap();
    let warnings = validate(&msg);
    assert_eq!(warnings.len(), 3);
    assert!(warnings.iter().any(|w| w.contains("ttl")));
    assert!(warnings.iter().any(|w| w.contains("args")));
    assert!(warnings.iter().any(|w| w.contains("json")));
    let fine = AmpMessage::parse("---\nttl: 4294967295\nargs: {}\njson: [1]\n---\n").unwrap();
    assert!(validate(&fine).is_empty());
    let late = AmpMessage::parse("---\nttl: 4294967296\n---\n").unwrap();
    assert_eq!(validate(&late).len(), 1);
    assert!(validate_with(&fine, false, false).is_empty());
    assert_eq!(validate_with(&fine, true, true).len(), 2);
}

#[test]
fn numbers_are_read_and_written() {
    assert_eq!(number::decimal_text(0), "0");
    assert_eq!(number::decimal_text(9800), "9800");
    assert_eq!(number::decimal_text(u64::MAX), "18446744073709551615");
    for s in ["0", "+7", "007", "4294967295"] {
        assert_eq!(number::spells_u32(s), s.parse::<u32>().is_ok());
        assert!(number::spells_u32(s));
    }
    for s in ["", "+", "-1", "4294967296", "1a", " 1", "99999999999999999999"] {
        assert_eq!(number::spells_u32(s), s.parse::<u32>().is_ok());
        assert!(!number::spells_u32(s));
    }
}

#[test]
fn white_space_is_that_of_unicode() {
    let mut n: u32 = 0;
    while n <= 0x10FFFF {
        if let Some(c) = char::from_u32(n) {
            assert_eq!(text::white_space(c), c.is_whitespace());
        }
        n += 1;
    }
    assert_eq!(text::trimmed("\u{3000} a b\t\n"), "a b");
    assert_eq!(text::trimmed(" \n"), "");
}

#[test]
fn maps_and_sets_hold_each_key_once() {
    let mut map: StrMap<u32> = StrMap::new();
    assert!(map.is_empty());
    map.insert("a".to_string(), 1);
    map.insert("b".to_string(), 2);
    map.insert("a".to_string(), 3);
    assert_eq!(map.len(), 2);
    assert_eq!(map.key(0), "a");
    assert_eq!(*map.value(0), 3);
    assert_eq!(map.get("b"), Some(&2));
    assert_eq!(map.take("b"), Some(2));
    assert_eq!(map.take("b"), None);
    map.remove("a");
    assert!(!map.contains_key("a"));
    let mut set = StrSet::new();
    set.insert("x");
    set.insert("x");
    set.insert("y");
    assert_eq!(set.len(), 2);
    assert_eq!(set.member(1), "y");
    set.remove("x");
    assert!(!set.contains("x"));
    assert!(!set.is_empty());
}
