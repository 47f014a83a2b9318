use muonfp::address::Ipv4Address;
use muonfp::fingerprint::{frame_line, parse_line, Fingerprint, LogRecord, Timestamp};
use muonfp::json::{hex_digit_value, read_char, read_literal, read_quoted};
use muonfp::text::{chars_of, decimal_len, decimal_string, digit, push_decimal, push_zero_padded};

fn fingerprint(hostname: &str, secs: u64, nanos: u32) -> Fingerprint {
    Fingerprint::new(
        String::from(hostname),
        Ipv4Address::from_octets(203, 0, 113, 9),
        29200,
        String::from("2-1-3-1-1-8"),
        String::from("1460"),
        String::from("7"),
        Timestamp { secs, nanos },
    )
}

#[test]
fn new_composes_the_signature() {
    let fp = fingerprint("sensor-1", 1_431_648_000, 0);
    assert_eq!(fp.hostname, "sensor-1");
    assert_eq!(fp.timestamp, Timestamp { secs: 1_431_648_000, nanos: 0 });
    assert_eq!(fp.ip_address, Ipv4Address::from_octets(203, 0, 113, 9));
    assert_eq!(fp.muonfp_fingerprint, "29200:2-1-3-1-1-8:1460:7");
}

#[test]
fn signature_leaves_out_host_peer_and_time() {
    let a = fingerprint("sensor-1", 1_431_648_000, 0);
    let b = Fingerprint::new(
        String::from("sensor-2"),
        Ipv4Address::from_octets(198, 51, 100, 77),
        29200,
        String::from("2-1-3-1-1-8"),
        String::from("1460"),
        String::from("7"),
        Timestamp { secs: 1_700_000_000, nanos: 5 },
    );
    assert_eq!(a.muonfp_fingerprint, b.muonfp_fingerprint);
}

#[test]
fn json_line_of_a_fingerprint() {
    let fp = fingerprint("sensor-1", 1_431_648_000, 0);
    assert_eq!(
        fp.to_json(),
        "{\"hostname\":\"sensor-1\",\"timestamp\":\"2015-05-15T00:00:00Z\",\"ip_address\":\"203.0.113.9\",\"muonfp_fingerprint\":\"29200:2-1-3-1-1-8:1460:7\"}"
    );
}

#[test]
fn timestamp_shows_as_many_fraction_digits_as_it_needs() {
    let line = fingerprint("h", 1_516_991_409, 453_000_000).to_json();
    assert!(line.contains("\"timestamp\":\"2018-01-26T18:30:09.453Z\""), "{}", line);
    let line = fingerprint("h", 1_516_991_409, 453_829_000).to_json();
    assert!(line.contains("\"timestamp\":\"2018-01-26T18:30:09.453829Z\""), "{}", line);
    let line = fingerprint("h", 1_516_991_409, 1).to_json();
    assert!(line.contains("\"timestamp\":\"2018-01-26T18:30:09.000000001Z\""), "{}", line);
    let line = fingerprint("h", 0, 0).to_json();
    assert!(line.contains("\"timestamp\":\"1970-01-01T00:00:00Z\""), "{}", line);
}

#[test]
fn a_time_without_a_date_gives_the_placeholder() {
    assert_eq!(fingerprint("h", u64::MAX, 0).to_json(), "{}");
    assert_eq!(fingerprint("h", i64::MAX as u64, 0).to_json(), "{}");
    assert_eq!(fingerprint("h", i64::MAX as u64 + 1, 0).to_json(), "{}");
    assert_eq!(fingerprint("h", 0, 2_000_000_000).to_json(), "{}");
}

#[test]
fn host_name_is_escaped() {
    let fp = fingerprint("a\"b\\c\nd\te\u{1}f\u{1f}g\u{7f}h\u{e9}\u{8}\u{c}\r/", 0, 0);
    let line = fp.to_json();
    assert!(
        line.starts_with(
            "{\"hostname\":\"a\\\"b\\\\c\\nd\\te\\u0001f\\u001fg\u{7f}h\u{e9}\\b\\f\\r/\",\"timestamp\":"
        ),
        "{}",
        line
    );
}

#[test]
fn the_line_is_json_with_four_string_members() {
    let fp = fingerprint("host \"x\"\n", 1_431_648_000, 7_000);
    let value: serde_json::Value = serde_json::from_str(&fp.to_json()).unwrap();
    let object = value.as_object().unwrap();
    assert_eq!(object.len(), 4);
    assert_eq!(object["hostname"].as_str(), Some("host \"x\"\n"));
    assert_eq!(object["timestamp"].as_str(), Some("2015-05-15T00:00:00.000007Z"));
    assert_eq!(object["ip_address"].as_str(), Some("203.0.113.9"));
    assert_eq!(object["muonfp_fingerprint"].as_str(), Some("29200:2-1-3-1-1-8:1460:7"));
    let keys: Vec<&str> = object.keys().map(|k| k.as_str()).collect();
    assert!(keys.contains(&"hostname") && keys.contains(&"muonfp_fingerprint"));
}

#[test]
fn reading_a_written_line_gives_the_signature_back() {
    let hosts = ["sensor-1", "", "a\"b\\c\nd\te\u{1}f\u{1f}g\u{7f}h\u{e9}\u{8}\u{c}\r/", "{}", "\\u0041"];
    for host in hosts {
        let fp = fingerprint(host, 1_431_648_000, 123);
        let record = parse_line(&fp.to_json()).unwrap();
        assert_eq!(
            record,
            LogRecord {
                hostname: String::from(host),
                timestamp: String::from("2015-05-15T00:00:00.000000123Z"),
                ip_address: String::from("203.0.113.9"),
                muonfp_fingerprint: fp.muonfp_fingerprint.clone(),
            }
        );
    }
}

#[test]
fn a_line_is_one_line_whatever_the_host_is_called() {
    let hosts = ["a\nb", "\n", "\r\n\r\n", "x\u{0}\u{1f}\u{a}y", "plain"];
    for host in hosts {
        let fp = fingerprint(host, 1_431_648_000, 0);
        let line = fp.to_json();
        assert!(!line.contains('\n'), "{:?}", line);
        assert!(line.chars().all(|c| c as u32 >= 0x20), "{:?}", line);
        let record = parse_line(&line).unwrap();
        assert_eq!(record.hostname, host);
        assert_eq!(record.ip_address, "203.0.113.9");
        assert_eq!(record.timestamp, "2015-05-15T00:00:00Z");
        assert_eq!(record.muonfp_fingerprint, fp.muonfp_fingerprint);
        assert_eq!(fp.hostname, host);
    }
    assert!(!fingerprint("a\nb", u64::MAX, 0).to_json().contains('\n'));
}

#[test]
fn nanoseconds_below_a_second_are_well_formed() {
    assert!(Timestamp { secs: 0, nanos: 0 }.is_well_formed());
    assert!(Timestamp { secs: u64::MAX, nanos: 999_999_999 }.is_well_formed());
    assert!(!Timestamp { secs: 0, nanos: 1_000_000_000 }.is_well_formed());
    assert!(!Timestamp { secs: 0, nanos: u32::MAX }.is_well_formed());
}

#[test]
fn every_second_up_to_the_year_9999_has_a_text() {
    for secs in [0u64, 1, 59, 86_399, 86_400, 951_782_400, 4_102_444_800, 253_402_300_799] {
        for nanos in [0u32, 1, 999_999_999] {
            assert!(Timestamp { secs, nanos }.to_text().is_some(), "{} {}", secs, nanos);
            assert_ne!(fingerprint("h", secs, nanos).to_json(), "{}");
        }
    }
}

#[test]
fn reading_refuses_what_is_no_log_line() {
    let good = fingerprint("h", 0, 0).to_json();
    assert!(parse_line(&good).is_some());
    assert_eq!(parse_line("{}"), None);
    assert_eq!(parse_line(""), None);
    assert_eq!(parse_line(&good[..good.len() - 1]), None);
    assert_eq!(parse_line(&format!("{} ", good)), None);
    assert_eq!(parse_line(&format!(" {}", good)), None);
    assert_eq!(parse_line(&good.replace("\"h\"", "\"h")), None);
    assert_eq!(parse_line(&good.replace("\"h\"", "\"\\x\"")), None);
    assert_eq!(parse_line(&good.replace("\"h\"", "\"\\u00zz\"")), None);
    assert_eq!(parse_line(&good.replace("\"h\"", "\"\\u0041\"")), None);
    assert_eq!(parse_line(&good.replace("\"h\"", "\"\n\"")), None);
    assert_eq!(parse_line(&good.replace("ip_address", "address")), None);
    assert_eq!(
        parse_line(&good.replace("\"h\"", "\"\\u0000\\u001f\\b\"")).unwrap().hostname,
        "\u{0}\u{1f}\u{8}"
    );
}

#[test]
fn frame_line_frames_or_gives_the_placeholder() {
    let s = |t: &str| Some(String::from(t));
    assert_eq!(
        frame_line(s("\"a\""), s("\"b\""), s("\"c\""), s("\"d\"")),
        "{\"hostname\":\"a\",\"timestamp\":\"b\",\"ip_address\":\"c\",\"muonfp_fingerprint\":\"d\"}"
    );
    assert_eq!(frame_line(None, s("b"), s("c"), s("d")), "{}");
    assert_eq!(frame_line(s("a"), None, s("c"), s("d")), "{}");
    assert_eq!(frame_line(s("a"), s("b"), None, s("d")), "{}");
    assert_eq!(frame_line(s("a"), s("b"), s("c"), None), "{}");
    assert_eq!(frame_line(None, None, None, None), "{}");
}

#[test]
fn timestamp_text() {
    assert_eq!(
        Timestamp { secs: 1_431_648_000, nanos: 0 }.to_text(),
        Some(String::from("2015-05-15T00:00:00Z"))
    );
    assert_eq!(Timestamp { secs: u64::MAX, nanos: 0 }.to_text(), None);
}

#[test]
fn far_times_have_a_text_as_long_as_they_have_a_date() {
    assert_eq!(
        Timestamp { secs: 253_402_300_799, nanos: 0 }.to_text(),
        Some(String::from("9999-12-31T23:59:59Z"))
    );
    assert_eq!(
        Timestamp { secs: 253_402_300_800, nanos: 0 }.to_text(),
        Some(String::from("+10000-01-01T00:00:00Z"))
    );
    assert!(Timestamp { secs: 8_210_266_876_799, nanos: 999_999_999 }.to_text().is_some());
    assert_eq!(Timestamp { secs: 8_210_266_876_800, nanos: 0 }.to_text(), None);
    let line = fingerprint("h", 253_402_300_800, 0).to_json();
    assert_eq!(parse_line(&line).unwrap().timestamp, "+10000-01-01T00:00:00Z");
}

#[test]
fn quoted_literals_are_read_with_their_end() {
    let input: Vec<char> = "x\"a\\\"b\"y".chars().collect();
    assert_eq!(read_quoted(&input, 1), Some((String::from("a\"b"), 7)));
    assert_eq!(read_quoted(&input, 0), None);
    assert_eq!(read_quoted(&input, 6), None);
    assert_eq!(read_quoted(&input, 8), None);
    assert_eq!(read_quoted(&input, 100), None);
    let empty: Vec<char> = "\"\"".chars().collect();
    assert_eq!(read_quoted(&empty, 0), Some((String::new(), 2)));
}

#[test]
fn characters_are_read_one_by_one() {
    let input: Vec<char> = "a\\n\\u001b\\".chars().collect();
    assert_eq!(read_char(&input, 0), Some(('a', 1)));
    assert_eq!(read_char(&input, 1), Some(('\n', 3)));
    assert_eq!(read_char(&input, 3), Some(('\u{1b}', 9)));
    assert_eq!(read_char(&input, 9), None);
    let high: Vec<char> = "\\u0020".chars().collect();
    assert_eq!(read_char(&high, 0), None);
    let upper: Vec<char> = "\\u001B".chars().collect();
    assert_eq!(read_char(&upper, 0), None);
}

#[test]
fn literals_are_matched_in_place() {
    let input: Vec<char> = "abcdef".chars().collect();
    let cd: Vec<char> = "cd".chars().collect();
    assert_eq!(read_literal(&input, 2, &cd), Some(4));
    assert_eq!(read_literal(&input, 1, &cd), None);
    assert_eq!(read_literal(&input, 5, &cd), None);
    assert_eq!(read_literal(&input, 7, &cd), None);
    assert_eq!(read_literal(&input, 6, &[]), Some(6));
}

#[test]
fn hex_digits() {
    assert_eq!(hex_digit_value('0'), Some(0));
    assert_eq!(hex_digit_value('9'), Some(9));
    assert_eq!(hex_digit_value('a'), Some(10));
    assert_eq!(hex_digit_value('f'), Some(15));
    assert_eq!(hex_digit_value('A'), None);
    assert_eq!(hex_digit_value('g'), None);
}

#[test]
fn decimal_text() {
    assert_eq!(decimal_string(0), "0");
    assert_eq!(decimal_string(7), "7");
    assert_eq!(decimal_string(10), "10");
    assert_eq!(decimal_string(65535), "65535");
    assert_eq!(decimal_string(u64::MAX), "18446744073709551615");
    assert_eq!(decimal_len(0), 1);
    assert_eq!(decimal_len(9), 1);
    assert_eq!(decimal_len(10), 2);
    assert_eq!(decimal_len(u64::MAX), 20);
    assert_eq!(digit(0), '0');
    assert_eq!(digit(9), '9');
    let mut s = String::from("n=");
    push_decimal(&mut s, 1460);
    assert_eq!(s, "n=1460");
}

#[test]
fn zero_padded_text() {
    let mut s = String::new();
    push_zero_padded(&mut s, 42, 4);
    assert_eq!(s, "0042");
    push_zero_padded(&mut s, 0, 1);
    assert_eq!(s, "00420");
    push_zero_padded(&mut s, 12345, 4);
    assert_eq!(s, "0042012345");
    let mut t = String::new();
    push_zero_padded(&mut t, 1_700_000_000, 10);
    assert_eq!(t, "1700000000");
    push_zero_padded(&mut t, 7, 0);
    assert_eq!(t, "17000000007");
}

#[test]
fn characters_of_text() {
    assert_eq!(chars_of(""), Vec::<char>::new());
    assert_eq!(chars_of("a\u{e9}\u{1f600}"), vec!['a', '\u{e9}', '\u{1f600}']);
}
