//! Handshake detection and the fingerprint that a handshake segment yields.

use crate::address::Ipv4Address;
use crate::json::{
    json_string, lemma_quoted_has_no_control, lemma_quoted_round_trip, literal_at, quoted,
    quoted_at, read_literal, read_quoted,
};
use crate::options::{
    big_endian_16, decode_tcp_options, kinds_from, mss_from, options_region, window_scale_from,
};
use crate::text::{chars_of, decimal, decimal_string, push_decimal};
use vstd::prelude::*;
use vstd::string::StringExecFns;

verus! {

/// pnet's constant `TcpFlags::SYN`: the bit `0b0000_0010` of the flags byte.
#[verifier::external_body]
fn syn_flag() -> (flag: u8)
    ensures
        flag == 0x02,
{
    pnet::packet::tcp::TcpFlags::SYN
}

/// pnet's constant `TcpFlags::ACK`: the bit `0b0001_0000` of the flags byte.
#[verifier::external_body]
fn ack_flag() -> (flag: u8)
    ensures
        flag == 0x10,
{
    pnet::packet::tcp::TcpFlags::ACK
}

/// Whether the SYN bit is set in a flags byte.
pub open spec fn has_syn(tcp_flags: u8) -> bool {
    tcp_flags & 0x02 != 0
}

/// Whether the ACK bit is set in a flags byte.
pub open spec fn has_ack(tcp_flags: u8) -> bool {
    tcp_flags & 0x10 != 0
}

/// Whether a segment with these flags opens a handshake as seen from this
/// host: a bare SYN that comes in, or a SYN-ACK on a connection that this
/// host began.
pub open spec fn opens_handshake(tcp_flags: u8, is_incoming: bool) -> bool {
    if is_incoming {
        has_syn(tcp_flags) && !has_ack(tcp_flags)
    } else {
        has_syn(tcp_flags) && has_ack(tcp_flags)
    }
}

/// Whether a segment with these flags is the one to fingerprint.
pub fn is_syn_packet(tcp_flags: u8, is_incoming: bool) -> (eligible: bool)
    ensures
        eligible == opens_handshake(tcp_flags, is_incoming),
{
    let is_syn = tcp_flags & syn_flag() != 0;
    let is_ack = tcp_flags & ack_flag() != 0;
    (is_incoming && is_syn && !is_ack) || (!is_incoming && is_syn && is_ack)
}

/// The flags byte of a segment: byte 13.
pub open spec fn flags_of(segment: Seq<u8>) -> u8
    recommends
        segment.len() >= 20,
{
    segment[13]
}

/// The advertised window of a segment: bytes 14 and 15, big-endian.
pub open spec fn window_of(segment: Seq<u8>) -> int
    recommends
        segment.len() >= 20,
{
    big_endian_16(segment[14], segment[15])
}

/// The advertised window of a segment.
pub fn window_size(segment: &[u8]) -> (window: u16)
    requires
        segment.len() >= 20,
    ensures
        window == window_of(segment@),
{
    segment[14] as u16 * 256 + segment[15] as u16
}

/// Option kinds as text: their decimal numbers, joined by `-`.
pub open spec fn kinds_text(kinds: Seq<u8>) -> Seq<char>
    decreases kinds.len(),
{
    if kinds.len() == 0 {
        Seq::empty()
    } else if kinds.len() == 1 {
        decimal(kinds[0] as nat)
    } else {
        kinds_text(kinds.drop_last()).push('-') + decimal(kinds.last() as nat)
    }
}

/// The maximum segment size of decoded options, as text.
pub open spec fn mss_text(region: Seq<u8>) -> Seq<char> {
    match mss_from(region, 0) {
        Some(v) => decimal(v as nat),
        None => Seq::empty(),
    }
}

/// The window scale of decoded options, as text.
pub open spec fn window_scale_text(region: Seq<u8>) -> Seq<char> {
    match window_scale_from(region, 0) {
        Some(v) => decimal(v as nat),
        None => Seq::empty(),
    }
}

/// Writes option kinds as text.
pub fn render_kinds(kinds: &Vec<u8>) -> (text: String)
    ensures
        text@ == kinds_text(kinds@),
{
    let mut text = String::new();
    let mut i: usize = 0;
    while i < kinds.len()
        invariant
            i <= kinds.len(),
            text@ == kinds_text(kinds@.take(i as int)),
        decreases kinds.len() - i,
    {
        if i > 0 {
            text.push('-');
        }
        push_decimal(&mut text, kinds[i] as u64);
        proof {
            let upto = kinds@.take(i + 1);
            assert(upto.drop_last() == kinds@.take(i as int));
            assert(upto.last() == kinds@[i as int]);
        }
        i += 1;
    }
    assert(kinds@.take(kinds.len() as int) == kinds@);
    text
}

/// Decodes the options of a TCP segment into the three texts of a
/// fingerprint: the kinds of the options in order, joined by `-`; the maximum
/// segment size; the window scale. The last two are empty where no option
/// gave the value in full.
pub fn extract_tcp_options(tcp_payload: &[u8]) -> (texts: (String, String, String))
    ensures
        texts.0@ == kinds_text(kinds_from(options_region(tcp_payload@), 0)),
        texts.1@ == mss_text(options_region(tcp_payload@)),
        texts.2@ == window_scale_text(options_region(tcp_payload@)),
{
    let decoded = decode_tcp_options(tcp_payload);
    let options = render_kinds(&decoded.kinds);
    let mss = match decoded.mss {
        Some(v) => decimal_string(v as u64),
        None => String::new(),
    };
    let window_scale = match decoded.window_scale {
        Some(v) => decimal_string(v as u64),
        None => String::new(),
    };
    (options, mss, window_scale)
}

/// The canonical signature of a handshake: window size, option kinds,
/// maximum segment size and window scale, joined by `:`.
pub open spec fn signature(
    window_size: int,
    options: Seq<char>,
    mss: Seq<char>,
    window_scale: Seq<char>,
) -> Seq<char> {
    decimal(window_size as nat).push(':') + options + seq![':'] + mss + seq![':'] + window_scale
}

/// Writes the canonical signature of a handshake.
pub fn compose_signature(window_size: u16, options: &str, mss: &str, window_scale: &str) -> (text:
    String)
    ensures
        text@ == signature(window_size as int, options@, mss@, window_scale@),
{
    let mut text = decimal_string(window_size as u64);
    text.push(':');
    text.append(options);
    text.push(':');
    text.append(mss);
    text.push(':');
    text.append(window_scale);
    text
}

/// A moment in time: seconds since the Unix epoch, and the nanoseconds
/// within the second.
#[derive(Clone, Copy, Debug, PartialEq, Eq, Structural)]
pub struct Timestamp {
    pub secs: u64,
    pub nanos: u32,
}

/// The last second of the year 9999, in seconds since the Unix epoch.
pub const LAST_SECOND_OF_9999: u64 = 253_402_300_799;

impl Timestamp {
    /// Whether the nanoseconds lie within one second.
    pub open spec fn well_formed(self) -> bool {
        self.nanos < 1_000_000_000
    }

    /// Whether the moment lies between the Unix epoch and the end of the
    /// year 9999, with its nanoseconds within one second.
    pub open spec fn in_common_years(self) -> bool {
        self.secs <= LAST_SECOND_OF_9999 && self.nanos < 1_000_000_000
    }

    /// Whether the nanoseconds lie within one second.
    pub fn is_well_formed(&self) -> (valid: bool)
        ensures
            valid == self.well_formed(),
    {
        self.nanos < 1_000_000_000
    }

    /// The moment as text, where it has one.
    pub open spec fn text(self) -> Option<Seq<char>> {
        if self.secs <= i64::MAX {
            utc_text(self.secs as int, self.nanos as int)
        } else {
            None
        }
    }

    /// Nanoseconds since the Unix epoch.
    pub open spec fn nanos_since_epoch(self) -> int {
        self.secs * 1_000_000_000 + self.nanos
    }

    /// Writes the moment as text. A moment too far away to have a calendar
    /// date has none; every moment up to the end of the year 9999 has one.
    pub fn to_text(&self) -> (text: Option<String>)
        ensures
            match text {
                Some(t) => self.text() == Some(t@),
                None => self.text() is None,
            },
            self.in_common_years() ==> text is Some,
    {
        if self.secs <= i64::MAX as u64 {
            format_utc(self.secs as i64, self.nanos)
        } else {
            None
        }
    }
}

/// The text that chrono writes for a moment in UTC, in the form of RFC 3339
/// with as many digits of the second's fraction as the moment needs and `Z`
/// for the offset; `None` for a moment that chrono cannot hold.
pub uninterp spec fn utc_text(secs: int, nanos: int) -> Option<Seq<char>>;

/// chrono's `DateTime::from_timestamp`, then `to_rfc3339_opts` with
/// `SecondsFormat::AutoSi` and `use_z` on the moment it gives: the text that
/// chrono serializes a UTC moment to. `from_timestamp` gives nothing for
/// seconds out of range or invalid nanoseconds; it gives a moment for every
/// second from the Unix epoch to the end of the year 9999 with nanoseconds
/// below one second.
#[verifier::external_body]
fn format_utc(secs: i64, nanos: u32) -> (text: Option<String>)
    ensures
        match text {
            Some(t) => utc_text(secs as int, nanos as int) == Some(t@),
            None => utc_text(secs as int, nanos as int) is None,
        },
        0 <= secs <= 253_402_300_799 && nanos < 1_000_000_000 ==> text is Some,
{
    match chrono::DateTime::from_timestamp(secs, nanos) {
        Some(moment) => Some(moment.to_rfc3339_opts(chrono::SecondsFormat::AutoSi, true)),
        None => None,
    }
}

/// What opens a log line, up to the host name.
pub open spec fn hostname_key() -> Seq<char> {
    "{\"hostname\":"@
}

/// What stands between host name and time.
pub open spec fn timestamp_key() -> Seq<char> {
    ",\"timestamp\":"@
}

/// What stands between time and address.
pub open spec fn address_key() -> Seq<char> {
    ",\"ip_address\":"@
}

/// What stands between address and signature.
pub open spec fn signature_key() -> Seq<char> {
    ",\"muonfp_fingerprint\":"@
}

/// What closes a log line.
pub open spec fn line_end() -> Seq<char> {
    "}"@
}

/// The line written where a fingerprint cannot be serialized.
pub open spec fn placeholder() -> Seq<char> {
    "{}"@
}

/// A log line around four string literals.
pub open spec fn framed(
    hostname: Seq<char>,
    timestamp: Seq<char>,
    ip_address: Seq<char>,
    signature: Seq<char>,
) -> Seq<char> {
    hostname_key() + hostname + timestamp_key() + timestamp + address_key() + ip_address
        + signature_key() + signature + line_end()
}

/// The log line of a fingerprint: one JSON object whose four members are
/// strings.
pub open spec fn json_line(
    hostname: Seq<char>,
    timestamp: Seq<char>,
    ip_address: Seq<char>,
    signature: Seq<char>,
) -> Seq<char> {
    framed(quoted(hostname), quoted(timestamp), quoted(ip_address), quoted(signature))
}

/// The log line around four string literals, or the placeholder where one
/// of them is missing.
pub open spec fn framed_or_placeholder(
    hostname: Option<Seq<char>>,
    timestamp: Option<Seq<char>>,
    ip_address: Option<Seq<char>>,
    signature: Option<Seq<char>>,
) -> Seq<char> {
    match (hostname, timestamp, ip_address, signature) {
        (Some(h), Some(t), Some(a), Some(s)) => framed(h, t, a, s),
        _ => placeholder(),
    }
}

/// A `String`, if there is one, as plain text.
pub open spec fn text_of(s: Option<String>) -> Option<Seq<char>> {
    match s {
        Some(s) => Some(s@),
        None => None,
    }
}

/// Frames four serialized members as one log line. Where a member could not
/// be serialized, the line is the empty object.
pub fn frame_line(
    hostname: Option<String>,
    timestamp: Option<String>,
    ip_address: Option<String>,
    signature: Option<String>,
) -> (line: String)
    ensures
        line@ == framed_or_placeholder(
            text_of(hostname),
            text_of(timestamp),
            text_of(ip_address),
            text_of(signature),
        ),
{
    match (hostname, timestamp, ip_address, signature) {
        (Some(h), Some(t), Some(a), Some(s)) => {
            let mut line = String::from_str("{\"hostname\":");
            line.append(h.as_str());
            line.append(",\"timestamp\":");
            line.append(t.as_str());
            line.append(",\"ip_address\":");
            line.append(a.as_str());
            line.append(",\"muonfp_fingerprint\":");
            line.append(s.as_str());
            line.append("}");
            line
        },
        _ => String::from_str("{}"),
    }
}

/// The line that a fingerprint is logged as: its JSON object, or the
/// placeholder where its time has no text.
pub open spec fn log_line_of(
    hostname: Seq<char>,
    timestamp: Timestamp,
    ip_address: Ipv4Address,
    signature: Seq<char>,
) -> Seq<char> {
    match timestamp.text() {
        Some(time) => json_line(hostname, time, ip_address.dotted(), signature),
        None => placeholder(),
    }
}

/// The fingerprint of one handshake segment.
#[derive(Debug, PartialEq, Eq)]
pub struct Fingerprint {
    /// The host that saw the handshake.
    pub hostname: String,
    /// When the fingerprint was taken.
    pub timestamp: Timestamp,
    /// The peer.
    pub ip_address: Ipv4Address,
    /// The canonical signature of the handshake.
    pub muonfp_fingerprint: String,
}

impl Fingerprint {
    /// The line that this fingerprint is logged as.
    pub open spec fn log_line(&self) -> Seq<char> {
        log_line_of(self.hostname@, self.timestamp, self.ip_address, self.muonfp_fingerprint@)
    }

    /// Composes the fingerprint of a handshake seen by `hostname` at
    /// `timestamp`. The signature takes in the handshake alone: neither the
    /// peer nor the host nor the time.
    pub fn new(
        hostname: String,
        ip: Ipv4Address,
        window_size: u16,
        options: String,
        mss: String,
        window_scale: String,
        timestamp: Timestamp,
    ) -> (fingerprint: Self)
        ensures
            fingerprint.hostname@ == hostname@,
            fingerprint.timestamp == timestamp,
            fingerprint.ip_address == ip,
            fingerprint.muonfp_fingerprint@ == signature(
                window_size as int,
                options@,
                mss@,
                window_scale@,
            ),
    {
        let muonfp_fingerprint = compose_signature(
            window_size,
            options.as_str(),
            mss.as_str(),
            window_scale.as_str(),
        );
        Fingerprint { hostname, timestamp, ip_address: ip, muonfp_fingerprint }
    }

    /// What reading the log line of this fingerprint gives, where its time
    /// has a text.
    pub open spec fn logged(&self) -> LogRecordView {
        LogRecordView {
            hostname: self.hostname@,
            timestamp: self.timestamp.text()->0,
            ip_address: self.ip_address.dotted(),
            muonfp_fingerprint: self.muonfp_fingerprint@,
        }
    }

    /// Serializes the fingerprint as one line: a JSON object with the
    /// members `hostname`, `timestamp`, `ip_address` and
    /// `muonfp_fingerprint`, or the empty object where its time has no text.
    ///
    /// A time up to the end of the year 9999 has a text. The line of such a
    /// fingerprint, read back, gives its host, its peer and its signature
    /// unchanged.
    pub fn to_json(&self) -> (line: String)
        ensures
            line@ == self.log_line(),
            self.timestamp.in_common_years() ==> self.timestamp.text() is Some,
            self.timestamp.text() is Some ==> parsed_line(line@) == Some(self.logged()),
            self.timestamp.text() is None ==> line@ == placeholder(),
            !line@.contains('\n'),
    {
        proof {
            lemma_line_has_no_line_feed(
                self.hostname@,
                self.timestamp.text()->0,
                self.ip_address.dotted(),
                self.muonfp_fingerprint@,
            );
            if self.timestamp.text() is Some {
                lemma_line_round_trip(
                    self.hostname@,
                    self.timestamp.text()->0,
                    self.ip_address.dotted(),
                    self.muonfp_fingerprint@,
                );
            }
        }
        let hostname = json_string(self.hostname.as_str());
        let timestamp = match self.timestamp.to_text() {
            Some(time) => json_string(time.as_str()),
            None => None,
        };
        let address = self.ip_address.to_text();
        let ip_address = json_string(address.as_str());
        let signature = json_string(self.muonfp_fingerprint.as_str());
        frame_line(hostname, timestamp, ip_address, signature)
    }
}

/// One line of the fingerprint log, read back: its four members as text.
#[derive(Debug, PartialEq, Eq)]
pub struct LogRecord {
    pub hostname: String,
    pub timestamp: String,
    pub ip_address: String,
    pub muonfp_fingerprint: String,
}

/// One line of the fingerprint log as plain text.
pub struct LogRecordView {
    pub hostname: Seq<char>,
    pub timestamp: Seq<char>,
    pub ip_address: Seq<char>,
    pub muonfp_fingerprint: Seq<char>,
}

impl View for LogRecord {
    type V = LogRecordView;

    open spec fn view(&self) -> LogRecordView {
        LogRecordView {
            hostname: self.hostname@,
            timestamp: self.timestamp@,
            ip_address: self.ip_address@,
            muonfp_fingerprint: self.muonfp_fingerprint@,
        }
    }
}

/// The text of the member that stands at `at` behind `key`, and the offset
/// behind it.
pub open spec fn member_at(input: Seq<char>, at: int, key: Seq<char>) -> Option<(Seq<char>, int)> {
    match literal_at(input, at, key) {
        Some(start) => quoted_at(input, start),
        None => None,
    }
}

/// What a log line holds: `None` for a line that is no object of the four
/// members, in order and without white space.
pub open spec fn parsed_line(input: Seq<char>) -> Option<LogRecordView> {
    match member_at(input, 0, hostname_key()) {
        Some((hostname, after_host)) => match member_at(input, after_host, timestamp_key()) {
            Some((timestamp, after_time)) => match member_at(input, after_time, address_key()) {
                Some((ip_address, after_address)) => match member_at(input, after_address, signature_key()) {
                    Some((muonfp_fingerprint, after_signature)) => if literal_at(input, after_signature, line_end()) == Some(
                        input.len() as int,
                    ) {
                        Some(LogRecordView { hostname, timestamp, ip_address, muonfp_fingerprint })
                    } else {
                        None
                    },
                    None => None,
                },
                None => None,
            },
            None => None,
        },
        None => None,
    }
}

/// Reads the member that stands at `at` behind `key`.
pub fn read_member(input: &[char], at: usize, key: &str) -> (read: Option<(String, usize)>)
    ensures
        match read {
            Some((text, end)) => member_at(input@, at as int, key@) == Some((text@, end as int))
                && end <= input.len(),
            None => member_at(input@, at as int, key@) is None,
        },
{
    let key_chars = chars_of(key);
    match read_literal(input, at, key_chars.as_slice()) {
        Some(start) => read_quoted(input, start),
        None => None,
    }
}

/// Reads one line of the fingerprint log back.
pub fn parse_line(line: &str) -> (record: Option<LogRecord>)
    ensures
        match record {
            Some(r) => parsed_line(line@) == Some(r@),
            None => parsed_line(line@) is None,
        },
{
    let chars = chars_of(line);
    let input = chars.as_slice();
    let (hostname, after_host) = match read_member(input, 0, "{\"hostname\":") {
        Some(read) => read,
        None => {
            return None;
        },
    };
    let (timestamp, after_time) = match read_member(input, after_host, ",\"timestamp\":") {
        Some(read) => read,
        None => {
            return None;
        },
    };
    let (ip_address, after_address) = match read_member(input, after_time, ",\"ip_address\":") {
        Some(read) => read,
        None => {
            return None;
        },
    };
    let (muonfp_fingerprint, after_signature) = match read_member(input, after_address, ",\"muonfp_fingerprint\":") {
        Some(read) => read,
        None => {
            return None;
        },
    };
    let closing = chars_of("}");
    match read_literal(input, after_signature, closing.as_slice()) {
        Some(end) => if end == input.len() {
            Some(LogRecord { hostname, timestamp, ip_address, muonfp_fingerprint })
        } else {
            None
        },
        None => None,
    }
}

/// A member written behind its key is read back as it was, whatever follows.
pub proof fn lemma_member_round_trip(input: Seq<char>, at: int, key: Seq<char>, text: Seq<char>)
    requires
        0 <= at,
        at + key.len() + quoted(text).len() <= input.len(),
        input.subrange(at, at + key.len() + quoted(text).len()) == key + quoted(text),
    ensures
        member_at(input, at, key) == Some((text, at + key.len() + quoted(text).len())),
{
    let q = quoted(text);
    let both = key + q;
    assert forall|k: int| 0 <= k < both.len() implies input[at + k] == both[k] by {
        assert(input.subrange(at, at + both.len())[k] == input[at + k]);
    }
    assert(input.subrange(at, at + key.len()) =~= key) by {
        assert forall|k: int| 0 <= k < key.len() implies input[at + k] == key[k] by {
            assert(both[k] == key[k]);
        }
    }
    let start = at + key.len();
    assert(input.subrange(start, start + q.len()) =~= q) by {
        assert forall|k: int| 0 <= k < q.len() implies input[start + k] == q[k] by {
            assert(both[key.len() + k] == q[k]);
        }
    }
    lemma_quoted_round_trip(input, start, text);
}

/// A log line that is written and read back gives the four texts it was
/// written from.
pub proof fn lemma_line_round_trip(
    hostname: Seq<char>,
    timestamp: Seq<char>,
    ip_address: Seq<char>,
    signature: Seq<char>,
)
    ensures
        parsed_line(json_line(hostname, timestamp, ip_address, signature)) == Some(
            LogRecordView { hostname, timestamp, ip_address, muonfp_fingerprint: signature },
        ),
{
    let line = json_line(hostname, timestamp, ip_address, signature);
    let host_member = hostname_key() + quoted(hostname);
    let time_member = timestamp_key() + quoted(timestamp);
    let address_member = address_key() + quoted(ip_address);
    let signature_member = signature_key() + quoted(signature);
    assert(line =~= host_member + time_member + address_member + signature_member + line_end());
    let after_host = host_member.len() as int;
    let after_time = after_host + time_member.len();
    let after_address = after_time + address_member.len();
    let after_signature = after_address + signature_member.len();
    assert(line.subrange(0, after_host) =~= host_member);
    assert(line.subrange(after_host, after_time) =~= time_member);
    assert(line.subrange(after_time, after_address) =~= address_member);
    assert(line.subrange(after_address, after_signature) =~= signature_member);
    assert(line.subrange(after_signature, after_signature + line_end().len()) =~= line_end());
    lemma_member_round_trip(line, 0, hostname_key(), hostname);
    lemma_member_round_trip(line, after_host, timestamp_key(), timestamp);
    lemma_member_round_trip(line, after_time, address_key(), ip_address);
    lemma_member_round_trip(line, after_address, signature_key(), signature);
}

/// A log line is one line: it holds no line feed, whatever its four texts
/// hold.
pub proof fn lemma_line_has_no_line_feed(
    hostname: Seq<char>,
    timestamp: Seq<char>,
    ip_address: Seq<char>,
    signature: Seq<char>,
)
    ensures
        !json_line(hostname, timestamp, ip_address, signature).contains('\n'),
        !placeholder().contains('\n'),
{
    reveal_strlit("{\"hostname\":");
    reveal_strlit(",\"timestamp\":");
    reveal_strlit(",\"ip_address\":");
    reveal_strlit(",\"muonfp_fingerprint\":");
    reveal_strlit("}");
    reveal_strlit("{}");
    lemma_quoted_has_no_control(hostname);
    lemma_quoted_has_no_control(timestamp);
    lemma_quoted_has_no_control(ip_address);
    lemma_quoted_has_no_control(signature);
    let line = json_line(hostname, timestamp, ip_address, signature);
    let parts = seq![
        hostname_key(),
        quoted(hostname),
        timestamp_key(),
        quoted(timestamp),
        address_key(),
        quoted(ip_address),
        signature_key(),
        quoted(signature),
        line_end(),
    ];
    assert forall|k: int, i: int|
        0 <= k < parts.len() && 0 <= i < parts[k].len() implies (#[trigger] parts[k][i]) != '\n' by {
        if k == 1 || k == 3 || k == 5 || k == 7 {
            assert(parts[k][i] as u32 >= 0x20);
        }
    }
    assert(line =~= parts[0] + parts[1] + parts[2] + parts[3] + parts[4] + parts[5] + parts[6]
        + parts[7] + parts[8]);
    assert forall|i: int| 0 <= i < line.len() implies line[i] != '\n' by {
        let l0 = parts[0].len();
        let l1 = l0 + parts[1].len();
        let l2 = l1 + parts[2].len();
        let l3 = l2 + parts[3].len();
        let l4 = l3 + parts[4].len();
        let l5 = l4 + parts[5].len();
        let l6 = l5 + parts[6].len();
        let l7 = l6 + parts[7].len();
        if i < l0 {
            assert(line[i] == parts[0][i]);
        } else if i < l1 {
            assert(line[i] == parts[1][i - l0]);
        } else if i < l2 {
            assert(line[i] == parts[2][i - l1]);
        } else if i < l3 {
            assert(line[i] == parts[3][i - l2]);
        } else if i < l4 {
            assert(line[i] == parts[4][i - l3]);
        } else if i < l5 {
            assert(line[i] == parts[5][i - l4]);
        } else if i < l6 {
            assert(line[i] == parts[6][i - l5]);
        } else if i < l7 {
            assert(line[i] == parts[7][i - l6]);
        } else {
            assert(line[i] == parts[8][i - l7]);
        }
    }
}

/// A fingerprint whose time has a text is logged as a line from which its
/// signature can be read back unchanged.
pub proof fn lemma_signature_round_trip(fingerprint: Fingerprint)
    requires
        fingerprint.timestamp.text() is Some,
    ensures
        parsed_line(fingerprint.log_line()) == Some(fingerprint.logged()),
        fingerprint.logged().muonfp_fingerprint == fingerprint.muonfp_fingerprint@,
        fingerprint.logged().hostname == fingerprint.hostname@,
        fingerprint.logged().ip_address == fingerprint.ip_address.dotted(),
{
    let time = fingerprint.timestamp.text()->0;
    lemma_line_round_trip(
        fingerprint.hostname@,
        time,
        fingerprint.ip_address.dotted(),
        fingerprint.muonfp_fingerprint@,
    );
}

} // verus!
