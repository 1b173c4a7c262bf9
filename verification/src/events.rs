//! Canonical events and their deterministic fingerprints.

use sha2::Digest;
use vstd::prelude::*;
use vstd::string::*;
use vstd::utf8::encode_utf8;

use crate::config::EventLevel;
use crate::text::push_char;

verus! {

/// A canonical event extracted from a log line.
///
/// Raw logs are never used in decision logic, only canonical events.
#[derive(Clone, Debug)]
pub struct CanonicalEvent {
    /// ISO-8601 timestamp (from the log line, or the epoch when it has none).
    pub timestamp: String,
    /// Severity level of the event.
    pub level: EventLevel,
    /// The classified event type (e.g. "grpc_server_started", "panic").
    pub event_type: String,
    /// Deterministic fingerprint for deduplication and tracking.
    pub fingerprint: String,
    /// The raw log line that produced this event (for audit, not decisions).
    pub raw_line: Option<String>,
}

/// Abstract value of a canonical event.
pub struct EventView {
    pub timestamp: Seq<char>,
    pub level: EventLevel,
    pub event_type: Seq<char>,
    pub fingerprint: Seq<char>,
    pub raw_line: Option<Seq<char>>,
}

impl View for CanonicalEvent {
    type V = EventView;

    open spec fn view(&self) -> EventView {
        EventView {
            timestamp: self.timestamp@,
            level: self.level,
            event_type: self.event_type@,
            fingerprint: self.fingerprint@,
            raw_line: match self.raw_line {
                Some(s) => Some(s@),
                None => None,
            },
        }
    }
}

/// The SHA-256 digest of a byte string.
pub uninterp spec fn sha256(data: Seq<u8>) -> Seq<u8>;

/// `sha2::Sha256::digest`: the 32-byte SHA-256 digest of `data`.
#[verifier::external_body]
fn sha256_digest(data: &[u8]) -> (d: Vec<u8>)
    ensures
        d@ == sha256(data@),
        d@.len() == 32,
{
    sha2::Sha256::digest(data).to_vec()
}

/// Lower-case name of a level.
pub open spec fn level_name(level: EventLevel) -> Seq<char> {
    match level {
        EventLevel::Debug => "debug"@,
        EventLevel::Info => "info"@,
        EventLevel::Warn => "warn"@,
        EventLevel::Error => "error"@,
        EventLevel::Fatal => "fatal"@,
    }
}

/// Lower-case hexadecimal digit of `d < 16`.
pub open spec fn hex_char(d: nat) -> char {
    if d < 10 {
        ((d + 48) as u32) as char
    } else {
        ((d + 87) as u32) as char
    }
}

/// Lower-case hexadecimal notation of a byte string, two digits per byte.
pub open spec fn hex_lower(bytes: Seq<u8>) -> Seq<char>
    decreases bytes.len(),
{
    if bytes.len() == 0 {
        Seq::empty()
    } else {
        hex_lower(bytes.drop_last()).push(hex_char((bytes.last() / 16) as nat)).push(
            hex_char((bytes.last() % 16) as nat),
        )
    }
}

/// The fingerprint of an event type at a level: the first 16 hexadecimal
/// digits of the SHA-256 digest of the UTF-8 text `"<type>:<level>"`.
pub open spec fn fingerprint_of(event_type: Seq<char>, level: EventLevel) -> Seq<char> {
    hex_lower(sha256(encode_utf8(event_type + ":"@ + level_name(level))).take(8))
}

fn hex_digit(d: u8) -> (c: char)
    requires
        d < 16,
    ensures
        c == hex_char(d as nat),
{
    match d {
        0 => '0',
        1 => '1',
        2 => '2',
        3 => '3',
        4 => '4',
        5 => '5',
        6 => '6',
        7 => '7',
        8 => '8',
        9 => '9',
        10 => 'a',
        11 => 'b',
        12 => 'c',
        13 => 'd',
        14 => 'e',
        _ => 'f',
    }
}

fn level_label(level: EventLevel) -> (s: &'static str)
    ensures
        s@ == level_name(level),
{
    match level {
        EventLevel::Debug => "debug",
        EventLevel::Info => "info",
        EventLevel::Warn => "warn",
        EventLevel::Error => "error",
        EventLevel::Fatal => "fatal",
    }
}

/// Generates the deterministic fingerprint of an event.
///
/// It is derived from the event type and level only, so the same
/// classification always produces the same fingerprint.
pub fn fingerprint(event_type: &str, level: &EventLevel) -> (f: String)
    ensures
        f@ == fingerprint_of(event_type@, *level),
        f@.len() == 16,
{
    let mut input = String::from_str(event_type);
    input.append(":");
    input.append(level_label(*level));
    let digest = sha256_digest(input.as_str().as_bytes());
    let ghost d = digest@;
    let mut out = String::new();
    let mut i: usize = 0;
    while i < 8
        invariant
            i <= 8,
            d == digest@,
            d.len() == 32,
            out@ == hex_lower(d.take(i as int)),
        decreases 8 - i,
    {
        let b = digest[i];
        push_char(&mut out, hex_digit(b / 16));
        push_char(&mut out, hex_digit(b % 16));
        proof {
            assert(d.take(i + 1).drop_last() =~= d.take(i as int));
            assert(d.take(i + 1).last() == b);
        }
        i = i + 1;
    }
    proof {
        lemma_hex_len(d.take(8));
    }
    out
}

proof fn lemma_hex_len(bytes: Seq<u8>)
    ensures
        hex_lower(bytes).len() == 2 * bytes.len(),
    decreases bytes.len(),
{
    if bytes.len() > 0 {
        lemma_hex_len(bytes.drop_last());
    }
}

} // verus!
