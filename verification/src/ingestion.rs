//! Log ingestion: turns raw log text into numbered lines with detected format
//! and timestamps, and merges lines from several sources.

use vstd::prelude::*;
use vstd::string::*;

use crate::config::LogFormat;
use crate::error::Error;
use crate::text::{chars_of, is_white_space, string_of_prefix, trim, trim_chars};
use crate::verdict::strings_view;

verus! {

/// A single raw log line with metadata from ingestion.
#[derive(Clone, Debug)]
pub struct RawLogLine {
    /// The raw line content.
    pub content: String,
    /// Line number in the source (1-based).
    pub line_number: usize,
    /// Timestamp extracted from the line, if available.
    pub timestamp: Option<String>,
    /// Whether this line was detected as JSON.
    pub is_json: bool,
    /// Source file path or identifier. None for sources without a name.
    pub source: Option<String>,
}

/// Abstract value of a raw log line.
pub struct LineView {
    pub content: Seq<char>,
    pub line_number: nat,
    pub timestamp: Option<Seq<char>>,
    pub is_json: bool,
    pub source: Option<Seq<char>>,
}

/// Abstract value of an optional string.
pub open spec fn opt_view(o: Option<String>) -> Option<Seq<char>> {
    match o {
        Some(s) => Some(s@),
        None => None,
    }
}

impl View for RawLogLine {
    type V = LineView;

    open spec fn view(&self) -> LineView {
        LineView {
            content: self.content@,
            line_number: self.line_number as nat,
            timestamp: opt_view(self.timestamp),
            is_json: self.is_json,
            source: opt_view(self.source),
        }
    }
}

/// The abstract values of a sequence of lines.
pub open spec fn lines_view(s: Seq<RawLogLine>) -> Seq<LineView> {
    s.map_values(|l: RawLogLine| l@)
}

/// Log reader for one log format.
#[derive(Clone, Debug)]
pub struct LogReader {
    pub format: LogFormat,
}

/// The text of the top-level field `key` of the JSON document `text`, when
/// `text` parses as JSON and that field holds a string.
pub uninterp spec fn json_string_field(text: Seq<char>, key: Seq<char>) -> Option<Seq<char>>;

/// `serde_json::from_str::<Value>`, then `Value::get` and `Value::as_str`.
#[verifier::external_body]
fn json_field(text: &str, key: &str) -> (r: Option<String>)
    ensures
        match r {
            Some(s) => json_string_field(text@, key@) == Some(s@),
            None => json_string_field(text@, key@) is None,
        },
{
    match serde_json::from_str::<serde_json::Value>(text) {
        Ok(v) => match v.get(key) {
            Some(f) => match f.as_str() {
                Some(s) => Some(s.to_string()),
                None => None,
            },
            None => None,
        },
        Err(_) => None,
    }
}

/// The JSON fields searched for a timestamp, in order.
pub open spec fn timestamp_keys() -> Seq<Seq<char>> {
    seq!["timestamp"@, "ts"@, "time"@, "@timestamp"@, "datetime"@]
}

/// The first of the timestamp keys (from index `k` on) that holds a string.
pub open spec fn json_timestamp_from(text: Seq<char>, k: int) -> Option<Seq<char>>
    decreases 5 - k,
{
    if k < 0 || k >= 5 {
        None
    } else if json_string_field(text, timestamp_keys()[k]) is Some {
        json_string_field(text, timestamp_keys()[k])
    } else {
        json_timestamp_from(text, k + 1)
    }
}

/// Number of bytes of the UTF-8 encoding of a character.
pub open spec fn utf8_width(c: char) -> nat {
    if (c as u32) < 0x80 {
        1
    } else if (c as u32) < 0x800 {
        2
    } else if (c as u32) < 0x10000 {
        3
    } else {
        4
    }
}

/// Number of bytes of the UTF-8 encoding of a text.
pub open spec fn byte_len(s: Seq<char>) -> nat
    decreases s.len(),
{
    if s.len() == 0 {
        0
    } else {
        byte_len(s.drop_last()) + utf8_width(s.last())
    }
}

/// Byte offset `b` falls between two characters of `s`.
pub open spec fn is_boundary(s: Seq<char>, b: int) -> bool {
    exists|k: int| 0 <= k <= s.len() && #[trigger] byte_len(s.take(k)) == b
}

/// Number of characters in the first `b` bytes of `s` (when `b` is a boundary).
pub open spec fn chars_in_bytes(s: Seq<char>, b: int) -> int {
    choose|k: int| 0 <= k <= s.len() && #[trigger] byte_len(s.take(k)) == b
}

/// Index of the first space in `s`, or -1.
pub open spec fn first_space(s: Seq<char>) -> int
    decreases s.len(),
{
    if s.len() == 0 {
        -1
    } else if s[0] == ' ' {
        0
    } else {
        let r = first_space(s.drop_first());
        if r < 0 {
            -1
        } else {
            r + 1
        }
    }
}

/// The first 19 bytes of the (trimmed) line look like the start of an
/// ISO-8601 date-time: `-` at characters 4 and 7, `T` or a space at 10.
pub open spec fn looks_like_date(p: Seq<char>) -> bool {
    p.len() > 10 && p[4] == '-' && p[7] == '-' && (p[10] == 'T' || p[10] == ' ')
}

/// Byte length at which a plaintext timestamp ends when no space follows.
pub open spec fn fallback_end(t: Seq<char>) -> int {
    if byte_len(t) < 30 {
        byte_len(t) as int
    } else {
        30
    }
}

/// The timestamp at the start of a trimmed plaintext line: when its first 19
/// bytes look like a date, the text up to the next space after them, or up to
/// byte 30 (or the end) when there is no such space.
pub open spec fn plain_timestamp(t: Seq<char>) -> Option<Seq<char>> {
    if byte_len(t) < 19 {
        None
    } else {
        let k = chars_in_bytes(t, 19);
        if !looks_like_date(t.take(k)) {
            None
        } else {
            let sp = first_space(t.skip(k));
            if sp >= 0 {
                Some(t.take(k + sp))
            } else {
                Some(t.take(chars_in_bytes(t, fallback_end(t))))
            }
        }
    }
}

/// Slicing the line at the byte offsets that the timestamp extraction uses
/// would cut a character in two (the extraction panics there).
pub open spec fn plain_timestamp_panics(t: Seq<char>) -> bool {
    byte_len(t) >= 19 && (!is_boundary(t, 19) || (looks_like_date(t.take(chars_in_bytes(t, 19)))
        && first_space(t.skip(chars_in_bytes(t, 19))) < 0 && !is_boundary(t, fallback_end(t))))
}

/// The timestamp of a line: from its JSON fields when it is JSON, else from
/// the start of its trimmed text.
pub open spec fn timestamp_of(line: Seq<char>, is_json: bool) -> Option<Seq<char>> {
    if is_json {
        json_timestamp_from(line, 0)
    } else {
        plain_timestamp(trim(line))
    }
}

/// Whether a line is JSON under a format setting.
pub open spec fn json_detected(line: Seq<char>, format: LogFormat) -> bool {
    match format {
        LogFormat::Json => true,
        LogFormat::Plaintext => false,
        LogFormat::Auto => {
            let t = trim(line);
            t.len() > 0 && t[0] == '{' && t.last() == '}'
        },
    }
}

/// Reading the line would panic in timestamp extraction.
pub open spec fn line_panics(line: Seq<char>, format: LogFormat) -> bool {
    trim(line).len() > 0 && !json_detected(line, format) && plain_timestamp_panics(trim(line))
}

proof fn lemma_byte_len_take_step(s: Seq<char>, k: int)
    requires
        0 <= k < s.len(),
    ensures
        byte_len(s.take(k + 1)) == byte_len(s.take(k)) + utf8_width(s[k]),
{
    assert(s.take(k + 1).drop_last() =~= s.take(k));
}

proof fn lemma_byte_len_monotone(s: Seq<char>, k1: int, k2: int)
    requires
        0 <= k1 < k2 <= s.len(),
    ensures
        byte_len(s.take(k1)) + k2 - k1 <= byte_len(s.take(k2)),
    decreases k2 - k1,
{
    lemma_byte_len_take_step(s, k2 - 1);
    if k1 < k2 - 1 {
        lemma_byte_len_monotone(s, k1, k2 - 1);
    }
}

proof fn lemma_byte_len_full(s: Seq<char>)
    ensures
        byte_len(s.take(s.len() as int)) == byte_len(s),
{
    assert(s.take(s.len() as int) =~= s);
}

fn width(c: char) -> (w: usize)
    ensures
        w == utf8_width(c),
{
    let u = c as u32;
    if u < 0x80 {
        1
    } else if u < 0x800 {
        2
    } else if u < 0x10000 {
        3
    } else {
        4
    }
}

/// Finds the number of characters that fill exactly `b` bytes of `t`.
fn boundary_index(t: &Vec<char>, b: usize) -> (r: Option<usize>)
    requires
        b <= 64,
    ensures
        match r {
            Some(k) => k <= t@.len() && byte_len(t@.take(k as int)) == b && is_boundary(t@, b as int)
                && chars_in_bytes(t@, b as int) == k,
            None => !is_boundary(t@, b as int),
        },
{
    let n = t.len();
    let mut k: usize = 0;
    let mut acc: usize = 0;
    assert(t@.take(0) =~= Seq::<char>::empty());
    while k < n && acc < b
        invariant
            n == t@.len(),
            k <= n,
            acc == byte_len(t@.take(k as int)),
            acc <= b + 4,
            b <= 64,
            forall|j: int| 0 <= j < k ==> byte_len(t@.take(j)) < b,
        decreases n - k,
    {
        proof {
            lemma_byte_len_take_step(t@, k as int);
        }
        acc = acc + width(t[k]);
        k = k + 1;
    }
    if acc == b {
        assert(is_boundary(t@, b as int));
        proof {
            let c = chars_in_bytes(t@, b as int);
            if c < k {
                assert(byte_len(t@.take(c)) < b);
            } else if c > k {
                lemma_byte_len_monotone(t@, k as int, c);
            }
        }
        Some(k)
    } else {
        proof {
            assert forall|j: int| 0 <= j <= t@.len() implies #[trigger] byte_len(t@.take(j)) != b by {
                if j < k {
                } else if j > k {
                    lemma_byte_len_monotone(t@, k as int, j);
                }
            }
        }
        None
    }
}

proof fn lemma_first_space(s: Seq<char>, i: int)
    requires
        0 <= i <= s.len(),
        forall|j: int| 0 <= j < i ==> s[j] != ' ',
        i == s.len() || s[i] == ' ',
    ensures
        first_space(s) == if i == s.len() { -1 } else { i },
    decreases i,
{
    if i > 0 {
        assert forall|j: int| 0 <= j < i - 1 implies s.drop_first()[j] != ' ' by {
            assert(s.drop_first()[j] == s[j + 1]);
        }
        if i < s.len() {
            assert(s.drop_first()[i - 1] == s[i]);
        }
        lemma_first_space(s.drop_first(), i - 1);
    }
}

/// Scans a trimmed plaintext line for its timestamp: whether extraction would
/// panic and, when it would not, where the timestamp ends (if there is one).
fn scan_timestamp(t: &Vec<char>) -> (r: (bool, Option<usize>))
    ensures
        r.0 == plain_timestamp_panics(t@),
        !r.0 ==> match r.1 {
            Some(e) => e <= t@.len() && plain_timestamp(t@) == Some(t@.take(e as int)),
            None => plain_timestamp(t@) is None,
        },
{
    let n = t.len();
    let mut blen: usize = 0;
    let mut i: usize = 0;
    assert(t@.take(0) =~= Seq::<char>::empty());
    while i < n && blen < 31
        invariant
            n == t@.len(),
            i <= n,
            blen == byte_len(t@.take(i as int)),
            blen <= 34,
        decreases n - i,
    {
        proof {
            lemma_byte_len_take_step(t@, i as int);
        }
        blen = blen + width(t[i]);
        i = i + 1;
    }
    proof {
        lemma_byte_len_full(t@);
        if i < n {
            lemma_byte_len_monotone(t@, i as int, n as int);
        }
    }
    // blen is the byte length of t when below 31, and at least 31 otherwise
    if blen < 19 {
        return (false, None);
    }
    let k = match boundary_index(t, 19) {
        Some(k) => k,
        None => {
            return (true, None);
        },
    };
    if !(k > 10 && t[4] == '-' && t[7] == '-' && (t[10] == 'T' || t[10] == ' ')) {
        assert(!looks_like_date(t@.take(k as int)));
        return (false, None);
    }
    assert(looks_like_date(t@.take(k as int)));
    let mut j: usize = k;
    while j < n && t[j] != ' '
        invariant
            n == t@.len(),
            k <= j <= n,
            forall|m: int| k <= m < j ==> t@[m] != ' ',
        decreases n - j,
    {
        j = j + 1;
    }
    proof {
        let rest = t@.skip(k as int);
        assert forall|m: int| 0 <= m < j - k implies rest[m] != ' ' by {
            assert(rest[m] == t@[m + k]);
        }
        if j < n {
            assert(rest[j - k] == t@[j as int]);
        }
        lemma_first_space(rest, (j - k) as int);
    }
    if j < n {
        return (false, Some(j));
    }
    let fb: usize = if blen < 30 {
        blen
    } else {
        30
    };
    match boundary_index(t, fb) {
        Some(e) => (false, Some(e)),
        None => (true, None),
    }
}

/// Whether timestamp extraction would panic on a trimmed plaintext line.
fn timestamp_panics(t: &Vec<char>) -> (b: bool)
    ensures
        b == plain_timestamp_panics(t@),
{
    scan_timestamp(t).0
}

/// Extracts the timestamp from a trimmed plaintext line.
fn plain_timestamp_exec(t: &Vec<char>) -> (r: Option<String>)
    requires
        !plain_timestamp_panics(t@),
    ensures
        match r {
            Some(s) => plain_timestamp(t@) == Some(s@),
            None => plain_timestamp(t@) is None,
        },
{
    match scan_timestamp(t).1 {
        Some(e) => Some(string_of_prefix(t.as_slice(), e)),
        None => None,
    }
}

/// Finds the first timestamp key holding a string in a JSON line.
fn json_timestamp(line: &str) -> (r: Option<String>)
    ensures
        opt_view(r) == json_timestamp_from(line@, 0),
{
    let keys: [&str; 5] = ["timestamp", "ts", "time", "@timestamp", "datetime"];
    proof {
        reveal_strlit("timestamp");
        reveal_strlit("ts");
        reveal_strlit("time");
        reveal_strlit("@timestamp");
        reveal_strlit("datetime");
    }
    let mut k: usize = 0;
    while k < 5
        invariant
            k <= 5,
            forall|j: int| 0 <= j < 5 ==> #[trigger] keys@[j]@ == timestamp_keys()[j],
            json_timestamp_from(line@, 0) == json_timestamp_from(line@, k as int),
        decreases 5 - k,
    {
        match json_field(line, keys[k]) {
            Some(ts) => {
                return Some(ts);
            },
            None => {},
        }
        k = k + 1;
    }
    None
}

/// Whether a line is JSON under a format setting.
fn detect_json(line: &Vec<char>, format: LogFormat) -> (b: bool)
    ensures
        b == json_detected(line@, format),
{
    match format {
        LogFormat::Json => true,
        LogFormat::Plaintext => false,
        LogFormat::Auto => {
            let t = trim_chars(line);
            t.len() > 0 && t[0] == '{' && t[t.len() - 1] == '}'
        },
    }
}

/// Extracts a timestamp from a log line.
fn extract_timestamp(line: &str, chars: &Vec<char>, is_json: bool) -> (r: Option<String>)
    requires
        chars@ == line@,
        !is_json ==> !plain_timestamp_panics(trim(line@)),
    ensures
        opt_view(r) == timestamp_of(line@, is_json),
{
    if is_json {
        json_timestamp(line)
    } else {
        let t = trim_chars(chars);
        plain_timestamp_exec(&t)
    }
}

/// The lines kept from raw text lines: blank lines are skipped, the others
/// numbered by their 1-based position, with JSON detection and timestamp.
pub open spec fn read_spec(lines: Seq<String>, format: LogFormat) -> Seq<LineView>
    decreases lines.len(),
{
    if lines.len() == 0 {
        Seq::empty()
    } else {
        let prev = read_spec(lines.drop_last(), format);
        let c = lines.last()@;
        if trim(c).len() == 0 {
            prev
        } else {
            let j = json_detected(c, format);
            prev.push(
                LineView {
                    content: c,
                    line_number: lines.len(),
                    timestamp: timestamp_of(c, j),
                    is_json: j,
                    source: None,
                },
            )
        }
    }
}

/// No line would make timestamp extraction panic.
pub open spec fn lines_readable(lines: Seq<String>, format: LogFormat) -> bool {
    forall|i: int| 0 <= i < lines.len() ==> !line_panics(#[trigger] lines[i]@, format)
}

impl LogReader {
    /// A reader for the given log format.
    pub fn new(format: LogFormat) -> (r: Self)
        ensures
            r.format == format,
    {
        LogReader { format }
    }

    /// Tests whether every line can be read (no timestamp slice would cut a
    /// character).
    pub fn can_read(&self, lines: &[String]) -> (b: bool)
        ensures
            b == lines_readable(lines@, self.format),
    {
        let mut i: usize = 0;
        while i < lines.len()
            invariant
                i <= lines@.len(),
                forall|j: int| 0 <= j < i ==> !line_panics(#[trigger] lines@[j]@, self.format),
            decreases lines.len() - i,
        {
            let chars = chars_of(lines[i].as_str());
            let t = trim_chars(&chars);
            if t.len() > 0 && !detect_json(&chars, self.format) && timestamp_panics(&t) {
                return false;
            }
            i = i + 1;
        }
        true
    }

    /// Reads log lines from raw text lines (line terminators removed).
    ///
    /// Blank lines are skipped; the others keep their 1-based position as
    /// line number and get JSON detection and a timestamp. No source is set.
    pub fn read_lines(&self, lines: &[String]) -> (r: Vec<RawLogLine>)
        requires
            lines_readable(lines@, self.format),
        ensures
            lines_view(r@) == read_spec(lines@, self.format),
    {
        let mut out: Vec<RawLogLine> = Vec::new();
        let mut idx: usize = 0;
        while idx < lines.len()
            invariant
                idx <= lines@.len(),
                lines_readable(lines@, self.format),
                lines_view(out@) == read_spec(lines@.take(idx as int), self.format),
            decreases lines.len() - idx,
        {
            let ghost pre = lines@.take(idx as int);
            let ghost post = lines@.take(idx + 1);
            assert(post.drop_last() =~= pre);
            assert(post.last() == lines@[idx as int]);
            let content = &lines[idx];
            let chars = chars_of(content.as_str());
            let t = trim_chars(&chars);
            if t.len() > 0 {
                let is_json = detect_json(&chars, self.format);
                assert(!line_panics(lines@[idx as int]@, self.format));
                let timestamp = extract_timestamp(content.as_str(), &chars, is_json);
                let line = RawLogLine {
                    content: content.clone(),
                    line_number: idx + 1,
                    timestamp,
                    is_json,
                    source: None,
                };
                let ghost before = out@;
                out.push(line);
                assert(lines_view(out@) =~= lines_view(before).push(line@));
            }
            idx = idx + 1;
        }
        assert(lines@.take(lines@.len() as int) =~= lines@);
        out
    }
}

/// Lexicographic order on texts, character by character (the order of
/// `String`, whose byte order follows the characters' code points).
pub open spec fn text_le(a: Seq<char>, b: Seq<char>) -> bool
    decreases a.len(),
{
    if a.len() == 0 {
        true
    } else if b.len() == 0 {
        false
    } else if (a[0] as u32) < (b[0] as u32) {
        true
    } else if a[0] == b[0] {
        text_le(a.drop_first(), b.drop_first())
    } else {
        false
    }
}

/// The order of texts is the lexicographic one, whatever their lengths: `a`
/// comes first when it is a prefix of `b`, or when at the first position
/// where they differ its character is the smaller.
pub proof fn law_text_le_lexicographic(a: Seq<char>, b: Seq<char>)
    ensures
        text_le(a, b) <==> ((a.len() <= b.len() && b.take(a.len() as int) == a) || exists|i: int|
            0 <= i < a.len() && i < b.len() && a.take(i) == b.take(i) && (#[trigger] a[i] as u32)
                < (b[i] as u32)),
    decreases a.len(),
{
    if a.len() == 0 {
        assert(b.take(0) =~= a);
    } else if b.len() == 0 {
    } else if (a[0] as u32) < (b[0] as u32) {
        assert(a.take(0) =~= b.take(0));
    } else if a[0] == b[0] {
        let a1 = a.drop_first();
        let b1 = b.drop_first();
        law_text_le_lexicographic(a1, b1);
        if a1.len() <= b1.len() && b1.take(a1.len() as int) == a1 {
            assert forall|j: int| 0 <= j < a.len() implies b.take(a.len() as int)[j] == a[j] by {
                if j > 0 {
                    assert(b1.take(a1.len() as int)[j - 1] == a1[j - 1]);
                }
            }
            assert(b.take(a.len() as int) =~= a);
        }
        if a.len() <= b.len() && b.take(a.len() as int) == a {
            assert(b1.take(a1.len() as int) =~= a1);
        }
        if exists|i: int|
            0 <= i < a1.len() && i < b1.len() && a1.take(i) == b1.take(i) && (#[trigger] a1[i] as u32)
                < (b1[i] as u32) {
            let i = choose|i: int|
                0 <= i < a1.len() && i < b1.len() && a1.take(i) == b1.take(i) && (#[trigger] a1[i] as u32)
                    < (b1[i] as u32);
            assert(a.take(i + 1) =~= seq![a[0]] + a1.take(i));
            assert(b.take(i + 1) =~= seq![b[0]] + b1.take(i));
            assert(a[i + 1] == a1[i] && b[i + 1] == b1[i]);
        }
        if exists|i: int|
            0 <= i < a.len() && i < b.len() && a.take(i) == b.take(i) && (#[trigger] a[i] as u32)
                < (b[i] as u32) {
            let i = choose|i: int|
                0 <= i < a.len() && i < b.len() && a.take(i) == b.take(i) && (#[trigger] a[i] as u32)
                    < (b[i] as u32);
            assert(i > 0);
            assert(a1.take(i - 1) =~= a.take(i).drop_first());
            assert(b1.take(i - 1) =~= b.take(i).drop_first());
            assert(a1[i - 1] == a[i] && b1[i - 1] == b[i]);
        }
    } else {
        vstd::utf8::char_u32_cast(a[0], a[0] as u32);
        vstd::utf8::char_u32_cast(b[0], b[0] as u32);
        if a.len() <= b.len() && b.take(a.len() as int) == a {
            assert(b.take(a.len() as int)[0] == b[0]);
        }
        if exists|i: int|
            0 <= i < a.len() && i < b.len() && a.take(i) == b.take(i) && (#[trigger] a[i] as u32)
                < (b[i] as u32) {
            let i = choose|i: int|
                0 <= i < a.len() && i < b.len() && a.take(i) == b.take(i) && (#[trigger] a[i] as u32)
                    < (b[i] as u32);
            if i > 0 {
                assert(a.take(i)[0] == a[0] && b.take(i)[0] == b[0]);
            }
        }
    }
}

/// Order of optional timestamps: no timestamp first, then by text.
pub open spec fn stamp_le(a: Option<Seq<char>>, b: Option<Seq<char>>) -> bool {
    match (a, b) {
        (None, _) => true,
        (Some(_), None) => false,
        (Some(x), Some(y)) => text_le(x, y),
    }
}

/// Lines without a timestamp sort before every line with one; timestamps
/// sort by the lexicographic order of their texts.
pub proof fn law_stamp_order(a: Seq<char>, b: Seq<char>)
    ensures
        stamp_le(None, Some(b)),
        stamp_le(None, None),
        !stamp_le(Some(a), None),
        stamp_le(Some(a), Some(b)) == text_le(a, b),
{
}

proof fn lemma_text_le_total(a: Seq<char>, b: Seq<char>)
    ensures
        text_le(a, b) || text_le(b, a),
        text_le(a, b) && text_le(b, a) ==> a == b,
    decreases a.len(),
{
    if a.len() > 0 && b.len() > 0 && a[0] == b[0] {
        lemma_text_le_total(a.drop_first(), b.drop_first());
        if text_le(a, b) && text_le(b, a) {
            assert(a =~= seq![a[0]] + a.drop_first());
            assert(b =~= seq![b[0]] + b.drop_first());
        }
    }
    if a.len() > 0 && b.len() > 0 && a[0] != b[0] {
        vstd::utf8::char_u32_cast(a[0], a[0] as u32);
        vstd::utf8::char_u32_cast(b[0], b[0] as u32);
        assert((a[0] as u32) != (b[0] as u32));
    }
    if a.len() == 0 && b.len() == 0 {
        assert(a =~= b);
    }
}

proof fn lemma_text_le_trans(a: Seq<char>, b: Seq<char>, c: Seq<char>)
    requires
        text_le(a, b),
        text_le(b, c),
    ensures
        text_le(a, c),
    decreases a.len(),
{
    if a.len() > 0 && b.len() > 0 && c.len() > 0 && a[0] == b[0] && b[0] == c[0] {
        lemma_text_le_trans(a.drop_first(), b.drop_first(), c.drop_first());
    }
}

proof fn lemma_stamp_total(a: Option<Seq<char>>, b: Option<Seq<char>>)
    ensures
        stamp_le(a, b) || stamp_le(b, a),
{
    if a is Some && b is Some {
        lemma_text_le_total(a->Some_0, b->Some_0);
    }
}

proof fn lemma_stamp_trans(a: Option<Seq<char>>, b: Option<Seq<char>>, c: Option<Seq<char>>)
    requires
        stamp_le(a, b),
        stamp_le(b, c),
    ensures
        stamp_le(a, c),
{
    if a is Some && b is Some && c is Some {
        lemma_text_le_trans(a->Some_0, b->Some_0, c->Some_0);
    }
}

proof fn lemma_stamp_antisym(a: Option<Seq<char>>, b: Option<Seq<char>>)
    requires
        stamp_le(a, b),
        stamp_le(b, a),
    ensures
        a == b,
{
    if a is Some && b is Some {
        lemma_text_le_total(a->Some_0, b->Some_0);
    }
}

fn text_le_exec(a: &Vec<char>, b: &Vec<char>) -> (r: bool)
    ensures
        r == text_le(a@, b@),
{
    let mut i: usize = 0;
    assert(a@.skip(0) =~= a@);
    assert(b@.skip(0) =~= b@);
    while i < a.len() && i < b.len() && a[i] == b[i]
        invariant
            i <= a@.len(),
            i <= b@.len(),
            text_le(a@, b@) == text_le(a@.skip(i as int), b@.skip(i as int)),
        decreases a.len() - i,
    {
        assert(a@.skip(i as int).drop_first() =~= a@.skip(i + 1));
        assert(b@.skip(i as int).drop_first() =~= b@.skip(i + 1));
        i = i + 1;
    }
    if i == a.len() {
        true
    } else if i == b.len() {
        false
    } else {
        assert(a@.skip(i as int)[0] == a@[i as int]);
        assert(b@.skip(i as int)[0] == b@[i as int]);
        (a[i] as u32) < (b[i] as u32)
    }
}

fn stamp_le_exec(a: &Option<String>, b: &Option<String>) -> (r: bool)
    ensures
        r == stamp_le(opt_view(*a), opt_view(*b)),
{
    match (a, b) {
        (None, _) => true,
        (Some(_), None) => false,
        (Some(x), Some(y)) => {
            let xc = chars_of(x.as_str());
            let yc = chars_of(y.as_str());
            text_le_exec(&xc, &yc)
        },
    }
}

/// `out` is the stable sort of `input` by timestamp: the same lines in
/// timestamp order, lines with equal timestamps keeping their input order.
pub open spec fn stably_sorted(input: Seq<LineView>, out: Seq<LineView>) -> bool {
    exists|perm: Seq<int>|
        {
            &&& perm.len() == input.len()
            &&& out.len() == input.len()
            &&& forall|i: int| 0 <= i < perm.len() ==> 0 <= #[trigger] perm[i] < input.len()
            &&& forall|i: int, j: int| 0 <= i < j < perm.len() ==> perm[i] != perm[j]
            &&& forall|i: int| 0 <= i < out.len() ==> #[trigger] out[i] == input[perm[i]]
            &&& forall|i: int, j: int|
                0 <= i < j < out.len() ==> stamp_le(out[i].timestamp, out[j].timestamp)
            &&& forall|i: int, j: int|
                0 <= i < j < out.len() && out[i].timestamp == out[j].timestamp ==> perm[i] < perm[j]
        }
}

/// The insertion step keeps the sort invariants.
proof fn lemma_insert_sorted(
    input: Seq<LineView>,
    out: Seq<LineView>,
    perm: Seq<int>,
    k: int,
    p: int,
)
    requires
        0 <= k < input.len(),
        perm.len() == k,
        out.len() == k,
        0 <= p <= k,
        forall|i: int| 0 <= i < perm.len() ==> 0 <= #[trigger] perm[i] < k,
        forall|i: int, j: int| 0 <= i < j < perm.len() ==> perm[i] != perm[j],
        forall|i: int| 0 <= i < k ==> #[trigger] out[i] == input[perm[i]],
        forall|i: int, j: int|
            0 <= i < j < k ==> stamp_le(#[trigger] out[i].timestamp, #[trigger] out[j].timestamp),
        forall|i: int, j: int|
            0 <= i < j < k && #[trigger] out[i].timestamp == #[trigger] out[j].timestamp
                ==> perm[i] < perm[j],
        forall|m: int| p <= m < k ==> !stamp_le(#[trigger] out[m].timestamp, input[k].timestamp),
        p == 0 || stamp_le(out[p - 1].timestamp, input[k].timestamp),
    ensures
        ({
            let out2 = out.insert(p, input[k]);
            let perm2 = perm.insert(p, k);
            &&& perm2.len() == k + 1
            &&& out2.len() == k + 1
            &&& forall|i: int| 0 <= i < perm2.len() ==> 0 <= #[trigger] perm2[i] < k + 1
            &&& forall|i: int, j: int| 0 <= i < j < perm2.len() ==> perm2[i] != perm2[j]
            &&& forall|i: int| 0 <= i < k + 1 ==> #[trigger] out2[i] == input[perm2[i]]
            &&& forall|i: int, j: int|
                0 <= i < j < k + 1 ==> stamp_le(
                    #[trigger] out2[i].timestamp,
                    #[trigger] out2[j].timestamp,
                )
            &&& forall|i: int, j: int|
                0 <= i < j < k + 1 && #[trigger] out2[i].timestamp == #[trigger] out2[j].timestamp
                    ==> perm2[i] < perm2[j]
        }),
{
    let x = input[k];
    let out2 = out.insert(p, x);
    let perm2 = perm.insert(p, k);
    assert forall|i: int| 0 <= i < k + 1 implies #[trigger] out2[i] == input[perm2[i]] by {
        if i < p {
            assert(out2[i] == out[i] && perm2[i] == perm[i]);
        } else if i > p {
            assert(out2[i] == out[i - 1] && perm2[i] == perm[i - 1]);
        }
    }
    assert forall|i: int| 0 <= i < k + 1 implies 0 <= #[trigger] perm2[i] < k + 1 by {
        if i < p {
            assert(perm2[i] == perm[i]);
        } else if i > p {
            assert(perm2[i] == perm[i - 1]);
        }
    }
    assert forall|i: int, j: int| 0 <= i < j < k + 1 implies perm2[i] != perm2[j] by {
        if i < p {
            assert(perm2[i] == perm[i]);
        } else if i > p {
            assert(perm2[i] == perm[i - 1]);
        }
        if j < p {
            assert(perm2[j] == perm[j]);
        } else if j > p {
            assert(perm2[j] == perm[j - 1]);
        }
    }
    // every earlier line sorts before x, every later one strictly after it
    assert forall|i: int| 0 <= i < p implies stamp_le(#[trigger] out[i].timestamp, x.timestamp) by {
        if i < p - 1 {
            lemma_stamp_trans(out[i].timestamp, out[p - 1].timestamp, x.timestamp);
        }
    }
    assert forall|m: int| p <= m < k implies stamp_le(x.timestamp, #[trigger] out[m].timestamp)
        && x.timestamp != out[m].timestamp by {
        lemma_stamp_total(out[m].timestamp, x.timestamp);
        lemma_stamp_total(x.timestamp, x.timestamp);
    }
    assert forall|i: int, j: int| 0 <= i < j < k + 1 implies stamp_le(
        #[trigger] out2[i].timestamp,
        #[trigger] out2[j].timestamp,
    ) by {
        if j < p {
            assert(out2[i] == out[i] && out2[j] == out[j]);
        } else if j == p {
            assert(out2[i] == out[i]);
        } else if i < p {
            assert(out2[i] == out[i] && out2[j] == out[j - 1]);
            lemma_stamp_trans(out[i].timestamp, x.timestamp, out[j - 1].timestamp);
        } else if i == p {
            assert(out2[j] == out[j - 1]);
        } else {
            assert(out2[i] == out[i - 1] && out2[j] == out[j - 1]);
        }
    }
    assert forall|i: int, j: int|
        0 <= i < j < k + 1 && #[trigger] out2[i].timestamp == #[trigger] out2[j].timestamp
            implies perm2[i] < perm2[j] by {
        if j < p {
            assert(out2[i] == out[i] && out2[j] == out[j]);
            assert(perm2[i] == perm[i] && perm2[j] == perm[j]);
        } else if j == p {
            assert(perm2[i] == perm[i]);
        } else if i < p {
            assert(out2[i] == out[i] && out2[j] == out[j - 1]);
            assert(perm2[i] == perm[i] && perm2[j] == perm[j - 1]);
            lemma_stamp_trans(out[j - 1].timestamp, out[i].timestamp, x.timestamp);
            lemma_stamp_antisym(out[j - 1].timestamp, x.timestamp);
        } else if i == p {
            assert(out2[j] == out[j - 1]);
        } else {
            assert(out2[i] == out[i - 1] && out2[j] == out[j - 1]);
            assert(perm2[i] == perm[i - 1] && perm2[j] == perm[j - 1]);
        }
    }
}

impl RawLogLine {
    /// A copy with the same content.
    pub fn duplicate(&self) -> (r: Self)
        ensures
            r@ == self@,
    {
        RawLogLine {
            content: self.content.clone(),
            line_number: self.line_number,
            timestamp: match &self.timestamp {
                Some(t) => Some(t.clone()),
                None => None,
            },
            is_json: self.is_json,
            source: match &self.source {
                Some(t) => Some(t.clone()),
                None => None,
            },
        }
    }
}

/// Sorts lines by timestamp, stably (lines without a timestamp first).
pub fn sort_by_timestamp(lines: &[RawLogLine]) -> (r: Vec<RawLogLine>)
    ensures
        stably_sorted(lines_view(lines@), lines_view(r@)),
{
    let ghost input = lines_view(lines@);
    let mut out: Vec<RawLogLine> = Vec::new();
    let ghost mut perm: Seq<int> = Seq::empty();
    let mut k: usize = 0;
    while k < lines.len()
        invariant
            k <= lines@.len(),
            input == lines_view(lines@),
            perm.len() == k,
            out@.len() == k,
            forall|i: int| 0 <= i < perm.len() ==> 0 <= #[trigger] perm[i] < k,
            forall|i: int, j: int| 0 <= i < j < perm.len() ==> perm[i] != perm[j],
            forall|i: int| 0 <= i < k ==> #[trigger] lines_view(out@)[i] == input[perm[i]],
            forall|i: int, j: int|
                0 <= i < j < k ==> stamp_le(
                    #[trigger] lines_view(out@)[i].timestamp,
                    #[trigger] lines_view(out@)[j].timestamp,
                ),
            forall|i: int, j: int|
                0 <= i < j < k && #[trigger] lines_view(out@)[i].timestamp
                    == #[trigger] lines_view(out@)[j].timestamp ==> perm[i] < perm[j],
        decreases lines.len() - k,
    {
        let x = lines[k].duplicate();
        let ghost ov = lines_view(out@);
        assert(x@ == input[k as int]);
        let mut p: usize = out.len();
        while p > 0 && !stamp_le_exec(&out[p - 1].timestamp, &x.timestamp)
            invariant
                p <= out@.len(),
                out@.len() == k,
                ov == lines_view(out@),
                x@ == input[k as int],
                forall|m: int| p <= m < k ==> !stamp_le(#[trigger] ov[m].timestamp, x@.timestamp),
            decreases p,
        {
            p = p - 1;
        }
        proof {
            lemma_insert_sorted(input, ov, perm, k as int, p as int);
            perm = perm.insert(p as int, k as int);
        }
        out.insert(p, x);
        assert(lines_view(out@) =~= ov.insert(p as int, input[k as int]));
        k = k + 1;
    }
    assert(lines_view(out@).len() == input.len());
    out
}

/// Where to read log lines from.
pub enum LogInput<'a> {
    /// A single log file.
    SingleFile(&'a str),
    /// All (or pattern-filtered) files in a directory.
    Directory { dir: &'a str, pattern: Option<&'a str> },
}

/// The raw text lines of one source, with the source's name.
#[derive(Clone, Debug)]
pub struct SourceText {
    pub path: String,
    pub lines: Vec<String>,
}

/// The lines with their source set.
pub open spec fn with_source(ls: Seq<LineView>, src: Seq<char>) -> Seq<LineView> {
    ls.map_values(|l: LineView| LineView { source: Some(src), ..l })
}

/// The lines of several sources, one source after the other.
pub open spec fn sources_spec(sources: Seq<SourceText>, format: LogFormat) -> Seq<LineView>
    decreases sources.len(),
{
    if sources.len() == 0 {
        Seq::empty()
    } else {
        sources_spec(sources.drop_last(), format) + with_source(
            read_spec(sources.last().lines@, format),
            sources.last().path@,
        )
    }
}

/// Every source can be read.
pub open spec fn sources_readable(sources: Seq<SourceText>, format: LogFormat) -> bool {
    forall|i: int| 0 <= i < sources.len() ==> lines_readable(#[trigger] sources[i].lines@, format)
}

/// The detail of the error for a directory without log files.
pub open spec fn no_files_message(dir: Seq<char>, pattern: Option<Seq<char>>) -> Seq<char> {
    "no log files found in "@ + dir + match pattern {
        Some(p) => " matching '"@ + p + "'"@,
        None => Seq::empty(),
    }
}

impl LogReader {
    /// Reads the lines of one source and records the source on each.
    pub fn read_source(&self, source: &SourceText) -> (r: Vec<RawLogLine>)
        requires
            lines_readable(source.lines@, self.format),
        ensures
            lines_view(r@) == with_source(read_spec(source.lines@, self.format), source.path@),
    {
        let mut lines = self.read_lines(source.lines.as_slice());
        let ghost before = lines_view(lines@);
        let mut out: Vec<RawLogLine> = Vec::new();
        let mut i: usize = 0;
        while i < lines.len()
            invariant
                i <= lines@.len(),
                before == lines_view(lines@),
                lines_view(out@) == with_source(before.take(i as int), source.path@),
            decreases lines.len() - i,
        {
            let mut l = lines[i].duplicate();
            l.source = Some(source.path.clone());
            let ghost prev = out@;
            assert(l@ == LineView { source: Some(source.path@), ..before[i as int] });
            out.push(l);
            assert(lines_view(out@) =~= lines_view(prev).push(l@));
            assert(before.take(i + 1) =~= before.take(i as int).push(before[i as int]));
            assert(with_source(before.take(i + 1), source.path@) =~= with_source(
                before.take(i as int),
                source.path@,
            ).push(l@));
            i = i + 1;
        }
        assert(before.take(before.len() as int) =~= before);
        out
    }

    /// Reads the sources one after the other, without reordering.
    pub fn read_sources(&self, sources: &[SourceText]) -> (r: Vec<RawLogLine>)
        requires
            sources_readable(sources@, self.format),
        ensures
            lines_view(r@) == sources_spec(sources@, self.format),
    {
        let mut out: Vec<RawLogLine> = Vec::new();
        let mut i: usize = 0;
        while i < sources.len()
            invariant
                i <= sources@.len(),
                sources_readable(sources@, self.format),
                lines_view(out@) == sources_spec(sources@.take(i as int), self.format),
            decreases sources.len() - i,
        {
            assert(sources@.take(i + 1).drop_last() =~= sources@.take(i as int));
            assert(sources@.take(i + 1).last() == sources@[i as int]);
            let more = self.read_source(&sources[i]);
            let ghost prev = lines_view(out@);
            let mut j: usize = 0;
            while j < more.len()
                invariant
                    j <= more@.len(),
                    lines_view(out@) == prev + lines_view(more@).take(j as int),
                decreases more.len() - j,
            {
                let ghost o = out@;
                let d = more[j].duplicate();
                out.push(d);
                assert(lines_view(out@) =~= lines_view(o).push(d@));
                assert(lines_view(more@).take(j + 1) =~= lines_view(more@).take(j as int).push(
                    d@,
                ));
                assert(lines_view(out@) =~= prev + lines_view(more@).take(j + 1));
                j = j + 1;
            }
            assert(lines_view(more@).take(more@.len() as int) =~= lines_view(more@));
            i = i + 1;
        }
        assert(sources@.take(sources@.len() as int) =~= sources@);
        out
    }

    /// Reads and merges the lines of several sources, sorted by timestamp
    /// (stably, lines without a timestamp first).
    pub fn read_files(&self, sources: &[SourceText]) -> (r: Vec<RawLogLine>)
        requires
            sources_readable(sources@, self.format),
        ensures
            stably_sorted(sources_spec(sources@, self.format), lines_view(r@)),
    {
        let all = self.read_sources(sources);
        sort_by_timestamp(all.as_slice())
    }

    /// Reads the lines of a single file or a directory: `sources` holds the
    /// text of the file, or of the directory's files in path order. A
    /// directory without files is an error; the lines of a directory's files
    /// are merged by timestamp.
    pub fn read_input(&self, input: LogInput, sources: &[SourceText]) -> (r: Result<Vec<RawLogLine>, Error>)
        requires
            sources_readable(sources@, self.format),
        ensures
            match input {
                LogInput::SingleFile(_) => r matches Ok(v) && lines_view(v@) == sources_spec(
                    sources@,
                    self.format,
                ),
                LogInput::Directory { dir, pattern } => if sources@.len() == 0 {
                    r matches Err(Error::Ingestion(m)) && m@ == no_files_message(
                        dir@,
                        match pattern {
                            Some(p) => Some(p@),
                            None => None,
                        },
                    )
                } else {
                    r matches Ok(v) && stably_sorted(
                        sources_spec(sources@, self.format),
                        lines_view(v@),
                    )
                },
            },
    {
        match input {
            LogInput::SingleFile(_) => Ok(self.read_sources(sources)),
            LogInput::Directory { dir, pattern } => {
                if sources.len() == 0 {
                    let mut m = String::from_str("no log files found in ");
                    m.append(dir);
                    match pattern {
                        Some(p) => {
                            m.append(" matching '");
                            m.append(p);
                            m.append("'");
                        },
                        None => {},
                    }
                    return Err(Error::Ingestion(m));
                }
                Ok(self.read_files(sources))
            },
        }
    }
}

/// Why a shell-style file pattern does not compile (the error's message),
/// or `None` when it compiles.
pub uninterp spec fn glob_pattern_error(pattern: Seq<char>) -> Option<Seq<char>>;

/// Whether a compiled shell-style file pattern matches a file name, under the
/// default options (case sensitive).
pub uninterp spec fn glob_match(pattern: Seq<char>, name: Seq<char>) -> bool;

/// `glob::Pattern::new`: the message of the error it gives for `pattern`,
/// `None` when the pattern compiles.
#[verifier::external_body]
fn glob_compile_error(pattern: &str) -> (r: Option<String>)
    ensures
        opt_view(r) == glob_pattern_error(pattern@),
{
    match glob::Pattern::new(pattern) {
        Ok(_) => None,
        Err(e) => Some(e.to_string()),
    }
}

/// `glob::Pattern::matches` on the compiled `pattern`.
#[verifier::external_body]
fn glob_matches(pattern: &str, name: &str) -> (b: bool)
    requires
        glob_pattern_error(pattern@) is None,
    ensures
        b == glob_match(pattern@, name@),
{
    match glob::Pattern::new(pattern) {
        Ok(p) => p.matches(name),
        Err(_) => false,
    }
}

/// A regular file found in a log directory: its path, and its file name
/// when that is valid text.
#[derive(Clone, Debug)]
pub struct LogFileEntry {
    pub path: String,
    pub name: Option<String>,
}

/// The optional pattern as text.
pub open spec fn pattern_view(p: Option<&str>) -> Option<Seq<char>> {
    match p {
        Some(x) => Some(x@),
        None => None,
    }
}

/// Checks the file pattern of a directory input: an error when it does not
/// compile.
pub fn check_glob_pattern(pattern: Option<&str>) -> (r: Result<(), Error>)
    ensures
        match pattern {
            None => r is Ok,
            Some(p) => match glob_pattern_error(p@) {
                None => r is Ok,
                Some(e) => r matches Err(Error::Ingestion(m)) && m@ == "invalid glob pattern '"@ + p@
                    + "': "@ + e,
            },
        },
{
    match pattern {
        None => Ok(()),
        Some(p) => match glob_compile_error(p) {
            None => Ok(()),
            Some(e) => {
                let mut m = String::from_str("invalid glob pattern '");
                m.append(p);
                m.append("': ");
                m.append(e.as_str());
                Err(Error::Ingestion(m))
            },
        },
    }
}

/// A file is taken when there is no pattern, or its name matches it.
pub open spec fn entry_selected(e: LogFileEntry, pattern: Option<Seq<char>>) -> bool {
    match pattern {
        None => true,
        Some(p) => e.name is Some && glob_match(p, e.name->Some_0@),
    }
}

/// The paths of the files taken, in directory order.
pub open spec fn selected_paths(entries: Seq<LogFileEntry>, pattern: Option<Seq<char>>) -> Seq<
    Seq<char>,
>
    decreases entries.len(),
{
    if entries.len() == 0 {
        Seq::empty()
    } else {
        let prev = selected_paths(entries.drop_last(), pattern);
        if entry_selected(entries.last(), pattern) {
            prev.push(entries.last().path@)
        } else {
            prev
        }
    }
}

/// The texts are in (character-wise) lexicographic order.
pub open spec fn paths_sorted(s: Seq<Seq<char>>) -> bool {
    forall|i: int, j: int| 0 <= i < j < s.len() ==> text_le(#[trigger] s[i], #[trigger] s[j])
}

/// Inserting `x` at a position before which all texts are at most `x` and
/// from which all are not, keeps the texts sorted.
proof fn lemma_insert_path_sorted(s: Seq<Seq<char>>, x: Seq<char>, p: int)
    requires
        paths_sorted(s),
        0 <= p <= s.len(),
        p == 0 || text_le(s[p - 1], x),
        forall|m: int| p <= m < s.len() ==> !text_le(#[trigger] s[m], x),
    ensures
        paths_sorted(s.insert(p, x)),
{
    let t = s.insert(p, x);
    assert forall|i: int| 0 <= i < p implies text_le(#[trigger] s[i], x) by {
        if i < p - 1 {
            lemma_text_le_trans(s[i], s[p - 1], x);
        }
    }
    assert forall|m: int| p <= m < s.len() implies text_le(x, #[trigger] s[m]) by {
        lemma_text_le_total(s[m], x);
    }
    assert forall|i: int, j: int| 0 <= i < j < t.len() implies text_le(#[trigger] t[i], #[trigger] t[j]) by {
        if j < p {
            assert(t[i] == s[i] && t[j] == s[j]);
        } else if j == p {
            assert(t[i] == s[i]);
        } else if i < p {
            assert(t[i] == s[i] && t[j] == s[j - 1]);
            lemma_text_le_trans(s[i], x, s[j - 1]);
        } else if i == p {
            assert(t[j] == s[j - 1]);
        } else {
            assert(t[i] == s[i - 1] && t[j] == s[j - 1]);
        }
    }
}

/// The files of a directory listing whose name matches the (compiling)
/// pattern, all without one, sorted by path.
fn sorted_selection(entries: &[LogFileEntry], pattern: Option<&str>) -> (r: Vec<String>)
    requires
        pattern matches Some(p) ==> glob_pattern_error(p@) is None,
    ensures
        paths_sorted(strings_view(r@)),
        strings_view(r@).to_multiset() == selected_paths(entries@, pattern_view(pattern)).to_multiset(),
{
    let ghost pv = pattern_view(pattern);
    let mut chosen: Vec<String> = Vec::new();
    let mut i: usize = 0;
    while i < entries.len()
        invariant
            i <= entries@.len(),
            pv == pattern_view(pattern),
            pattern matches Some(p) ==> glob_pattern_error(p@) is None,
            strings_view(chosen@) == selected_paths(entries@.take(i as int), pv),
        decreases entries.len() - i,
    {
        assert(entries@.take(i + 1).drop_last() =~= entries@.take(i as int));
        assert(entries@.take(i + 1).last() == entries@[i as int]);
        let e = &entries[i];
        let take = match pattern {
            None => true,
            Some(p) => match &e.name {
                Some(n) => glob_matches(p, n.as_str()),
                None => false,
            },
        };
        if take {
            let ghost before = chosen@;
            chosen.push(e.path.clone());
            assert(strings_view(chosen@) =~= strings_view(before).push(e.path@));
        }
        i = i + 1;
    }
    assert(entries@.take(entries@.len() as int) =~= entries@);
    let ghost all = strings_view(chosen@);
    let mut out: Vec<String> = Vec::new();
    let mut k: usize = 0;
    assert(strings_view(out@) =~= all.take(0));
    while k < chosen.len()
        invariant
            k <= chosen@.len(),
            all == strings_view(chosen@),
            paths_sorted(strings_view(out@)),
            strings_view(out@).to_multiset() == all.take(k as int).to_multiset(),
        decreases chosen.len() - k,
    {
        let x = chosen[k].clone();
        let xc = chars_of(x.as_str());
        let ghost ov = strings_view(out@);
        let mut p: usize = out.len();
        while p > 0 && !text_le_exec(&chars_of(out[p - 1].as_str()), &xc)
            invariant
                p <= out@.len(),
                ov == strings_view(out@),
                xc@ == x@,
                forall|m: int| p <= m < ov.len() ==> !text_le(#[trigger] ov[m], x@),
            decreases p,
        {
            p = p - 1;
        }
        proof {
            lemma_insert_path_sorted(ov, x@, p as int);
            assert(all.take(k + 1) =~= all.take(k as int).push(x@));
        }
        out.insert(p, x);
        assert(strings_view(out@) =~= ov.insert(p as int, x@));
        proof {
            assert(x@ == all[k as int]);
            vstd::seq_lib::to_multiset_insert(ov, p as int, x@);
            vstd::seq_lib::to_multiset_build(all.take(k as int), x@);
        }
        k = k + 1;
    }
    assert(all.take(chosen@.len() as int) =~= all);
    out
}

/// The log files of a directory listing to read: those whose name matches
/// the pattern (all without one), sorted by path; an error when the pattern
/// does not compile.
pub fn select_log_files(entries: &[LogFileEntry], pattern: Option<&str>) -> (r: Result<
    Vec<String>,
    Error,
>)
    ensures
        match r {
            Ok(v) => {
                &&& pattern matches Some(p) ==> glob_pattern_error(p@) is None
                &&& paths_sorted(strings_view(v@))
                &&& strings_view(v@).to_multiset() == selected_paths(
                    entries@,
                    pattern_view(pattern),
                ).to_multiset()
            },
            Err(Error::Ingestion(m)) => pattern matches Some(p) && glob_pattern_error(p@) matches Some(
                e,
            ) && m@ == "invalid glob pattern '"@ + p@ + "': "@ + e,
            Err(_) => false,
        },
{
    match check_glob_pattern(pattern) {
        Ok(()) => Ok(sorted_selection(entries, pattern)),
        Err(e) => Err(e),
    }
}

} // verus!
