//! Turning the log text of the canary's pods into raw log lines.

use vstd::prelude::*;
use vstd::string::*;

use crate::ingestion::{lines_view, LineView, RawLogLine};

verus! {

/// The raw lines of one pod's log text, numbered from `first`: empty lines
/// are skipped, the others numbered consecutively, taken as JSON when they
/// start with `{`, without timestamp, with the source `pod:<name>`.
pub open spec fn pod_lines_spec(pod: Seq<char>, lines: Seq<String>, first: nat) -> Seq<LineView>
    decreases lines.len(),
{
    if lines.len() == 0 {
        Seq::empty()
    } else {
        let prev = pod_lines_spec(pod, lines.drop_last(), first);
        let c = lines.last()@;
        if c.len() == 0 {
            prev
        } else {
            prev.push(
                LineView {
                    content: c,
                    line_number: first + prev.len(),
                    timestamp: None,
                    is_json: c[0] == '{',
                    source: Some("pod:"@ + pod),
                },
            )
        }
    }
}

/// The raw lines of a pod's log (its text split into lines), numbered from
/// `first` on.
pub fn pod_log_lines(pod_name: &str, lines: &[String], first: usize) -> (r: Vec<RawLogLine>)
    requires
        first + lines@.len() <= usize::MAX,
    ensures
        lines_view(r@) == pod_lines_spec(pod_name@, lines@, first as nat),
{
    let mut out: Vec<RawLogLine> = Vec::new();
    let mut number: usize = first;
    let mut i: usize = 0;
    while i < lines.len()
        invariant
            i <= lines@.len(),
            first + lines@.len() <= usize::MAX,
            lines_view(out@) == pod_lines_spec(pod_name@, lines@.take(i as int), first as nat),
            number == first + out@.len(),
            out@.len() <= i,
        decreases lines.len() - i,
    {
        let ghost pre = lines@.take(i as int);
        assert(lines@.take(i + 1).drop_last() =~= pre);
        assert(lines@.take(i + 1).last() == lines@[i as int]);
        let content = &lines[i];
        let n = content.as_str().unicode_len();
        if n > 0 {
            let is_json = content.as_str().get_char(0) == '{';
            let mut source = String::from_str("pod:");
            source.append(pod_name);
            let line = RawLogLine {
                content: content.clone(),
                line_number: number,
                timestamp: None,
                is_json,
                source: Some(source),
            };
            let ghost before = out@;
            out.push(line);
            assert(lines_view(out@) =~= lines_view(before).push(line@));
            number = number + 1;
        }
        i = i + 1;
    }
    assert(lines@.take(lines@.len() as int) =~= lines@);
    out
}

} // verus!
