//! Verdict assembly: the recommendation with its supporting evidence.

use vstd::prelude::*;
use vstd::string::*;

use crate::behavior::{
    duplicate_evaluations, evaluate_tests, evaluations_view, test_evaluation, TestEvaluation, TestResult,
};
use crate::classification::{classify_stream, stream_events, CompiledRules};
use crate::config::Config;
use crate::events::CanonicalEvent;
use crate::ingestion::RawLogLine;
use crate::cli;
use crate::recommendation::{
    model, recommendation_text, step, streaks_view, CycleTracker, Recommendation, TrackerModel,
};
use crate::text::{decimal, pad_right, push_decimal, push_padded, push_repeat, repeat_char};

verus! {

/// A complete verdict with all supporting evidence.
#[derive(Clone, Debug)]
pub struct Verdict {
    pub recommendation: Recommendation,
    pub total_cycles: u32,
    pub consecutive_passes: u32,
    pub test_results: Vec<TestEvaluation>,
    pub reasoning: Vec<String>,
}

/// The abstract values of a list of strings.
pub open spec fn strings_view(v: Seq<String>) -> Seq<Seq<char>> {
    v.map_values(|s: String| s@)
}

/// Reasoning for a promote recommendation.
pub open spec fn promote_reason(passes: nat) -> Seq<char> {
    "All tests passing for "@ + decimal(passes) + " consecutive cycles (required: min cycles met)"@
}

/// Reasoning for a hold recommendation.
pub open spec fn hold_reason(total: nat, passes: nat) -> Seq<char> {
    if total == 0 {
        "No evaluation cycles completed yet"@
    } else {
        "Completed "@ + decimal(total) + " cycles, "@ + decimal(passes)
            + " consecutive passes — not yet meeting promote criteria"@
    }
}

/// Reasoning for one soft-fail streak.
pub open spec fn streak_reason(name: Seq<char>, streak: nat) -> Seq<char> {
    "Soft-fail test '"@ + name + "' failed for "@ + decimal(streak) + " consecutive cycles"@
}

/// The reasoning lines of a tracker state.
pub open spec fn reasoning_of(m: TrackerModel) -> Seq<Seq<char>> {
    match m.rec {
        Recommendation::Promote => seq![promote_reason(m.passes)],
        Recommendation::Hold => seq![hold_reason(m.total, m.passes)],
        Recommendation::Rollback => if m.hard {
            seq!["Hard failure detected — immediate rollback"@]
        } else {
            m.streaks.map_values(|p: (Seq<char>, nat)| streak_reason(p.0, p.1))
        },
    }
}

/// The reasoning lines a tracker's state gives.
pub open spec fn reasoning_for(t: CycleTracker) -> Seq<Seq<char>> {
    reasoning_of(model(t))
}

/// The exit code of a recommendation.
pub open spec fn exit_code_of(r: Recommendation) -> i32 {
    match r {
        Recommendation::Promote => 0,
        Recommendation::Hold => 1,
        Recommendation::Rollback => 2,
    }
}

/// How a test result prints in the table (`{:?}`).
pub open spec fn result_text(r: TestResult) -> Seq<char> {
    match r {
        TestResult::Pass => "Pass"@,
        TestResult::Fail => "Fail"@,
        TestResult::Unknown => "Unknown"@,
    }
}

/// One row of the test-results table.
pub open spec fn table_row(name: Seq<char>, result: Seq<char>) -> Seq<char> {
    "  "@ + pad_right(name, 30, ' ') + " "@ + pad_right(result, 10, ' ') + "\n"@
}

/// The rows for the given evaluations.
pub open spec fn result_rows(es: Seq<TestEvaluation>) -> Seq<char>
    decreases es.len(),
{
    if es.len() == 0 {
        Seq::empty()
    } else {
        result_rows(es.drop_last()) + table_row(es.last().test_name@, result_text(es.last().result))
    }
}

/// The reasoning lines as a bulleted list.
pub open spec fn reason_lines(rs: Seq<Seq<char>>) -> Seq<char>
    decreases rs.len(),
{
    if rs.len() == 0 {
        Seq::empty()
    } else {
        reason_lines(rs.drop_last()) + "  - "@ + rs.last() + "\n"@
    }
}

/// The table's header: recommendation and cycle counts.
pub open spec fn head_text(v: Verdict) -> Seq<char> {
    "Recommendation: "@ + recommendation_text(v.recommendation) + "\n"@ + "Cycles: "@ + decimal(
        v.total_cycles as nat,
    ) + " total, "@ + decimal(v.consecutive_passes as nat) + " consecutive passes\n"@ + "\n"@
}

/// The table's test-results section (empty without results).
pub open spec fn results_text(v: Verdict) -> Seq<char> {
    if v.test_results@.len() == 0 {
        Seq::empty()
    } else {
        "Test Results:\n"@ + table_row("Test"@, "Result"@) + "  "@ + repeat_char('-', 30) + " "@
            + repeat_char('-', 10) + "\n"@ + result_rows(v.test_results@) + "\n"@
    }
}

/// The table's reasoning section (empty without reasoning).
pub open spec fn reasons_text(v: Verdict) -> Seq<char> {
    if v.reasoning@.len() == 0 {
        Seq::empty()
    } else {
        "Reasoning:\n"@ + reason_lines(strings_view(v.reasoning@))
    }
}

/// The human-readable table of a verdict.
pub open spec fn table_text(v: Verdict) -> Seq<char> {
    head_text(v) + results_text(v) + reasons_text(v)
}

fn result_label(r: TestResult) -> (s: &'static str)
    ensures
        s@ == result_text(r),
{
    match r {
        TestResult::Pass => "Pass",
        TestResult::Fail => "Fail",
        TestResult::Unknown => "Unknown",
    }
}

impl Verdict {
    /// Builds a verdict from the current state of the cycle tracker: its
    /// recommendation and counters, the latest cycle's test results, and the
    /// reasoning for the recommendation.
    pub fn from_tracker(tracker: &CycleTracker) -> (v: Self)
        ensures
            v.recommendation == tracker.current_recommendation,
            v.total_cycles == tracker.total_cycles,
            v.consecutive_passes == tracker.consecutive_passes,
            evaluations_view(v.test_results@) == (if tracker.cycle_history@.len() == 0 {
                Seq::empty()
            } else {
                evaluations_view(tracker.cycle_history@.last().test_results@)
            }),
            strings_view(v.reasoning@) == reasoning_for(*tracker),
    {
        let latest_results = if tracker.cycle_history.len() == 0 {
            Vec::new()
        } else {
            let last = tracker.cycle_history.len() - 1;
            duplicate_evaluations(tracker.cycle_history[last].test_results.as_slice())
        };
        assert(evaluations_view(latest_results@) =~= (if tracker.cycle_history@.len() == 0 {
            Seq::empty()
        } else {
            evaluations_view(tracker.cycle_history@.last().test_results@)
        }));

        let mut reasoning: Vec<String> = Vec::new();
        match tracker.current_recommendation {
            Recommendation::Promote => {
                let mut s = String::from_str("All tests passing for ");
                push_decimal(&mut s, tracker.consecutive_passes as u64);
                s.append(" consecutive cycles (required: min cycles met)");
                reasoning.push(s);
            },
            Recommendation::Hold => {
                if tracker.total_cycles == 0 {
                    reasoning.push(String::from_str("No evaluation cycles completed yet"));
                } else {
                    let mut s = String::from_str("Completed ");
                    push_decimal(&mut s, tracker.total_cycles as u64);
                    s.append(" cycles, ");
                    push_decimal(&mut s, tracker.consecutive_passes as u64);
                    s.append(" consecutive passes — not yet meeting promote criteria");
                    reasoning.push(s);
                }
            },
            Recommendation::Rollback => {
                if tracker.hard_failure_seen {
                    reasoning.push(String::from_str("Hard failure detected — immediate rollback"));
                } else {
                    let ghost st = streaks_view(tracker.soft_fail_streaks@);
                    let mut i: usize = 0;
                    while i < tracker.soft_fail_streaks.len()
                        invariant
                            i <= tracker.soft_fail_streaks@.len(),
                            st == streaks_view(tracker.soft_fail_streaks@),
                            strings_view(reasoning@) =~= st.take(i as int).map_values(
                                |p: (Seq<char>, nat)| streak_reason(p.0, p.1),
                            ),
                        decreases tracker.soft_fail_streaks.len() - i,
                    {
                        let mut s = String::from_str("Soft-fail test '");
                        s.append(tracker.soft_fail_streaks[i].0.as_str());
                        s.append("' failed for ");
                        push_decimal(&mut s, tracker.soft_fail_streaks[i].1 as u64);
                        s.append(" consecutive cycles");
                        assert(s@ == streak_reason(st[i as int].0, st[i as int].1));
                        let ghost before = reasoning@;
                        reasoning.push(s);
                        assert(strings_view(reasoning@) =~= strings_view(before).push(s@));
                        assert(st.take(i + 1) =~= st.take(i as int).push(st[i as int]));
                        i = i + 1;
                    }
                    assert(st.take(st.len() as int) =~= st);
                }
            },
        }
        Verdict {
            recommendation: tracker.current_recommendation,
            total_cycles: tracker.total_cycles,
            consecutive_passes: tracker.consecutive_passes,
            test_results: latest_results,
            reasoning,
        }
    }

    /// Maps the recommendation to the process exit code: promote 0, hold 1,
    /// rollback 2.
    pub fn exit_code(&self) -> (c: i32)
        ensures
            c == exit_code_of(self.recommendation),
    {
        match self.recommendation {
            Recommendation::Promote => cli::PROMOTE,
            Recommendation::Hold => cli::HOLD,
            Recommendation::Rollback => cli::ROLLBACK,
        }
    }

    fn push_head(&self, output: &mut String)
        ensures
            final(output)@ == old(output)@ + head_text(*self),
    {
        output.append("Recommendation: ");
        output.append(self.recommendation.to_string().as_str());
        output.append("\n");
        output.append("Cycles: ");
        push_decimal(output, self.total_cycles as u64);
        output.append(" total, ");
        push_decimal(output, self.consecutive_passes as u64);
        output.append(" consecutive passes\n");
        output.append("\n");
        assert(output@ =~= old(output)@ + head_text(*self));
    }

    fn push_results(&self, output: &mut String)
        ensures
            final(output)@ == old(output)@ + results_text(*self),
    {
        if self.test_results.len() > 0 {
            output.append("Test Results:\n");
            output.append("  ");
            push_padded(output, "Test", 30, ' ');
            output.append(" ");
            push_padded(output, "Result", 10, ' ');
            output.append("\n");
            output.append("  ");
            push_repeat(output, '-', 30);
            output.append(" ");
            push_repeat(output, '-', 10);
            output.append("\n");
            let ghost before_rows = output@;
            assert(before_rows =~= old(output)@ + "Test Results:\n"@ + table_row("Test"@, "Result"@)
                + "  "@ + repeat_char('-', 30) + " "@ + repeat_char('-', 10) + "\n"@);
            let mut i: usize = 0;
            assert(self.test_results@.take(0) =~= Seq::<TestEvaluation>::empty());
            while i < self.test_results.len()
                invariant
                    i <= self.test_results@.len(),
                    output@ == before_rows + result_rows(self.test_results@.take(i as int)),
                decreases self.test_results.len() - i,
            {
                let eval = &self.test_results[i];
                let ghost row_start = output@;
                output.append("  ");
                push_padded(output, eval.test_name.as_str(), 30, ' ');
                output.append(" ");
                push_padded(output, result_label(eval.result), 10, ' ');
                output.append("\n");
                proof {
                    let pre = self.test_results@.take(i as int);
                    let post = self.test_results@.take(i + 1);
                    assert(post.drop_last() =~= pre);
                    assert(post.last() == self.test_results@[i as int]);
                    assert(output@ =~= row_start + table_row(
                        eval.test_name@,
                        result_text(eval.result),
                    ));
                }
                i = i + 1;
            }
            assert(self.test_results@.take(self.test_results@.len() as int) =~= self.test_results@);
            output.append("\n");
            assert(output@ =~= old(output)@ + results_text(*self));
        } else {
            assert(output@ =~= old(output)@ + results_text(*self));
        }
    }

    fn push_reasons(&self, output: &mut String)
        ensures
            final(output)@ == old(output)@ + reasons_text(*self),
    {
        if self.reasoning.len() > 0 {
            output.append("Reasoning:\n");
            let ghost before_lines = output@;
            let ghost rs = strings_view(self.reasoning@);
            let mut i: usize = 0;
            assert(rs.take(0) =~= Seq::<Seq<char>>::empty());
            while i < self.reasoning.len()
                invariant
                    i <= self.reasoning@.len(),
                    rs == strings_view(self.reasoning@),
                    output@ == before_lines + reason_lines(rs.take(i as int)),
                decreases self.reasoning.len() - i,
            {
                let ghost line_start = output@;
                output.append("  - ");
                output.append(self.reasoning[i].as_str());
                output.append("\n");
                proof {
                    let pre = rs.take(i as int);
                    let post = rs.take(i + 1);
                    assert(post.drop_last() =~= pre);
                    assert(post.last() == self.reasoning@[i as int]@);
                    assert(output@ =~= line_start + "  - "@ + self.reasoning@[i as int]@ + "\n"@);
                }
                i = i + 1;
            }
            assert(rs.take(rs.len() as int) =~= rs);
            assert(output@ =~= old(output)@ + reasons_text(*self));
        } else {
            assert(output@ =~= old(output)@ + reasons_text(*self));
        }
    }

    /// Formats the verdict as a human-readable table: the recommendation and
    /// cycle counts, then (when present) a table of the test results and the
    /// reasoning lines.
    pub fn format_table(&self) -> (out: String)
        ensures
            out@ == table_text(*self),
    {
        let mut output = String::new();
        self.push_head(&mut output);
        self.push_results(&mut output);
        self.push_reasons(&mut output);
        assert(output@ =~= table_text(*self));
        output
    }
}

/// The tracker state before any cycle.
pub open spec fn first_model() -> TrackerModel {
    TrackerModel {
        total: 0,
        passes: 0,
        streaks: Seq::empty(),
        hard: false,
        rec: Recommendation::Hold,
    }
}

/// `events` and `es` are the events and test evaluations of one cycle over
/// `lines` under `config`, and `v` the verdict of that single cycle.
pub open spec fn cycle_outcome(
    config: Config,
    lines: Seq<RawLogLine>,
    c: CompiledRules,
    events: Seq<CanonicalEvent>,
    es: Seq<TestEvaluation>,
    v: Verdict,
) -> bool {
    let rules = config.logging.events@;
    &&& c.holds_exactly(rules)
    &&& events.map_values(|e: CanonicalEvent| e@) == stream_events(lines, rules, c)
    &&& es.len() == config.tests@.len()
    &&& forall|i: int|
        0 <= i < es.len() ==> #[trigger] es[i]@ == test_evaluation(config.tests@[i], events)
    &&& ({
        let m = step(first_model(), config.tests@, es, config.recommendation);
        &&& v.recommendation == m.rec
        &&& v.total_cycles == m.total
        &&& v.consecutive_passes == m.passes
        &&& evaluations_view(v.test_results@) == evaluations_view(es)
        &&& strings_view(v.reasoning@) == reasoning_of(m)
    })
}

/// Runs one evaluation cycle over log lines: classifies them with the
/// configuration's rules, evaluates its tests, records the cycle on a fresh
/// tracker and gives the verdict.
pub fn evaluate_cycle(config: &Config, lines: &[RawLogLine]) -> (v: Verdict)
    requires
        config.tests@.len() <= u32::MAX,
    ensures
        exists|c: CompiledRules, events: Seq<CanonicalEvent>, es: Seq<TestEvaluation>|
            #[trigger] cycle_outcome(*config, lines@, c, events, es, v),
{
    let events = classify_stream(lines, config.logging.events.as_slice());
    let evaluations = evaluate_tests(config.tests.as_slice(), events.as_slice());
    let mut tracker = CycleTracker::new();
    assert(streaks_view(tracker.soft_fail_streaks@) =~= Seq::<(Seq<char>, nat)>::empty());
    assert(model(tracker) == first_model());
    tracker.record_cycle(config.tests.as_slice(), evaluations.as_slice(), &config.recommendation);
    let v = Verdict::from_tracker(&tracker);
    proof {
        let c = choose|c: CompiledRules|
            c.holds_exactly(config.logging.events@) && events@.map_values(|e: CanonicalEvent| e@)
                == stream_events(lines@, config.logging.events@, c);
        assert(cycle_outcome(*config, lines@, c, events@, evaluations@, v));
    }
    v
}

} // verus!
