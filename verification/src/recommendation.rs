//! The recommendation state machine: turns per-cycle test results into a
//! promote / hold / rollback recommendation.

use vstd::prelude::*;
use vstd::string::*;

use crate::behavior::{duplicate_evaluations, evaluations_view, TestEvaluation, TestResult};
use crate::config::{FailSeverity, RecommendationConfig, TestConfig};

verus! {

/// The recommendation produced by the engine.
#[derive(Clone, Copy, Debug, PartialEq, Eq, Structural)]
pub enum Recommendation {
    Promote,
    Hold,
    Rollback,
}

impl Recommendation {
    /// The lower-case name: `promote`, `hold` or `rollback`.
    pub fn label(&self) -> (s: String)
        ensures
            s@ == label_text(*self),
    {
        match self {
            Recommendation::Promote => String::from_str("promote"),
            Recommendation::Hold => String::from_str("hold"),
            Recommendation::Rollback => String::from_str("rollback"),
        }
    }

    /// The text shown for a recommendation (`RECOMMEND_PROMOTE`, ...).
    pub fn to_string(&self) -> (s: String)
        ensures
            s@ == recommendation_text(*self),
    {
        match self {
            Recommendation::Promote => String::from_str("RECOMMEND_PROMOTE"),
            Recommendation::Hold => String::from_str("RECOMMEND_HOLD"),
            Recommendation::Rollback => String::from_str("RECOMMEND_ROLLBACK"),
        }
    }
}

/// How a recommendation is stored and reported in lower case.
pub open spec fn label_text(r: Recommendation) -> Seq<char> {
    match r {
        Recommendation::Promote => "promote"@,
        Recommendation::Hold => "hold"@,
        Recommendation::Rollback => "rollback"@,
    }
}

/// How a recommendation is displayed.
pub open spec fn recommendation_text(r: Recommendation) -> Seq<char> {
    match r {
        Recommendation::Promote => "RECOMMEND_PROMOTE"@,
        Recommendation::Hold => "RECOMMEND_HOLD"@,
        Recommendation::Rollback => "RECOMMEND_ROLLBACK"@,
    }
}

/// Result of a single evaluation cycle.
#[derive(Clone, Debug)]
pub struct CycleResult {
    pub cycle_number: u32,
    pub test_results: Vec<TestEvaluation>,
    pub recommendation: Recommendation,
}

/// Tracks state across evaluation cycles.
///
/// `soft_fail_streaks` holds, for each soft-severity test that is currently
/// failing, its name and the number of consecutive cycles it has failed, in
/// the order in which the streaks began; no name occurs twice.
#[derive(Clone, Debug)]
pub struct CycleTracker {
    pub total_cycles: u32,
    pub consecutive_passes: u32,
    pub soft_fail_streaks: Vec<(String, u32)>,
    pub hard_failure_seen: bool,
    pub current_recommendation: Recommendation,
    pub cycle_history: Vec<CycleResult>,
}

/// Abstract value of the soft-fail streaks: (test name, streak length).
pub open spec fn streaks_view(v: Seq<(String, u32)>) -> Seq<(Seq<char>, nat)> {
    v.map_values(|p: (String, u32)| (p.0@, p.1 as nat))
}

/// No test name occurs twice among the streaks.
pub open spec fn keys_distinct(st: Seq<(Seq<char>, nat)>) -> bool {
    forall|i: int, j: int| 0 <= i < j < st.len() ==> st[i].0 != st[j].0
}

/// Index of the streak of test `k`, or -1 when there is none.
pub open spec fn key_index(st: Seq<(Seq<char>, nat)>, k: Seq<char>) -> int
    decreases st.len(),
{
    if st.len() == 0 {
        -1
    } else if st[0].0 == k {
        0
    } else {
        let r = key_index(st.drop_first(), k);
        if r < 0 {
            -1
        } else {
            r + 1
        }
    }
}

/// The streaks after test `k` passed: its streak, if any, ends.
pub open spec fn clear_streak(st: Seq<(Seq<char>, nat)>, k: Seq<char>) -> Seq<(Seq<char>, nat)> {
    let i = key_index(st, k);
    if i < 0 {
        st
    } else {
        st.remove(i)
    }
}

/// The streaks after soft test `k` failed: its streak grows by one, or a new
/// streak of length one begins.
pub open spec fn bump_streak(st: Seq<(Seq<char>, nat)>, k: Seq<char>) -> Seq<(Seq<char>, nat)> {
    let i = key_index(st, k);
    if i < 0 {
        st.push((k, 1nat))
    } else {
        st.update(i, (k, st[i].1 + 1))
    }
}

/// The severity of the first configured test named `name`; tests without a
/// configuration count as hard.
pub open spec fn severity_of(configs: Seq<TestConfig>, name: Seq<char>) -> FailSeverity
    decreases configs.len(),
{
    if configs.len() == 0 {
        FailSeverity::Hard
    } else if configs[0].name@ == name {
        configs[0].severity
    } else {
        severity_of(configs.drop_first(), name)
    }
}

/// The streaks after one test evaluation.
pub open spec fn apply_evaluation(
    st: Seq<(Seq<char>, nat)>,
    configs: Seq<TestConfig>,
    e: TestEvaluation,
) -> Seq<(Seq<char>, nat)> {
    match e.result {
        TestResult::Pass => clear_streak(st, e.test_name@),
        TestResult::Fail => if severity_of(configs, e.test_name@) == FailSeverity::Soft {
            bump_streak(st, e.test_name@)
        } else {
            st
        },
        TestResult::Unknown => st,
    }
}

/// The streaks after a cycle's evaluations, taken in order.
pub open spec fn apply_evaluations(
    st: Seq<(Seq<char>, nat)>,
    configs: Seq<TestConfig>,
    es: Seq<TestEvaluation>,
) -> Seq<(Seq<char>, nat)>
    decreases es.len(),
{
    if es.len() == 0 {
        st
    } else {
        apply_evaluation(apply_evaluations(st, configs, es.drop_last()), configs, es.last())
    }
}

/// Some evaluation failed a test whose severity is hard.
pub open spec fn has_hard_failure(configs: Seq<TestConfig>, es: Seq<TestEvaluation>) -> bool {
    exists|i: int|
        0 <= i < es.len() && #[trigger] es[i].result == TestResult::Fail && severity_of(
            configs,
            es[i].test_name@,
        ) == FailSeverity::Hard
}

/// Every evaluation passed.
pub open spec fn all_passed(es: Seq<TestEvaluation>) -> bool {
    forall|i: int| 0 <= i < es.len() ==> #[trigger] es[i].result == TestResult::Pass
}

/// Some soft-fail streak has reached `limit` cycles.
pub open spec fn streak_reached(st: Seq<(Seq<char>, nat)>, limit: nat) -> bool {
    exists|i: int| 0 <= i < st.len() && #[trigger] st[i].1 >= limit
}

/// Every streak stays at most `bound`.
pub open spec fn streaks_bounded(st: Seq<(Seq<char>, nat)>, bound: int) -> bool {
    forall|i: int| 0 <= i < st.len() ==> #[trigger] st[i].1 <= bound
}

pub(crate) proof fn lemma_key_index(st: Seq<(Seq<char>, nat)>, k: Seq<char>)
    ensures
        -1 <= key_index(st, k) < st.len(),
        key_index(st, k) >= 0 ==> st[key_index(st, k)].0 == k,
        key_index(st, k) >= 0 ==> forall|j: int| 0 <= j < key_index(st, k) ==> st[j].0 != k,
        key_index(st, k) < 0 ==> forall|j: int| 0 <= j < st.len() ==> st[j].0 != k,
    decreases st.len(),
{
    if st.len() > 0 && st[0].0 != k {
        lemma_key_index(st.drop_first(), k);
        assert forall|j: int| 0 <= j < st.len() && st[j].0 == k implies key_index(st, k) >= 0
            && key_index(st, k) <= j by {
            assert(st.drop_first()[j - 1] == st[j]);
        }
    }
}

proof fn lemma_clear_keeps_distinct(st: Seq<(Seq<char>, nat)>, k: Seq<char>, bound: int)
    requires
        keys_distinct(st),
    ensures
        keys_distinct(clear_streak(st, k)),
        streaks_bounded(st, bound) ==> streaks_bounded(clear_streak(st, k), bound),
        forall|j: int|
            0 <= j < clear_streak(st, k).len() ==> #[trigger] clear_streak(st, k)[j].0 != k,
{
    lemma_key_index(st, k);
}

proof fn lemma_bump_keeps_distinct(st: Seq<(Seq<char>, nat)>, k: Seq<char>, bound: int)
    requires
        keys_distinct(st),
    ensures
        keys_distinct(bump_streak(st, k)),
        streaks_bounded(st, bound) && bound >= 0 ==> streaks_bounded(bump_streak(st, k), bound + 1),
{
    lemma_key_index(st, k);
}

/// Tests whether no test name has two streaks.
pub fn streaks_distinct(st: &[(String, u32)]) -> (b: bool)
    ensures
        b == keys_distinct(streaks_view(st@)),
{
    let ghost sv = streaks_view(st@);
    let mut i: usize = 0;
    while i < st.len()
        invariant
            sv == streaks_view(st@),
            i <= st@.len(),
            forall|a: int, c: int| 0 <= a < c < sv.len() && a < i ==> sv[a].0 != sv[c].0,
        decreases st.len() - i,
    {
        let mut j: usize = i + 1;
        while j < st.len()
            invariant
                sv == streaks_view(st@),
                i < st@.len(),
                i + 1 <= j <= st@.len(),
                forall|a: int, c: int| 0 <= a < c < sv.len() && a < i ==> sv[a].0 != sv[c].0,
                forall|c: int| i < c < j ==> sv[i as int].0 != sv[c].0,
            decreases st.len() - j,
        {
            if st[i].0 == st[j].0 {
                assert(sv[i as int].0 == sv[j as int].0);
                return false;
            }
            j = j + 1;
        }
        i = i + 1;
    }
    true
}

/// A copy of a list of streaks.
pub(crate) fn copy_streaks(st: &[(String, u32)]) -> (r: Vec<(String, u32)>)
    ensures
        streaks_view(r@) == streaks_view(st@),
{
    let mut out: Vec<(String, u32)> = Vec::new();
    let mut i: usize = 0;
    while i < st.len()
        invariant
            i <= st@.len(),
            streaks_view(out@) == streaks_view(st@).take(i as int),
        decreases st.len() - i,
    {
        let ghost before = out@;
        let name = st[i].0.clone();
        out.push((name, st[i].1));
        assert(streaks_view(out@) =~= streaks_view(before).push(streaks_view(st@)[i as int]));
        assert(streaks_view(st@).take(i + 1) =~= streaks_view(st@).take(i as int).push(
            streaks_view(st@)[i as int],
        ));
        i = i + 1;
    }
    assert(streaks_view(st@).take(st@.len() as int) =~= streaks_view(st@));
    out
}

/// Index of the streak of test `name`, found by a scan.
fn find_streak(st: &Vec<(String, u32)>, name: &String) -> (r: Option<usize>)
    ensures
        r matches Some(i) ==> i < st@.len(),
        match r {
            Some(i) => key_index(streaks_view(st@), name@) == i as int,
            None => key_index(streaks_view(st@), name@) == -1,
        },
{
    let ghost sv = streaks_view(st@);
    proof {
        lemma_key_index(sv, name@);
    }
    let mut i: usize = 0;
    while i < st.len()
        invariant
            sv == streaks_view(st@),
            i <= st@.len(),
            forall|j: int| 0 <= j < i ==> sv[j].0 != name@,
            -1 <= key_index(sv, name@) < sv.len(),
            key_index(sv, name@) >= 0 ==> sv[key_index(sv, name@)].0 == name@,
            key_index(sv, name@) >= 0 ==> forall|j: int|
                0 <= j < key_index(sv, name@) ==> sv[j].0 != name@,
            key_index(sv, name@) < 0 ==> forall|j: int| 0 <= j < sv.len() ==> sv[j].0 != name@,
        decreases st.len() - i,
    {
        if st[i].0 == *name {
            assert(sv[i as int].0 == name@);
            return Some(i);
        }
        i = i + 1;
    }
    None
}

/// Ends the streak of a test that passed.
fn end_streak(st: &mut Vec<(String, u32)>, name: &String)
    ensures
        streaks_view(final(st)@) == clear_streak(streaks_view(old(st)@), name@),
{
    match find_streak(st, name) {
        Some(i) => {
            let ghost before = streaks_view(st@);
            st.remove(i);
            assert(streaks_view(st@) =~= before.remove(i as int));
        },
        None => {},
    }
}

/// Extends (or starts) the streak of a soft test that failed.
fn extend_streak(st: &mut Vec<(String, u32)>, name: &String)
    requires
        key_index(streaks_view(old(st)@), name@) >= 0 ==> streaks_view(old(st)@)[key_index(
            streaks_view(old(st)@),
            name@,
        )].1 < u32::MAX,
    ensures
        streaks_view(final(st)@) == bump_streak(streaks_view(old(st)@), name@),
{
    let ghost before = streaks_view(st@);
    match find_streak(st, name) {
        Some(i) => {
            let n = st[i].1;
            st.set(i, (name.clone(), n + 1));
            assert(streaks_view(st@) =~= before.update(i as int, (name@, before[i as int].1 + 1)));
        },
        None => {
            st.push((name.clone(), 1));
            assert(streaks_view(st@) =~= before.push((name@, 1nat)));
        },
    }
}

/// Severity of the first configured test with the given name; hard if none.
fn find_severity(configs: &[TestConfig], name: &String) -> (s: FailSeverity)
    ensures
        s == severity_of(configs@, name@),
{
    let mut i: usize = 0;
    assert(configs@.skip(0) =~= configs@);
    while i < configs.len()
        invariant
            i <= configs@.len(),
            severity_of(configs@, name@) == severity_of(configs@.skip(i as int), name@),
        decreases configs.len() - i,
    {
        assert(configs@.skip(i as int).drop_first() =~= configs@.skip(i + 1));
        if configs[i].name == *name {
            return configs[i].severity;
        }
        i = i + 1;
    }
    FailSeverity::Hard
}

/// Abstract state of a tracker, as the recommendation logic reads it.
pub struct TrackerModel {
    pub total: nat,
    pub passes: nat,
    pub streaks: Seq<(Seq<char>, nat)>,
    pub hard: bool,
    pub rec: Recommendation,
}

/// The abstract state of a tracker.
pub open spec fn model(t: CycleTracker) -> TrackerModel {
    TrackerModel {
        total: t.total_cycles as nat,
        passes: t.consecutive_passes as nat,
        streaks: streaks_view(t.soft_fail_streaks@),
        hard: t.hard_failure_seen,
        rec: t.current_recommendation,
    }
}

/// One evaluation cycle of the recommendation state machine.
///
/// A hard failure seen earlier keeps the recommendation at rollback. Else the
/// soft-fail streaks are updated by the cycle's evaluations in order; a hard
/// failure in this cycle or a streak that reached the configured length gives
/// rollback; a cycle where every test passed extends the run of passing cycles
/// and promotes once the cycle count and the run length reach their
/// thresholds; any other cycle ends the run and holds.
pub open spec fn step(
    m: TrackerModel,
    configs: Seq<TestConfig>,
    es: Seq<TestEvaluation>,
    rc: RecommendationConfig,
) -> TrackerModel {
    let total = m.total + 1;
    if m.hard {
        TrackerModel { total, rec: Recommendation::Rollback, ..m }
    } else {
        let st = apply_evaluations(m.streaks, configs, es);
        if has_hard_failure(configs, es) {
            TrackerModel { total, streaks: st, hard: true, rec: Recommendation::Rollback, ..m }
        } else if streak_reached(st, rc.rollback.soft_fail_consecutive_cycles as nat) {
            TrackerModel { total, streaks: st, rec: Recommendation::Rollback, ..m }
        } else if all_passed(es) {
            let passes = m.passes + 1;
            let rec = if total >= rc.promote.require_min_cycles && passes
                >= rc.promote.require_consecutive_passes {
                Recommendation::Promote
            } else {
                Recommendation::Hold
            };
            TrackerModel { total, passes, streaks: st, rec, ..m }
        } else {
            TrackerModel { total, passes: 0, streaks: st, rec: Recommendation::Hold, ..m }
        }
    }
}


/// Runs a sequence of cycles (test configurations and evaluations) from a state.
pub open spec fn run(
    m: TrackerModel,
    cycles: Seq<(Seq<TestConfig>, Seq<TestEvaluation>)>,
    rc: RecommendationConfig,
) -> TrackerModel
    decreases cycles.len(),
{
    if cycles.len() == 0 {
        m
    } else {
        step(run(m, cycles.drop_last(), rc), cycles.last().0, cycles.last().1, rc)
    }
}

/// The length of the current failure streak of test `k` (0 when none).
pub open spec fn streak_of(st: Seq<(Seq<char>, nat)>, k: Seq<char>) -> nat {
    let i = key_index(st, k);
    if i < 0 {
        0
    } else {
        st[i].1
    }
}

/// A hard failure is permanent: once one has been seen, every later cycle,
/// whatever its results, recommends rollback.
pub proof fn law_hard_failure_is_permanent(
    m: TrackerModel,
    cycles: Seq<(Seq<TestConfig>, Seq<TestEvaluation>)>,
    rc: RecommendationConfig,
)
    requires
        m.hard,
        cycles.len() > 0,
    ensures
        run(m, cycles, rc).hard,
        run(m, cycles, rc).rec == Recommendation::Rollback,
    decreases cycles.len(),
{
    if cycles.len() > 1 {
        law_hard_failure_is_permanent(m, cycles.drop_last(), rc);
    } else {
        assert(cycles.drop_last().len() == 0);
        assert(run(m, cycles.drop_last(), rc) == m);
    }
}

/// Every cycle is counted once.
pub proof fn law_cycles_counted(
    m: TrackerModel,
    cycles: Seq<(Seq<TestConfig>, Seq<TestEvaluation>)>,
    rc: RecommendationConfig,
)
    ensures
        run(m, cycles, rc).total == m.total + cycles.len(),
    decreases cycles.len(),
{
    if cycles.len() > 0 {
        law_cycles_counted(m, cycles.drop_last(), rc);
    }
}

/// Promotion needs evidence: no hard failure ever, every test passing in the
/// cycle, at least the required number of cycles and of consecutive passing
/// cycles.
pub proof fn law_promotion_requires_evidence(
    m: TrackerModel,
    configs: Seq<TestConfig>,
    es: Seq<TestEvaluation>,
    rc: RecommendationConfig,
)
    requires
        step(m, configs, es, rc).rec == Recommendation::Promote,
    ensures
        !m.hard,
        !step(m, configs, es, rc).hard,
        all_passed(es),
        step(m, configs, es, rc).total >= rc.promote.require_min_cycles,
        step(m, configs, es, rc).passes >= rc.promote.require_consecutive_passes,
{
}

/// A cycle in which every test passed counts towards promotion: unless an
/// earlier hard failure or a streak left by absent soft tests forces
/// rollback, it extends the run of passing cycles and promotes exactly when
/// the cycle count and the run length reach their thresholds.
pub proof fn law_passing_cycle_promotes(
    m: TrackerModel,
    configs: Seq<TestConfig>,
    es: Seq<TestEvaluation>,
    rc: RecommendationConfig,
)
    requires
        !m.hard,
        all_passed(es),
        !streak_reached(
            apply_evaluations(m.streaks, configs, es),
            rc.rollback.soft_fail_consecutive_cycles as nat,
        ),
    ensures
        step(m, configs, es, rc).passes == m.passes + 1,
        step(m, configs, es, rc).rec == if m.total + 1 >= rc.promote.require_min_cycles && m.passes
            + 1 >= rc.promote.require_consecutive_passes {
            Recommendation::Promote
        } else {
            Recommendation::Hold
        },
{
    assert(!has_hard_failure(configs, es));
}

/// A cycle's outcome in terms of its evaluations: a failure of a test whose
/// severity is hard rolls back and is remembered; without earlier or present
/// hard failures and with every streak below the limit, a cycle where every
/// evaluation passed extends the run of passes, and any other cycle holds and
/// ends the run.
pub proof fn law_cycle_outcome(
    m: TrackerModel,
    configs: Seq<TestConfig>,
    es: Seq<TestEvaluation>,
    rc: RecommendationConfig,
)
    ensures
        (exists|i: int|
            0 <= i < es.len() && (#[trigger] es[i]).result == TestResult::Fail && severity_of(
                configs,
                es[i].test_name@,
            ) == FailSeverity::Hard) ==> step(m, configs, es, rc).rec == Recommendation::Rollback
            && step(m, configs, es, rc).hard,
        ({
            let st = apply_evaluations(m.streaks, configs, es);
            &&& !m.hard
            &&& forall|i: int|
                0 <= i < es.len() ==> !((#[trigger] es[i]).result == TestResult::Fail
                    && severity_of(configs, es[i].test_name@) == FailSeverity::Hard)
            &&& forall|j: int|
                0 <= j < st.len() ==> (#[trigger] st[j]).1 < rc.rollback.soft_fail_consecutive_cycles
        }) ==> {
            let r = step(m, configs, es, rc);
            &&& !r.hard
            &&& r.total == m.total + 1
            &&& (forall|i: int| 0 <= i < es.len() ==> (#[trigger] es[i]).result == TestResult::Pass)
                ==> r.passes == m.passes + 1 && r.rec == if m.total + 1
                >= rc.promote.require_min_cycles && m.passes + 1
                >= rc.promote.require_consecutive_passes {
                Recommendation::Promote
            } else {
                Recommendation::Hold
            }
            &&& !(forall|i: int| 0 <= i < es.len() ==> (#[trigger] es[i]).result == TestResult::Pass)
                ==> r.passes == 0 && r.rec == Recommendation::Hold
        },
{
    let st = apply_evaluations(m.streaks, configs, es);
    if forall|j: int|
        0 <= j < st.len() ==> (#[trigger] st[j]).1 < rc.rollback.soft_fail_consecutive_cycles {
        if streak_reached(st, rc.rollback.soft_fail_consecutive_cycles as nat) {
            let j = choose|j: int|
                0 <= j < st.len() && #[trigger] st[j].1 >= rc.rollback.soft_fail_consecutive_cycles;
            assert(st[j].1 < rc.rollback.soft_fail_consecutive_cycles);
        }
    }
}

/// Ambiguity holds: a cycle without any hard failure, without a soft streak
/// at the limit, and with some result that is not a pass, recommends hold
/// and ends the run of passing cycles.
pub proof fn law_ambiguity_holds(
    m: TrackerModel,
    configs: Seq<TestConfig>,
    es: Seq<TestEvaluation>,
    rc: RecommendationConfig,
)
    requires
        !m.hard,
        !has_hard_failure(configs, es),
        !streak_reached(
            apply_evaluations(m.streaks, configs, es),
            rc.rollback.soft_fail_consecutive_cycles as nat,
        ),
        !all_passed(es),
    ensures
        step(m, configs, es, rc).rec == Recommendation::Hold,
        step(m, configs, es, rc).passes == 0,
{
}

/// A failing or unknown result blocks promotion in that cycle.
pub proof fn law_non_pass_blocks_promotion(
    m: TrackerModel,
    configs: Seq<TestConfig>,
    es: Seq<TestEvaluation>,
    rc: RecommendationConfig,
    i: int,
)
    requires
        0 <= i < es.len(),
        es[i].result != TestResult::Pass,
    ensures
        step(m, configs, es, rc).rec != Recommendation::Promote,
{
}

/// Rollback is recommended exactly when a hard failure was seen (in this or an
/// earlier cycle) or a soft-fail streak reached the configured length.
pub proof fn law_rollback_reasons(
    m: TrackerModel,
    configs: Seq<TestConfig>,
    es: Seq<TestEvaluation>,
    rc: RecommendationConfig,
)
    ensures
        (step(m, configs, es, rc).rec == Recommendation::Rollback) <==> (m.hard || has_hard_failure(
            configs,
            es,
        ) || streak_reached(
            apply_evaluations(m.streaks, configs, es),
            rc.rollback.soft_fail_consecutive_cycles as nat,
        )),
{
}

proof fn lemma_key_index_remove(st: Seq<(Seq<char>, nat)>, i: int, k: Seq<char>)
    requires
        keys_distinct(st),
        0 <= i < st.len(),
        st[i].0 != k,
    ensures
        streak_of(st.remove(i), k) == streak_of(st, k),
{
    lemma_key_index(st, k);
    lemma_key_index(st.remove(i), k);
    let a = key_index(st, k);
    let b = key_index(st.remove(i), k);
    if a >= 0 {
        let j = if a < i { a } else { a - 1 };
        assert(st.remove(i)[j] == st[a]);
        if b >= 0 {
            let bb = if b < i { b } else { b + 1 };
            assert(st.remove(i)[b] == st[bb]);
        }
    } else if b >= 0 {
        let bb = if b < i { b } else { b + 1 };
        assert(st.remove(i)[b] == st[bb]);
    }
}

proof fn lemma_key_index_update(st: Seq<(Seq<char>, nat)>, i: int, v: (Seq<char>, nat), k: Seq<char>)
    requires
        0 <= i < st.len(),
        st[i].0 == v.0,
        st[i].0 != k,
    ensures
        streak_of(st.update(i, v), k) == streak_of(st, k),
{
    lemma_key_index(st, k);
    lemma_key_index(st.update(i, v), k);
    let a = key_index(st, k);
    let b = key_index(st.update(i, v), k);
    if a >= 0 {
        assert(st.update(i, v)[a] == st[a]);
    }
    if b >= 0 {
        assert(st.update(i, v)[b] == st[b]);
    }
}

proof fn lemma_key_index_push(st: Seq<(Seq<char>, nat)>, v: (Seq<char>, nat), k: Seq<char>)
    requires
        v.0 != k,
    ensures
        streak_of(st.push(v), k) == streak_of(st, k),
{
    lemma_key_index(st, k);
    lemma_key_index(st.push(v), k);
    let a = key_index(st, k);
    let b = key_index(st.push(v), k);
    if a >= 0 {
        assert(st.push(v)[a] == st[a]);
    }
    if b >= 0 && b < st.len() {
        assert(st.push(v)[b] == st[b]);
    }
}

/// How one evaluation moves the soft-fail streaks: a pass ends the test's
/// streak, a failure of a soft test extends it by one, and the streaks of
/// other tests are unaffected.
pub proof fn law_streak_update(
    st: Seq<(Seq<char>, nat)>,
    configs: Seq<TestConfig>,
    e: TestEvaluation,
    other: Seq<char>,
)
    requires
        keys_distinct(st),
        other != e.test_name@,
    ensures
        e.result == TestResult::Pass ==> streak_of(apply_evaluation(st, configs, e), e.test_name@)
            == 0,
        (e.result == TestResult::Fail && severity_of(configs, e.test_name@) == FailSeverity::Soft)
            ==> streak_of(apply_evaluation(st, configs, e), e.test_name@) == streak_of(
            st,
            e.test_name@,
        ) + 1,
        streak_of(apply_evaluation(st, configs, e), other) == streak_of(st, other),
{
    let k = e.test_name@;
    lemma_key_index(st, k);
    let i = key_index(st, k);
    if e.result == TestResult::Pass {
        lemma_clear_keeps_distinct(st, k, 0);
        lemma_key_index(clear_streak(st, k), k);
        if i >= 0 {
            lemma_key_index_remove(st, i, other);
        }
    } else if e.result == TestResult::Fail && severity_of(configs, e.test_name@)
        == FailSeverity::Soft {
        if i >= 0 {
            lemma_key_index_update(st, i, (k, st[i].1 + 1), other);
            let st2 = st.update(i, (k, st[i].1 + 1));
            lemma_key_index(st2, k);
            assert(st2[i].0 == k);
        } else {
            lemma_key_index_push(st, (k, 1nat), other);
            lemma_key_index(st.push((k, 1nat)), k);
            assert(st.push((k, 1nat))[st.len() as int].0 == k);
        }
    }
}

/// Only a pass or a soft failure moves the streaks: an unknown result, and a
/// failure of a test whose severity is hard, leave every soft-fail streak as
/// it was (the streak of the evaluated test included).
pub proof fn law_streaks_kept_without_pass_or_soft_failure(
    st: Seq<(Seq<char>, nat)>,
    configs: Seq<TestConfig>,
    e: TestEvaluation,
    k: Seq<char>,
)
    requires
        e.result == TestResult::Unknown || (e.result == TestResult::Fail && severity_of(
            configs,
            e.test_name@,
        ) == FailSeverity::Hard),
    ensures
        apply_evaluation(st, configs, e) == st,
        streak_of(apply_evaluation(st, configs, e), k) == streak_of(st, k),
{
}

/// A test's severity is that of the first configured test with its name,
/// and hard when no configured test has it.
pub proof fn law_severity_of(configs: Seq<TestConfig>, name: Seq<char>)
    ensures
        (forall|i: int| 0 <= i < configs.len() ==> (#[trigger] configs[i]).name@ != name)
            ==> severity_of(configs, name) == FailSeverity::Hard,
        forall|i: int|
            0 <= i < configs.len() && (#[trigger] configs[i]).name@ == name && (forall|j: int|
                0 <= j < i ==> configs[j].name@ != name) ==> severity_of(configs, name)
                == configs[i].severity,
    decreases configs.len(),
{
    if configs.len() > 0 {
        law_severity_of(configs.drop_first(), name);
        assert forall|i: int|
            0 <= i < configs.len() && (#[trigger] configs[i]).name@ == name && (forall|j: int|
                0 <= j < i ==> configs[j].name@ != name) implies severity_of(configs, name)
            == configs[i].severity by {
            if i > 0 {
                assert(configs.drop_first()[i - 1] == configs[i]);
                assert forall|j: int| 0 <= j < i - 1 implies configs.drop_first()[j].name@ != name by {
                    assert(configs.drop_first()[j] == configs[j + 1]);
                }
            }
        }
        if forall|i: int| 0 <= i < configs.len() ==> (#[trigger] configs[i]).name@ != name {
            assert forall|i: int| 0 <= i < configs.drop_first().len() implies (
            #[trigger] configs.drop_first()[i]).name@ != name by {
                assert(configs.drop_first()[i] == configs[i + 1]);
            }
        }
    }
}

/// Soft failures roll back after the configured number of consecutive
/// cycles: from a state without hard failure or streaks, `n` cycles in which
/// the only evaluation is a failure of the same soft test hold while `n` is
/// below the limit and recommend rollback from then on.
pub proof fn law_soft_failures_roll_back(
    m: TrackerModel,
    configs: Seq<TestConfig>,
    e: TestEvaluation,
    n: nat,
    rc: RecommendationConfig,
)
    requires
        !m.hard,
        m.streaks.len() == 0,
        e.result == TestResult::Fail,
        severity_of(configs, e.test_name@) == FailSeverity::Soft,
        n > 0,
    ensures
        ({
            let r = run(m, Seq::new(n, |j: int| (configs, seq![e])), rc);
            &&& !r.hard
            &&& r.streaks == seq![(e.test_name@, n)]
            &&& r.rec == if n >= rc.rollback.soft_fail_consecutive_cycles {
                Recommendation::Rollback
            } else {
                Recommendation::Hold
            }
        }),
    decreases n,
{
    let cycles = Seq::new(n, |j: int| (configs, seq![e]));
    let es = seq![e];
    assert(es.drop_last() =~= Seq::<TestEvaluation>::empty());
    assert(es.last() == e);
    assert(cycles.last() == (configs, es));
    let prev = run(m, cycles.drop_last(), rc);
    assert(apply_evaluations(prev.streaks, configs, es.drop_last()) == prev.streaks);
    if n == 1 {
        assert(cycles.drop_last() =~= Seq::<(Seq<TestConfig>, Seq<TestEvaluation>)>::empty());
        assert(prev == m);
        assert(key_index(m.streaks, e.test_name@) == -1);
        assert(apply_evaluations(prev.streaks, configs, es) =~= seq![(e.test_name@, 1nat)]);
    } else {
        law_soft_failures_roll_back(m, configs, e, (n - 1) as nat, rc);
        assert(cycles.drop_last() =~= Seq::new((n - 1) as nat, |j: int| (configs, seq![e])));
        assert(key_index(prev.streaks, e.test_name@) == 0);
        assert(apply_evaluations(prev.streaks, configs, es) =~= seq![(e.test_name@, n)]);
    }
    let st = apply_evaluations(prev.streaks, configs, es);
    assert(!has_hard_failure(configs, es));
    assert(!all_passed(es));
    if n >= rc.rollback.soft_fail_consecutive_cycles {
        assert(st[0].1 >= rc.rollback.soft_fail_consecutive_cycles);
    }
}

pub(crate) proof fn lemma_apply_distinct(st: Seq<(Seq<char>, nat)>, configs: Seq<TestConfig>, es: Seq<TestEvaluation>)
    requires
        keys_distinct(st),
    ensures
        keys_distinct(apply_evaluations(st, configs, es)),
    decreases es.len(),
{
    if es.len() > 0 {
        lemma_apply_distinct(st, configs, es.drop_last());
        let p = apply_evaluations(st, configs, es.drop_last());
        lemma_clear_keeps_distinct(p, es.last().test_name@, 0);
        lemma_bump_keeps_distinct(p, es.last().test_name@, 0);
    }
}

/// Evaluations of other tests leave the streak of test `k` alone.
proof fn lemma_apply_others(
    st: Seq<(Seq<char>, nat)>,
    configs: Seq<TestConfig>,
    es: Seq<TestEvaluation>,
    k: Seq<char>,
)
    requires
        keys_distinct(st),
        forall|i: int| 0 <= i < es.len() ==> (#[trigger] es[i]).test_name@ != k,
    ensures
        streak_of(apply_evaluations(st, configs, es), k) == streak_of(st, k),
    decreases es.len(),
{
    if es.len() > 0 {
        assert(es.last() == es[es.len() - 1]);
        lemma_apply_others(st, configs, es.drop_last(), k);
        lemma_apply_distinct(st, configs, es.drop_last());
        law_streak_update(apply_evaluations(st, configs, es.drop_last()), configs, es.last(), k);
    }
}

/// Test `k` has exactly one evaluation among `es`, and it failed.
pub open spec fn fails_once(es: Seq<TestEvaluation>, k: Seq<char>) -> bool {
    exists|i: int|
        0 <= i < es.len() && (#[trigger] es[i]).test_name@ == k && es[i].result == TestResult::Fail
            && forall|j: int| 0 <= j < es.len() && j != i ==> (#[trigger] es[j]).test_name@ != k
}

pub(crate) proof fn lemma_apply_one_failure(
    st: Seq<(Seq<char>, nat)>,
    configs: Seq<TestConfig>,
    es: Seq<TestEvaluation>,
    k: Seq<char>,
)
    requires
        keys_distinct(st),
        fails_once(es, k),
        severity_of(configs, k) == FailSeverity::Soft,
    ensures
        streak_of(apply_evaluations(st, configs, es), k) == streak_of(st, k) + 1,
    decreases es.len(),
{
    let i = choose|i: int|
        0 <= i < es.len() && (#[trigger] es[i]).test_name@ == k && es[i].result == TestResult::Fail
            && forall|j: int| 0 <= j < es.len() && j != i ==> (#[trigger] es[j]).test_name@ != k;
    let pre = es.drop_last();
    let e = es.last();
    assert(e == es[es.len() - 1]);
    lemma_apply_distinct(st, configs, pre);
    let p = apply_evaluations(st, configs, pre);
    if i == es.len() - 1 {
        assert forall|j: int| 0 <= j < pre.len() implies (#[trigger] pre[j]).test_name@ != k by {
            assert(pre[j] == es[j]);
        }
        lemma_apply_others(st, configs, pre, k);
        // The law's last argument names some other test; only its clause on
        // `k` itself is needed here.
        law_streak_update(p, configs, e, k.insert(0, 'x'));
    } else {
        assert(pre[i] == es[i]);
        assert forall|j: int| 0 <= j < pre.len() && j != i implies (#[trigger] pre[j]).test_name@ != k by {
            assert(pre[j] == es[j]);
        }
        assert(fails_once(pre, k));
        lemma_apply_one_failure(st, configs, pre, k);
        law_streak_update(p, configs, e, k);
    }
}

/// Soft failures roll back after the configured number of consecutive
/// cycles: when a soft test fails once in each of `n` consecutive cycles,
/// its streak grows by `n` (while no hard failure stops the count), and
/// rollback is recommended once the streak reaches the configured length.
pub proof fn law_consecutive_soft_failures(
    m: TrackerModel,
    cycles: Seq<(Seq<TestConfig>, Seq<TestEvaluation>)>,
    k: Seq<char>,
    rc: RecommendationConfig,
)
    requires
        keys_distinct(m.streaks),
        forall|j: int|
            0 <= j < cycles.len() ==> fails_once((#[trigger] cycles[j]).1, k) && severity_of(
                cycles[j].0,
                k,
            ) == FailSeverity::Soft,
    ensures
        keys_distinct(run(m, cycles, rc).streaks),
        !run(m, cycles, rc).hard ==> streak_of(run(m, cycles, rc).streaks, k) == streak_of(
            m.streaks,
            k,
        ) + cycles.len(),
        cycles.len() > 0 && streak_of(m.streaks, k) + cycles.len()
            >= rc.rollback.soft_fail_consecutive_cycles ==> run(m, cycles, rc).rec
            == Recommendation::Rollback,
    decreases cycles.len(),
{
    if cycles.len() > 0 {
        let pre = cycles.drop_last();
        assert forall|j: int| 0 <= j < pre.len() implies fails_once((#[trigger] pre[j]).1, k)
            && severity_of(pre[j].0, k) == FailSeverity::Soft by {
            assert(pre[j] == cycles[j]);
        }
        law_consecutive_soft_failures(m, pre, k, rc);
        let prev = run(m, pre, rc);
        let c = cycles.last();
        assert(c == cycles[cycles.len() - 1]);
        if !prev.hard {
            lemma_apply_distinct(prev.streaks, c.0, c.1);
            lemma_apply_one_failure(prev.streaks, c.0, c.1, k);
            let st = apply_evaluations(prev.streaks, c.0, c.1);
            lemma_key_index(st, k);
            let i = key_index(st, k);
            if streak_of(m.streaks, k) + cycles.len() >= rc.rollback.soft_fail_consecutive_cycles
                && !has_hard_failure(c.0, c.1) {
                assert(i >= 0);
                assert(st[i].1 >= rc.rollback.soft_fail_consecutive_cycles);
                assert(streak_reached(st, rc.rollback.soft_fail_consecutive_cycles as nat));
            }
        }
    }
}

impl CycleTracker {
    /// The tracker's invariant: no test name has two streaks.
    pub open spec fn well_formed(&self) -> bool {
        keys_distinct(streaks_view(self.soft_fail_streaks@))
    }

    /// The history matches the counters: one entry per cycle, numbered from
    /// one, the latest holding the current recommendation (hold before any
    /// cycle).
    pub open spec fn history_consistent(&self) -> bool {
        &&& self.total_cycles == self.cycle_history@.len()
        &&& forall|i: int|
            0 <= i < self.cycle_history@.len() ==> #[trigger] self.cycle_history@[i].cycle_number
                == i + 1
        &&& self.current_recommendation == if self.cycle_history@.len() == 0 {
            Recommendation::Hold
        } else {
            self.cycle_history@.last().recommendation
        }
    }

    /// A tracker before any cycle: hold, no history.
    pub fn new() -> (t: Self)
        ensures
            t.well_formed(),
            t.total_cycles == 0,
            t.consecutive_passes == 0,
            t.soft_fail_streaks@.len() == 0,
            !t.hard_failure_seen,
            t.current_recommendation == Recommendation::Hold,
            t.cycle_history@.len() == 0,
            t.history_consistent(),
    {
        CycleTracker {
            total_cycles: 0,
            consecutive_passes: 0,
            soft_fail_streaks: Vec::new(),
            hard_failure_seen: false,
            current_recommendation: Recommendation::Hold,
            cycle_history: Vec::new(),
        }
    }

    /// Whether `record_cycle` can take `n` more evaluations without any
    /// counter it may increment leaving the `u32` range: the cycle count
    /// always; after a hard failure nothing else, otherwise also the run of
    /// passes and each soft-fail streak (by at most one per evaluation).
    pub open spec fn can_record_spec(&self, n: int) -> bool {
        &&& self.total_cycles < u32::MAX
        &&& !self.hard_failure_seen ==> {
            &&& n <= u32::MAX
            &&& self.consecutive_passes < u32::MAX
            &&& streaks_bounded(streaks_view(self.soft_fail_streaks@), u32::MAX - n)
        }
    }

    /// Tests the counter bounds that `record_cycle` needs.
    pub fn can_record(&self, n: usize) -> (b: bool)
        ensures
            b == self.can_record_spec(n as int),
    {
        if self.total_cycles == u32::MAX {
            return false;
        }
        if self.hard_failure_seen {
            return true;
        }
        if n as u64 > u32::MAX as u64 || self.consecutive_passes == u32::MAX {
            return false;
        }
        let mut i: usize = 0;
        while i < self.soft_fail_streaks.len()
            invariant
                i <= self.soft_fail_streaks@.len(),
                !self.hard_failure_seen,
                self.total_cycles < u32::MAX,
                self.consecutive_passes < u32::MAX,
                n <= u32::MAX,
                forall|j: int|
                    0 <= j < i ==> #[trigger] streaks_view(self.soft_fail_streaks@)[j].1
                        <= u32::MAX - n,
            decreases self.soft_fail_streaks.len() - i,
        {
            let c = self.soft_fail_streaks[i].1;
            if n as u64 > u32::MAX as u64 || c as u64 > u32::MAX as u64 - n as u64 {
                assert(streaks_view(self.soft_fail_streaks@)[i as int].1 > u32::MAX - n);
                return false;
            }
            i = i + 1;
        }
        true
    }

    /// Records a cycle's test results and updates the recommendation.
    ///
    /// A hard failure makes the recommendation rollback for good. Otherwise
    /// the streaks of soft tests are updated in evaluation order; any hard
    /// failure in this cycle, or any streak that reached the configured
    /// length, gives rollback; a cycle where everything passed extends the run
    /// of passing cycles and promotes once both the cycle count and the run
    /// length reach their thresholds; any other cycle resets the run and holds.
    pub fn record_cycle(
        &mut self,
        test_configs: &[TestConfig],
        evaluations: &[TestEvaluation],
        config: &RecommendationConfig,
    )
        requires
            old(self).well_formed(),
            old(self).can_record_spec(evaluations@.len() as int),
        ensures
            final(self).well_formed(),
            final(self).cycle_history@.len() == old(self).cycle_history@.len() + 1,
            forall|j: int|
                0 <= j < old(self).cycle_history@.len() ==> #[trigger] final(self).cycle_history@[j]
                    == old(self).cycle_history@[j],
            ({
                let last = final(self).cycle_history@.last();
                &&& last.cycle_number == final(self).total_cycles
                &&& evaluations_view(last.test_results@) == evaluations_view(evaluations@)
                &&& last.recommendation == final(self).current_recommendation
            }),
            model(*final(self)) == step(model(*old(self)), test_configs@, evaluations@, *config),
            old(self).history_consistent() ==> final(self).history_consistent(),
            old(self).hard_failure_seen ==> {
                &&& final(self).hard_failure_seen
                &&& final(self).current_recommendation == Recommendation::Rollback
                &&& final(self).consecutive_passes == old(self).consecutive_passes
                &&& streaks_view(final(self).soft_fail_streaks@) == streaks_view(
                    old(self).soft_fail_streaks@,
                )
            },
    {
        self.total_cycles = self.total_cycles + 1;

        if self.hard_failure_seen {
            let result = CycleResult {
                cycle_number: self.total_cycles,
                test_results: duplicate_evaluations(evaluations),
                recommendation: Recommendation::Rollback,
            };
            self.cycle_history.push(result);
            self.current_recommendation = Recommendation::Rollback;
            return;
        }

        let ghost st0 = streaks_view(self.soft_fail_streaks@);
        let ghost bound: int = u32::MAX - evaluations@.len();
        let mut all_pass = true;
        let mut any_hard_fail = false;
        let mut streaks: Vec<(String, u32)> = Vec::new();
        std::mem::swap(&mut streaks, &mut self.soft_fail_streaks);
        let mut i: usize = 0;
        while i < evaluations.len()
            invariant
                i <= evaluations@.len(),
                bound == u32::MAX - evaluations@.len(),
                bound >= 0,
                streaks_view(streaks@) == apply_evaluations(
                    st0,
                    test_configs@,
                    evaluations@.take(i as int),
                ),
                keys_distinct(streaks_view(streaks@)),
                streaks_bounded(streaks_view(streaks@), bound + i),
                all_pass == all_passed(evaluations@.take(i as int)),
                any_hard_fail == has_hard_failure(test_configs@, evaluations@.take(i as int)),
            decreases evaluations.len() - i,
        {
            let eval = &evaluations[i];
            let ghost sv = streaks_view(streaks@);
            let ghost pre = evaluations@.take(i as int);
            let ghost post = evaluations@.take(i + 1);
            assert(post.drop_last() =~= pre);
            assert(post.last() == evaluations@[i as int]);
            let severity = find_severity(test_configs, &eval.test_name);
            match eval.result {
                TestResult::Pass => {
                    end_streak(&mut streaks, &eval.test_name);
                    proof {
                        lemma_clear_keeps_distinct(sv, eval.test_name@, bound + i);
                    }
                },
                TestResult::Fail => {
                    all_pass = false;
                    match severity {
                        FailSeverity::Hard => {
                            any_hard_fail = true;
                        },
                        FailSeverity::Soft => {
                            proof {
                                lemma_key_index(sv, eval.test_name@);
                                lemma_bump_keeps_distinct(sv, eval.test_name@, bound + i);
                            }
                            extend_streak(&mut streaks, &eval.test_name);
                        },
                    }
                },
                TestResult::Unknown => {
                    all_pass = false;
                },
            }
            proof {
                if !all_passed(pre) {
                    let k = choose|k: int| 0 <= k < pre.len() && pre[k].result != TestResult::Pass;
                    assert(post[k] == pre[k]);
                }
                if all_pass {
                    assert forall|k: int| 0 <= k < post.len() implies #[trigger] post[k].result
                        == TestResult::Pass by {
                        if k < pre.len() {
                            assert(pre[k] == post[k]);
                        }
                    }
                }
                if has_hard_failure(test_configs@, pre) {
                    let k = choose|k: int|
                        0 <= k < pre.len() && #[trigger] pre[k].result == TestResult::Fail
                            && severity_of(test_configs@, pre[k].test_name@) == FailSeverity::Hard;
                    assert(post[k] == pre[k]);
                }
                if !any_hard_fail {
                    assert forall|k: int|
                        0 <= k < post.len() && #[trigger] post[k].result
                            == TestResult::Fail implies severity_of(
                        test_configs@,
                        post[k].test_name@,
                    ) != FailSeverity::Hard by {
                        if k < pre.len() {
                            assert(pre[k] == post[k]);
                        }
                    }
                }
            }
            i = i + 1;
        }
        assert(evaluations@.take(evaluations@.len() as int) =~= evaluations@);

        let limit = config.rollback.soft_fail_consecutive_cycles;
        let mut reached = false;
        let mut j: usize = 0;
        while j < streaks.len()
            invariant
                j <= streaks@.len(),
                reached == exists|k: int|
                    0 <= k < j && #[trigger] streaks_view(streaks@)[k].1 >= limit as nat,
            decreases streaks.len() - j,
        {
            if streaks[j].1 >= limit {
                assert(streaks_view(streaks@)[j as int].1 >= limit as nat);
                reached = true;
            }
            j = j + 1;
        }
        self.soft_fail_streaks = streaks;

        let recommendation = if any_hard_fail {
            self.hard_failure_seen = true;
            Recommendation::Rollback
        } else if reached {
            Recommendation::Rollback
        } else if all_pass {
            self.consecutive_passes = self.consecutive_passes + 1;
            if self.total_cycles >= config.promote.require_min_cycles
                && self.consecutive_passes >= config.promote.require_consecutive_passes {
                Recommendation::Promote
            } else {
                Recommendation::Hold
            }
        } else {
            self.consecutive_passes = 0;
            Recommendation::Hold
        };

        let result = CycleResult {
            cycle_number: self.total_cycles,
            test_results: duplicate_evaluations(evaluations),
            recommendation,
        };
        self.cycle_history.push(result);
        self.current_recommendation = recommendation;
    }
}

impl Default for CycleTracker {
    fn default() -> (t: Self)
        ensures
            t.well_formed(),
            t.total_cycles == 0,
            t.consecutive_passes == 0,
            t.soft_fail_streaks@.len() == 0,
            !t.hard_failure_seen,
            t.current_recommendation == Recommendation::Hold,
            t.cycle_history@.len() == 0,
    {
        Self::new()
    }
}

} // verus!
