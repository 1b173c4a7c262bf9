//! The stored shape of an evaluation in the audit trail.

use vstd::prelude::*;
use vstd::string::*;

use crate::recommendation::label_text;
use crate::verdict::{strings_view, Verdict};

verus! {

/// A stored evaluation record.
#[derive(Clone, Debug)]
pub struct EvaluationRecord {
    pub id: i64,
    pub deployment_id: String,
    pub config_hash: String,
    pub recommendation: String,
    pub total_cycles: u32,
    pub consecutive_passes: u32,
    pub reasoning: String,
    pub created_at: String,
}

/// The values of a verdict that an evaluation row stores.
pub struct EvaluationRow {
    pub recommendation: String,
    pub total_cycles: u32,
    pub consecutive_passes: u32,
    pub reasoning: Vec<String>,
}

/// What a verdict stores: its recommendation in lower case, its counters
/// and its reasoning lines.
pub fn evaluation_row(verdict: &Verdict) -> (r: EvaluationRow)
    ensures
        r.recommendation@ == label_text(verdict.recommendation),
        r.total_cycles == verdict.total_cycles,
        r.consecutive_passes == verdict.consecutive_passes,
        strings_view(r.reasoning@) == strings_view(verdict.reasoning@),
{
    let mut reasoning: Vec<String> = Vec::new();
    let mut i: usize = 0;
    while i < verdict.reasoning.len()
        invariant
            i <= verdict.reasoning@.len(),
            strings_view(reasoning@) == strings_view(verdict.reasoning@).take(i as int),
        decreases verdict.reasoning.len() - i,
    {
        let ghost before = reasoning@;
        let line = verdict.reasoning[i].clone();
        reasoning.push(line);
        assert(strings_view(reasoning@) =~= strings_view(before).push(line@));
        assert(strings_view(verdict.reasoning@).take(i + 1) =~= strings_view(verdict.reasoning@).take(
            i as int,
        ).push(line@));
        i = i + 1;
    }
    assert(strings_view(verdict.reasoning@).take(verdict.reasoning@.len() as int) =~= strings_view(
        verdict.reasoning@,
    ));
    EvaluationRow {
        recommendation: verdict.recommendation.label(),
        total_cycles: verdict.total_cycles,
        consecutive_passes: verdict.consecutive_passes,
        reasoning,
    }
}

/// The columns of an evaluation row, as queries select them.
pub open spec fn select_evaluations() -> Seq<char> {
    "SELECT id, deployment_id, config_hash, recommendation, total_cycles, consecutive_passes, reasoning, created_at\n             FROM evaluations WHERE 1=1"@
}

/// A history query: its SQL text and its text parameters, in order; the
/// row limit is its last parameter, bound after these.
pub struct HistoryQuery {
    pub sql: String,
    pub params: Vec<String>,
}

/// The SQL of a history query: a condition for each filter given
/// (deployment, verdict, earliest creation time), newest first, limited.
pub open spec fn history_sql(deployment: bool, verdict: bool, since: bool) -> Seq<char> {
    select_evaluations() + (if deployment {
        " AND deployment_id = ?"@
    } else {
        Seq::empty()
    }) + (if verdict {
        " AND recommendation = ?"@
    } else {
        Seq::empty()
    }) + (if since {
        " AND created_at >= ?"@
    } else {
        Seq::empty()
    }) + " ORDER BY created_at DESC LIMIT ?"@
}

/// The filter values that are given, in the order of their conditions.
pub open spec fn history_params(
    deployment: Option<Seq<char>>,
    verdict: Option<Seq<char>>,
    since: Option<Seq<char>>,
) -> Seq<Seq<char>> {
    (match deployment {
        Some(d) => seq![d],
        None => Seq::empty(),
    }) + (match verdict {
        Some(v) => seq![v],
        None => Seq::empty(),
    }) + (match since {
        Some(s) => seq![s],
        None => Seq::empty(),
    })
}

/// Builds the query for the evaluation history under the given filters.
pub fn history_query(deployment_id: Option<&str>, verdict: Option<&str>, since: Option<&str>) -> (q:
    HistoryQuery)
    ensures
        q.sql@ == history_sql(deployment_id is Some, verdict is Some, since is Some),
        strings_view(q.params@) == history_params(
            match deployment_id {
                Some(d) => Some(d@),
                None => None,
            },
            match verdict {
                Some(v) => Some(v@),
                None => None,
            },
            match since {
                Some(s) => Some(s@),
                None => None,
            },
        ),
{
    let mut sql = String::from_str(
        "SELECT id, deployment_id, config_hash, recommendation, total_cycles, consecutive_passes, reasoning, created_at\n             FROM evaluations WHERE 1=1",
    );
    let mut params: Vec<String> = Vec::new();
    if let Some(d) = deployment_id {
        sql.append(" AND deployment_id = ?");
        params.push(String::from_str(d));
    }
    if let Some(v) = verdict {
        sql.append(" AND recommendation = ?");
        params.push(String::from_str(v));
    }
    if let Some(s) = since {
        sql.append(" AND created_at >= ?");
        params.push(String::from_str(s));
    }
    sql.append(" ORDER BY created_at DESC LIMIT ?");
    proof {
        assert(strings_view(params@) =~= history_params(
            match deployment_id {
                Some(d) => Some(d@),
                None => None,
            },
            match verdict {
                Some(v) => Some(v@),
                None => None,
            },
            match since {
                Some(s) => Some(s@),
                None => None,
            },
        ));
    }
    HistoryQuery { sql, params }
}

} // verus!
