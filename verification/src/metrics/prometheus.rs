//! The structure of Prometheus HTTP API responses: status and error checks,
//! the series of a query result with their labels and name, and the value
//! texts of a range query.
//!
//! The JSON document is handed over as the fields that the logic reads; the
//! numeric values stay text here (their parsing into floating point is left
//! to the caller).

use vstd::prelude::*;
use vstd::string::*;

use crate::error::Error;

verus! {

/// One series of an instant query result: its `metric` labels (`None` when
/// `metric` is not an object; a label value is `None` when it is not a
/// string) and its `value` array (`None` when it is not an array; an element
/// is `None` when it is not a string).
#[derive(Clone, Debug)]
pub struct PromResult {
    pub labels: Option<Vec<(String, Option<String>)>>,
    pub value: Option<Vec<Option<String>>>,
}

/// An instant query response: its `status` and `error` texts (when strings),
/// whether it has a `data` field, `data.resultType` (when a string) and the
/// elements of `data.result` (when an array).
#[derive(Clone, Debug)]
pub struct PromResponse {
    pub status: Option<String>,
    pub error: Option<String>,
    pub has_data: bool,
    pub result_type: Option<String>,
    pub results: Option<Vec<PromResult>>,
}

/// A series read from a response: its name, its labels, and the text of its
/// sample value (when the response is a vector holding one as a string).
#[derive(Clone, Debug)]
pub struct PromSample {
    pub name: String,
    pub labels: Vec<(String, String)>,
    pub value_text: Option<String>,
}

/// Abstract value of a sample: name, labels, value text.
pub type SampleView = (Seq<char>, Seq<(Seq<char>, Seq<char>)>, Option<Seq<char>>);

impl View for PromSample {
    type V = SampleView;

    open spec fn view(&self) -> SampleView {
        (
            self.name@,
            self.labels@.map_values(|p: (String, String)| (p.0@, p.1@)),
            match self.value_text {
                Some(t) => Some(t@),
                None => None,
            },
        )
    }
}

/// A series' labels, non-string values read as empty text.
pub open spec fn sample_labels(r: PromResult) -> Seq<(Seq<char>, Seq<char>)> {
    match r.labels {
        None => Seq::empty(),
        Some(v) => v@.map_values(
            |p: (String, Option<String>)|
                (
                    p.0@,
                    match p.1 {
                        Some(t) => t@,
                        None => Seq::empty(),
                    },
                ),
        ),
    }
}

/// The value of the first label named `k` from index `i` on.
pub open spec fn label_value(ls: Seq<(Seq<char>, Seq<char>)>, k: Seq<char>, i: int) -> Option<
    Seq<char>,
>
    decreases ls.len() - i,
{
    if i < 0 || i >= ls.len() {
        None
    } else if ls[i].0 == k {
        Some(ls[i].1)
    } else {
        label_value(ls, k, i + 1)
    }
}

/// A series' name: its `__name__` label, `unnamed` without one.
pub open spec fn sample_name(ls: Seq<(Seq<char>, Seq<char>)>) -> Seq<char> {
    match label_value(ls, "__name__"@, 0) {
        Some(n) => n,
        None => "unnamed"@,
    }
}

/// The text of a series' sample value: the second element of its `value`
/// array, for vector results only.
pub open spec fn sample_value(r: PromResult, is_vector: bool) -> Option<Seq<char>> {
    if is_vector && r.value is Some && r.value->Some_0@.len() > 1 && r.value->Some_0@[1] is Some {
        Some(r.value->Some_0@[1]->Some_0@)
    } else {
        None
    }
}

/// The result type is a vector (the default when none is given).
pub open spec fn is_vector(b: PromResponse) -> bool {
    match b.result_type {
        Some(t) => t@ == "vector"@,
        None => true,
    }
}

/// The status text (`error` when none is given).
pub open spec fn status_text(s: Option<String>) -> Seq<char> {
    match s {
        Some(t) => t@,
        None => "error"@,
    }
}

/// The error text (`unknown error` when none is given).
pub open spec fn error_text(e: Option<String>) -> Seq<char> {
    match e {
        Some(t) => t@,
        None => "unknown error"@,
    }
}

/// The series of an instant query response, or the detail of the error it
/// gives: a status other than `success`, a missing `data` field, a missing
/// `result` array.
pub open spec fn prom_samples_spec(b: PromResponse) -> Result<Seq<SampleView>, Seq<char>> {
    if status_text(b.status) != "success"@ {
        Err("Prometheus query failed: "@ + error_text(b.error))
    } else if !b.has_data {
        Err("missing 'data' field in Prometheus response"@)
    } else if b.results is None {
        Err("missing 'result' array in Prometheus response"@)
    } else {
        Ok(
            b.results->Some_0@.map_values(
                |r: PromResult|
                    (sample_name(sample_labels(r)), sample_labels(r), sample_value(r, is_vector(b))),
            ),
        )
    }
}

fn text_or(t: &Option<String>, default: &str) -> (r: String)
    ensures
        r@ == match t {
            Some(s) => s@,
            None => default@,
        },
{
    match t {
        Some(s) => s.clone(),
        None => String::from_str(default),
    }
}

fn is_success(status: &Option<String>) -> (b: bool)
    ensures
        b == (status_text(*status) == "success"@),
{
    let s = text_or(status, "error");
    let ok = String::from_str("success");
    s == ok
}

/// The `__name__` label's value, `unnamed` without one.
fn series_name(labels: &Vec<(String, String)>) -> (n: String)
    ensures
        n@ == sample_name(labels@.map_values(|p: (String, String)| (p.0@, p.1@))),
{
    let ghost lv = labels@.map_values(|p: (String, String)| (p.0@, p.1@));
    let key = String::from_str("__name__");
    let mut j: usize = 0;
    while j < labels.len()
        invariant
            j <= labels@.len(),
            lv == labels@.map_values(|p: (String, String)| (p.0@, p.1@)),
            key@ == "__name__"@,
            label_value(lv, "__name__"@, 0) == label_value(lv, "__name__"@, j as int),
        decreases labels.len() - j,
    {
        if labels[j].0 == key {
            return labels[j].1.clone();
        }
        j = j + 1;
    }
    String::from_str("unnamed")
}

/// Reads one series.
fn read_sample(r: &PromResult, vector: bool) -> (s: PromSample)
    ensures
        s@ == (sample_name(sample_labels(*r)), sample_labels(*r), sample_value(*r, vector)),
{
    let mut labels: Vec<(String, String)> = Vec::new();
    let ghost want = sample_labels(*r);
    match &r.labels {
        None => {
            assert(labels@.map_values(|p: (String, String)| (p.0@, p.1@)) =~= want);
        },
        Some(v) => {
            let mut i: usize = 0;
            while i < v.len()
                invariant
                    i <= v@.len(),
                    want == sample_labels(*r),
                    r.labels == Some(*v),
                    labels@.map_values(|p: (String, String)| (p.0@, p.1@)) == want.take(i as int),
                decreases v.len() - i,
            {
                let ghost before = labels@;
                let k = v[i].0.clone();
                let t = match &v[i].1 {
                    Some(t) => t.clone(),
                    None => String::new(),
                };
                labels.push((k, t));
                assert(labels@.map_values(|p: (String, String)| (p.0@, p.1@)) =~= before.map_values(
                    |p: (String, String)| (p.0@, p.1@),
                ).push(want[i as int]));
                assert(want.take(i + 1) =~= want.take(i as int).push(want[i as int]));
                i = i + 1;
            }
            assert(want.take(v@.len() as int) =~= want);
        },
    }
    let name = series_name(&labels);
    let value_text = if vector {
        match &r.value {
            Some(arr) => if arr.len() > 1 {
                match &arr[1] {
                    Some(t) => Some(t.clone()),
                    None => None,
                }
            } else {
                None
            },
            None => None,
        }
    } else {
        None
    };
    PromSample { name, labels, value_text }
}

/// Reads the series of a Prometheus instant query response; errors (as
/// metrics errors) on a failed status or a missing `data` or `result`.
pub fn parse_prometheus_response(body: &PromResponse) -> (r: Result<Vec<PromSample>, Error>)
    ensures
        match r {
            Ok(v) => prom_samples_spec(*body) == Ok::<Seq<SampleView>, Seq<char>>(
                v@.map_values(|s: PromSample| s@),
            ),
            Err(Error::Metrics(m)) => prom_samples_spec(*body) == Err::<Seq<SampleView>, Seq<char>>(
                m@,
            ),
            Err(_) => false,
        },
{
    if !is_success(&body.status) {
        let mut m = String::from_str("Prometheus query failed: ");
        let e = text_or(&body.error, "unknown error");
        m.append(e.as_str());
        return Err(Error::Metrics(m));
    }
    if !body.has_data {
        return Err(Error::Metrics(String::from_str("missing 'data' field in Prometheus response")));
    }
    let results = match &body.results {
        Some(rs) => rs,
        None => {
            return Err(
                Error::Metrics(String::from_str("missing 'result' array in Prometheus response")),
            );
        },
    };
    let vector = match &body.result_type {
        Some(t) => *t == String::from_str("vector"),
        None => true,
    };
    let ghost want = results@.map_values(
        |r: PromResult| (sample_name(sample_labels(r)), sample_labels(r), sample_value(r, vector)),
    );
    let mut out: Vec<PromSample> = Vec::new();
    let mut i: usize = 0;
    while i < results.len()
        invariant
            i <= results@.len(),
            want == results@.map_values(
                |r: PromResult|
                    (sample_name(sample_labels(r)), sample_labels(r), sample_value(r, vector)),
            ),
            out@.map_values(|s: PromSample| s@) == want.take(i as int),
        decreases results.len() - i,
    {
        let ghost before = out@;
        let s = read_sample(&results[i], vector);
        out.push(s);
        assert(out@.map_values(|s: PromSample| s@) =~= before.map_values(|s: PromSample| s@).push(
            want[i as int],
        ));
        assert(want.take(i + 1) =~= want.take(i as int).push(want[i as int]));
        i = i + 1;
    }
    assert(want.take(results@.len() as int) =~= want);
    Ok(out)
}

/// One series of a range query result: its `values` array (`None` when it
/// is not an array), each pair as an array (`None` when it is not one) of
/// elements that are strings (`None` when not).
#[derive(Clone, Debug)]
pub struct PromRangeResult {
    pub values: Option<Vec<Option<Vec<Option<String>>>>>,
}

/// A range query response: its `status` and `error` texts (when strings),
/// whether it has a `data` field, and the elements of `data.result` (when an
/// array).
#[derive(Clone, Debug)]
pub struct PromRangeResponse {
    pub status: Option<String>,
    pub error: Option<String>,
    pub has_data: bool,
    pub results: Option<Vec<PromRangeResult>>,
}

/// The value texts of a series' pairs: the second element of each pair
/// that is an array holding a string there, in order.
pub open spec fn pair_texts(pairs: Seq<Option<Vec<Option<String>>>>) -> Seq<Seq<char>>
    decreases pairs.len(),
{
    if pairs.len() == 0 {
        Seq::empty()
    } else {
        let prev = pair_texts(pairs.drop_last());
        let p = pairs.last();
        if p is Some && p->Some_0@.len() > 1 && p->Some_0@[1] is Some {
            prev.push(p->Some_0@[1]->Some_0@)
        } else {
            prev
        }
    }
}

/// The value texts of all series, one series after the other.
pub open spec fn range_texts(rs: Seq<PromRangeResult>) -> Seq<Seq<char>>
    decreases rs.len(),
{
    if rs.len() == 0 {
        Seq::empty()
    } else {
        range_texts(rs.drop_last()) + match rs.last().values {
            Some(ps) => pair_texts(ps@),
            None => Seq::empty(),
        }
    }
}

/// The value texts of a range query response, or the detail of the error
/// it gives.
pub open spec fn range_values_spec(b: PromRangeResponse) -> Result<Seq<Seq<char>>, Seq<char>> {
    if status_text(b.status) != "success"@ {
        Err("Prometheus range query failed: "@ + error_text(b.error))
    } else if !b.has_data {
        Err("missing 'data' field in range response"@)
    } else if b.results is None {
        Err("missing 'result' array in range response"@)
    } else {
        Ok(range_texts(b.results->Some_0@))
    }
}

/// The texts of all value strings of a range query response (flattened
/// across series); errors (as metrics errors) on a failed status or a
/// missing `data` or `result`.
pub fn parse_range_values(body: &PromRangeResponse) -> (r: Result<Vec<String>, Error>)
    ensures
        match r {
            Ok(v) => range_values_spec(*body) == Ok::<Seq<Seq<char>>, Seq<char>>(
                v@.map_values(|t: String| t@),
            ),
            Err(Error::Metrics(m)) => range_values_spec(*body) == Err::<Seq<Seq<char>>, Seq<char>>(
                m@,
            ),
            Err(_) => false,
        },
{
    if !is_success(&body.status) {
        let mut m = String::from_str("Prometheus range query failed: ");
        let e = text_or(&body.error, "unknown error");
        m.append(e.as_str());
        return Err(Error::Metrics(m));
    }
    if !body.has_data {
        return Err(Error::Metrics(String::from_str("missing 'data' field in range response")));
    }
    let results = match &body.results {
        Some(rs) => rs,
        None => {
            return Err(Error::Metrics(String::from_str("missing 'result' array in range response")));
        },
    };
    let mut out: Vec<String> = Vec::new();
    let mut i: usize = 0;
    while i < results.len()
        invariant
            i <= results@.len(),
            out@.map_values(|t: String| t@) == range_texts(results@.take(i as int)),
        decreases results.len() - i,
    {
        assert(results@.take(i + 1).drop_last() =~= results@.take(i as int));
        assert(results@.take(i + 1).last() == results@[i as int]);
        let ghost base = out@.map_values(|t: String| t@);
        match &results[i].values {
            None => {
                assert(base + Seq::<Seq<char>>::empty() =~= base);
            },
            Some(ps) => {
                let mut j: usize = 0;
                while j < ps.len()
                    invariant
                        j <= ps@.len(),
                        out@.map_values(|t: String| t@) == base + pair_texts(ps@.take(j as int)),
                    decreases ps.len() - j,
                {
                    assert(ps@.take(j + 1).drop_last() =~= ps@.take(j as int));
                    assert(ps@.take(j + 1).last() == ps@[j as int]);
                    match &ps[j] {
                        Some(arr) => {
                            if arr.len() > 1 {
                                match &arr[1] {
                                    Some(t) => {
                                        let ghost before = out@;
                                        out.push(t.clone());
                                        assert(out@.map_values(|t: String| t@) =~= before.map_values(
                                            |t: String| t@,
                                        ).push(t@));
                                        assert(base + pair_texts(ps@.take(j + 1)) =~= (base
                                            + pair_texts(ps@.take(j as int))).push(t@));
                                    },
                                    None => {},
                                }
                            }
                        },
                        None => {},
                    }
                    j = j + 1;
                }
                assert(ps@.take(ps@.len() as int) =~= ps@);
            },
        }
        i = i + 1;
    }
    assert(results@.take(results@.len() as int) =~= results@);
    Ok(out)
}

} // verus!
