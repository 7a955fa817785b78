//! Drift-check bookkeeping: interpreting plan exit codes and summing
//! up per-environment results.

use vstd::prelude::*;

use crate::techno::Technology;

verus! {

/// The outcome of one drift check.
pub enum DriftStatus {
    Clean,
    Drift,
    Error(String),
}

/// One drift check's record: where it ran and how it ended.
pub struct DriftResult {
    pub path: String,
    pub environment: String,
    pub technology: Technology,
    pub status: DriftStatus,
    pub output: Option<String>,
}

/// Aggregated counts and the items that need attention.
pub struct DriftSummary {
    pub ok_count: usize,
    pub drift_count: usize,
    pub error_count: usize,
    pub drift_items: Vec<String>,
    pub error_items: Vec<(String, String)>,
}

/// Whether a plan exit code reports a clean state, drift, or a
/// failure: `0` is clean and `2` is drift, as the plan and diff tools
/// document; anything else failed.
pub open spec fn spec_code_is_clean(code: i32) -> bool {
    code == 0
}

/// Whether a plan exit code reports drift.
pub open spec fn spec_code_is_drift(code: i32) -> bool {
    code == 2
}

/// Classify a plan exit code: `0` clean, `2` drift, else failure.
/// The result distinguishes the three by `(clean, drift)` flags.
pub fn classify_exit_code(code: i32) -> (r: (bool, bool))
    ensures
        r.0 == spec_code_is_clean(code),
        r.1 == spec_code_is_drift(code),
{
    (code == 0, code == 2)
}

/// The label under which a result is reported: `path (environment)`.
pub open spec fn spec_item_label(path: Seq<char>, env: Seq<char>) -> Seq<char> {
    path + " ("@ + env + seq![')']
}

/// Build the report label of one result.
pub fn item_label(path: &str, env: &str) -> (r: String)
    ensures
        r@ == spec_item_label(path@, env@),
{
    proof {
        reveal_strlit(")");
        assert(")"@ =~= seq![')']);
    }
    let mut s = path.to_owned();
    s.append(" (");
    s.append(env);
    s.append(")");
    s
}

/// How many results ended in the given class.
pub open spec fn spec_count_ok(rs: Seq<DriftResult>) -> int
    decreases rs.len(),
{
    if rs.len() == 0 {
        0
    } else {
        spec_count_ok(rs.drop_last()) + (if rs.last().status is Clean {
            1int
        } else {
            0int
        })
    }
}

pub open spec fn spec_count_drift(rs: Seq<DriftResult>) -> int
    decreases rs.len(),
{
    if rs.len() == 0 {
        0
    } else {
        spec_count_drift(rs.drop_last()) + (if rs.last().status is Drift {
            1int
        } else {
            0int
        })
    }
}

pub open spec fn spec_count_error(rs: Seq<DriftResult>) -> int
    decreases rs.len(),
{
    if rs.len() == 0 {
        0
    } else {
        spec_count_error(rs.drop_last()) + (if rs.last().status is Error {
            1int
        } else {
            0int
        })
    }
}

/// The labels of the results that drifted, in order.
pub open spec fn spec_drift_items(rs: Seq<DriftResult>) -> Seq<Seq<char>>
    decreases rs.len(),
{
    if rs.len() == 0 {
        Seq::empty()
    } else {
        spec_drift_items(rs.drop_last()) + (if rs.last().status is Drift {
            seq![spec_item_label(rs.last().path@, rs.last().environment@)]
        } else {
            Seq::empty()
        })
    }
}

/// The labels and messages of the results that failed, in order.
pub open spec fn spec_error_items(rs: Seq<DriftResult>) -> Seq<(Seq<char>, Seq<char>)>
    decreases rs.len(),
{
    if rs.len() == 0 {
        Seq::empty()
    } else {
        spec_error_items(rs.drop_last()) + (match rs.last().status {
            DriftStatus::Error(m) => seq![
                (spec_item_label(rs.last().path@, rs.last().environment@), m@),
            ],
            _ => Seq::empty(),
        })
    }
}

/// Sum up drift results: how many were clean, drifted or failed, with
/// the labels of the drifted ones and the labels and messages of the
/// failed ones.
#[verifier::loop_isolation(false)]
pub fn generate_summary(results: &Vec<DriftResult>) -> (r: DriftSummary)
    ensures
        r.ok_count == spec_count_ok(results@),
        r.drift_count == spec_count_drift(results@),
        r.error_count == spec_count_error(results@),
        r.drift_items.deep_view() == spec_drift_items(results@),
        r.error_items.deep_view() == spec_error_items(results@),
{
    let mut ok_count: usize = 0;
    let mut drift_count: usize = 0;
    let mut error_count: usize = 0;
    let mut drift_items: Vec<String> = Vec::new();
    let mut error_items: Vec<(String, String)> = Vec::new();
    let mut i: usize = 0;
    proof {
        assert(results@.take(0) =~= Seq::<DriftResult>::empty());
        assert(drift_items.deep_view() =~~= spec_drift_items(results@.take(0)));
        assert(error_items.deep_view() =~~= spec_error_items(results@.take(0)));
    }
    while i < results.len()
        invariant
            i <= results.len(),
            ok_count == spec_count_ok(results@.take(i as int)),
            drift_count == spec_count_drift(results@.take(i as int)),
            error_count == spec_count_error(results@.take(i as int)),
            ok_count + drift_count + error_count <= i,
            drift_items.deep_view() == spec_drift_items(results@.take(i as int)),
            error_items.deep_view() == spec_error_items(results@.take(i as int)),
        decreases results.len() - i,
    {
        let ghost pd = drift_items.deep_view();
        let ghost pe = error_items.deep_view();
        proof {
            assert(results@.take(i + 1).drop_last() =~= results@.take(i as int));
            assert(results@.take(i + 1).last() == results@[i as int]);
        }
        match &results[i].status {
            DriftStatus::Clean => {
                ok_count = ok_count + 1;
            },
            DriftStatus::Drift => {
                drift_count = drift_count + 1;
                let label = item_label(results[i].path.as_str(), results[i].environment.as_str());
                drift_items.push(label);
                proof {
                    assert(drift_items.deep_view() =~~= spec_drift_items(results@.take(i + 1)));
                }
            },
            DriftStatus::Error(msg) => {
                error_count = error_count + 1;
                let label = item_label(results[i].path.as_str(), results[i].environment.as_str());
                error_items.push((label, msg.clone()));
                proof {
                    assert(error_items.deep_view() =~~= spec_error_items(results@.take(i + 1)));
                }
            },
        }
        i = i + 1;
    }
    proof {
        assert(results@.take(results.len() as int) =~= results@);
    }
    DriftSummary { ok_count, drift_count, error_count, drift_items, error_items }
}

/// Whether a technology passes the drift scan's filter: only the
/// Terraform and Helm ecosystems are checked, and a filter naming one
/// of them (ignoring ASCII case) keeps only that one.
pub open spec fn spec_drift_filter(t: Technology, filter: Option<Seq<char>>) -> bool {
    match filter {
        Some(f) => (t is Terraform && crate::config::spec_eq_ignore_case(f, "terraform"@)) || (
        t is Helm && crate::config::spec_eq_ignore_case(f, "helm"@)),
        None => t is Terraform || t is Helm,
    }
}

/// Decide whether a discovered project takes part in the drift scan.
pub fn drift_filter_matches(t: Technology, filter: &Option<String>) -> (r: bool)
    ensures
        r == spec_drift_filter(
            t,
            match filter {
                Some(f) => Some(f@),
                None => None,
            },
        ),
{
    proof {
        reveal_strlit("terraform");
        reveal_strlit("helm");
    }
    match filter {
        Some(f) => match t {
            Technology::Terraform => crate::config::eq_ignore_case(f.as_str(), "terraform"),
            Technology::Helm => crate::config::eq_ignore_case(f.as_str(), "helm"),
            _ => false,
        },
        None => match t {
            Technology::Terraform => true,
            Technology::Helm => true,
            _ => false,
        },
    }
}

} // verus!
