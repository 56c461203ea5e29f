//! Risk scores of issues under a weight configuration.
use crate::models::{issues_view, Issue, IssueV, Severity};
use crate::risk_config::{override_of, weight_of, RiskConfig};
use crate::text::{lower_of, str_eq, to_lower};
use vstd::prelude::*;

verus! {

/// Sum of the weights of the issues' codes.
pub open spec fn total_weight(issues: Seq<IssueV>, w: Seq<(Seq<char>, u32)>) -> int
    decreases issues.len(),
{
    if issues.len() == 0 {
        0
    } else {
        total_weight(issues.drop_last(), w) + weight_of(w, issues.last().code)
    }
}

proof fn lemma_total_weight_nonneg(issues: Seq<IssueV>, w: Seq<(Seq<char>, u32)>)
    ensures
        total_weight(issues, w) >= 0,
    decreases issues.len(),
{
    if issues.len() > 0 {
        lemma_total_weight_nonneg(issues.drop_last(), w);
    }
}

/// The weight configured for the issue's code.
pub fn risk_score(issue: &Issue, cfg: &RiskConfig) -> (r: u32)
    ensures
        r == weight_of(cfg@.weights, issue.code@),
{
    cfg.weight_for(issue.code.as_str())
}

/// Total risk over the issues, saturating at `u32::MAX`.
pub fn summarize_risk(issues: &[Issue], cfg: &RiskConfig) -> (r: u32)
    ensures
        r as int == if total_weight(issues_view(issues@), cfg@.weights) > u32::MAX {
            u32::MAX as int
        } else {
            total_weight(issues_view(issues@), cfg@.weights)
        },
{
    let ghost iv = issues_view(issues@);
    let mut total: u32 = 0;
    let mut i: usize = 0;
    while i < issues.len()
        invariant
            iv == issues_view(issues@),
            i <= issues@.len(),
            total as int == if total_weight(iv.take(i as int), cfg@.weights) > u32::MAX {
                u32::MAX as int
            } else {
                total_weight(iv.take(i as int), cfg@.weights)
            },
        decreases issues@.len() - i,
    {
        assert(iv.take(i + 1).drop_last() =~= iv.take(i as int));
        assert(iv.take(i + 1).last() == issues@[i as int]@);
        proof {
            lemma_total_weight_nonneg(iv.take(i as int), cfg@.weights);
        }
        let w = risk_score(&issues[i], cfg);
        total = total.saturating_add(w);
        i += 1;
    }
    assert(iv.take(issues@.len() as int) =~= iv);
    total
}

/// The issue's severity after a configured override: `critical` or `warning` in any
/// case replace it, anything else leaves it.
pub open spec fn overridden_severity(issue: IssueV, o: Seq<(Seq<char>, Seq<char>)>) -> Severity {
    match override_of(o, issue.code) {
        Some(s) => if lower_of(s) == "critical"@ {
            Severity::Critical
        } else if lower_of(s) == "warning"@ {
            Severity::Warning
        } else {
            issue.severity
        },
        None => issue.severity,
    }
}

pub fn severity_for(issue: &Issue, cfg: &RiskConfig) -> (r: Severity)
    ensures
        r == overridden_severity(issue@, cfg@.overrides),
{
    match cfg.severity_override(issue.code.as_str()) {
        Some(ov) => {
            let l = to_lower(ov.as_str());
            if str_eq(l.as_str(), "critical") {
                Severity::Critical
            } else if str_eq(l.as_str(), "warning") {
                Severity::Warning
            } else {
                issue.severity
            }
        },
        None => issue.severity,
    }
}

} // verus!
