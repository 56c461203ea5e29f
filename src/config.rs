//! Severity-class risk weights with per-code overrides.
use crate::models::{Issue, IssueV, Severity};
use crate::text::str_eq;
use vstd::prelude::*;

verus! {

#[derive(Debug, Clone, Copy)]
pub struct RiskWeights {
    pub critical: u32,
    pub warning: u32,
}

/// Weights by severity class, with weights for particular issue codes taking precedence.
#[derive(Debug, Clone)]
pub struct RiskConfig {
    pub weights: RiskWeights,
    pub issue_overrides: Vec<(String, u32)>,
}

pub open spec fn overrides_view(o: Seq<(String, u32)>) -> Seq<(Seq<char>, u32)> {
    o.map_values(|p: (String, u32)| (p.0@, p.1))
}

/// The score of an issue: its code's override where there is one, else the weight of
/// its severity class.
pub open spec fn score_of(issue: IssueV, weights: RiskWeights, o: Seq<(Seq<char>, u32)>) -> u32 {
    if crate::risk_config::override_index(o, issue.code) >= 0 {
        o[crate::risk_config::override_index(o, issue.code)].1
    } else {
        match issue.severity {
            Severity::Critical => weights.critical,
            Severity::Warning => weights.warning,
        }
    }
}

impl RiskConfig {
    pub fn score(&self, issue: &Issue) -> (r: u32)
        ensures
            r == score_of(issue@, self.weights, overrides_view(self.issue_overrides@)),
    {
        let ghost o = overrides_view(self.issue_overrides@);
        let mut i: usize = 0;
        while i < self.issue_overrides.len()
            invariant
                o == overrides_view(self.issue_overrides@),
                i <= self.issue_overrides.len(),
                crate::risk_config::override_index(o, issue@.code) == crate::risk_config::override_index_from(
                    o,
                    issue@.code,
                    i as int,
                ),
            decreases self.issue_overrides.len() - i,
        {
            if str_eq(self.issue_overrides[i].0.as_str(), issue.code.as_str()) {
                assert(o[i as int].0 == issue@.code);
                return self.issue_overrides[i].1;
            }
            i += 1;
        }
        match issue.severity {
            Severity::Critical => self.weights.critical,
            Severity::Warning => self.weights.warning,
        }
    }
}

} // verus!
