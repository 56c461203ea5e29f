//! Root-cause analysis: each issue with its cause and remediation.
use crate::fix::{fix_table, lookup_in, suggest_fix};
use crate::models::Issue;
use vstd::prelude::*;

verus! {

#[derive(Debug, Clone)]
pub struct AnalysisItem {
    pub issue: String,
    pub root_cause: String,
    pub suggested_fix: String,
}

/// One analysis item per issue: its code, its description as the cause, and its
/// remediation.
pub fn analysis_of(issues: &Vec<Issue>) -> (r: Vec<AnalysisItem>)
    ensures
        r@.len() == issues@.len(),
        forall|i: int| 0 <= i < r@.len() ==> {
            &&& (#[trigger] r@[i]).issue@ == issues@[i].code@
            &&& r@[i].root_cause@ == issues@[i].description@
            &&& r@[i].suggested_fix@ == (match lookup_in(fix_table(), issues@[i].code@) {
                Some(c) => c,
                None => issues@[i].suggestion@,
            })
        },
{
    let mut out: Vec<AnalysisItem> = Vec::new();
    let mut i: usize = 0;
    while i < issues.len()
        invariant
            i <= issues.len(),
            out@.len() == i,
            forall|k: int| 0 <= k < i ==> {
                &&& (#[trigger] out@[k]).issue@ == issues@[k].code@
                &&& out@[k].root_cause@ == issues@[k].description@
                &&& out@[k].suggested_fix@ == (match lookup_in(fix_table(), issues@[k].code@) {
                    Some(c) => c,
                    None => issues@[k].suggestion@,
                })
            },
        decreases issues.len() - i,
    {
        let item = AnalysisItem {
            issue: issues[i].code.clone(),
            root_cause: issues[i].description.clone(),
            suggested_fix: suggest_fix(issues[i].code.as_str(), &issues[i]),
        };
        out.push(item);
        i += 1;
    }
    out
}

} // verus!
