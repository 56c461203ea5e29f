//! Security findings: the issues whose code starts with `SEC_`.
use crate::models::{issues_view, Issue, IssueV, Severity};
use crate::text::{starts_with, starts_with_seq};
use vstd::prelude::*;

verus! {

#[derive(Debug, Clone)]
pub struct SecurityIssue {
    pub code: String,
    pub severity: String,
    pub description: String,
}

pub open spec fn is_security(i: IssueV) -> bool {
    starts_with_seq(i.code, "SEC_"@)
}

/// The security issues among `issues`, in order.
pub open spec fn security_codes(issues: Seq<IssueV>) -> Seq<Seq<char>>
    decreases issues.len(),
{
    if issues.len() == 0 {
        Seq::empty()
    } else if is_security(issues.last()) {
        security_codes(issues.drop_last()).push(issues.last().code)
    } else {
        security_codes(issues.drop_last())
    }
}

/// The issues whose code starts with `SEC_`, with the severity by name.
pub fn load_security_issues(issues: &Vec<Issue>) -> (r: Vec<SecurityIssue>)
    ensures
        r@.map_values(|s: SecurityIssue| s.code@) == security_codes(issues_view(issues@)),
{
    let ghost iv = issues_view(issues@);
    let mut out: Vec<SecurityIssue> = Vec::new();
    let mut i: usize = 0;
    assert(out@.map_values(|s: SecurityIssue| s.code@) =~= security_codes(iv.take(0)));
    while i < issues.len()
        invariant
            iv == issues_view(issues@),
            i <= issues.len(),
            out@.map_values(|s: SecurityIssue| s.code@) == security_codes(iv.take(i as int)),
        decreases issues.len() - i,
    {
        assert(iv.take(i + 1).drop_last() =~= iv.take(i as int));
        assert(iv.take(i + 1).last() == issues@[i as int]@);
        if starts_with(issues[i].code.as_str(), "SEC_") {
            let severity = match issues[i].severity {
                Severity::Critical => String::from_str("Critical"),
                Severity::Warning => String::from_str("Warning"),
            };
            out.push(SecurityIssue {
                code: issues[i].code.clone(),
                severity,
                description: issues[i].description.clone(),
            });
        }
        i += 1;
        assert(out@.map_values(|s: SecurityIssue| s.code@) =~= security_codes(iv.take(i as int)));
    }
    assert(iv.take(issues.len() as int) =~= iv);
    out
}

} // verus!
