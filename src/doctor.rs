//! Which issues have a known remediation.
use crate::fix::{fix_for, fix_table, lookup_in};
use crate::models::Issue;
use vstd::prelude::*;

verus! {

#[derive(Debug, Clone)]
pub struct DoctorIssue {
    pub code: String,
    pub fixable: bool,
    pub fix_command: Option<String>,
}

/// Each issue's code, whether a remediation is known for it, and which.
pub fn collect_issues(issues: &Vec<Issue>) -> (r: Vec<DoctorIssue>)
    ensures
        r@.len() == issues@.len(),
        forall|i: int| 0 <= i < r@.len() ==> {
            &&& (#[trigger] r@[i]).code@ == issues@[i].code@
            &&& r@[i].fixable == lookup_in(fix_table(), issues@[i].code@) is Some
            &&& (match r@[i].fix_command {
                Some(c) => Some(c@),
                None => None::<Seq<char>>,
            }) == lookup_in(fix_table(), issues@[i].code@)
        },
{
    let mut out: Vec<DoctorIssue> = Vec::new();
    let mut i: usize = 0;
    while i < issues.len()
        invariant
            i <= issues.len(),
            out@.len() == i,
            forall|k: int| 0 <= k < i ==> {
                &&& (#[trigger] out@[k]).code@ == issues@[k].code@
                &&& out@[k].fixable == lookup_in(fix_table(), issues@[k].code@) is Some
                &&& (match out@[k].fix_command {
                    Some(c) => Some(c@),
                    None => None::<Seq<char>>,
                }) == lookup_in(fix_table(), issues@[k].code@)
            },
        decreases issues.len() - i,
    {
        let fix = fix_for(issues[i].code.as_str());
        let fix_command = match fix {
            Some(c) => Some(String::from_str(c)),
            None => None,
        };
        out.push(DoctorIssue { code: issues[i].code.clone(), fixable: fix.is_some(), fix_command });
        i += 1;
    }
    out
}

} // verus!
