//! Remediation commands for known issue codes.
use crate::models::Issue;
use crate::text::str_eq;
use vstd::prelude::*;

verus! {

/// A remediation: the issue code and the command that addresses it.
#[derive(Debug, Clone)]
pub struct FixCommand {
    pub code: String,
    pub command: String,
}

/// The known remediation commands, by issue code.
pub open spec fn fix_table() -> Seq<(Seq<char>, Seq<char>)> {
    seq![
        ("DOCKER_INACTIVE"@, "sudo systemctl start docker"@),
        ("PORT_8000_BOUND"@, "sudo fuser -k 8000/tcp"@),
        ("NODEJS_INACTIVE"@, "sudo apt-get update && sudo apt-get install -y nodejs npm"@),
        ("POSTGRES_PORT_BOUND"@, "sudo systemctl restart postgresql"@),
        ("POSTGRES_INACTIVE"@, "sudo systemctl start postgresql"@),
        ("POSTGRES_MULTI_INSTANCE"@, "sudo systemctl list-units | grep postgresql && sudo systemctl stop postgresql@*"@),
        ("POSTGRES_VERSION_DRIFT"@, "sudo apt-get autoremove 'postgresql-*'"@),
        ("REDIS_PORT_BOUND"@, "sudo systemctl restart redis-server"@),
        ("REDIS_INACTIVE"@, "sudo systemctl start redis-server"@),
        ("REDIS_MEMORY_LOW"@, "redis-cli CONFIG SET maxmemory 268435456"@),
        ("REDIS_CONFIG_MISSING"@, "sudo cp /etc/redis/redis.conf.default /etc/redis/redis.conf"@),
        ("GPU_MISSING"@, "sudo apt-get install -y nvidia-driver-535"@),
        ("CUDA_VERSION_MISMATCH"@, "sudo apt-get install -y cuda-toolkit"@),
        ("CUDNN_MISSING"@, "sudo apt-get install -y libcudnn8"@),
        ("PYTHON_MULTIPLE_ENV"@, "conda deactivate && deactivate"@),
        ("PYTHON_NO_ENV"@, "python -m venv .venv && source .venv/bin/activate"@),
        ("PYTHON_VERSION_DRIFT"@, "sudo update-alternatives --config python"@),
        ("NODE_PACKAGE_MISSING"@, "npm init -y"@),
        ("NODE_LOCKFILE_DRIFT"@, "npm install"@),
    ]
}

pub open spec fn table_view(t: Seq<(&'static str, &'static str)>) -> Seq<(Seq<char>, Seq<char>)> {
    t.map_values(|p: (&'static str, &'static str)| (p.0@, p.1@))
}

/// The known remediation commands, by issue code.
pub fn commands() -> (r: Vec<(&'static str, &'static str)>)
    ensures
        table_view(r@) == fix_table(),
{
    let r = vec![
        ("DOCKER_INACTIVE", "sudo systemctl start docker"),
        ("PORT_8000_BOUND", "sudo fuser -k 8000/tcp"),
        ("NODEJS_INACTIVE", "sudo apt-get update && sudo apt-get install -y nodejs npm"),
        ("POSTGRES_PORT_BOUND", "sudo systemctl restart postgresql"),
        ("POSTGRES_INACTIVE", "sudo systemctl start postgresql"),
        ("POSTGRES_MULTI_INSTANCE", "sudo systemctl list-units | grep postgresql && sudo systemctl stop postgresql@*"),
        ("POSTGRES_VERSION_DRIFT", "sudo apt-get autoremove 'postgresql-*'"),
        ("REDIS_PORT_BOUND", "sudo systemctl restart redis-server"),
        ("REDIS_INACTIVE", "sudo systemctl start redis-server"),
        ("REDIS_MEMORY_LOW", "redis-cli CONFIG SET maxmemory 268435456"),
        ("REDIS_CONFIG_MISSING", "sudo cp /etc/redis/redis.conf.default /etc/redis/redis.conf"),
        ("GPU_MISSING", "sudo apt-get install -y nvidia-driver-535"),
        ("CUDA_VERSION_MISMATCH", "sudo apt-get install -y cuda-toolkit"),
        ("CUDNN_MISSING", "sudo apt-get install -y libcudnn8"),
        ("PYTHON_MULTIPLE_ENV", "conda deactivate && deactivate"),
        ("PYTHON_NO_ENV", "python -m venv .venv && source .venv/bin/activate"),
        ("PYTHON_VERSION_DRIFT", "sudo update-alternatives --config python"),
        ("NODE_PACKAGE_MISSING", "npm init -y"),
        ("NODE_LOCKFILE_DRIFT", "npm install"),
    ];
    assert(table_view(r@) =~= fix_table());
    r
}

/// The command stored for `code`, first match first.
pub open spec fn lookup_in(table: Seq<(Seq<char>, Seq<char>)>, code: Seq<char>) -> Option<Seq<char>>
    decreases table.len(),
{
    if table.len() == 0 {
        None
    } else if table[0].0 == code {
        Some(table[0].1)
    } else {
        lookup_in(table.drop_first(), code)
    }
}

/// The known command for `code`.
pub fn fix_for(code: &str) -> (r: Option<&'static str>)
    ensures
        lookup_in(fix_table(), code@) == (match r {
            Some(c) => Some(c@),
            None => None::<Seq<char>>,
        }),
{
    let table = commands();
    let ghost t = table_view(table@);
    assert(t.skip(0) =~= t);
    let mut i: usize = 0;
    while i < table.len()
        invariant
            t == table_view(table@),
            t == fix_table(),
            i <= table.len(),
            lookup_in(t, code@) == lookup_in(t.skip(i as int), code@),
        decreases table.len() - i,
    {
        assert(t.skip(i as int)[0] == t[i as int]);
        assert(t.skip(i as int).drop_first() =~= t.skip(i + 1));
        if str_eq(table[i].0, code) {
            return Some(table[i].1);
        }
        i += 1;
    }
    None
}

/// The remediation for an issue: the known command for its code, else its own
/// suggestion.
pub fn suggest_fix(code: &str, issue: &Issue) -> (r: String)
    ensures
        r@ == (match lookup_in(fix_table(), code@) {
            Some(c) => c,
            None => issue@.suggestion,
        }),
{
    match fix_for(code) {
        Some(c) => String::from_str(c),
        None => issue.suggestion.clone(),
    }
}

/// One remediation per issue, in order.
pub fn fixes_for(issues: &Vec<Issue>) -> (r: Vec<FixCommand>)
    ensures
        r@.len() == issues@.len(),
        forall|i: int| 0 <= i < r@.len() ==> (#[trigger] r@[i]).code@ == issues@[i].code@
            && r@[i].command@ == (match lookup_in(fix_table(), issues@[i].code@) {
                Some(c) => c,
                None => issues@[i].suggestion@,
            }),
{
    let mut out: Vec<FixCommand> = Vec::new();
    let mut i: usize = 0;
    while i < issues.len()
        invariant
            i <= issues.len(),
            out@.len() == i,
            forall|k: int| 0 <= k < i ==> (#[trigger] out@[k]).code@ == issues@[k].code@
                && out@[k].command@ == (match lookup_in(fix_table(), issues@[k].code@) {
                    Some(c) => c,
                    None => issues@[k].suggestion@,
                }),
        decreases issues.len() - i,
    {
        let command = suggest_fix(issues[i].code.as_str(), &issues[i]);
        out.push(FixCommand { code: issues[i].code.clone(), command });
        i += 1;
    }
    out
}

} // verus!
