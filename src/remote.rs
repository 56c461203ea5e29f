//! Probing a remote machine over SSH: the target and the POSIX command for each probe.
use crate::scanner::{strip_prefix_all, strip_prefix_all_exec};
use crate::text::{concat, parse_u64, parse_u64_spec, trim, trim_seq};
use vstd::prelude::*;

verus! {

/// `cmd` followed by each argument after a space.
pub open spec fn spaced(cmd: Seq<char>, args: Seq<Seq<char>>) -> Seq<char>
    decreases args.len(),
{
    if args.len() == 0 {
        cmd
    } else {
        spaced(cmd, args.drop_last()) + " "@ + args.last()
    }
}

/// A `user@host` target reached over SSH.
#[derive(Debug, Clone)]
pub struct SshSystemProvider {
    pub target: String,
}

impl SshSystemProvider {
    /// The target of an `ssh://user@host` URL (the scheme may be left out); an empty
    /// target is refused.
    pub fn new(url: &str) -> (r: Result<SshSystemProvider, String>)
        ensures
            r is Ok <==> strip_prefix_all(url@, "ssh://"@).len() > 0,
            r is Ok ==> r->Ok_0.target@ == strip_prefix_all(url@, "ssh://"@),
            r is Err ==> r->Err_0@ == "Invalid remote target"@,
    {
        let target = strip_prefix_all_exec(url, "ssh://");
        if target.unicode_len() == 0 {
            return Err(String::from_str("Invalid remote target"));
        }
        Ok(SshSystemProvider { target })
    }

    /// The remote command that tests whether `path` exists.
    pub fn file_exists_command(path: &str) -> (r: String)
        ensures
            r@ == "test -e '"@ + path@ + "' && echo ok"@,
    {
        let mut s = concat("test -e '", path);
        s.append("' && echo ok");
        s
    }

    /// The remote command that prints `path`.
    pub fn read_file_command(path: &str) -> (r: String)
        ensures
            r@ == "cat '"@ + path@ + "'"@,
    {
        let mut s = concat("cat '", path);
        s.append("'");
        s
    }

    /// The remote command line for `cmd` with `args`, separated by spaces.
    pub fn command_line(cmd: &str, args: &[&str]) -> (r: String)
        ensures
            r@ == spaced(cmd@, args@.map_values(|a: &str| a@)),
    {
        let ghost av = args@.map_values(|a: &str| a@);
        let mut s = String::from_str(cmd);
        let mut i: usize = 0;
        assert(av.take(0) =~= Seq::<Seq<char>>::empty());
        while i < args.len()
            invariant
                av == args@.map_values(|a: &str| a@),
                i <= args@.len(),
                s@ == spaced(cmd@, av.take(i as int)),
            decreases args@.len() - i,
        {
            assert(av.take(i + 1).drop_last() =~= av.take(i as int));
            s.append(" ");
            s.append(args[i]);
            i += 1;
        }
        assert(av.take(args@.len() as int) =~= av);
        s
    }

    /// The remote command that lists `path`, one entry per line.
    pub fn list_dir_command(path: &str) -> (r: String)
        ensures
            r@ == "ls -1 "@ + path@,
    {
        concat("ls -1 ", path)
    }

    /// The remote command that prints the modification time of `path` in seconds.
    pub fn modification_time_command(path: &str) -> (r: String)
        ensures
            r@ == "stat -c %Y "@ + path@,
    {
        concat("stat -c %Y ", path)
    }

    /// Seconds read from `stat` output.
    pub fn parse_modification_time(out: &str) -> (r: Option<u64>)
        ensures
            r == parse_u64_spec(trim_seq(out@)),
    {
        parse_u64(trim(out).as_str())
    }
}

} // verus!
