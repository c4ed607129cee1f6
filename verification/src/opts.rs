//! Command-line options and the helper that names the running program.

use vstd::prelude::*;

use crate::strutil::{after_last_slash, lemma_after_no_slash, lemma_after_with_slash, str_eq,
    trim_trailing_slashes};

verus! {

/// The command-line options of the server. Parsing them from the actual
/// process arguments happens outside the library; these are the parsed
/// values every other component consumes.
#[derive(Debug)]
pub struct Opts {
    /// Path of the configuration file.
    pub config: String,
    /// Dev mode: serve `/webhook` and `/upload` without JWT protection.
    pub dev: bool,
    /// More detailed output.
    pub verbose: bool,
    /// addr:port to bind to without TLS.
    pub addr: String,
    /// addr:port to bind to when TLS is used.
    pub addrs: String,
    /// Only bind to TLS.
    pub secure: bool,
}

/// Trimming trailing slashes never lengthens a text.
pub proof fn lemma_trim_len(s: Seq<char>)
    ensures
        trim_trailing_slashes(s).len() <= s.len(),
    decreases s.len(),
{
    if s.len() > 0 && s.last() == '/' {
        lemma_trim_len(s.drop_last());
    }
}

/// The last slash-separated component of a path once trailing slashes and
/// trailing `.` components are dropped; empty when nothing remains.
pub open spec fn file_name_core(s: Seq<char>) -> Seq<char>
    decreases s.len()
    via file_name_core_decreases
{
    let t = trim_trailing_slashes(s);
    if t.len() == 0 {
        t
    } else if after_last_slash(t) == "."@ {
        file_name_core(t.drop_last())
    } else {
        after_last_slash(t)
    }
}

#[via_fn]
proof fn file_name_core_decreases(s: Seq<char>) {
    lemma_trim_len(s);
}

/// The file name a path ends in, as a path is read: trailing slashes and
/// trailing `.` components are dropped, then the last slash-separated
/// component is taken; none when that component is empty or `..`.
pub open spec fn file_name_of(s: Seq<char>) -> Option<Seq<char>> {
    let tail = file_name_core(s);
    if tail.len() == 0 || tail == ".."@ {
        None
    } else {
        Some(tail)
    }
}

/// What [`cmd`] returns: the file name that `path` ends in, or `default`
/// when it has none.
pub open spec fn cmd_spec(default: Seq<char>, path: Seq<char>) -> Seq<char> {
    match file_name_of(path) {
        Some(n) => n,
        None => default,
    }
}

/// The file name of `path`, or `default` when `path` ends in no usable
/// component (it is empty, all slashes and trailing `.` components, or
/// ends in `..`).
pub fn cmd<'a>(default: &'a str, path: &'a str) -> (r: &'a str)
    ensures
        r@ == cmd_spec(default@, path@),
{
    let n = path.unicode_len();
    let mut end = n;
    proof {
        assert(path@.take(n as int) =~= path@);
    }
    loop
        invariant
            end <= n,
            n == path@.len(),
            file_name_core(path@) == file_name_core(path@.take(end as int)),
        decreases end,
    {
        let ghost end0 = end;
        while end > 0 && path.get_char(end - 1) == '/'
            invariant
                end <= end0,
                end0 <= n,
                n == path@.len(),
                file_name_core(path@) == file_name_core(path@.take(end as int)),
            decreases end,
        {
            proof {
                assert(path@.take(end as int).last() == '/');
                assert(path@.take(end as int).drop_last() =~= path@.take(end as int - 1));
                assert(trim_trailing_slashes(path@.take(end as int)) == trim_trailing_slashes(
                    path@.take(end as int - 1),
                ));
            }
            end -= 1;
        }
        let ghost t = path@.take(end as int);
        proof {
            assert(trim_trailing_slashes(t) == t);
        }
        if end == 0 {
            proof {
                assert(file_name_core(t).len() == 0);
            }
            return default;
        }
        let mut start = end;
        while start > 0 && path.get_char(start - 1) != '/'
            invariant
                start <= end,
                end <= n,
                n == path@.len(),
                forall|k: int| start <= k < end ==> path@[k] != '/',
            decreases start,
        {
            start -= 1;
        }
        proof {
            assert(forall|k: int| start <= k < t.len() ==> t[k] != '/');
            if start == 0 {
                lemma_after_no_slash(t);
                assert(t.subrange(start as int, end as int) =~= t);
            } else {
                assert(t[start as int - 1] == '/');
                lemma_after_with_slash(t, start as int - 1);
            }
            assert(after_last_slash(t) =~= path@.subrange(start as int, end as int));
        }
        if end - start == 1 && path.get_char(start) == '.' {
            proof {
                reveal_strlit(".");
                assert(path@.subrange(start as int, end as int).len() == 1);
                assert(path@.subrange(start as int, end as int)[0] == path@[start as int]);
                assert(after_last_slash(t) =~= "."@);
                assert(file_name_core(t) == file_name_core(t.drop_last()));
                assert(t.drop_last() =~= path@.take(end as int - 1));
            }
            end -= 1;
            continue;
        }
        let tail = path.substring_char(start, end);
        proof {
            assert(after_last_slash(t).len() > 0);
            if after_last_slash(t) == "."@ {
                reveal_strlit(".");
                assert(path@.subrange(start as int, end as int) == "."@);
                assert(end as int - start as int == "."@.len());
                assert(path@.subrange(start as int, end as int)[0] == path@[start as int]);
                assert(path@[start as int] == '.');
                assert(false);
            }
            assert(file_name_core(t) == after_last_slash(t));
            assert(tail@ == file_name_core(path@));
        }
        if str_eq(tail, "..") {
            return default;
        }
        return tail;
    }
}

} // verus!
