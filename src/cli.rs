//! The command line: which tasks to run, which of them to keep quiet, and
//! the raw and timestamp switches.

use vstd::prelude::*;
use vstd::string::*;

verus! {

/// What the command line asks for.
pub enum Invocation {
    /// Print the usage text.
    Help,
    /// List the tasks of the task file.
    List,
    /// Run `tasks` in order, with the output of `quiet` discarded.
    Run { tasks: Vec<String>, quiet: Vec<String>, raw: bool, timestamp: bool },
}

/// The texts of a list of strings.
pub open spec fn texts(v: Seq<String>) -> Seq<Seq<char>> {
    v.map_values(|s: String| s@)
}

pub open spec fn is_help_flag(a: Seq<char>) -> bool {
    a == "-h"@ || a == "--help"@
}

pub open spec fn is_quiet_flag(a: Seq<char>) -> bool {
    a == "-q"@ || a == "--quiet"@
}

pub open spec fn is_raw_flag(a: Seq<char>) -> bool {
    a == "-r"@ || a == "--raw"@
}

pub open spec fn is_timestamp_flag(a: Seq<char>) -> bool {
    a == "-t"@ || a == "--timestamp"@
}

/// The arguments of `args` that are not switches, in order.
pub open spec fn names(args: Seq<Seq<char>>) -> Seq<Seq<char>>
    decreases args.len(),
{
    if args.len() == 0 {
        Seq::empty()
    } else if is_raw_flag(args.last()) || is_timestamp_flag(args.last()) {
        names(args.drop_last())
    } else {
        names(args.drop_last()).push(args.last())
    }
}

/// The index of the first quiet switch in `args`, or its length.
pub open spec fn quiet_start(args: Seq<Seq<char>>) -> int
    decreases args.len(),
{
    if args.len() == 0 {
        0
    } else if is_quiet_flag(args[0]) {
        0
    } else {
        1 + quiet_start(args.subrange(1, args.len() as int))
    }
}

/// The tasks to run: the names before the first quiet switch.
pub open spec fn run_names(args: Seq<Seq<char>>) -> Seq<Seq<char>> {
    names(args.take(quiet_start(args)))
}

/// The quiet tasks: the names after the first quiet switch.
pub open spec fn quiet_names(args: Seq<Seq<char>>) -> Seq<Seq<char>> {
    if quiet_start(args) < args.len() {
        names(args.subrange(quiet_start(args) + 1, args.len() as int))
    } else {
        Seq::empty()
    }
}

pub proof fn lemma_quiet_start(args: Seq<Seq<char>>)
    ensures
        0 <= quiet_start(args) <= args.len(),
        quiet_start(args) < args.len() ==> is_quiet_flag(args[quiet_start(args)]),
        forall|k: int| 0 <= k < quiet_start(args) ==> !is_quiet_flag(#[trigger] args[k]),
    decreases args.len(),
{
    if args.len() > 0 && !is_quiet_flag(args[0]) {
        let rest = args.subrange(1, args.len() as int);
        lemma_quiet_start(rest);
        assert forall|k: int| 0 <= k < quiet_start(args) implies !is_quiet_flag(
            #[trigger] args[k],
        ) by {
            if k > 0 {
                assert(args[k] == rest[k - 1]);
            }
        }
    }
}

/// A sequence with a first index where `is_quiet_flag` holds and none before
/// it has its quiet switch there.
pub proof fn lemma_quiet_start_at(args: Seq<Seq<char>>, q: int)
    requires
        0 <= q <= args.len(),
        q < args.len() ==> is_quiet_flag(args[q]),
        forall|k: int| 0 <= k < q ==> !is_quiet_flag(#[trigger] args[k]),
    ensures
        quiet_start(args) == q,
{
    lemma_quiet_start(args);
    if quiet_start(args) < q {
        assert(is_quiet_flag(args[quiet_start(args)]));
    } else if q < quiet_start(args) {
        assert(!is_quiet_flag(args[q]));
    }
}

proof fn lemma_switches_distinct(a: Seq<char>)
    ensures
        !(is_raw_flag(a) && is_quiet_flag(a)),
        !(is_raw_flag(a) && is_timestamp_flag(a)),
        !(is_timestamp_flag(a) && is_quiet_flag(a)),
{
    reveal_strlit("-q");
    reveal_strlit("--quiet");
    reveal_strlit("-r");
    reveal_strlit("--raw");
    reveal_strlit("-t");
    reveal_strlit("--timestamp");
    if is_raw_flag(a) {
        assert(a.len() == 2 || a.len() == 5);
        assert(a.len() == 2 ==> a[1] == 'r');
    }
    if is_quiet_flag(a) {
        assert(a.len() == 2 || a.len() == 7);
        assert(a.len() == 2 ==> a[1] == 'q');
    }
    if is_timestamp_flag(a) {
        assert(a.len() == 2 || a.len() == 11);
        assert(a.len() == 2 ==> a[1] == 't');
    }
}

fn text_is(a: &String, short: &String, long: &String) -> (r: bool)
    ensures
        r == (a@ == short@ || a@ == long@),
{
    *a == *short || *a == *long
}

/// What the command line `args` (without the program name) asks for: help
/// if the first argument is `-h` or `--help`, the listing if there are no
/// arguments; else the tasks to run up to the first `-q` or `--quiet`, the
/// quiet tasks after it, and raw and timestamp mode if `-r`/`--raw` or
/// `-t`/`--timestamp` stand anywhere.
pub fn parse_args(args: &Vec<String>) -> (r: Invocation)
    ensures
        args@.len() == 0 ==> r is List,
        args@.len() > 0 && is_help_flag(args@[0]@) ==> r is Help,
        args@.len() > 0 && !is_help_flag(args@[0]@) ==> match r {
            Invocation::Run { tasks, quiet, raw, timestamp } => texts(tasks@) == run_names(
                texts(args@),
            ) && texts(quiet@) == quiet_names(texts(args@)) && raw == (exists|i: int|
                0 <= i < args@.len() && is_raw_flag(#[trigger] texts(args@)[i])) && timestamp == (
            exists|i: int| 0 <= i < args@.len() && is_timestamp_flag(#[trigger] texts(args@)[i])),
            _ => false,
        },
{
    if args.len() == 0 {
        return Invocation::List;
    }
    let h_short = String::from_str("-h");
    let h_long = String::from_str("--help");
    if text_is(&args[0], &h_short, &h_long) {
        return Invocation::Help;
    }
    let q_short = String::from_str("-q");
    let q_long = String::from_str("--quiet");
    let r_short = String::from_str("-r");
    let r_long = String::from_str("--raw");
    let t_short = String::from_str("-t");
    let t_long = String::from_str("--timestamp");
    let ghost a = texts(args@);
    let mut tasks: Vec<String> = Vec::new();
    let mut quiet: Vec<String> = Vec::new();
    let mut raw = false;
    let mut timestamp = false;
    let mut in_quiet = false;
    let mut q: usize = 0;
    let mut i: usize = 0;
    while i < args.len()
        invariant
            a == texts(args@),
            a.len() == args@.len(),
            q_short@ == "-q"@,
            q_long@ == "--quiet"@,
            r_short@ == "-r"@,
            r_long@ == "--raw"@,
            t_short@ == "-t"@,
            t_long@ == "--timestamp"@,
            i <= args@.len(),
            !in_quiet ==> (forall|k: int| 0 <= k < i ==> !is_quiet_flag(#[trigger] a[k]))
                && texts(tasks@) == names(a.take(i as int)) && quiet@.len() == 0,
            in_quiet ==> q < i && is_quiet_flag(a[q as int]) && (forall|k: int|
                0 <= k < q ==> !is_quiet_flag(#[trigger] a[k])) && texts(tasks@) == names(
                a.take(q as int),
            ) && texts(quiet@) == names(a.subrange(q + 1, i as int)),
            raw == (exists|k: int| 0 <= k < i && is_raw_flag(#[trigger] a[k])),
            timestamp == (exists|k: int| 0 <= k < i && is_timestamp_flag(#[trigger] a[k])),
        decreases args@.len() - i,
    {
        let arg = &args[i];
        assert(a[i as int] == arg@);
        proof {
            lemma_switches_distinct(arg@);
            assert(a.take(i + 1).drop_last() =~= a.take(i as int));
            if in_quiet {
                assert(a.subrange(q + 1, i + 1).drop_last() =~= a.subrange(q + 1, i as int));
            }
        }
        if text_is(arg, &r_short, &r_long) {
            raw = true;
        } else if text_is(arg, &t_short, &t_long) {
            timestamp = true;
        } else if !in_quiet && text_is(arg, &q_short, &q_long) {
            in_quiet = true;
            q = i;
            assert(texts(quiet@) =~= names(a.subrange(q + 1, i + 1)));
        } else if in_quiet {
            quiet.push(arg.clone());
            assert(texts(quiet@) =~= names(a.subrange(q + 1, i as int)).push(arg@));
        } else {
            tasks.push(arg.clone());
            assert(texts(tasks@) =~= names(a.take(i as int)).push(arg@));
        }
        i = i + 1;
    }
    proof {
        assert(a.take(i as int) =~= a);
        if in_quiet {
            lemma_quiet_start_at(a, q as int);
        } else {
            lemma_quiet_start_at(a, a.len() as int);
        }
    }
    Invocation::Run { tasks, quiet, raw, timestamp }
}

} // verus!
