//! The command line: switches, and the logging levels that it asks for.

use vstd::prelude::*;
use crate::text::{owned, str_eq, views};

verus! {

/// How much the log shows.
#[derive(PartialEq, Eq, Structural, Clone, Copy, Debug)]
pub enum LogLevel {
    Error,
    Warn,
    Info,
    Debug,
    Trace,
    Off,
}

/// The level that a name on the command line asks for; an unknown name means `Error`.
pub open spec fn log_level_of(name: Seq<char>) -> LogLevel {
    if name == "error"@ {
        LogLevel::Error
    } else if name == "warn"@ {
        LogLevel::Warn
    } else if name == "info"@ {
        LogLevel::Info
    } else if name == "debug"@ {
        LogLevel::Debug
    } else if name == "trace"@ {
        LogLevel::Trace
    } else if name == "off"@ {
        LogLevel::Off
    } else {
        LogLevel::Error
    }
}

/// The level that `name` asks for (`error`, `warn`, `info`, `debug`, `trace`, `off`;
/// anything else means `Error`).
pub fn log_level(name: &str) -> (r: LogLevel)
    ensures
        r == log_level_of(name@),
{
    if str_eq(name, "error") {
        LogLevel::Error
    } else if str_eq(name, "warn") {
        LogLevel::Warn
    } else if str_eq(name, "info") {
        LogLevel::Info
    } else if str_eq(name, "debug") {
        LogLevel::Debug
    } else if str_eq(name, "trace") {
        LogLevel::Trace
    } else if str_eq(name, "off") {
        LogLevel::Off
    } else {
        LogLevel::Error
    }
}

/// What the command line asks for, as a value.
pub enum ArgsSpec {
    Help(Seq<Seq<char>>),
    Version(Seq<Seq<char>>),
    NoMode(Seq<Seq<char>>),
    Proceed { force_yes: bool, dry_run: bool, mode: Seq<char>, log_levels: Seq<Seq<char>> },
}

/// The argument after position `i`, or the empty text when there is none.
pub open spec fn arg_value(args: Seq<Seq<char>>, i: int) -> Seq<char> {
    if i + 1 < args.len() {
        args[i + 1]
    } else {
        Seq::empty()
    }
}

/// Going through the arguments from position `i` on (the program's path included), each
/// taken as a switch: `-h`/`--help` and `-v`/`--version` stop there; `-f`/`--force-yes`
/// and `-d`/`--dry-run` set a flag; `-m`/`--mode` and `-l`/`--loglevel` take the next
/// argument as the mode or as a logging level to set (every level is kept, in order);
/// anything else is passed over, except that a lone program path asks for help. At the
/// end, an empty mode is refused.
pub open spec fn args_from(
    args: Seq<Seq<char>>,
    i: int,
    force_yes: bool,
    dry_run: bool,
    mode: Seq<char>,
    logs: Seq<Seq<char>>,
) -> ArgsSpec
    decreases args.len() - i,
{
    if i < 0 || i >= args.len() {
        if mode.len() == 0 {
            ArgsSpec::NoMode(logs)
        } else {
            ArgsSpec::Proceed { force_yes, dry_run, mode, log_levels: logs }
        }
    } else {
        let f = args[i];
        let val = arg_value(args, i);
        if f == "-h"@ || f == "--help"@ {
            ArgsSpec::Help(logs)
        } else if f == "-v"@ || f == "--version"@ {
            ArgsSpec::Version(logs)
        } else if f == "-f"@ || f == "--force-yes"@ {
            args_from(args, i + 1, true, dry_run, mode, logs)
        } else if f == "-d"@ || f == "--dry-run"@ {
            args_from(args, i + 1, force_yes, true, mode, logs)
        } else if f == "-m"@ || f == "--mode"@ {
            args_from(args, i + 1, force_yes, dry_run, val, logs)
        } else if f == "-l"@ || f == "--loglevel"@ {
            args_from(args, i + 1, force_yes, dry_run, mode, logs.push(val))
        } else if i == 0 && args.len() == 1 {
            ArgsSpec::Help(logs)
        } else {
            args_from(args, i + 1, force_yes, dry_run, mode, logs)
        }
    }
}

/// What the command line asks for.
#[derive(Debug)]
pub enum ArgAction {
    /// Show the help and stop.
    Help,
    /// Show the version and stop.
    Version,
    /// No mode was given: an error.
    NoMode,
    /// Go on with these switches.
    Proceed { force_yes: bool, dry_run: bool, mode: String },
}

/// What the command line asks for, and the logging levels to set on the way, in order.
#[derive(Debug)]
pub struct ParsedArgs {
    pub log_levels: Vec<String>,
    pub action: ArgAction,
}

pub open spec fn parsed_view(p: ParsedArgs) -> ArgsSpec {
    let logs = views(p.log_levels@);
    match p.action {
        ArgAction::Help => ArgsSpec::Help(logs),
        ArgAction::Version => ArgsSpec::Version(logs),
        ArgAction::NoMode => ArgsSpec::NoMode(logs),
        ArgAction::Proceed { force_yes, dry_run, mode } => ArgsSpec::Proceed {
            force_yes,
            dry_run,
            mode: mode@,
            log_levels: logs,
        },
    }
}

fn is_either(s: &str, a: &str, b: &str) -> (r: bool)
    ensures
        r == (s@ == a@ || s@ == b@),
{
    str_eq(s, a) || str_eq(s, b)
}

/// Reads the command line `args`, whose first element is the program's path (see
/// `args_from`).
pub fn parse_args(args: &Vec<String>) -> (r: ParsedArgs)
    requires
        args@.len() >= 1,
    ensures
        parsed_view(r) == args_from(views(args@), 0, false, false, Seq::empty(), Seq::empty()),
{
    let ghost a = views(args@);
    let n = args.len();
    let mut force_yes = false;
    let mut dry_run = false;
    let mut mode = owned("");
    let mut logs: Vec<String> = Vec::new();
    let mut i: usize = 0;
    proof {
        reveal_strlit("");
        assert(""@ =~= Seq::<char>::empty());
        assert(views(logs@) =~= Seq::<Seq<char>>::empty());
    }
    while i < n
        invariant
            n == args@.len(),
            n >= 1,
            a == views(args@),
            i <= n,
            args_from(a, 0, false, false, Seq::empty(), Seq::empty())
                == args_from(a, i as int, force_yes, dry_run, mode@, views(logs@)),
        decreases n - i,
    {
        let flag = args[i].as_str();
        assert(a[i as int] == flag@);
        let val = if i + 1 < n { owned(args[i + 1].as_str()) } else { owned("") };
        proof {
            reveal_strlit("");
            assert(""@ =~= Seq::<char>::empty());
            if i + 1 < n {
                assert(a[i + 1] == args@[i + 1]@);
            }
        }
        assert(val@ == arg_value(a, i as int));
        if is_either(flag, "-h", "--help") {
            return ParsedArgs { log_levels: logs, action: ArgAction::Help };
        } else if is_either(flag, "-v", "--version") {
            return ParsedArgs { log_levels: logs, action: ArgAction::Version };
        } else if is_either(flag, "-f", "--force-yes") {
            force_yes = true;
        } else if is_either(flag, "-d", "--dry-run") {
            dry_run = true;
        } else if is_either(flag, "-m", "--mode") {
            mode = val;
        } else if is_either(flag, "-l", "--loglevel") {
            let ghost before = views(logs@);
            let ghost vv = val@;
            logs.push(val);
            assert(views(logs@) =~= before.push(vv));
        } else if i == 0 && n == 1 {
            return ParsedArgs { log_levels: logs, action: ArgAction::Help };
        }
        i = i + 1;
    }
    if mode.as_str().is_empty() {
        ParsedArgs { log_levels: logs, action: ArgAction::NoMode }
    } else {
        ParsedArgs { log_levels: logs, action: ArgAction::Proceed { force_yes, dry_run, mode } }
    }
}

/// Whether `s` is one of the switches that the command line recognises.
pub open spec fn is_switch(s: Seq<char>) -> bool {
    ||| s == "-h"@ || s == "--help"@
    ||| s == "-v"@ || s == "--version"@
    ||| s == "-f"@ || s == "--force-yes"@
    ||| s == "-d"@ || s == "--dry-run"@
    ||| s == "-m"@ || s == "--mode"@
    ||| s == "-l"@ || s == "--loglevel"@
}

/// Whether `s` is the mode switch.
pub open spec fn is_mode_switch(s: Seq<char>) -> bool {
    s == "-m"@ || s == "--mode"@
}

/// The two readings ask for the same thing, except that where they go on, one has the
/// mode `v1` and the other the mode `v2`.
pub open spec fn same_reading_but_mode(r1: ArgsSpec, r2: ArgsSpec, v1: Seq<char>, v2: Seq<char>) -> bool {
    match (r1, r2) {
        (
            ArgsSpec::Proceed { force_yes: f1, dry_run: d1, mode: m1, log_levels: l1 },
            ArgsSpec::Proceed { force_yes: f2, dry_run: d2, mode: m2, log_levels: l2 },
        ) => f1 == f2 && d1 == d2 && l1 == l2 && m1 == v1 && m2 == v2,
        (ArgsSpec::Proceed { .. }, _) => false,
        (_, ArgsSpec::Proceed { .. }) => false,
        _ => r1 == r2,
    }
}

/// From the position `p` of the last mode value on, with modes `m1` and `m2` that are
/// not empty and command lines that agree but at `p`, where neither holds a switch.
proof fn lemma_after_mode_value(
    a1: Seq<Seq<char>>,
    a2: Seq<Seq<char>>,
    p: int,
    i: int,
    force_yes: bool,
    dry_run: bool,
    m1: Seq<char>,
    m2: Seq<char>,
    logs: Seq<Seq<char>>,
)
    requires
        a1.len() == a2.len(),
        1 <= p <= i,
        forall|j: int| 0 <= j < a1.len() && j != p ==> a1[j] == a2[j],
        !is_switch(a1[p]),
        !is_switch(a2[p]),
        forall|j: int| p < j < a1.len() ==> !is_mode_switch(#[trigger] a1[j]),
        m1.len() > 0,
        m2.len() > 0,
    ensures
        same_reading_but_mode(args_from(a1, i, force_yes, dry_run, m1, logs), args_from(a2, i, force_yes, dry_run, m2, logs), m1, m2),
    decreases a1.len() - i,
{
    if i < a1.len() {
        let f = a1[i];
        assert(arg_value(a1, i) == arg_value(a2, i));
        if i != p {
            assert(a2[i] == f);
        }
        if f == "-f"@ || f == "--force-yes"@ {
            lemma_after_mode_value(a1, a2, p, i + 1, true, dry_run, m1, m2, logs);
        } else if f == "-d"@ || f == "--dry-run"@ {
            lemma_after_mode_value(a1, a2, p, i + 1, force_yes, true, m1, m2, logs);
        } else if f == "-l"@ || f == "--loglevel"@ {
            lemma_after_mode_value(a1, a2, p, i + 1, force_yes, dry_run, m1, m2, logs.push(arg_value(a1, i)));
        } else {
            lemma_after_mode_value(a1, a2, p, i + 1, force_yes, dry_run, m1, m2, logs);
        }
    }
}

/// The mode switch is none of the switches that the command line tests before it.
proof fn lemma_mode_switch_is_no_other(f: Seq<char>)
    requires
        is_mode_switch(f),
    ensures
        !(f == "-h"@ || f == "--help"@),
        !(f == "-v"@ || f == "--version"@),
        !(f == "-f"@ || f == "--force-yes"@),
        !(f == "-d"@ || f == "--dry-run"@),
{
    reveal_strlit("-h");
    reveal_strlit("--help");
    reveal_strlit("-v");
    reveal_strlit("--version");
    reveal_strlit("-f");
    reveal_strlit("--force-yes");
    reveal_strlit("-d");
    reveal_strlit("--dry-run");
    reveal_strlit("-m");
    reveal_strlit("--mode");
    assert("-h"@[1] == 'h' && "-v"@[1] == 'v' && "-f"@[1] == 'f' && "-d"@[1] == 'd');
    assert("--help"@[2] == 'h' && "--dry-run"@[2] == 'd');
    if f == "-m"@ {
        assert(f.len() == 2 && f[1] == 'm');
    } else {
        assert(f.len() == 6 && f[2] == 'm');
    }
}

/// Up to the mode switch at `p - 1`, both command lines are read alike.
proof fn lemma_before_mode_value(
    a1: Seq<Seq<char>>,
    a2: Seq<Seq<char>>,
    p: int,
    i: int,
    force_yes: bool,
    dry_run: bool,
    mode: Seq<char>,
    logs: Seq<Seq<char>>,
)
    requires
        a1.len() == a2.len(),
        0 <= i <= p - 1,
        p < a1.len(),
        forall|j: int| 0 <= j < a1.len() && j != p ==> a1[j] == a2[j],
        is_mode_switch(a1[p - 1]),
        !is_switch(a1[p]),
        !is_switch(a2[p]),
        a1[p].len() > 0,
        a2[p].len() > 0,
        forall|j: int| p < j < a1.len() ==> !is_mode_switch(#[trigger] a1[j]),
    ensures
        same_reading_but_mode(
            args_from(a1, i, force_yes, dry_run, mode, logs),
            args_from(a2, i, force_yes, dry_run, mode, logs),
            a1[p],
            a2[p],
        ),
    decreases p - i,
{
    let f = a1[i];
    assert(a2[i] == f);
    if i == p - 1 {
        lemma_mode_switch_is_no_other(f);
        assert(arg_value(a1, i) == a1[p]);
        assert(arg_value(a2, i) == a2[p]);
        lemma_after_mode_value(a1, a2, p, p, force_yes, dry_run, a1[p], a2[p], logs);
    } else {
        assert(arg_value(a1, i) == arg_value(a2, i));
        if f == "-f"@ || f == "--force-yes"@ {
            lemma_before_mode_value(a1, a2, p, i + 1, true, dry_run, mode, logs);
        } else if f == "-d"@ || f == "--dry-run"@ {
            lemma_before_mode_value(a1, a2, p, i + 1, force_yes, true, mode, logs);
        } else if f == "-m"@ || f == "--mode"@ {
            lemma_before_mode_value(a1, a2, p, i + 1, force_yes, dry_run, arg_value(a1, i), logs);
        } else if f == "-l"@ || f == "--loglevel"@ {
            lemma_before_mode_value(a1, a2, p, i + 1, force_yes, dry_run, mode, logs.push(arg_value(a1, i)));
        } else {
            lemma_before_mode_value(a1, a2, p, i + 1, force_yes, dry_run, mode, logs);
        }
    }
}

/// The mode value selects nothing: two command lines that differ only in the value after
/// their last mode switch, both values non-empty and neither a switch, are read alike,
/// except for the mode itself (see `same_reading_but_mode`).
pub proof fn lemma_mode_value_selects_nothing(a1: Seq<Seq<char>>, a2: Seq<Seq<char>>, p: int)
    requires
        a1.len() == a2.len(),
        1 <= p < a1.len(),
        forall|j: int| 0 <= j < a1.len() && j != p ==> a1[j] == a2[j],
        is_mode_switch(a1[p - 1]),
        a1[p].len() > 0,
        a2[p].len() > 0,
        !is_switch(a1[p]),
        !is_switch(a2[p]),
        forall|j: int| p < j < a1.len() ==> !is_mode_switch(#[trigger] a1[j]),
    ensures
        same_reading_but_mode(
            args_from(a1, 0, false, false, Seq::empty(), Seq::empty()),
            args_from(a2, 0, false, false, Seq::empty(), Seq::empty()),
            a1[p],
            a2[p],
        ),
{
    lemma_before_mode_value(a1, a2, p, 0, false, false, Seq::empty(), Seq::empty());
}

/// Whether `s` is the dry-run switch.
pub open spec fn is_dry_run_switch(s: Seq<char>) -> bool {
    s == "-d"@ || s == "--dry-run"@
}

/// Whether `s` is the force-yes switch.
pub open spec fn is_force_switch(s: Seq<char>) -> bool {
    s == "-f"@ || s == "--force-yes"@
}

/// The switches are told apart by their length and their second or third character.
proof fn lemma_switch_letters()
    ensures
        "-h"@.len() == 2 && "-h"@[1] == 'h',
        "-v"@.len() == 2 && "-v"@[1] == 'v',
        "-f"@.len() == 2 && "-f"@[1] == 'f',
        "-d"@.len() == 2 && "-d"@[1] == 'd',
        "-m"@.len() == 2 && "-m"@[1] == 'm',
        "-l"@.len() == 2 && "-l"@[1] == 'l',
        "--help"@.len() == 6 && "--help"@[2] == 'h',
        "--version"@.len() == 9 && "--version"@[2] == 'v',
        "--force-yes"@.len() == 11,
        "--dry-run"@.len() == 9 && "--dry-run"@[2] == 'd',
        "--mode"@.len() == 6 && "--mode"@[2] == 'm',
        "--loglevel"@.len() == 10,
{
    reveal_strlit("-h");
    reveal_strlit("-v");
    reveal_strlit("-f");
    reveal_strlit("-d");
    reveal_strlit("-m");
    reveal_strlit("-l");
    reveal_strlit("--help");
    reveal_strlit("--version");
    reveal_strlit("--force-yes");
    reveal_strlit("--dry-run");
    reveal_strlit("--mode");
    reveal_strlit("--loglevel");
}

/// From position `i` on, with the flags and mode so far: a reading that goes on has the
/// dry-run flag exactly when it was set or a dry-run switch comes later, the force flag
/// likewise, and the mode of the last mode switch (the mode so far when there is none).
proof fn lemma_switches_from(args: Seq<Seq<char>>, i: int, force_yes: bool, dry_run: bool, mode: Seq<char>, logs: Seq<Seq<char>>)
    requires
        0 <= i <= args.len(),
    ensures
        args_from(args, i, force_yes, dry_run, mode, logs) matches ArgsSpec::Proceed { dry_run: d, force_yes: f, mode: md, .. } ==> {
            &&& md.len() > 0
            &&& d == (dry_run || exists|j: int| i <= j < args.len() && #[trigger] is_dry_run_switch(args[j]))
            &&& f == (force_yes || exists|j: int| i <= j < args.len() && #[trigger] is_force_switch(args[j]))
            &&& (forall|j: int| i <= j < args.len() ==> !#[trigger] is_mode_switch(args[j])) ==> md == mode
            &&& (exists|j: int| i <= j < args.len() && #[trigger] is_mode_switch(args[j])) ==> exists|j: int|
                i <= j < args.len() && #[trigger] is_mode_switch(args[j]) && md == arg_value(args, j) && forall|k: int|
                    j < k < args.len() ==> !#[trigger] is_mode_switch(args[k])
        },
    decreases args.len() - i,
{
    lemma_switch_letters();
    if i < args.len() {
        let f = args[i];
        let val = arg_value(args, i);
        let (nf, nd, nm, nl) = if f == "-h"@ || f == "--help"@ || f == "-v"@ || f == "--version"@ {
            (force_yes, dry_run, mode, logs)
        } else if is_force_switch(f) {
            (true, dry_run, mode, logs)
        } else if is_dry_run_switch(f) {
            (force_yes, true, mode, logs)
        } else if is_mode_switch(f) {
            (force_yes, dry_run, val, logs)
        } else if f == "-l"@ || f == "--loglevel"@ {
            (force_yes, dry_run, mode, logs.push(val))
        } else {
            (force_yes, dry_run, mode, logs)
        };
        lemma_switches_from(args, i + 1, nf, nd, nm, nl);
        let r = args_from(args, i, force_yes, dry_run, mode, logs);
        if r is Proceed {
            assert(args_from(args, i + 1, nf, nd, nm, nl) == r);
            let d = r->dry_run;
            let fy = r->force_yes;
            let md = r->mode;
            if d {
                if !dry_run && !is_dry_run_switch(f) {
                    let j = choose|j: int| i + 1 <= j < args.len() && #[trigger] is_dry_run_switch(args[j]);
                    assert(i <= j < args.len() && is_dry_run_switch(args[j]));
                }
            } else {
                assert(!is_dry_run_switch(args[i]));
            }
            if fy {
                if !force_yes && !is_force_switch(f) {
                    let j = choose|j: int| i + 1 <= j < args.len() && #[trigger] is_force_switch(args[j]);
                    assert(i <= j < args.len() && is_force_switch(args[j]));
                }
            } else {
                assert(!is_force_switch(args[i]));
            }
            if is_mode_switch(f) {
                if exists|j: int| i + 1 <= j < args.len() && #[trigger] is_mode_switch(args[j]) {
                    let w = choose|j: int|
                        i + 1 <= j < args.len() && #[trigger] is_mode_switch(args[j]) && md == arg_value(args, j)
                            && forall|k: int| j < k < args.len() ==> !#[trigger] is_mode_switch(args[k]);
                    assert(i <= w < args.len() && is_mode_switch(args[w]));
                } else {
                    assert(forall|k: int| i < k < args.len() ==> !#[trigger] is_mode_switch(args[k]));
                    assert(md == arg_value(args, i));
                }
            } else {
                if exists|j: int| i <= j < args.len() && #[trigger] is_mode_switch(args[j]) {
                    let j0 = choose|j: int| i <= j < args.len() && #[trigger] is_mode_switch(args[j]);
                    assert(j0 != i);
                    assert(i + 1 <= j0 < args.len() && is_mode_switch(args[j0]));
                }
            }
        }
    }
}

/// What the switches select: on a command line that goes on (no help or version switch,
/// and a mode given), the run is a dry run exactly when some argument is `-d` or
/// `--dry-run`, it answers yes to every prompt exactly when some argument is `-f` or
/// `--force-yes`, and its mode is the argument after the last `-m` or `--mode`.
pub proof fn lemma_switches_select(args: Seq<Seq<char>>)
    ensures
        args_from(args, 0, false, false, Seq::empty(), Seq::empty()) matches ArgsSpec::Proceed { dry_run, force_yes, mode, .. } ==> {
            &&& dry_run == exists|j: int| 0 <= j < args.len() && #[trigger] is_dry_run_switch(args[j])
            &&& force_yes == exists|j: int| 0 <= j < args.len() && #[trigger] is_force_switch(args[j])
            &&& exists|j: int|
                0 <= j < args.len() && #[trigger] is_mode_switch(args[j]) && mode == arg_value(args, j) && forall|k: int|
                    j < k < args.len() ==> !#[trigger] is_mode_switch(args[k])
        },
{
    lemma_switches_from(args, 0, false, false, Seq::empty(), Seq::empty());
}

} // verus!
