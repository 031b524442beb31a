use vstd::prelude::*;

use crate::format::AlignmentMode;

verus! {

/// What one command-line argument asks for.
#[derive(Clone, Copy, Debug, PartialEq, Eq, Structural)]
pub enum ArgKind {
    /// An empty argument, which is ignored.
    Skip,
    /// `--help`, `-h` or `-?`.
    Help,
    /// `--align=plain|maxlen|multiline|justify`.
    Align(AlignmentMode),
    /// A lock file source.
    Source,
}

/// What a command line asks for, read up to the first request for help.
pub struct CliPlan {
    /// Help was asked for.
    pub help: bool,
    /// The alignment of the last `--align` flag, else `Justify`.
    pub mode: AlignmentMode,
    /// The sources, in order.
    pub sources: Vec<String>,
}

pub open spec fn arg_kind(a: Seq<char>) -> ArgKind {
    if a.len() == 0 {
        ArgKind::Skip
    } else if a == "--help"@ || a == "-?"@ || a == "-h"@ {
        ArgKind::Help
    } else if a == "--align=plain"@ {
        ArgKind::Align(AlignmentMode::Normal)
    } else if a == "--align=maxlen"@ {
        ArgKind::Align(AlignmentMode::Maxlen)
    } else if a == "--align=multiline"@ {
        ArgKind::Align(AlignmentMode::Multiline)
    } else if a == "--align=justify"@ {
        ArgKind::Align(AlignmentMode::Justify)
    } else {
        ArgKind::Source
    }
}

/// Help asked for, alignment, and sources of `args`: arguments after a
/// request for help are not read, and a later `--align` overrides an
/// earlier one.
pub open spec fn plan(args: Seq<Seq<char>>) -> (bool, AlignmentMode, Seq<Seq<char>>)
    decreases args.len(),
{
    if args.len() == 0 {
        (false, AlignmentMode::Justify, Seq::empty())
    } else {
        let p = plan(args.drop_last());
        if p.0 {
            p
        } else {
            match arg_kind(args.last()) {
                ArgKind::Skip => p,
                ArgKind::Help => (true, p.1, p.2),
                ArgKind::Align(m) => (false, m, p.2),
                ArgKind::Source => (false, p.1, p.2.push(args.last())),
            }
        }
    }
}

pub open spec fn strings_view(v: Seq<String>) -> Seq<Seq<char>> {
    v.map_values(|s: String| s@)
}

/// Where no help is asked for, the last `--align` flag decides the mode.
pub proof fn lemma_last_align_flag_wins(args: Seq<Seq<char>>, m: AlignmentMode)
    requires
        args.len() > 0,
        arg_kind(args.last()) == ArgKind::Align(m),
        !plan(args.drop_last()).0,
    ensures
        plan(args).1 == m,
        !plan(args).0,
{
}

fn str_equals(a: &str, b: &str) -> (r: bool)
    ensures
        r == (a@ == b@),
{
    let n = a.unicode_len();
    if n != b.unicode_len() {
        return false;
    }
    let mut i: usize = 0;
    while i < n
        invariant
            i <= n,
            n == a@.len(),
            n == b@.len(),
            forall|j: int| 0 <= j < i ==> a@[j] == b@[j],
        decreases n - i,
    {
        if a.get_char(i) != b.get_char(i) {
            return false;
        }
        i = i + 1;
    }
    assert(a@ =~= b@);
    true
}

/// Tells what one command-line argument asks for.
pub fn classify_arg(arg: &str) -> (r: ArgKind)
    ensures
        r == arg_kind(arg@),
{
    if arg.unicode_len() == 0 {
        ArgKind::Skip
    } else if str_equals(arg, "--help") || str_equals(arg, "-?") || str_equals(arg, "-h") {
        ArgKind::Help
    } else if str_equals(arg, "--align=plain") {
        ArgKind::Align(AlignmentMode::Normal)
    } else if str_equals(arg, "--align=maxlen") {
        ArgKind::Align(AlignmentMode::Maxlen)
    } else if str_equals(arg, "--align=multiline") {
        ArgKind::Align(AlignmentMode::Multiline)
    } else if str_equals(arg, "--align=justify") {
        ArgKind::Align(AlignmentMode::Justify)
    } else {
        ArgKind::Source
    }
}

/// Reads the command-line arguments (without the program name).
pub fn scan_args(args: &Vec<String>) -> (r: CliPlan)
    ensures
        (r.help, r.mode, strings_view(r.sources@)) == plan(strings_view(args@)),
{
    let ghost av = strings_view(args@);
    let mut help = false;
    let mut mode = AlignmentMode::Justify;
    let mut sources: Vec<String> = Vec::new();
    let mut i: usize = 0;
    while i < args.len()
        invariant
            i <= args.len(),
            av == strings_view(args@),
            (help, mode, strings_view(sources@)) == plan(av.take(i as int)),
        decreases args.len() - i,
    {
        proof {
            assert(av.take(i + 1).drop_last() =~= av.take(i as int));
            assert(av.take(i + 1).last() == args@[i as int]@);
        }
        if !help {
            match classify_arg(args[i].as_str()) {
                ArgKind::Skip => {},
                ArgKind::Help => {
                    help = true;
                },
                ArgKind::Align(m) => {
                    mode = m;
                },
                ArgKind::Source => {
                    let ghost before = sources@;
                    sources.push(args[i].clone());
                    proof {
                        assert(strings_view(sources@) =~= strings_view(before).push(args@[i as int]@));
                    }
                },
            }
        }
        i = i + 1;
    }
    proof {
        assert(av.take(i as int) =~= av);
    }
    CliPlan { help, mode, sources }
}

} // verus!
