//! The command line: what the arguments ask the program to do.
use vstd::prelude::*;
use crate::text::{chars_eq, chars_of, push_str};
use vstd::string::StringExecFns;

verus! {

/// The options a run takes.
#[derive(Debug)]
pub struct CliOptions {
    pub config_path: Option<String>,
    pub check_config: bool,
    pub smoke_output: bool,
    pub no_tray: bool,
}

/// What the arguments ask for.
#[derive(Debug)]
pub enum CliRequest {
    Help,
    Version,
    Run(CliOptions),
}

/// The content of the options.
pub struct OptionsView {
    pub config_path: Option<Seq<char>>,
    pub check_config: bool,
    pub smoke_output: bool,
    pub no_tray: bool,
}

pub enum RequestView {
    Help,
    Version,
    Run(OptionsView),
}

pub open spec fn blank_options() -> OptionsView {
    OptionsView { config_path: None, check_config: false, smoke_output: false, no_tray: false }
}

/// Reads the arguments from index `i` on, over the options read so far: help
/// and version answer at once, a flag sets its option, `--config` takes the
/// next argument, anything else is refused.
pub open spec fn read_args(args: Seq<Seq<char>>, i: int, o: OptionsView) -> Result<RequestView, Seq<char>>
    decreases args.len() - i,
{
    if i >= args.len() || i < 0 {
        Ok(RequestView::Run(o))
    } else {
        let a = args[i];
        if a == "--help"@ || a == "-h"@ {
            Ok(RequestView::Help)
        } else if a == "--version"@ || a == "-V"@ {
            Ok(RequestView::Version)
        } else if a == "--check-config"@ {
            read_args(args, i + 1, OptionsView { check_config: true, ..o })
        } else if a == "--smoke-output"@ {
            read_args(args, i + 1, OptionsView { smoke_output: true, ..o })
        } else if a == "--no-tray"@ {
            read_args(args, i + 1, OptionsView { no_tray: true, ..o })
        } else if a == "--config"@ || a == "-c"@ {
            if i + 1 < args.len() {
                read_args(args, i + 2, OptionsView { config_path: Some(args[i + 1]), ..o })
            } else {
                Err("--config requires a file path"@)
            }
        } else {
            Err("Unsupported argument: "@ + a)
        }
    }
}

pub open spec fn args_view(args: Seq<String>) -> Seq<Seq<char>> {
    args.map_values(|s: String| s@)
}

pub open spec fn request_view(r: CliRequest) -> RequestView {
    match r {
        CliRequest::Help => RequestView::Help,
        CliRequest::Version => RequestView::Version,
        CliRequest::Run(o) => RequestView::Run(OptionsView {
            config_path: match o.config_path {
                Some(p) => Some(p@),
                None => None,
            },
            check_config: o.check_config,
            smoke_output: o.smoke_output,
            no_tray: o.no_tray,
        }),
    }
}

pub open spec fn options_view(o: CliOptions) -> OptionsView {
    OptionsView {
        config_path: match o.config_path {
            Some(p) => Some(p@),
            None => None,
        },
        check_config: o.check_config,
        smoke_output: o.smoke_output,
        no_tray: o.no_tray,
    }
}

fn copy_text(s: &String) -> (c: String)
    ensures
        c@ == s@,
{
    crate::text::string_of(&chars_of(s.as_str()))
}

/// Reads the program's arguments (without the program name).
pub fn parse_args(args: &Vec<String>) -> (r: Result<CliRequest, String>)
    ensures
        match read_args(args_view(args@), 0, blank_options()) {
            Ok(v) => r matches Ok(q) && request_view(q) == v,
            Err(m) => r matches Err(e) && e@ == m,
        },
{
    let ghost all = args_view(args@);
    let mut o = CliOptions { config_path: None, check_config: false, smoke_output: false, no_tray: false };
    let mut i: usize = 0;
    while i < args.len()
        invariant
            i <= args@.len(),
            all == args_view(args@),
            read_args(all, i as int, options_view(o)) == read_args(all, 0, blank_options()),
        decreases args@.len() - i,
    {
        let a = chars_of(args[i].as_str());
        proof {
            assert(all[i as int] == args@[i as int]@);
        }
        if chars_eq(&a, "--help") || chars_eq(&a, "-h") {
            return Ok(CliRequest::Help);
        } else if chars_eq(&a, "--version") || chars_eq(&a, "-V") {
            return Ok(CliRequest::Version);
        } else if chars_eq(&a, "--check-config") {
            o.check_config = true;
            i = i + 1;
        } else if chars_eq(&a, "--smoke-output") {
            o.smoke_output = true;
            i = i + 1;
        } else if chars_eq(&a, "--no-tray") {
            o.no_tray = true;
            i = i + 1;
        } else if chars_eq(&a, "--config") || chars_eq(&a, "-c") {
            if i + 1 < args.len() {
                proof {
                    assert(all[i + 1] == args@[i + 1]@);
                }
                o.config_path = Some(copy_text(&args[i + 1]));
                i = i + 2;
            } else {
                return Err(String::from_str("--config requires a file path"));
            }
        } else {
            let mut m = String::from_str("Unsupported argument: ");
            push_str(&mut m, args[i].as_str());
            return Err(m);
        }
    }
    Ok(CliRequest::Run(o))
}

/// What `--check-config` reports for a startup plan: the notice of a refused
/// file as the error, otherwise the confirmation line.
pub fn check_config_outcome(notice: Option<String>) -> (r: Result<String, String>)
    ensures
        match notice {
            Some(n) => r == Err::<String, String>(n),
            None => r matches Ok(s) && s@ == "Configuration valid. Pointer runtime is not started."@,
        },
{
    match notice {
        Some(n) => Err(n),
        None => Ok(String::from_str("Configuration valid. Pointer runtime is not started.")),
    }
}


/// The flags that only switch an option on.
pub open spec fn plain_flag(a: Seq<char>) -> bool {
    a == "--check-config"@ || a == "--smoke-output"@ || a == "--no-tray"@
}

proof fn lemma_flags_revealed()
    ensures
        "--help"@ == seq!['-', '-', 'h', 'e', 'l', 'p'],
        "-h"@ == seq!['-', 'h'],
        "--version"@ == seq!['-', '-', 'v', 'e', 'r', 's', 'i', 'o', 'n'],
        "-V"@ == seq!['-', 'V'],
        "--check-config"@ == seq!['-', '-', 'c', 'h', 'e', 'c', 'k', '-', 'c', 'o', 'n', 'f', 'i', 'g'],
        "--smoke-output"@ == seq!['-', '-', 's', 'm', 'o', 'k', 'e', '-', 'o', 'u', 't', 'p', 'u', 't'],
        "--no-tray"@ == seq!['-', '-', 'n', 'o', '-', 't', 'r', 'a', 'y'],
        "--config"@ == seq!['-', '-', 'c', 'o', 'n', 'f', 'i', 'g'],
        "-c"@ == seq!['-', 'c'],
{
    reveal_strlit("--help");
    reveal_strlit("-h");
    reveal_strlit("--version");
    reveal_strlit("-V");
    reveal_strlit("--check-config");
    reveal_strlit("--smoke-output");
    reveal_strlit("--no-tray");
    reveal_strlit("--config");
    reveal_strlit("-c");
}

/// Reading from `i`, over plain flags up to the flag at `k`.
proof fn lemma_flags_then(args: Seq<Seq<char>>, i: int, k: int, o: OptionsView)
    requires
        0 <= i <= k < args.len(),
        forall|j: int| i <= j < k ==> plain_flag(#[trigger] args[j]),
    ensures
        (args[k] == "--help"@ || args[k] == "-h"@) ==> read_args(args, i, o) == Ok::<RequestView, Seq<char>>(RequestView::Help),
        (args[k] == "--version"@ || args[k] == "-V"@) ==> read_args(args, i, o) == Ok::<RequestView, Seq<char>>(RequestView::Version),
    decreases k - i,
{
    lemma_flags_revealed();
    if i < k {
        let a = args[i];
        assert(plain_flag(a));
        assert(a != "--help"@ && a != "-h"@ && a != "--version"@ && a != "-V"@) by {
            assert(a.len() >= 9 && a[2] != 'h' && a[2] != 'v');
        }
        if a == "--check-config"@ {
            lemma_flags_then(args, i + 1, k, OptionsView { check_config: true, ..o });
        } else if a == "--smoke-output"@ {
            lemma_flags_then(args, i + 1, k, OptionsView { smoke_output: true, ..o });
        } else {
            lemma_flags_then(args, i + 1, k, OptionsView { no_tray: true, ..o });
        }
    } else {
        assert("--help"@ != "--version"@ && "--help"@ != "-V"@ && "-h"@ != "--version"@ && "-h"@ != "-V"@) by {
            assert("--help"@[2] != "--version"@[2]);
            assert("-h"@[1] != "-V"@[1]);
        }
    }
}

/// A help flag answers help and a version flag answers version, whatever
/// plain option flags come before it and whatever follows; `--help` and
/// `-h` read alike, as do `--version` and `-V`.
pub proof fn law_help_and_version_flags(pre: Seq<Seq<char>>, rest: Seq<Seq<char>>, o: OptionsView)
    requires
        forall|j: int| 0 <= j < pre.len() ==> plain_flag(#[trigger] pre[j]),
    ensures
        read_args(pre + seq!["--help"@] + rest, 0, o) == Ok::<RequestView, Seq<char>>(RequestView::Help),
        read_args(pre + seq!["-h"@] + rest, 0, o) == Ok::<RequestView, Seq<char>>(RequestView::Help),
        read_args(pre + seq!["--version"@] + rest, 0, o) == Ok::<RequestView, Seq<char>>(RequestView::Version),
        read_args(pre + seq!["-V"@] + rest, 0, o) == Ok::<RequestView, Seq<char>>(RequestView::Version),
{
    let k = pre.len() as int;
    let flags = seq!["--help"@, "-h"@, "--version"@, "-V"@];
    assert forall|f: int| 0 <= f < 4 implies {
        let args = pre + seq![#[trigger] flags[f]] + rest;
        &&& (args[k] == "--help"@ || args[k] == "-h"@) ==> read_args(args, 0, o) == Ok::<RequestView, Seq<char>>(RequestView::Help)
        &&& (args[k] == "--version"@ || args[k] == "-V"@) ==> read_args(args, 0, o) == Ok::<RequestView, Seq<char>>(RequestView::Version)
        &&& args[k] == flags[f]
    } by {
        let args = pre + seq![flags[f]] + rest;
        assert forall|j: int| 0 <= j < k implies plain_flag(#[trigger] args[j]) by {
            assert(args[j] == pre[j]);
        }
        lemma_flags_then(args, 0, k, o);
    }
    assert(flags[0] == "--help"@ && flags[1] == "-h"@ && flags[2] == "--version"@ && flags[3] == "-V"@);
}


/// Each option flag switches on its own option and nothing else, and
/// `--config` (or `-c`) takes the next argument as the file path.
pub proof fn law_option_flags(o: OptionsView, path: Seq<char>)
    ensures
        read_args(seq!["--check-config"@], 0, o) == Ok::<RequestView, Seq<char>>(RequestView::Run(OptionsView { check_config: true, ..o })),
        read_args(seq!["--smoke-output"@], 0, o) == Ok::<RequestView, Seq<char>>(RequestView::Run(OptionsView { smoke_output: true, ..o })),
        read_args(seq!["--no-tray"@], 0, o) == Ok::<RequestView, Seq<char>>(RequestView::Run(OptionsView { no_tray: true, ..o })),
        read_args(seq!["--config"@, path], 0, o) == Ok::<RequestView, Seq<char>>(RequestView::Run(OptionsView { config_path: Some(path), ..o })),
        read_args(seq!["-c"@, path], 0, o) == Ok::<RequestView, Seq<char>>(RequestView::Run(OptionsView { config_path: Some(path), ..o })),
{
    lemma_flags_revealed();
    reveal_with_fuel(read_args, 3);
}


proof fn lemma_answers_need_flags(args: Seq<Seq<char>>, i: int, o: OptionsView)
    requires
        0 <= i,
    ensures
        read_args(args, i, o) == Ok::<RequestView, Seq<char>>(RequestView::Help) ==> exists|j: int|
            i <= j < args.len() && (#[trigger] args[j] == "--help"@ || args[j] == "-h"@),
        read_args(args, i, o) == Ok::<RequestView, Seq<char>>(RequestView::Version) ==> exists|j: int|
            i <= j < args.len() && (#[trigger] args[j] == "--version"@ || args[j] == "-V"@),
    decreases args.len() - i,
{
    if i < args.len() {
        let a = args[i];
        if a == "--check-config"@ {
            lemma_answers_need_flags(args, i + 1, OptionsView { check_config: true, ..o });
        } else if a == "--smoke-output"@ {
            lemma_answers_need_flags(args, i + 1, OptionsView { smoke_output: true, ..o });
        } else if a == "--no-tray"@ {
            lemma_answers_need_flags(args, i + 1, OptionsView { no_tray: true, ..o });
        } else if (a == "--config"@ || a == "-c"@) && i + 1 < args.len() {
            lemma_answers_need_flags(args, i + 2, OptionsView { config_path: Some(args[i + 1]), ..o });
        }
    }
}

/// The arguments answer help only when they hold `--help` or `-h`, and
/// version only when they hold `--version` or `-V`.
pub proof fn law_answers_need_their_flags(args: Seq<Seq<char>>, o: OptionsView)
    ensures
        read_args(args, 0, o) == Ok::<RequestView, Seq<char>>(RequestView::Help) ==> exists|j: int|
            0 <= j < args.len() && (#[trigger] args[j] == "--help"@ || args[j] == "-h"@),
        read_args(args, 0, o) == Ok::<RequestView, Seq<char>>(RequestView::Version) ==> exists|j: int|
            0 <= j < args.len() && (#[trigger] args[j] == "--version"@ || args[j] == "-V"@),
{
    lemma_answers_need_flags(args, 0, o);
}

} // verus!
