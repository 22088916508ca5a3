//! The decision logic of the command-line front end: which mode the given
//! argument vector selects. The front end itself (argument collection,
//! printing, running scripts) is an external collaborator that performs the
//! chosen action.

use vstd::prelude::*;
use vstd::string::*;

verus! {

/// The action the command line selects.
pub enum CliAction {
    /// No script argument: read lines interactively.
    Repl,
    /// Print version information.
    Version,
    /// Print usage help.
    Help,
    /// Run the named script file.
    RunFile(String),
    /// Evaluate the given script text.
    Eval(String),
    /// Lint the named script file.
    Lint(String),
}

/// The mathematical shape of a [`CliAction`].
pub enum CliActionView {
    Repl,
    Version,
    Help,
    RunFile(Seq<char>),
    Eval(Seq<char>),
    Lint(Seq<char>),
}

impl View for CliAction {
    type V = CliActionView;

    open spec fn view(&self) -> CliActionView {
        match self {
            CliAction::Repl => CliActionView::Repl,
            CliAction::Version => CliActionView::Version,
            CliAction::Help => CliActionView::Help,
            CliAction::RunFile(s) => CliActionView::RunFile(s@),
            CliAction::Eval(s) => CliActionView::Eval(s@),
            CliAction::Lint(s) => CliActionView::Lint(s@),
        }
    }
}

/// The mode selected by an argument vector whose first entry is the program
/// name: no argument reads interactively; `--version` and `--help`/`-h`
/// print; `-e`/`--eval` evaluates the following text; `-l`/`--lint` lints the
/// following file; anything else runs the first argument as a script file.
pub open spec fn spec_plan(args: Seq<Seq<char>>) -> CliActionView {
    if args.len() < 2 {
        CliActionView::Repl
    } else if args[1] == "--version"@ {
        CliActionView::Version
    } else if args[1] == "--help"@ || args[1] == "-h"@ {
        CliActionView::Help
    } else if args.len() == 2 {
        CliActionView::RunFile(args[1])
    } else if args[1] == "-e"@ || args[1] == "--eval"@ {
        CliActionView::Eval(args[2])
    } else if args[1] == "-l"@ || args[1] == "--lint"@ {
        CliActionView::Lint(args[2])
    } else {
        CliActionView::RunFile(args[1])
    }
}

fn matches_literal(s: &String, lit: &str) -> (r: bool)
    ensures
        r == (s@ == lit@),
{
    let other = String::from_str(lit);
    *s == other
}

/// Decides the action the given argument vector selects.
pub fn plan_cli(args: &Vec<String>) -> (r: CliAction)
    ensures
        r@ == spec_plan(args.deep_view()),
{
    let ghost argsv = args.deep_view();
    if args.len() < 2 {
        return CliAction::Repl;
    }
    proof {
        assert(argsv[1] == args@[1]@);
    }
    if matches_literal(&args[1], "--version") {
        return CliAction::Version;
    }
    if matches_literal(&args[1], "--help") || matches_literal(&args[1], "-h") {
        return CliAction::Help;
    }
    if args.len() == 2 {
        return CliAction::RunFile(args[1].clone());
    }
    proof {
        assert(argsv[2] == args@[2]@);
    }
    if matches_literal(&args[1], "-e") || matches_literal(&args[1], "--eval") {
        return CliAction::Eval(args[2].clone());
    }
    if matches_literal(&args[1], "-l") || matches_literal(&args[1], "--lint") {
        return CliAction::Lint(args[2].clone());
    }
    CliAction::RunFile(args[1].clone())
}

} // verus!
