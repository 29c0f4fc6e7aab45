//! The command line: `omapaste [COMMAND]`.
use vstd::prelude::*;

use crate::text::{push_str, str_eq, string_from_chars};

verus! {

/// Number of commands the program takes.
pub const COMMAND_COUNT: usize = 7;

/// The command at position `i`: daemon, start, toggle, show, hide, quit, stop.
pub open spec fn command_name(i: int) -> Seq<char> {
    if i == 0 {
        "daemon"@
    } else if i == 1 {
        "start"@
    } else if i == 2 {
        "toggle"@
    } else if i == 3 {
        "show"@
    } else if i == 4 {
        "hide"@
    } else if i == 5 {
        "quit"@
    } else {
        "stop"@
    }
}

/// Whether `s` names one of the commands.
pub open spec fn is_command(s: Seq<char>) -> bool {
    exists|i: int| 0 <= i < COMMAND_COUNT && s == #[trigger] command_name(i)
}

/// The command at position `i`.
pub fn command_at(i: usize) -> (r: &'static str)
    requires
        i < COMMAND_COUNT,
    ensures
        r@ == command_name(i as int),
{
    if i == 0 {
        "daemon"
    } else if i == 1 {
        "start"
    } else if i == 2 {
        "toggle"
    } else if i == 3 {
        "show"
    } else if i == 4 {
        "hide"
    } else if i == 5 {
        "quit"
    } else {
        "stop"
    }
}

/// What the program is asked to do.
#[derive(Debug, Clone, PartialEq, Eq)]
pub enum Action {
    /// Print the version.
    Version,
    /// Print the usage.
    Help,
    /// Run a command.
    Run(String),
}

/// The view of an action: the command as characters.
pub enum ActionView {
    Version,
    Help,
    Run(Seq<char>),
}

impl View for Action {
    type V = ActionView;

    open spec fn view(&self) -> ActionView {
        match self {
            Action::Version => ActionView::Version,
            Action::Help => ActionView::Help,
            Action::Run(c) => ActionView::Run(c@),
        }
    }
}

/// What the first argument asks for: no argument toggles the bar; the
/// version and help flags; a known command; anything else is an error that
/// names it.
pub open spec fn command_outcome(arg: Option<Seq<char>>) -> Result<ActionView, Seq<char>> {
    match arg {
        None => Ok(ActionView::Run("toggle"@)),
        Some(a) => if a == "--version"@ || a == "-V"@ {
            Ok(ActionView::Version)
        } else if a == "--help"@ || a == "-h"@ {
            Ok(ActionView::Help)
        } else if is_command(a) {
            Ok(ActionView::Run(a))
        } else {
            Err("unknown command: "@ + a)
        },
    }
}

/// The view of a parse result.
pub open spec fn outcome_view(r: Result<Action, String>) -> Result<ActionView, Seq<char>> {
    match r {
        Ok(a) => Ok(a@),
        Err(e) => Err(e@),
    }
}

fn find_command(arg: &str) -> (r: bool)
    ensures
        r == is_command(arg@),
{
    let mut i: usize = 0;
    while i < COMMAND_COUNT
        invariant
            0 <= i <= COMMAND_COUNT,
            forall|k: int| 0 <= k < i ==> arg@ != command_name(k),
        decreases COMMAND_COUNT - i,
    {
        if str_eq(command_at(i), arg) {
            return true;
        }
        i = i + 1;
    }
    false
}

/// Parses the program's first argument.
pub fn parse_command(arg: Option<&str>) -> (r: Result<Action, String>)
    ensures
        outcome_view(r) == command_outcome(crate::clip::opt_str_view(arg)),
{
    match arg {
        None => Ok(Action::Run("toggle".to_owned())),
        Some(a) => {
            if str_eq(a, "--version") || str_eq(a, "-V") {
                Ok(Action::Version)
            } else if str_eq(a, "--help") || str_eq(a, "-h") {
                Ok(Action::Help)
            } else if find_command(a) {
                Ok(Action::Run(a.to_owned()))
            } else {
                let mut msg: Vec<char> = Vec::new();
                push_str(&mut msg, "unknown command: ");
                push_str(&mut msg, a);
                Err(string_from_chars(&msg))
            }
        },
    }
}

/// What the running daemon does for a command it receives.
#[derive(Debug, Clone, Copy, PartialEq, Eq, Structural)]
pub enum DaemonAction {
    /// Quit the application.
    Quit,
    /// Report that the daemon is ready.
    Ready,
    /// Show the bar.
    Show,
    /// Hide the bar.
    Hide,
    /// Report an unknown command.
    Unknown,
}

/// The daemon's action for `command` while the bar is `open` or not: quit
/// and stop quit; daemon and start report; toggle (or nothing) hides an open
/// bar and shows a closed one; show and hide do so.
pub open spec fn daemon_action_spec(command: Seq<char>, open: bool) -> DaemonAction {
    if command == "quit"@ || command == "stop"@ {
        DaemonAction::Quit
    } else if command == "daemon"@ || command == "start"@ {
        DaemonAction::Ready
    } else if command == "toggle"@ || command.len() == 0 {
        if open {
            DaemonAction::Hide
        } else {
            DaemonAction::Show
        }
    } else if command == "show"@ {
        DaemonAction::Show
    } else if command == "hide"@ {
        DaemonAction::Hide
    } else {
        DaemonAction::Unknown
    }
}

/// The daemon's action for a command.
pub fn daemon_action(command: &str, open: bool) -> (r: DaemonAction)
    ensures
        r == daemon_action_spec(command@, open),
{
    if str_eq(command, "quit") || str_eq(command, "stop") {
        DaemonAction::Quit
    } else if str_eq(command, "daemon") || str_eq(command, "start") {
        DaemonAction::Ready
    } else if str_eq(command, "toggle") || command.is_empty() {
        if open {
            DaemonAction::Hide
        } else {
            DaemonAction::Show
        }
    } else if str_eq(command, "show") {
        DaemonAction::Show
    } else if str_eq(command, "hide") {
        DaemonAction::Hide
    } else {
        DaemonAction::Unknown
    }
}

/// Parsing never fails on a command, and its error names the argument.
pub proof fn law_commands_parse(i: int)
    requires
        0 <= i < COMMAND_COUNT,
    ensures
        command_outcome(Some(command_name(i))) == Ok::<ActionView, Seq<char>>(
            ActionView::Run(command_name(i)),
        ),
{
    reveal_strlit("--version");
    reveal_strlit("-V");
    reveal_strlit("--help");
    reveal_strlit("-h");
    reveal_strlit("daemon");
    reveal_strlit("start");
    reveal_strlit("toggle");
    reveal_strlit("show");
    reveal_strlit("hide");
    reveal_strlit("quit");
    reveal_strlit("stop");
    assert(command_name(i)[0] != '-');
    assert(is_command(command_name(i)));
}

} // verus!
