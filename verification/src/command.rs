//! The command line of the launcher: which command a list of arguments asks for.
use vstd::prelude::*;
use crate::text::{all_digits, chars_of, digits_value, parse_digits, plain_number, str_eq};

verus! {

/// A command of the launcher, as a value of the specification.
pub enum CommandView {
    Open,
    Help,
    Projects,
    Backend,
    Start(Option<Seq<char>>),
    OpenProject(Seq<char>),
    SelectProject(Seq<char>, Seq<char>),
    CreateProject(Seq<char>, Seq<char>, Seq<char>),
    Resume(Seq<char>),
    Stop,
    FocusToggle,
    Toggle,
    Status,
    Render,
    Clip,
    Section(Option<Seq<char>>),
    Ai(Option<Seq<char>>),
    PttStart,
    PttStop,
    Analyze(i64),
    Ingest(i64),
    Panel(Seq<char>),
    CleanupShot(Seq<char>),
    Relocate(Seq<char>),
    Invalid,
}

/// A command of the launcher.
#[derive(Debug)]
pub enum Command {
    /// Open the panel, restoring the last project.
    Open,
    Help,
    /// List the known projects.
    Projects,
    /// Serve the panel's requests on standard input and output.
    Backend,
    /// Start a session, with an optional name.
    Start(Option<String>),
    OpenProject(String),
    /// Switch to a project folder from the expected active one.
    SelectProject(String, String),
    /// Create a project: parent folder, name, expected active project.
    CreateProject(String, String, String),
    Resume(String),
    Stop,
    FocusToggle,
    Toggle,
    Status,
    Render,
    Clip,
    /// Add a section, with an optional title.
    Section(Option<String>),
    /// Print or change the analysis setting: `on`, `off` or `toggle`.
    Ai(Option<String>),
    PttStart,
    PttStop,
    /// Analyze the screen of a note (an internal worker).
    Analyze(i64),
    /// Wait for the transcript of a note (an internal worker).
    Ingest(i64),
    /// Forward a command to the panel socket.
    Panel(String),
    CleanupShot(String),
    Relocate(String),
    Invalid,
}

pub open spec fn opt_seq(o: Option<String>) -> Option<Seq<char>> {
    match o {
        Some(s) => Some(s@),
        None => None,
    }
}

impl View for Command {
    type V = CommandView;

    open spec fn view(&self) -> CommandView {
        match self {
            Command::Open => CommandView::Open,
            Command::Help => CommandView::Help,
            Command::Projects => CommandView::Projects,
            Command::Backend => CommandView::Backend,
            Command::Start(n) => CommandView::Start(opt_seq(*n)),
            Command::OpenProject(p) => CommandView::OpenProject(p@),
            Command::SelectProject(p, c) => CommandView::SelectProject(p@, c@),
            Command::CreateProject(p, n, c) => CommandView::CreateProject(p@, n@, c@),
            Command::Resume(p) => CommandView::Resume(p@),
            Command::Stop => CommandView::Stop,
            Command::FocusToggle => CommandView::FocusToggle,
            Command::Toggle => CommandView::Toggle,
            Command::Status => CommandView::Status,
            Command::Render => CommandView::Render,
            Command::Clip => CommandView::Clip,
            Command::Section(t) => CommandView::Section(opt_seq(*t)),
            Command::Ai(a) => CommandView::Ai(opt_seq(*a)),
            Command::PttStart => CommandView::PttStart,
            Command::PttStop => CommandView::PttStop,
            Command::Analyze(n) => CommandView::Analyze(*n),
            Command::Ingest(n) => CommandView::Ingest(*n),
            Command::Panel(c) => CommandView::Panel(c@),
            Command::CleanupShot(p) => CommandView::CleanupShot(p@),
            Command::Relocate(p) => CommandView::Relocate(p@),
            Command::Invalid => CommandView::Invalid,
        }
    }
}

/// A note id given on the command line: digits only, positive, fitting `i64`.
pub open spec fn entry_number(s: Seq<char>) -> Option<i64> {
    match plain_number(s, i64::MAX as nat) {
        Some(n) => if n > 0 {
            Some(n as i64)
        } else {
            None
        },
        None => None,
    }
}

pub open spec fn panel_command_ok(s: Seq<char>) -> bool {
    s == "hide"@ || s == "show"@ || s == "focus"@ || s == "toggle-focus"@ || s == "reload"@ || s
        == "quit"@ || s == "ping"@ || s == "restyle"@
}

/// The command that the arguments (without the program name) ask for.
pub open spec fn command_spec(a: Seq<Seq<char>>) -> CommandView {
    let n = a.len();
    let cmd = if n > 0 {
        a[0]
    } else {
        ""@
    };
    let arg1 = if n > 1 {
        Some(a[1])
    } else {
        None
    };
    if (cmd == ""@ && n == 0) || (cmd == "open"@ && n == 1) {
        CommandView::Open
    } else if (cmd == "help"@ || cmd == "-h"@ || cmd == "--help"@) && n == 1 {
        CommandView::Help
    } else if cmd == "projects"@ && n == 1 {
        CommandView::Projects
    } else if cmd == "backend"@ && n == 1 {
        CommandView::Backend
    } else if cmd == "start"@ && (n == 1 || n == 2) {
        CommandView::Start(arg1)
    } else if cmd == "open-project"@ && n == 2 {
        CommandView::OpenProject(a[1])
    } else if cmd == "select-project"@ && n == 3 {
        CommandView::SelectProject(a[1], a[2])
    } else if cmd == "create-project"@ && n == 4 {
        CommandView::CreateProject(a[1], a[2], a[3])
    } else if cmd == "resume"@ && n == 2 {
        CommandView::Resume(a[1])
    } else if cmd == "stop"@ && n == 1 {
        CommandView::Stop
    } else if cmd == "focus-toggle"@ && n == 1 {
        CommandView::FocusToggle
    } else if cmd == "toggle"@ && n == 1 {
        CommandView::Toggle
    } else if cmd == "status"@ && n == 1 {
        CommandView::Status
    } else if cmd == "render"@ && n == 1 {
        CommandView::Render
    } else if cmd == "clip"@ && n == 1 {
        CommandView::Clip
    } else if cmd == "section"@ && (n == 1 || n == 2) {
        CommandView::Section(arg1)
    } else if cmd == "ai"@ && (n == 1 || n == 2) && (n == 1 || a[1] == "on"@ || a[1] == "off"@
        || a[1] == "toggle"@) {
        CommandView::Ai(arg1)
    } else if cmd == "ptt"@ && n == 2 && a[1] == "start"@ {
        CommandView::PttStart
    } else if cmd == "ptt"@ && n == 2 && a[1] == "stop"@ {
        CommandView::PttStop
    } else if cmd == "analyze"@ && n == 2 && entry_number(a[1]) is Some {
        CommandView::Analyze(entry_number(a[1])->0)
    } else if cmd == "ingest"@ && n == 2 && entry_number(a[1]) is Some {
        CommandView::Ingest(entry_number(a[1])->0)
    } else if cmd == "panel"@ && n == 2 && panel_command_ok(a[1]) {
        CommandView::Panel(a[1])
    } else if cmd == "cleanup-shot"@ && n == 2 {
        CommandView::CleanupShot(a[1])
    } else if cmd == "relocate"@ && n == 2 {
        CommandView::Relocate(a[1])
    } else {
        CommandView::Invalid
    }
}

fn entry_number_of(s: &String) -> (r: Option<i64>)
    ensures
        r == entry_number(s@),
{
    let v = chars_of(s.as_str());
    assert(v@.subrange(0, v@.len() as int) =~= v@);
    match parse_digits(&v, 0, v.len(), 0x7fff_ffff_ffff_ffffu64) {
        Some(n) => if n > 0 {
            Some(n as i64)
        } else {
            None
        },
        None => None,
    }
}

/// Reads the command line of the launcher.
pub fn parse_command(args: &Vec<String>) -> (r: Command)
    ensures
        r@ == command_spec(args@.map_values(|s: String| s@)),
{
    let ghost a = args@.map_values(|s: String| s@);
    let n = args.len();
    let cmd: &str = if n > 0 {
        args[0].as_str()
    } else {
        ""
    };
    assert(n > 0 ==> cmd@ == a[0]);
    let arg1 = if n > 1 {
        Some(args[1].clone())
    } else {
        None
    };
    if (n == 0 && str_eq(cmd, "")) || (n == 1 && str_eq(cmd, "open")) {
        Command::Open
    } else if n == 1 && (str_eq(cmd, "help") || str_eq(cmd, "-h") || str_eq(cmd, "--help")) {
        Command::Help
    } else if n == 1 && str_eq(cmd, "projects") {
        Command::Projects
    } else if n == 1 && str_eq(cmd, "backend") {
        Command::Backend
    } else if (n == 1 || n == 2) && str_eq(cmd, "start") {
        Command::Start(arg1)
    } else if n == 2 && str_eq(cmd, "open-project") {
        Command::OpenProject(args[1].clone())
    } else if n == 3 && str_eq(cmd, "select-project") {
        Command::SelectProject(args[1].clone(), args[2].clone())
    } else if n == 4 && str_eq(cmd, "create-project") {
        Command::CreateProject(args[1].clone(), args[2].clone(), args[3].clone())
    } else if n == 2 && str_eq(cmd, "resume") {
        Command::Resume(args[1].clone())
    } else if n == 1 && str_eq(cmd, "stop") {
        Command::Stop
    } else if n == 1 && str_eq(cmd, "focus-toggle") {
        Command::FocusToggle
    } else if n == 1 && str_eq(cmd, "toggle") {
        Command::Toggle
    } else if n == 1 && str_eq(cmd, "status") {
        Command::Status
    } else if n == 1 && str_eq(cmd, "render") {
        Command::Render
    } else if n == 1 && str_eq(cmd, "clip") {
        Command::Clip
    } else if (n == 1 || n == 2) && str_eq(cmd, "section") {
        Command::Section(arg1)
    } else if (n == 1 || n == 2) && str_eq(cmd, "ai") && (n == 1 || str_eq(args[1].as_str(), "on") || str_eq(args[1].as_str(), "off")
        || str_eq(args[1].as_str(), "toggle")) {
        Command::Ai(arg1)
    } else if n == 2 && str_eq(cmd, "ptt") && str_eq(args[1].as_str(), "start") {
        Command::PttStart
    } else if n == 2 && str_eq(cmd, "ptt") && str_eq(args[1].as_str(), "stop") {
        Command::PttStop
    } else if n == 2 && str_eq(cmd, "analyze") && entry_number_of(&args[1]).is_some() {
        match entry_number_of(&args[1]) {
            Some(id) => Command::Analyze(id),
            None => Command::Invalid,
        }
    } else if n == 2 && str_eq(cmd, "ingest") && entry_number_of(&args[1]).is_some() {
        match entry_number_of(&args[1]) {
            Some(id) => Command::Ingest(id),
            None => Command::Invalid,
        }
    } else if n == 2 && str_eq(cmd, "panel") && (str_eq(args[1].as_str(), "hide") || str_eq(args[1].as_str(), "show") || str_eq(args[1].as_str(), "focus")
        || str_eq(args[1].as_str(), "toggle-focus") || str_eq(args[1].as_str(), "reload") || str_eq(args[1].as_str(), "quit") || str_eq(args[1].as_str(), "ping")
        || str_eq(args[1].as_str(), "restyle")) {
        Command::Panel(args[1].clone())
    } else if n == 2 && str_eq(cmd, "cleanup-shot") {
        Command::CleanupShot(args[1].clone())
    } else if n == 2 && str_eq(cmd, "relocate") {
        Command::Relocate(args[1].clone())
    } else {
        Command::Invalid
    }
}

} // verus!
