use vstd::prelude::*;
use vstd::string::*;

use crate::text::{
    chars_of, decimal, decimal_of, is_letter_answer, letter_answer, parse_usize, parse_usize_spec,
    trim, trim_chars,
};

verus! {

/// The editors offered, in the order they are listed.
#[derive(Clone, Copy, Debug, PartialEq, Eq, Structural)]
pub enum Editor {
    VsCode,
    Vim,
    Nano,
    Gedit,
}

/// Which editors were found on the search path when the menu was opened.
#[derive(Clone, Copy, Debug, PartialEq, Eq, Structural)]
pub struct Availability {
    pub code: bool,
    pub vim: bool,
    pub nano: bool,
    pub gedit: bool,
}

impl Availability {
    pub open spec fn has(self, e: Editor) -> bool {
        match e {
            Editor::VsCode => self.code,
            Editor::Vim => self.vim,
            Editor::Nano => self.nano,
            Editor::Gedit => self.gedit,
        }
    }

    /// Whether editor `e` was found.
    pub fn installed(&self, e: Editor) -> (r: bool)
        ensures
            r == self.has(e),
    {
        match e {
            Editor::VsCode => self.code,
            Editor::Vim => self.vim,
            Editor::Nano => self.nano,
            Editor::Gedit => self.gedit,
        }
    }
}

/// Where the editor dialogue stands: what the next line of input answers.
#[derive(Clone, Copy, Debug, PartialEq, Eq, Structural)]
pub enum Phase {
    /// The menu is shown; the input picks an entry.
    Choosing,
    /// The editor is missing and an automatic install was offered; the input is yes or no.
    ConfirmInstall(Editor),
    /// "Choose another editor now?" was asked; the input is yes or no.
    ConfirmRetry,
    /// The dialogue is over.
    Done,
}

/// What the caller does after a step.
#[derive(Clone, Copy, Debug, PartialEq, Eq, Structural)]
pub enum Action {
    /// Show the menu again.
    ShowMenu,
    /// Start the editor on the finding's file and line.
    Launch(Editor),
    /// Show the manual install steps of an editor that has no automatic install, and ask
    /// whether to choose another.
    ManualInstall(Editor),
    /// Show the install command and ask whether to run it now.
    OfferInstall(Editor),
    /// Run the package install and report how it went.
    RunInstall(Editor),
    /// Suggest another editor and ask whether to choose one now.
    AskRetry(Editor),
    /// Print the commands of every editor.
    ListCommands,
    /// Go back without doing anything.
    Cancel,
    /// The choice was not a number.
    NotANumber,
    /// The choice was a number outside the menu.
    OutOfRange,
    /// Nothing more to do.
    Stop,
}

/// Number of menu entries: four editors, the command listing and cancel.
pub const MENU_ENTRIES: usize = 6;

/// The editor at a menu position, counted from 1.
pub open spec fn editor_at(n: nat) -> Option<Editor> {
    if n == 1 {
        Some(Editor::VsCode)
    } else if n == 2 {
        Some(Editor::Vim)
    } else if n == 3 {
        Some(Editor::Nano)
    } else if n == 4 {
        Some(Editor::Gedit)
    } else {
        None
    }
}

/// The outcome of picking editor `e` from the menu.
pub open spec fn pick(e: Editor, avail: Availability) -> (Phase, Action) {
    if avail.has(e) {
        (Phase::Done, Action::Launch(e))
    } else if e is VsCode {
        (Phase::ConfirmRetry, Action::ManualInstall(e))
    } else {
        (Phase::ConfirmInstall(e), Action::OfferInstall(e))
    }
}

/// One step of the editor dialogue: the phase it was in, the editors found, and
/// the trimmed line typed, give the next phase and what to do.
pub open spec fn step_spec(phase: Phase, avail: Availability, t: Seq<char>) -> (Phase, Action) {
    match phase {
        Phase::Choosing => match parse_usize_spec(t) {
            None => (Phase::Done, Action::NotANumber),
            Some(n) => match editor_at(n as nat) {
                Some(e) => pick(e, avail),
                None => if n == 5 {
                    (Phase::Done, Action::ListCommands)
                } else if n == 6 {
                    (Phase::Done, Action::Cancel)
                } else {
                    (Phase::Done, Action::OutOfRange)
                },
            },
        },
        Phase::ConfirmInstall(e) => if is_letter_answer(t, 'y', 'Y') {
            (Phase::Done, Action::RunInstall(e))
        } else {
            (Phase::ConfirmRetry, Action::AskRetry(e))
        },
        Phase::ConfirmRetry => if is_letter_answer(t, 'y', 'Y') {
            (Phase::Choosing, Action::ShowMenu)
        } else {
            (Phase::Done, Action::Stop)
        },
        Phase::Done => (Phase::Done, Action::Stop),
    }
}

fn editor_choice(n: usize) -> (r: Option<Editor>)
    ensures
        r == editor_at(n as nat),
{
    if n == 1 {
        Some(Editor::VsCode)
    } else if n == 2 {
        Some(Editor::Vim)
    } else if n == 3 {
        Some(Editor::Nano)
    } else if n == 4 {
        Some(Editor::Gedit)
    } else {
        None
    }
}

/// Advances the editor dialogue by one line of input.
pub fn step(phase: Phase, avail: &Availability, input: &str) -> (r: (Phase, Action))
    ensures
        r == step_spec(phase, *avail, trim(input@)),
{
    let t = trim_chars(&chars_of(input));
    match phase {
        Phase::Choosing => match parse_usize(&t) {
            None => (Phase::Done, Action::NotANumber),
            Some(n) => match editor_choice(n) {
                Some(e) => {
                    if avail.installed(e) {
                        (Phase::Done, Action::Launch(e))
                    } else if e == Editor::VsCode {
                        (Phase::ConfirmRetry, Action::ManualInstall(e))
                    } else {
                        (Phase::ConfirmInstall(e), Action::OfferInstall(e))
                    }
                },
                None => if n == 5 {
                    (Phase::Done, Action::ListCommands)
                } else if n == 6 {
                    (Phase::Done, Action::Cancel)
                } else {
                    (Phase::Done, Action::OutOfRange)
                },
            },
        },
        Phase::ConfirmInstall(e) => if letter_answer(&t, 'y', 'Y') {
            (Phase::Done, Action::RunInstall(e))
        } else {
            (Phase::ConfirmRetry, Action::AskRetry(e))
        },
        Phase::ConfirmRetry => if letter_answer(&t, 'y', 'Y') {
            (Phase::Choosing, Action::ShowMenu)
        } else {
            (Phase::Done, Action::Stop)
        },
        Phase::Done => (Phase::Done, Action::Stop),
    }
}

/// The command that opens `path` at `line` in editor `e` directly, as a user would type it.
pub open spec fn direct_command_spec(e: Editor, path: Seq<char>, line: nat) -> Seq<char> {
    match e {
        Editor::VsCode => "code --goto '"@ + path + "':"@ + decimal_of(line),
        Editor::Vim => "vim +"@ + decimal_of(line) + " '"@ + path + "'"@,
        Editor::Nano => "nano +"@ + decimal_of(line) + " '"@ + path + "'"@,
        Editor::Gedit => "gedit +"@ + decimal_of(line) + " '"@ + path + "'"@,
    }
}

/// The command shown beside an installed editor in the menu: as the direct
/// command, but VS Code's path is shown without quotes.
pub open spec fn menu_command_spec(e: Editor, path: Seq<char>, line: nat) -> Seq<char> {
    match e {
        Editor::VsCode => "code --goto "@ + path + ":"@ + decimal_of(line),
        _ => direct_command_spec(e, path, line),
    }
}

/// Whether the editor runs inside a terminal, and so is started in a new terminal window.
pub open spec fn in_terminal(e: Editor) -> bool {
    e is Vim || e is Nano
}

/// The command handed to the shell to start editor `e`: terminal editors are
/// wrapped in a new terminal window that stays open afterwards.
pub open spec fn launch_command_spec(e: Editor, path: Seq<char>, line: nat) -> Seq<char> {
    if in_terminal(e) {
        "gnome-terminal -- bash -c \""@ + direct_command_spec(e, path, line) + "; exec bash\""@
    } else {
        direct_command_spec(e, path, line)
    }
}

/// The command that opens `path` at `line` in editor `e`.
pub fn direct_command(e: Editor, path: &str, line: usize) -> (r: String)
    ensures
        r@ == direct_command_spec(e, path@, line as nat),
{
    let n = decimal(line);
    match e {
        Editor::VsCode => {
            let mut s = String::from_str("code --goto '");
            s.append(path);
            s.append("':");
            s.append(n.as_str());
            s
        },
        _ => {
            let mut s = match e {
                Editor::Vim => String::from_str("vim +"),
                Editor::Nano => String::from_str("nano +"),
                _ => String::from_str("gedit +"),
            };
            s.append(n.as_str());
            s.append(" '");
            s.append(path);
            s.append("'");
            s
        },
    }
}

/// The command shown for editor `e` in the menu.
pub fn menu_command(e: Editor, path: &str, line: usize) -> (r: String)
    ensures
        r@ == menu_command_spec(e, path@, line as nat),
{
    match e {
        Editor::VsCode => {
            let mut s = String::from_str("code --goto ");
            s.append(path);
            s.append(":");
            s.append(decimal(line).as_str());
            s
        },
        _ => direct_command(e, path, line),
    }
}

/// The shell command that starts editor `e` on `path` at `line`.
pub fn launch_command(e: Editor, path: &str, line: usize) -> (r: String)
    ensures
        r@ == launch_command_spec(e, path@, line as nat),
{
    let d = direct_command(e, path, line);
    match e {
        Editor::Vim | Editor::Nano => {
            let mut s = String::from_str("gnome-terminal -- bash -c \"");
            s.append(d.as_str());
            s.append("; exec bash\"");
            s
        },
        _ => d,
    }
}

/// The package that provides editor `e`, where a package manager can install it.
pub open spec fn package_spec(e: Editor) -> Option<Seq<char>> {
    match e {
        Editor::VsCode => None,
        Editor::Vim => Some("vim"@),
        Editor::Nano => Some("nano"@),
        Editor::Gedit => Some("gedit"@),
    }
}

/// The package that provides editor `e`, where a package manager can install it.
pub fn package(e: Editor) -> (r: Option<String>)
    ensures
        r matches Some(p) ==> package_spec(e) == Some(p@),
        r is None ==> package_spec(e) is None,
{
    match e {
        Editor::VsCode => None,
        Editor::Vim => Some(String::from_str("vim")),
        Editor::Nano => Some(String::from_str("nano")),
        Editor::Gedit => Some(String::from_str("gedit")),
    }
}

/// The command that installs editor `e` by hand, where one exists.
pub fn install_command(e: Editor) -> (r: Option<String>)
    ensures
        r matches Some(c) ==> package_spec(e) matches Some(p) && c@ == "sudo apt install "@ + p,
        r is None ==> package_spec(e) is None,
{
    match package(e) {
        Some(p) => {
            let mut s = String::from_str("sudo apt install ");
            s.append(p.as_str());
            Some(s)
        },
        None => None,
    }
}

} // verus!
