use vstd::prelude::*;
use crate::builtins::{
    builtin_of, cd_failure_message, cd_failure_text, cd_target, echo_output, echo_text,
    exit_code_of, exit_request, int_text, lemma_exit_code_of_numeral, type_output, type_text,
    Builtin, CdError, ExitRequest,
};
use crate::path_index::{lookup_of, ExecutableIndex};
use crate::tokenize::{argument_words, command_word, parse_user_input, shell_words_of, ParsedCommand};

verus! {

/// What the read-eval-print loop is to do for one line of input.
#[derive(Debug, PartialEq, Eq)]
pub enum Action {
    /// Nothing: read the next line.
    Continue,
    /// Write this text to standard output, then read the next line.
    Print(String),
    /// End the process with this exit code.
    Exit(i32),
    /// Enter the directory `target`; `arg` is what the user typed.
    ChangeDir { arg: String, target: String },
    /// Run the executable at `path` as `name`, with these arguments.
    Run { name: String, path: String, args: Vec<String> },
}

/// An action, with its strings seen as character sequences.
pub enum ActionView {
    Continue,
    Print(Seq<char>),
    Exit(i32),
    ChangeDir(Seq<char>, Seq<char>),
    Run(Seq<char>, Seq<char>, Seq<Seq<char>>),
}

impl View for Action {
    type V = ActionView;

    open spec fn view(&self) -> ActionView {
        match self {
            Action::Continue => ActionView::Continue,
            Action::Print(s) => ActionView::Print(s@),
            Action::Exit(c) => ActionView::Exit(*c),
            Action::ChangeDir { arg, target } => ActionView::ChangeDir(arg@, target@),
            Action::Run { name, path, args } => ActionView::Run(
                name@,
                path@,
                args@.map_values(|a: String| a@),
            ),
        }
    }
}

/// What `pwd` prints in the directory `cwd`.
pub open spec fn pwd_text(cwd: Seq<char>) -> Seq<char> {
    cwd + "\n"@
}

/// What is printed for a line whose quoting is malformed.
pub open spec fn parse_error_text() -> Seq<char> {
    "parse error: unterminated quote or escape\n"@
}

/// What is printed for a command that is neither a builtin nor indexed.
pub open spec fn not_found_text(name: Seq<char>) -> Seq<char> {
    name + ": command not found\n"@
}

/// What is printed when `exit` is given something other than an exit code.
pub open spec fn exit_not_a_number_text(arg: Seq<char>) -> Seq<char> {
    "exit: "@ + arg + ": numeric argument required\n"@
}

/// What is printed when `exit` is given more than one argument.
pub open spec fn exit_too_many_text() -> Seq<char> {
    "exit: too many arguments\n"@
}

/// What is printed when `type` is not given exactly one argument.
pub open spec fn type_usage_text() -> Seq<char> {
    "type: expected exactly one argument\n"@
}

/// What is printed when `cd` is not given exactly one argument.
pub open spec fn cd_usage_text() -> Seq<char> {
    "cd: expected exactly one argument\n"@
}

/// What is printed when `cd ~` finds no home directory.
pub open spec fn home_unset_text() -> Seq<char> {
    "cd: HOME not set\n"@
}

/// What a command with these arguments does, given the executable index, the
/// working directory and the home directory.
pub open spec fn action_of(
    cmd: Seq<char>,
    args: Seq<Seq<char>>,
    index: Map<Seq<char>, Seq<char>>,
    cwd: Seq<char>,
    home: Option<Seq<char>>,
) -> ActionView {
    match builtin_of(cmd) {
        Some(Builtin::Exit) => if args.len() == 0 {
            ActionView::Continue
        } else if args.len() == 1 {
            match exit_code_of(args[0]) {
                Some(c) => ActionView::Exit(c),
                None => ActionView::Print(exit_not_a_number_text(args[0])),
            }
        } else {
            ActionView::Print(exit_too_many_text())
        },
        Some(Builtin::Echo) => ActionView::Print(echo_text(args)),
        Some(Builtin::Type) => if args.len() == 1 {
            ActionView::Print(type_text(args[0], lookup_of(index, args[0])))
        } else {
            ActionView::Print(type_usage_text())
        },
        Some(Builtin::Pwd) => ActionView::Print(pwd_text(cwd)),
        Some(Builtin::Cd) => if args.len() != 1 {
            ActionView::Print(cd_usage_text())
        } else if args[0] == "~"@ {
            match home {
                Some(h) => ActionView::ChangeDir(args[0], h),
                None => ActionView::Print(home_unset_text()),
            }
        } else {
            ActionView::ChangeDir(args[0], args[0])
        },
        None => if index.contains_key(cmd) {
            ActionView::Run(cmd, index[cmd], args)
        } else {
            ActionView::Print(not_found_text(cmd))
        },
    }
}

/// The working directory after `cd`: the directory entered, or the old one
/// where entering failed.
pub open spec fn cwd_after_cd(cwd: Seq<char>, entered: Option<Seq<char>>) -> Seq<char> {
    match entered {
        Some(c) => c,
        None => cwd,
    }
}

/// The state of one shell session.
pub struct Shell {
    /// The executables found on the search path at startup.
    pub index: ExecutableIndex,
    /// The canonical path of the working directory.
    pub cwd: String,
}

fn text(s: &str) -> (r: String)
    ensures
        r@ == s@,
{
    s.to_owned()
}

impl Shell {
    /// A session with this index, in the directory `cwd`.
    pub fn new(index: ExecutableIndex, cwd: String) -> (r: Shell)
        ensures
            r.index@ == index@,
            r.cwd@ == cwd@,
    {
        Shell { index, cwd }
    }

    /// The output of `pwd`.
    pub fn pwd_output(&self) -> (r: String)
        ensures
            r@ == pwd_text(self.cwd@),
    {
        let mut out = self.cwd.clone();
        out.append("\n");
        out
    }

    /// Decides what a parsed command does; the session is left as it is.
    pub fn decide(&self, cmd: &ParsedCommand, home: Option<String>) -> (r: Action)
        ensures
            r@ == action_of(
                cmd.command_view(),
                cmd.args_view(),
                self.index@,
                self.cwd@,
                match home {
                    Some(h) => Some(h@),
                    None => None,
                },
            ),
    {
        let name = cmd.command.as_str();
        match Builtin::from_name(name) {
            Some(Builtin::Exit) => match exit_request(&cmd.args) {
                ExitRequest::Stay => Action::Continue,
                ExitRequest::Terminate(c) => Action::Exit(c),
                ExitRequest::NotANumber => {
                    let mut out = text("exit: ");
                    out.append(cmd.args[0].as_str());
                    out.append(": numeric argument required\n");
                    Action::Print(out)
                },
                ExitRequest::TooManyArguments => Action::Print(text("exit: too many arguments\n")),
            },
            Some(Builtin::Echo) => Action::Print(echo_output(&cmd.args)),
            Some(Builtin::Type) => match type_output(&cmd.args, &self.index) {
                Ok(out) => Action::Print(out),
                Err(_) => Action::Print(text("type: expected exactly one argument\n")),
            },
            Some(Builtin::Pwd) => Action::Print(self.pwd_output()),
            Some(Builtin::Cd) => match cd_target(&cmd.args, home) {
                Ok(target) => Action::ChangeDir { arg: cmd.args[0].clone(), target },
                Err(CdError::Usage) => Action::Print(text("cd: expected exactly one argument\n")),
                Err(CdError::HomeUnset) => Action::Print(text("cd: HOME not set\n")),
            },
            None => match self.index.lookup(name) {
                Some(path) => Action::Run {
                    name: cmd.command.clone(),
                    path,
                    args: cmd.args.clone(),
                },
                None => {
                    let mut out = cmd.command.clone();
                    out.append(": command not found\n");
                    Action::Print(out)
                },
            },
        }
    }

    /// Decides what one line of input does; `None` stands for the end of
    /// input, which ends the process with code 0.
    pub fn step(&self, line: Option<&str>, home: Option<String>) -> (r: Action)
        ensures
            line is None ==> r@ == ActionView::Exit(0),
            line is Some ==> match shell_words_of(line->0@) {
                None => r@ == ActionView::Print(parse_error_text()),
                Some(words) => r@ == action_of(
                    command_word(words),
                    argument_words(words),
                    self.index@,
                    self.cwd@,
                    match home {
                        Some(h) => Some(h@),
                        None => None,
                    },
                ),
            },
    {
        match line {
            None => Action::Exit(0),
            Some(l) => match parse_user_input(l) {
                Err(_) => Action::Print(text("parse error: unterminated quote or escape\n")),
                Ok(cmd) => self.decide(&cmd, home),
            },
        }
    }

    /// Records the outcome of `cd arg`: `entered` is the canonical path of
    /// the directory entered, or `None` where it could not be entered.
    /// Returns what is to be printed.
    pub fn finish_cd(&mut self, arg: &str, entered: Option<String>) -> (r: String)
        ensures
            final(self).index@ == old(self).index@,
            final(self).cwd@ == cwd_after_cd(
                old(self).cwd@,
                match entered {
                    Some(c) => Some(c@),
                    None => None,
                },
            ),
            entered is Some ==> r@ == Seq::<char>::empty(),
            entered is None ==> r@ == cd_failure_text(arg@),
    {
        match entered {
            Some(c) => {
                self.cwd = c;
                String::new()
            },
            None => cd_failure_message(arg),
        }
    }
}

/// `exit n` ends the process with code `n`, for every `i32` value `n`
/// written as a decimal numeral.
pub proof fn lemma_exit_with_numeral(
    n: i32,
    index: Map<Seq<char>, Seq<char>>,
    cwd: Seq<char>,
    home: Option<Seq<char>>,
)
    ensures
        action_of("exit"@, seq![int_text(n as int)], index, cwd, home) == ActionView::Exit(n),
{
    lemma_exit_code_of_numeral(n);
}

/// `cd ~` goes to the home directory; once it was entered, `pwd` reports
/// the canonical path that was entered.
pub proof fn lemma_cd_home_then_pwd(
    index: Map<Seq<char>, Seq<char>>,
    cwd: Seq<char>,
    home: Seq<char>,
    entered: Seq<char>,
)
    ensures
        action_of("cd"@, seq!["~"@], index, cwd, Some(home)) == ActionView::ChangeDir(
            "~"@,
            home,
        ),
        action_of("pwd"@, seq![], index, cwd_after_cd(cwd, Some(entered)), Some(home))
            == ActionView::Print(entered + "\n"@),
{
    reveal_strlit("cd");
    reveal_strlit("~");
    reveal_strlit("exit");
    reveal_strlit("echo");
    reveal_strlit("type");
    reveal_strlit("pwd");
    assert("cd"@.len() == 2);
    assert("pwd"@.len() == 3);
    assert(builtin_of("cd"@) == Some(Builtin::Cd));
    assert(builtin_of("pwd"@) == Some(Builtin::Pwd));
}

/// A name that is neither a builtin nor in the index is reported as not
/// found, and nothing else happens: the loop reads the next line.
pub proof fn lemma_unknown_command_not_found(
    cmd: Seq<char>,
    args: Seq<Seq<char>>,
    index: Map<Seq<char>, Seq<char>>,
    cwd: Seq<char>,
    home: Option<Seq<char>>,
)
    requires
        builtin_of(cmd) is None,
        !index.contains_key(cmd),
    ensures
        action_of(cmd, args, index, cwd, home) == ActionView::Print(not_found_text(cmd)),
{
}

/// For every builtin name `b`, `type b` reports that `b` is a shell
/// builtin, whatever the index holds.
pub proof fn lemma_type_of_builtin(
    name: Seq<char>,
    index: Map<Seq<char>, Seq<char>>,
    cwd: Seq<char>,
    home: Option<Seq<char>>,
)
    requires
        builtin_of(name) is Some,
    ensures
        action_of("type"@, seq![name], index, cwd, home) == ActionView::Print(
            name + " is a shell builtin\n"@,
        ),
{
    reveal_strlit("type");
    reveal_strlit("exit");
    reveal_strlit("echo");
    reveal_strlit("pwd");
    reveal_strlit("cd");
    assert("type"@.len() == 4);
    assert("type"@ != "exit"@ && "type"@ != "echo"@) by {
        assert("type"@[0] != "exit"@[0]);
        assert("type"@[0] != "echo"@[0]);
    }
    assert(builtin_of("type"@) == Some(Builtin::Type));
}

} // verus!
