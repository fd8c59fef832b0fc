use vstd::prelude::*;

verus! {

/// The words that POSIX-shell splitting makes of a line, or `None` where the
/// line's quoting is unterminated or malformed.
pub uninterp spec fn shell_words_of(line: Seq<char>) -> Option<Seq<Seq<char>>>;

/// The character sequences held by a vector of strings.
pub open spec fn strings_view(v: Seq<String>) -> Seq<Seq<char>> {
    v.map_values(|s: String| s@)
}

/// Relies on `shlex::split`: splits a line into words with shell quoting
/// rules, `None` on malformed quoting; an empty line gives no words.
#[verifier::external_body]
fn shlex_split(line: &str) -> (r: Option<Vec<String>>)
    ensures
        r is None <==> shell_words_of(line@) is None,
        r is Some ==> strings_view(r->0@) == shell_words_of(line@)->0,
        line@.len() == 0 ==> (r is Some && r->0@.len() == 0),
{
    shlex::split(line)
}

/// The command word of a split line: its first word, or empty.
pub open spec fn command_word(words: Seq<Seq<char>>) -> Seq<char> {
    if words.len() == 0 {
        Seq::empty()
    } else {
        words[0]
    }
}

/// The arguments of a split line: every word after the first.
pub open spec fn argument_words(words: Seq<Seq<char>>) -> Seq<Seq<char>> {
    if words.len() == 0 {
        Seq::empty()
    } else {
        words.drop_first()
    }
}

/// A command line split into the command word and its arguments.
#[derive(Debug, PartialEq, Eq)]
pub struct ParsedCommand {
    pub command: String,
    pub args: Vec<String>,
}

/// The quoting of a line is unterminated or malformed.
#[derive(Debug, PartialEq, Eq, Structural)]
pub struct ParseError;

impl ParsedCommand {
    pub open spec fn command_view(&self) -> Seq<char> {
        self.command@
    }

    pub open spec fn args_view(&self) -> Seq<Seq<char>> {
        strings_view(self.args@)
    }

    /// The command is the first word and the arguments are the rest; no
    /// words give an empty command with no arguments.
    pub open spec fn from_words_spec(&self, words: Seq<Seq<char>>) -> bool {
        &&& self.command_view() == command_word(words)
        &&& self.args_view() == argument_words(words)
    }
}

/// Builds the command from already split words.
pub fn command_from_words(words: Vec<String>) -> (r: ParsedCommand)
    ensures
        r.from_words_spec(strings_view(words@)),
{
    let mut words = words;
    if words.len() == 0 {
        let args: Vec<String> = Vec::new();
        assert(strings_view(args@) =~= Seq::<Seq<char>>::empty());
        ParsedCommand { command: String::new(), args }
    } else {
        let ghost all = words@;
        let command = words.remove(0);
        assert(strings_view(words@) =~= strings_view(all).drop_first());
        assert(command@ == strings_view(all)[0]);
        ParsedCommand { command, args: words }
    }
}

/// Splits a raw input line into a command and its arguments.
pub fn parse_user_input(input: &str) -> (r: Result<ParsedCommand, ParseError>)
    ensures
        r is Err <==> shell_words_of(input@) is None,
        r is Ok ==> r->Ok_0.from_words_spec(shell_words_of(input@)->0),
{
    match shlex_split(input) {
        None => Err(ParseError),
        Some(words) => Ok(command_from_words(words)),
    }
}

} // verus!
