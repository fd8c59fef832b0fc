use vstd::prelude::*;
use crate::path_index::{ExecutableIndex, lookup_of};
use crate::text::{chars_of, join_with, same_text};
use crate::tokenize::strings_view;

verus! {

/// The commands that the shell runs itself.
#[derive(Debug, Clone, Copy, PartialEq, Eq, Structural)]
pub enum Builtin {
    Exit,
    Echo,
    Type,
    Pwd,
    Cd,
}

/// The builtin that `name` names, if any.
pub open spec fn builtin_of(name: Seq<char>) -> Option<Builtin> {
    if name == "exit"@ {
        Some(Builtin::Exit)
    } else if name == "echo"@ {
        Some(Builtin::Echo)
    } else if name == "type"@ {
        Some(Builtin::Type)
    } else if name == "pwd"@ {
        Some(Builtin::Pwd)
    } else if name == "cd"@ {
        Some(Builtin::Cd)
    } else {
        None
    }
}

impl Builtin {
    /// The builtin named `name`, if any.
    pub fn from_name(name: &str) -> (r: Option<Builtin>)
        ensures
            r == builtin_of(name@),
    {
        if same_text(name, "exit") {
            Some(Builtin::Exit)
        } else if same_text(name, "echo") {
            Some(Builtin::Echo)
        } else if same_text(name, "type") {
            Some(Builtin::Type)
        } else if same_text(name, "pwd") {
            Some(Builtin::Pwd)
        } else if same_text(name, "cd") {
            Some(Builtin::Cd)
        } else {
            None
        }
    }
}

/// Whether `name` is a builtin.
pub fn is_builtin(name: &str) -> (r: bool)
    ensures
        r == builtin_of(name@) is Some,
{
    Builtin::from_name(name).is_some()
}

/// What `echo` prints: the arguments joined by single spaces, and a newline.
pub open spec fn echo_text(args: Seq<Seq<char>>) -> Seq<char> {
    join_with(args, " "@) + "\n"@
}

/// The output of `echo` with these arguments.
pub fn echo_output(args: &Vec<String>) -> (r: String)
    ensures
        r@ == echo_text(strings_view(args@)),
{
    let ghost words = strings_view(args@);
    let mut out = String::new();
    let mut i: usize = 0;
    assert(words.take(0) =~= Seq::<Seq<char>>::empty());
    while i < args.len()
        invariant
            0 <= i <= args.len(),
            words == strings_view(args@),
            out@ == join_with(words.take(i as int), " "@),
        decreases args.len() - i,
    {
        assert(words.take(i + 1).drop_last() =~= words.take(i as int));
        assert(words.take(i + 1).last() == args@[i as int]@);
        if i > 0 {
            out.append(" ");
        } else {
            assert(out@ =~= Seq::<char>::empty());
        }
        out.append(args[i].as_str());
        proof {
            if i == 0 {
                assert(words.take(1) =~= seq![args@[0]@]);
            }
        }
        i = i + 1;
    }
    assert(words.take(args.len() as int) =~= words);
    out.append("\n");
    out
}

/// What `type name` prints, given the path the index holds for `name`.
pub open spec fn type_text(name: Seq<char>, found: Option<Seq<char>>) -> Seq<char> {
    if builtin_of(name) is Some {
        name + " is a shell builtin\n"@
    } else if found is Some {
        name + " is "@ + found->0 + "\n"@
    } else {
        name + " not found\n"@
    }
}

/// A builtin was given the wrong number of arguments.
#[derive(Debug, PartialEq, Eq, Structural)]
pub struct UsageError;

/// The output of `type` with these arguments; exactly one is required.
pub fn type_output(args: &Vec<String>, index: &ExecutableIndex) -> (r: Result<String, UsageError>)
    ensures
        r is Err <==> args.len() != 1,
        r is Ok ==> r->Ok_0@ == type_text(args@[0]@, lookup_of(index@, args@[0]@)),
{
    if args.len() != 1 {
        return Err(UsageError);
    }
    let name = args[0].as_str();
    let mut out = args[0].clone();
    if is_builtin(name) {
        out.append(" is a shell builtin\n");
    } else {
        match index.lookup(name) {
            Some(path) => {
                out.append(" is ");
                out.append(path.as_str());
                out.append("\n");
            },
            None => {
                out.append(" not found\n");
            },
        }
    }
    Ok(out)
}

/// A decimal digit.
pub open spec fn is_digit(c: char) -> bool {
    '0' <= c && c <= '9'
}

/// The value of a sequence of decimal digits.
pub open spec fn digits_value(d: Seq<char>) -> int
    decreases d.len(),
{
    if d.len() == 0 {
        0
    } else {
        digits_value(d.drop_last()) * 10 + (d.last() as int - '0' as int)
    }
}

/// The value of one or more decimal digits; `None` for anything else.
pub open spec fn decimal_value(s: Seq<char>) -> Option<int> {
    if s.len() > 0 && forall|i: int| 0 <= i < s.len() ==> #[trigger] is_digit(s[i]) {
        Some(digits_value(s))
    } else {
        None
    }
}

/// The value of a decimal integer with an optional `+` or `-` sign.
pub open spec fn signed_value(s: Seq<char>) -> Option<int> {
    if s.len() > 0 && s[0] == '-' {
        match decimal_value(s.drop_first()) {
            Some(v) => Some(-v),
            None => None,
        }
    } else if s.len() > 0 && s[0] == '+' {
        decimal_value(s.drop_first())
    } else {
        decimal_value(s)
    }
}

/// The exit code that `s` denotes: a signed decimal integer within `i32`.
pub open spec fn exit_code_of(s: Seq<char>) -> Option<i32> {
    match signed_value(s) {
        Some(v) => if i32::MIN <= v && v <= i32::MAX {
            Some(v as i32)
        } else {
            None
        },
        None => None,
    }
}

proof fn lemma_digits_prefix(d: Seq<char>, k: int)
    requires
        0 <= k <= d.len(),
        forall|i: int| 0 <= i < d.len() ==> #[trigger] is_digit(d[i]),
    ensures
        0 <= digits_value(d.take(k)) <= digits_value(d),
    decreases d.len(),
{
    if k == d.len() {
        assert(d.take(k) =~= d);
        if d.len() > 0 {
            lemma_digits_prefix(d.drop_last(), k - 1);
            assert(d.drop_last().take(k - 1) =~= d.drop_last());
            assert(is_digit(d[d.len() - 1]));
        }
    } else {
        lemma_digits_prefix(d.drop_last(), k);
        assert(d.drop_last().take(k) =~= d.take(k));
        lemma_digits_prefix(d.drop_last(), d.len() - 1);
        assert(d.drop_last().take(d.len() - 1) =~= d.drop_last());
        assert(is_digit(d[d.len() - 1]));
    }
}

/// Parses an exit code: a decimal integer with an optional sign that fits
/// in `i32`.
pub fn parse_exit_code(s: &str) -> (r: Option<i32>)
    ensures
        r == exit_code_of(s@),
{
    let chars = chars_of(s);
    let n = chars.len();
    if n == 0 {
        return None;
    }
    let negative = chars[0] == '-';
    let start: usize = if chars[0] == '-' || chars[0] == '+' {
        1
    } else {
        0
    };
    let ghost digits = chars@.subrange(start as int, n as int);
    proof {
        if start == 1 {
            assert(digits =~= chars@.drop_first());
        } else {
            assert(digits =~= chars@);
        }
    }
    assert(signed_value(s@) == (if negative {
        match decimal_value(digits) {
            Some(v) => Some(-v),
            None => None,
        }
    } else {
        decimal_value(digits)
    }));
    if start == n {
        return None;
    }
    let mut acc: u64 = 0;
    let mut i: usize = start;
    assert(digits.take(0) =~= Seq::<char>::empty());
    while i < n
        invariant
            chars@ == s@,
            n == chars.len(),
            start <= i <= n,
            digits == chars@.subrange(start as int, n as int),
            acc as int == digits_value(digits.take(i - start)),
            acc <= 2147483648,
            signed_value(s@) == (if negative {
                match decimal_value(digits) {
                    Some(v) => Some(-v),
                    None => None,
                }
            } else {
                decimal_value(digits)
            }),
            forall|k: int| 0 <= k < i - start ==> #[trigger] is_digit(digits[k]),
        decreases n - i,
    {
        let c = chars[i];
        assert(digits[i - start] == c);
        if !('0' <= c && c <= '9') {
            assert(!is_digit(digits[i - start]));
            assert(decimal_value(digits) is None);
            assert(signed_value(s@) is None);
            return None;
        }
        let d: u64 = (c as u32 - '0' as u32) as u64;
        assert(digits.take(i - start + 1).drop_last() =~= digits.take(i - start));
        assert(digits.take(i - start + 1).last() == c);
        acc = acc * 10 + d;
        assert(acc as int == digits_value(digits.take(i - start + 1)));
        if acc > 2147483648 {
            proof {
                if forall|k: int| 0 <= k < digits.len() ==> #[trigger] is_digit(digits[k]) {
                    lemma_digits_prefix(digits, i - start + 1);
                    assert(decimal_value(digits) == Some(digits_value(digits)));
                } else {
                    assert(decimal_value(digits) is None);
                }
            }
            return None;
        }
        i = i + 1;
    }
    assert(digits.take(n - start) =~= digits);
    if negative {
        Some((0 - (acc as i64)) as i32)
    } else if acc <= 2147483647 {
        Some(acc as i32)
    } else {
        None
    }
}

/// The decimal digit for `d`, which lies in 0..=9.
pub open spec fn digit_char(d: int) -> char {
    ((d + 48) as u8) as char
}

/// The decimal numeral of a natural number, without leading zeros.
pub open spec fn nat_text(n: nat) -> Seq<char>
    decreases n,
{
    if n < 10 {
        seq![digit_char(n as int)]
    } else {
        nat_text(n / 10).push(digit_char((n % 10) as int))
    }
}

/// The decimal numeral of an integer, with `-` before a negative one.
pub open spec fn int_text(n: int) -> Seq<char> {
    if n < 0 {
        seq!['-'] + nat_text((-n) as nat)
    } else {
        nat_text(n as nat)
    }
}

proof fn lemma_digit_char(d: int)
    requires
        0 <= d < 10,
    ensures
        is_digit(digit_char(d)),
        digit_char(d) as int - '0' as int == d,
{
    assert(((d + 48) as u8) as int == d + 48);
}

proof fn lemma_nat_text_value(n: nat)
    ensures
        nat_text(n).len() > 0,
        forall|i: int| 0 <= i < nat_text(n).len() ==> #[trigger] is_digit(nat_text(n)[i]),
        digits_value(nat_text(n)) == n,
    decreases n,
{
    if n < 10 {
        lemma_digit_char(n as int);
        assert(nat_text(n).drop_last() =~= Seq::<char>::empty());
        assert(digits_value(Seq::<char>::empty()) == 0);
    } else {
        lemma_digit_char((n % 10) as int);
        lemma_nat_text_value(n / 10);
        vstd::arithmetic::div_mod::lemma_fundamental_div_mod(n as int, 10);
        let t = nat_text(n);
        assert(t.drop_last() =~= nat_text(n / 10));
        assert(t.last() == digit_char((n % 10) as int));
        assert(digits_value(t) == digits_value(nat_text(n / 10)) * 10 + (n % 10));
        assert((n / 10) * 10 + n % 10 == n);
        assert forall|i: int| 0 <= i < t.len() implies #[trigger] is_digit(t[i]) by {
            if i < t.len() - 1 {
                assert(t[i] == nat_text(n / 10)[i]);
            }
        }
    }
}

/// The numeral of any `i32` is read back as that same exit code.
pub proof fn lemma_exit_code_of_numeral(n: i32)
    ensures
        exit_code_of(int_text(n as int)) == Some(n),
{
    if n < 0 {
        let m = (-(n as int)) as nat;
        lemma_nat_text_value(m);
        assert(int_text(n as int).drop_first() =~= nat_text(m));
    } else {
        lemma_nat_text_value(n as nat);
        assert(is_digit(nat_text(n as nat)[0]));
    }
}

/// What `exit` with the given arguments asks for.
#[derive(Debug, PartialEq, Eq, Structural)]
pub enum ExitRequest {
    /// No argument: nothing happens.
    Stay,
    /// End the process with this code.
    Terminate(i32),
    /// The one argument is not a valid exit code.
    NotANumber,
    /// More than one argument.
    TooManyArguments,
}

/// Decides what `exit` does with these arguments.
pub fn exit_request(args: &Vec<String>) -> (r: ExitRequest)
    ensures
        args.len() == 0 ==> r == ExitRequest::Stay,
        args.len() == 1 ==> r == match exit_code_of(args@[0]@) {
            Some(c) => ExitRequest::Terminate(c),
            None => ExitRequest::NotANumber,
        },
        args.len() > 1 ==> r == ExitRequest::TooManyArguments,
{
    if args.len() == 0 {
        ExitRequest::Stay
    } else if args.len() == 1 {
        match parse_exit_code(args[0].as_str()) {
            Some(c) => ExitRequest::Terminate(c),
            None => ExitRequest::NotANumber,
        }
    } else {
        ExitRequest::TooManyArguments
    }
}

/// Why `cd` could not pick a target directory.
#[derive(Debug, PartialEq, Eq, Structural)]
pub enum CdError {
    /// Not exactly one argument.
    Usage,
    /// `~` was given and the home-directory variable is unset.
    HomeUnset,
}

/// Picks the directory that `cd` goes to: `~` alone stands for `home`, any
/// other argument for itself.
pub fn cd_target(args: &Vec<String>, home: Option<String>) -> (r: Result<String, CdError>)
    ensures
        args.len() != 1 ==> r == Err::<String, CdError>(CdError::Usage),
        args.len() == 1 && args@[0]@ == "~"@ ==> match home {
            Some(h) => r is Ok && r->Ok_0@ == h@,
            None => r == Err::<String, CdError>(CdError::HomeUnset),
        },
        args.len() == 1 && args@[0]@ != "~"@ ==> r is Ok && r->Ok_0@ == args@[0]@,
{
    if args.len() != 1 {
        return Err(CdError::Usage);
    }
    if same_text(args[0].as_str(), "~") {
        match home {
            Some(h) => Ok(h),
            None => Err(CdError::HomeUnset),
        }
    } else {
        Ok(args[0].clone())
    }
}

/// What `cd` prints when it cannot enter the directory it was given.
pub open spec fn cd_failure_text(arg: Seq<char>) -> Seq<char> {
    "cd: "@ + arg + ": No such file or directory\n"@
}

/// The report of a failed `cd` to `arg`.
pub fn cd_failure_message(arg: &str) -> (r: String)
    ensures
        r@ == cd_failure_text(arg@),
{
    let mut out = String::new();
    out.append("cd: ");
    out.append(arg);
    out.append(": No such file or directory\n");
    out
}

} // verus!
