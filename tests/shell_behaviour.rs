use minishell::builtins::{
    cd_failure_message, cd_target, echo_output, exit_request, is_builtin, parse_exit_code,
    type_output, Builtin, CdError, ExitRequest, UsageError,
};
use minishell::path_index::{is_runnable, split_search_path, DirEntryInfo, ExecutableIndex};
use minishell::shell::{Action, Shell};
use minishell::text::same_text;
use minishell::tokenize::{command_from_words, parse_user_input, ParseError};

fn strings(words: &[&str]) -> Vec<String> {
    words.iter().map(|w| w.to_string()).collect()
}

fn exe(name: &str, dir: &str) -> DirEntryInfo {
    DirEntryInfo {
        name: name.to_string(),
        path: format!("{}/{}", dir, name),
        is_file: true,
        mode: 0o755,
    }
}

fn sample_index() -> ExecutableIndex {
    let dirs = vec![
        vec![exe("ls", "/bin"), exe("cat", "/bin")],
        vec![exe("ls", "/usr/bin"), exe("grep", "/usr/bin")],
    ];
    ExecutableIndex::build(&dirs)
}

fn sample_shell() -> Shell {
    Shell::new(sample_index(), "/start".to_string())
}

#[test]
fn tokenize_keeps_quoted_whitespace_and_escaped_quote() {
    let cmd = parse_user_input(r#"echo 'a  b' "c\"d""#).unwrap();
    assert_eq!(cmd.command, "echo");
    assert_eq!(cmd.args, strings(&["a  b", "c\"d"]));
}

#[test]
fn tokenize_empty_line() {
    let cmd = parse_user_input("").unwrap();
    assert_eq!(cmd.command, "");
    assert!(cmd.args.is_empty());
    let blank = parse_user_input("   \n").unwrap();
    assert_eq!(blank.command, "");
    assert!(blank.args.is_empty());
}

#[test]
fn tokenize_backslash_outside_quotes() {
    let cmd = parse_user_input(r"echo a\ b c").unwrap();
    assert_eq!(cmd.args, strings(&["a b", "c"]));
}

#[test]
fn tokenize_rejects_unterminated_quote() {
    assert_eq!(parse_user_input("echo 'abc"), Err(ParseError));
    assert_eq!(parse_user_input("echo \"abc"), Err(ParseError));
}

#[test]
fn words_split_into_command_and_arguments() {
    let cmd = command_from_words(strings(&["ls", "-l", "/tmp"]));
    assert_eq!(cmd.command, "ls");
    assert_eq!(cmd.args, strings(&["-l", "/tmp"]));
    let none = command_from_words(Vec::new());
    assert_eq!(none.command, "");
    assert!(none.args.is_empty());
}

#[test]
fn echo_joins_with_single_spaces() {
    assert_eq!(echo_output(&strings(&["a", "b", "c"])), "a b c\n");
    assert_eq!(echo_output(&strings(&["hello"])), "hello\n");
}

#[test]
fn echo_without_arguments_prints_empty_line() {
    assert_eq!(echo_output(&Vec::new()), "\n");
}

#[test]
fn builtin_names() {
    assert_eq!(Builtin::from_name("exit"), Some(Builtin::Exit));
    assert_eq!(Builtin::from_name("echo"), Some(Builtin::Echo));
    assert_eq!(Builtin::from_name("type"), Some(Builtin::Type));
    assert_eq!(Builtin::from_name("pwd"), Some(Builtin::Pwd));
    assert_eq!(Builtin::from_name("cd"), Some(Builtin::Cd));
    assert_eq!(Builtin::from_name("ls"), None);
    assert_eq!(Builtin::from_name("Echo"), None);
    assert!(is_builtin("cd"));
    assert!(!is_builtin(""));
}

#[test]
fn type_reports_builtins() {
    let index = sample_index();
    for b in ["exit", "echo", "type", "pwd", "cd"] {
        assert_eq!(
            type_output(&strings(&[b]), &index),
            Ok(format!("{} is a shell builtin\n", b))
        );
    }
}

#[test]
fn type_reports_indexed_path_and_missing_names() {
    let index = sample_index();
    assert_eq!(type_output(&strings(&["cat"]), &index), Ok("cat is /bin/cat\n".to_string()));
    assert_eq!(
        type_output(&strings(&["nosuch"]), &index),
        Ok("nosuch not found\n".to_string())
    );
}

#[test]
fn type_needs_exactly_one_argument() {
    let index = sample_index();
    assert_eq!(type_output(&Vec::new(), &index), Err(UsageError));
    assert_eq!(type_output(&strings(&["ls", "cat"]), &index), Err(UsageError));
}

#[test]
fn exit_codes_parse_as_i32() {
    assert_eq!(parse_exit_code("0"), Some(0));
    assert_eq!(parse_exit_code("42"), Some(42));
    assert_eq!(parse_exit_code("-1"), Some(-1));
    assert_eq!(parse_exit_code("+7"), Some(7));
    assert_eq!(parse_exit_code("007"), Some(7));
    assert_eq!(parse_exit_code("2147483647"), Some(i32::MAX));
    assert_eq!(parse_exit_code("-2147483648"), Some(i32::MIN));
}

#[test]
fn exit_codes_reject_non_integers() {
    assert_eq!(parse_exit_code(""), None);
    assert_eq!(parse_exit_code("-"), None);
    assert_eq!(parse_exit_code("+"), None);
    assert_eq!(parse_exit_code("abc"), None);
    assert_eq!(parse_exit_code("12a"), None);
    assert_eq!(parse_exit_code("1 2"), None);
    assert_eq!(parse_exit_code("2147483648"), None);
    assert_eq!(parse_exit_code("-2147483649"), None);
    assert_eq!(parse_exit_code("99999999999999999999"), None);
}

#[test]
fn exit_request_by_argument_count() {
    assert_eq!(exit_request(&Vec::new()), ExitRequest::Stay);
    assert_eq!(exit_request(&strings(&["3"])), ExitRequest::Terminate(3));
    assert_eq!(exit_request(&strings(&["x"])), ExitRequest::NotANumber);
    assert_eq!(exit_request(&strings(&["1", "2"])), ExitRequest::TooManyArguments);
}

#[test]
fn exit_with_code_ends_the_process() {
    let sh = sample_shell();
    for n in [0, 1, 2, 255, -5, i32::MAX, i32::MIN] {
        let line = format!("exit {}", n);
        assert_eq!(sh.step(Some(&line), None), Action::Exit(n));
    }
}

#[test]
fn end_of_input_exits_with_zero() {
    assert_eq!(sample_shell().step(None, None), Action::Exit(0));
}

#[test]
fn exit_errors_are_reported() {
    let sh = sample_shell();
    assert_eq!(sh.step(Some("exit"), None), Action::Continue);
    assert_eq!(
        sh.step(Some("exit abc"), None),
        Action::Print("exit: abc: numeric argument required\n".to_string())
    );
    assert_eq!(
        sh.step(Some("exit 1 2"), None),
        Action::Print("exit: too many arguments\n".to_string())
    );
}

#[test]
fn first_directory_wins() {
    let index = sample_index();
    assert_eq!(index.lookup("ls"), Some("/bin/ls".to_string()));
    assert_eq!(index.lookup("grep"), Some("/usr/bin/grep".to_string()));
    assert_eq!(index.lookup("cat"), Some("/bin/cat".to_string()));
    assert_eq!(index.lookup("nosuch"), None);
}

#[test]
fn non_runnable_entries_are_skipped() {
    let mut plain = exe("notes", "/a");
    plain.mode = 0o644;
    let mut dir = exe("sub", "/a");
    dir.is_file = false;
    let mut group_only = exe("tool", "/a");
    group_only.mode = 0o010;
    assert!(!is_runnable(&plain));
    assert!(!is_runnable(&dir));
    assert!(is_runnable(&group_only));
    let index = ExecutableIndex::build(&vec![vec![plain, dir, group_only], vec![exe("notes", "/b")]]);
    assert_eq!(index.lookup("notes"), Some("/b/notes".to_string()));
    assert!(!index.contains("sub"));
    assert!(index.contains("tool"));
}

#[test]
fn insert_keeps_existing_path() {
    let mut index = ExecutableIndex::new();
    index.insert_if_absent("x".to_string(), "/one/x".to_string());
    index.insert_if_absent("x".to_string(), "/two/x".to_string());
    assert_eq!(index.lookup("x"), Some("/one/x".to_string()));
}

#[test]
fn search_path_splits_on_colons() {
    assert_eq!(split_search_path("/bin:/usr/bin"), strings(&["/bin", "/usr/bin"]));
    assert_eq!(split_search_path("/bin"), strings(&["/bin"]));
    assert_eq!(split_search_path(""), strings(&[""]));
    assert_eq!(split_search_path("a::b"), strings(&["a", "", "b"]));
    assert_eq!(split_search_path(":"), strings(&["", ""]));
}

#[test]
fn cd_to_missing_directory_keeps_working_directory() {
    let mut sh = sample_shell();
    let action = sh.step(Some("cd /does/not/exist"), None);
    assert_eq!(
        action,
        Action::ChangeDir { arg: "/does/not/exist".to_string(), target: "/does/not/exist".to_string() }
    );
    let out = sh.finish_cd("/does/not/exist", None);
    assert_eq!(out, "cd: /does/not/exist: No such file or directory\n");
    assert_eq!(sh.cwd, "/start");
    assert_eq!(sh.step(Some("pwd"), None), Action::Print("/start\n".to_string()));
}

#[test]
fn cd_home_then_pwd() {
    let mut sh = sample_shell();
    let action = sh.step(Some("cd ~"), Some("/home/user".to_string()));
    assert_eq!(action, Action::ChangeDir { arg: "~".to_string(), target: "/home/user".to_string() });
    assert_eq!(sh.finish_cd("~", Some("/home/user".to_string())), "");
    assert_eq!(sh.step(Some("pwd"), None), Action::Print("/home/user\n".to_string()));
}

#[test]
fn cd_target_rules() {
    assert_eq!(cd_target(&strings(&["~"]), None), Err(CdError::HomeUnset));
    assert_eq!(cd_target(&Vec::new(), None), Err(CdError::Usage));
    assert_eq!(cd_target(&strings(&["a", "b"]), None), Err(CdError::Usage));
    assert_eq!(cd_target(&strings(&["/tmp"]), None), Ok("/tmp".to_string()));
    assert_eq!(cd_target(&strings(&["~/x"]), Some("/h".to_string())), Ok("~/x".to_string()));
    assert_eq!(cd_failure_message("x"), "cd: x: No such file or directory\n");
}

#[test]
fn cd_errors_are_reported() {
    let sh = sample_shell();
    assert_eq!(sh.step(Some("cd ~"), None), Action::Print("cd: HOME not set\n".to_string()));
    assert_eq!(
        sh.step(Some("cd"), None),
        Action::Print("cd: expected exactly one argument\n".to_string())
    );
}

#[test]
fn unknown_command_then_next_command_works() {
    let sh = sample_shell();
    assert_eq!(
        sh.step(Some("frobnicate --now"), None),
        Action::Print("frobnicate: command not found\n".to_string())
    );
    assert_eq!(sh.step(Some("echo still here"), None), Action::Print("still here\n".to_string()));
}

#[test]
fn indexed_command_runs_resolved_path() {
    let sh = sample_shell();
    assert_eq!(
        sh.step(Some("ls -l '/my dir'"), None),
        Action::Run {
            name: "ls".to_string(),
            path: "/bin/ls".to_string(),
            args: strings(&["-l", "/my dir"]),
        }
    );
}

#[test]
fn type_through_the_shell() {
    let sh = sample_shell();
    assert_eq!(sh.step(Some("type grep"), None), Action::Print("grep is /usr/bin/grep\n".to_string()));
    assert_eq!(
        sh.step(Some("type"), None),
        Action::Print("type: expected exactly one argument\n".to_string())
    );
}

#[test]
fn malformed_line_is_reported() {
    assert_eq!(
        sample_shell().step(Some("echo 'oops"), None),
        Action::Print("parse error: unterminated quote or escape\n".to_string())
    );
}

#[test]
fn same_text_compares_characters() {
    assert!(same_text("abc", "abc"));
    assert!(!same_text("abc", "abd"));
    assert!(!same_text("abc", "ab"));
}
