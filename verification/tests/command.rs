use shellcore::action::{Action, HistoryRequest};
use shellcore::builtin::Builtin;
use shellcore::command::{
    command_not_found_message, cd_failure_message, home_or_root, is_executable,
    type_lookup_message, Command,
};
use shellcore::shell::Shell;
use shellcore::sink::Sink;
use shellcore::text::is_valid_identifier;

fn cmd(args: &[&str]) -> Command {
    let mut c = Command::new(Shell::new());
    for a in args {
        c.push_arg(a);
    }
    c
}

fn arg_list(c: &Command) -> Vec<&str> {
    c.args().iter().map(String::as_str).collect()
}

fn with_streams(shell: Shell, name: &str, args: &[&str]) -> Command {
    let mut c = Command::new(shell);
    c.push_arg(name);
    for a in args {
        c.push_arg(a);
    }
    c.set_output(Sink::new());
    c.set_err(Sink::new());
    c
}

fn complete_cmd(shell: Shell, args: &[&str]) -> Command {
    with_streams(shell, "complete", args)
}

fn declare_cmd(shell: Shell, args: &[&str]) -> Command {
    with_streams(shell, "declare", args)
}

fn out(c: &Command) -> &str {
    c.output().text()
}

fn err(c: &Command) -> &str {
    c.err().text()
}

#[test]
fn push_arg_sets_name_then_args() {
    let c = cmd(&["echo", "hello", "world"]);
    assert_eq!(c.name(), "echo");
    assert_eq!(arg_list(&c), &["hello", "world"]);
}

#[test]
fn is_empty_when_no_args() {
    let c = Command::new(Shell::new());
    assert!(c.is_empty());
}

#[test]
fn is_builtin_matches() {
    let c = cmd(&["echo"]);
    assert!(c.is_builtin());
}

#[test]
fn is_builtin_rejects_unknown() {
    let c = cmd(&["foobar"]);
    assert!(!c.is_builtin());
}

#[test]
fn pop_background_token_removes_trailing_ampersand() {
    let mut c = cmd(&["sleep", "500", "&"]);
    assert!(c.pop_background_token());
    assert_eq!(c.name(), "sleep");
    assert_eq!(arg_list(&c), &["500"]);
}

#[test]
fn pop_background_token_no_ampersand() {
    let mut c = cmd(&["sleep", "500"]);
    assert!(!c.pop_background_token());
    assert_eq!(arg_list(&c), &["500"]);
}

#[test]
fn pop_background_token_ampersand_not_last() {
    let mut c = cmd(&["echo", "&", "hello"]);
    assert!(!c.pop_background_token());
    assert_eq!(arg_list(&c), &["&", "hello"]);
}

#[test]
fn complete_p_missing_prints_error_to_stderr() {
    let mut c = complete_cmd(Shell::new(), &["-p", "git"]);
    assert_eq!(c.execute(), Action::Finished);
    assert_eq!(out(&c), "");
    assert_eq!(err(&c), "complete: git: no completion specification\n");
}

#[test]
fn complete_c_then_p_prints_registered_spec() {
    let shell = Shell::new();
    let mut reg = complete_cmd(shell, &["-C", "/path/to/git", "git"]);
    assert_eq!(reg.execute(), Action::Finished);
    let mut q = complete_cmd(reg.into_shell(), &["-p", "git"]);
    assert_eq!(q.execute(), Action::Finished);
    assert_eq!(out(&q), "complete -C '/path/to/git' git\n");
    assert_eq!(err(&q), "");
}

#[test]
fn complete_r_removes_registration() {
    let mut shell = Shell::new();
    shell.completions.register("git".into(), "/path".into());
    let mut rm = complete_cmd(shell, &["-r", "git"]);
    assert_eq!(rm.execute(), Action::Finished);
    let shell = rm.into_shell();
    assert_eq!(shell.completions.get("git"), None);
}

#[test]
fn complete_r_absent_is_silent() {
    let shell = Shell::new();
    let mut rm = complete_cmd(shell, &["-r", "git"]);
    assert_eq!(rm.execute(), Action::Finished);
    assert_eq!(out(&rm), "");
    assert_eq!(err(&rm), "");
}

#[test]
fn declare_p_missing_prints_error_to_stderr() {
    let mut c = declare_cmd(Shell::new(), &["-p", "missing"]);
    assert_eq!(c.execute(), Action::Finished);
    assert_eq!(out(&c), "");
    assert_eq!(err(&c), "declare: missing: not found\n");
}

#[test]
fn declare_set_then_p_prints_value() {
    let shell = Shell::new();
    let mut set = declare_cmd(shell, &["foo=bar"]);
    assert_eq!(set.execute(), Action::Finished);
    let mut q = declare_cmd(set.into_shell(), &["-p", "foo"]);
    assert_eq!(q.execute(), Action::Finished);
    assert_eq!(out(&q), "declare -- foo=\"bar\"\n");
    assert_eq!(err(&q), "");
}

#[test]
fn declare_rejects_digit_start_identifier() {
    let shell = Shell::new();
    let mut c = declare_cmd(shell, &["23=x"]);
    assert_eq!(c.execute(), Action::Finished);
    assert_eq!(out(&c), "");
    assert_eq!(err(&c), "declare: `23=x': not a valid identifier\n");
    let shell = c.into_shell();
    assert_eq!(shell.variables.get("23"), None);
}

#[test]
fn declare_accepts_underscore_start_identifier() {
    let shell = Shell::new();
    let mut set = declare_cmd(shell, &["_FOO=bar"]);
    assert_eq!(set.execute(), Action::Finished);
    let mut q = declare_cmd(set.into_shell(), &["-p", "_FOO"]);
    assert_eq!(q.execute(), Action::Finished);
    assert_eq!(out(&q), "declare -- _FOO=\"bar\"\n");
}

#[test]
fn is_valid_identifier_rules() {
    assert!(is_valid_identifier("foo"));
    assert!(is_valid_identifier("_foo"));
    assert!(is_valid_identifier("FOO_BAR_2"));
    assert!(!is_valid_identifier(""));
    assert!(!is_valid_identifier("2foo"));
    assert!(!is_valid_identifier("foo-bar"));
    assert!(!is_valid_identifier("foo.bar"));
}

#[test]
fn declare_overwrites_existing_value() {
    let mut shell = Shell::new();
    for v in ["foo=bar", "foo=bar2"] {
        let mut c = declare_cmd(shell, &[v]);
        assert_eq!(c.execute(), Action::Finished);
        shell = c.into_shell();
    }
    let mut q = declare_cmd(shell, &["-p", "foo"]);
    assert_eq!(q.execute(), Action::Finished);
    assert_eq!(out(&q), "declare -- foo=\"bar2\"\n");
}

#[test]
fn type_declare_is_shell_builtin() {
    let mut c = Command::new(Shell::new());
    c.push_arg("type");
    c.push_arg("declare");
    c.set_output(Sink::new());
    assert_eq!(c.execute(), Action::Finished);
    assert_eq!(out(&c), "declare is a shell builtin\n");
}

// Further cases.

#[test]
fn new_command_writes_to_fresh_streams() {
    let c = Command::new(Shell::new());
    assert_eq!(c.name(), "");
    assert!(c.args().is_empty());
    assert!(!c.is_redirected());
    assert_eq!(out(&c), "");
    assert_eq!(err(&c), "");
}

#[test]
fn set_output_and_set_err_redirect() {
    let mut c = cmd(&["echo"]);
    c.set_err(Sink::new());
    assert!(c.is_redirected());
    let mut d = cmd(&["echo"]);
    d.set_output(Sink::new());
    assert!(d.is_redirected());
}

#[test]
fn echo_joins_arguments_with_spaces() {
    let mut c = cmd(&["echo", "a", "b c", "d"]);
    assert_eq!(c.execute(), Action::Finished);
    assert_eq!(out(&c), "a b c d\n");
    let mut e = cmd(&["echo"]);
    assert_eq!(e.execute(), Action::Finished);
    assert_eq!(out(&e), "\n");
}

#[test]
fn builtin_names_ignore_ascii_case() {
    assert!(cmd(&["ECHO"]).is_builtin());
    assert!(cmd(&["Declare"]).is_builtin());
    assert!(cmd(&["pWd"]).is_builtin());
    assert!(!cmd(&["echoo"]).is_builtin());
    assert!(!cmd(&["ech"]).is_builtin());
    assert_eq!(Builtin::from_name("tYpE"), Some(Builtin::Type));
    assert_eq!(Builtin::from_name("history"), Some(Builtin::History));
    assert_eq!(Builtin::from_name(""), None);
}

#[test]
fn builtin_name_selects_it() {
    let all = [
        Builtin::Cd,
        Builtin::Complete,
        Builtin::Declare,
        Builtin::Echo,
        Builtin::Exit,
        Builtin::History,
        Builtin::Jobs,
        Builtin::Pwd,
        Builtin::Type,
    ];
    for b in all {
        assert_eq!(Builtin::from_name(b.name()), Some(b));
    }
    assert_eq!(Builtin::Cd.name(), "Cd");
    assert_eq!(Builtin::Complete.name(), "Complete");
}

#[test]
fn unknown_command_is_left_to_run_outside() {
    let mut c = cmd(&["ls", "-l"]);
    assert_eq!(c.execute(), Action::RunExternal(false));
    let mut d = cmd(&["ls"]);
    d.set_output(Sink::new());
    assert_eq!(d.execute(), Action::RunExternal(true));
}

#[test]
fn cd_targets() {
    assert_eq!(cmd(&["cd"]).execute(), Action::ChangeDir(None));
    assert_eq!(cmd(&["cd", "~"]).execute(), Action::ChangeDir(None));
    assert_eq!(cmd(&["cd", "/tmp", "x"]).execute(), Action::ChangeDir(Some("/tmp".to_string())));
}

#[test]
fn exit_status_from_first_argument() {
    assert_eq!(cmd(&["exit"]).execute(), Action::Exit(0));
    assert_eq!(cmd(&["exit", "3"]).execute(), Action::Exit(3));
    assert_eq!(cmd(&["exit", "-7"]).execute(), Action::Exit(-7));
    assert_eq!(cmd(&["exit", "+2"]).execute(), Action::Exit(2));
    assert_eq!(cmd(&["exit", "abc"]).execute(), Action::Exit(0));
    assert_eq!(cmd(&["exit", "2147483648"]).execute(), Action::Exit(0));
    assert_eq!(cmd(&["exit", "-2147483648"]).execute(), Action::Exit(i32::MIN));
}

#[test]
fn pwd_and_jobs_are_left_to_the_caller() {
    assert_eq!(cmd(&["pwd"]).execute(), Action::PrintWorkingDir);
    assert_eq!(cmd(&["jobs"]).execute(), Action::PrintJobs);
}

#[test]
fn history_requests() {
    assert_eq!(cmd(&["history"]).execute(), Action::History(HistoryRequest::Print(None)));
    assert_eq!(cmd(&["history", "5"]).execute(), Action::History(HistoryRequest::Print(Some(5))));
    assert_eq!(cmd(&["history", "-c"]).execute(), Action::History(HistoryRequest::Clear));
    assert_eq!(
        cmd(&["history", "-r", "f"]).execute(),
        Action::History(HistoryRequest::Read("f".to_string()))
    );
    assert_eq!(
        cmd(&["history", "-w"]).execute(),
        Action::History(HistoryRequest::Write(String::new()))
    );
    assert_eq!(
        cmd(&["history", "-a", "g", "h"]).execute(),
        Action::History(HistoryRequest::Append("g".to_string()))
    );
}

#[test]
fn history_errors() {
    let mut c = cmd(&["history", "-x"]);
    assert_eq!(c.execute(), Action::Finished);
    assert_eq!(err(&c), "history: -x: invalid option\n");
    let mut d = cmd(&["history", "-c", "1"]);
    assert_eq!(d.execute(), Action::Finished);
    assert_eq!(err(&d), "history: -c: invalid option\n");
    let mut e = cmd(&["history", "ten"]);
    assert_eq!(e.execute(), Action::Finished);
    assert_eq!(err(&e), "history: ten: numeric argument required\n");
    assert_eq!(out(&e), "");
}

#[test]
fn type_of_other_names_is_looked_up() {
    assert_eq!(cmd(&["type", "ls"]).execute(), Action::LocateType("ls".to_string()));
    let mut c = cmd(&["type"]);
    assert_eq!(c.execute(), Action::Finished);
    assert_eq!(out(&c), "");
}

#[test]
fn declare_edge_cases() {
    let mut c = declare_cmd(Shell::new(), &["-p"]);
    assert_eq!(c.execute(), Action::Finished);
    assert_eq!(err(&c), "declare: `-p': not a valid identifier\n");
    let mut d = declare_cmd(Shell::new(), &["name"]);
    assert_eq!(d.execute(), Action::Finished);
    assert_eq!(d.into_shell().variables.get("name"), Some(String::new()));
    let mut e = declare_cmd(Shell::new(), &["a=b=c"]);
    assert_eq!(e.execute(), Action::Finished);
    assert_eq!(e.into_shell().variables.get("a"), Some("b=c".to_string()));
    let mut f = declare_cmd(Shell::new(), &["a", "b"]);
    assert_eq!(f.execute(), Action::Finished);
    assert_eq!(out(&f), "");
    assert_eq!(err(&f), "");
}

#[test]
fn complete_other_forms_do_nothing() {
    let mut c = complete_cmd(Shell::new(), &["-C", "x"]);
    assert_eq!(c.execute(), Action::Finished);
    assert_eq!(out(&c), "");
    assert_eq!(err(&c), "");
}

#[test]
fn execute_to_output_captures_and_restores() {
    let mut c = cmd(&["echo", "hi"]);
    let (action, captured) = c.execute_to_output(Sink::new());
    assert_eq!(action, Action::Finished);
    assert_eq!(captured.text(), "hi\n");
    assert_eq!(out(&c), "");
    assert!(!c.is_redirected());
    let mut d = cmd(&["ls"]);
    let (action, _) = d.execute_to_output(Sink::new());
    assert_eq!(action, Action::RunExternal(true));
    assert!(!d.is_redirected());
}

#[test]
fn take_output_drains_the_stream() {
    let mut c = cmd(&["echo", "x"]);
    let _ = c.execute();
    assert_eq!(c.take_output().text(), "x\n");
    assert_eq!(out(&c), "");
    let mut d = cmd(&["history", "-z"]);
    let _ = d.execute();
    assert_eq!(d.take_err().text(), "history: -z: invalid option\n");
    assert_eq!(err(&d), "");
}

#[test]
fn follow_up_messages() {
    assert_eq!(cd_failure_message("/nope"), "cd: /nope: No such file or directory");
    assert_eq!(type_lookup_message("ls", Some("/bin/ls")), "ls is /bin/ls");
    assert_eq!(type_lookup_message("zz", None), "zz: not found");
    assert_eq!(command_not_found_message("zz"), "zz: command not found");
    assert_eq!(home_or_root(Some("/home/u".to_string())), "/home/u");
    assert_eq!(home_or_root(None), "/");
}

#[test]
fn executable_bits() {
    assert!(is_executable(Some((true, 0o755))));
    assert!(is_executable(Some((true, 0o001))));
    assert!(!is_executable(Some((true, 0o644))));
    assert!(!is_executable(Some((false, 0o755))));
    assert!(!is_executable(None));
}

#[test]
fn declare_then_expand_law_example() {
    let mut set = declare_cmd(Shell::new(), &["name=world"]);
    let _ = set.execute();
    let shell = set.into_shell();
    assert_eq!(shell.variables.expand("hello $name"), "hello world");
}
