//! A command line: its name and arguments, the streams it writes to, and what
//! running it does to the shell.
use vstd::prelude::*;

use crate::action::{Action, ActionView, HistoryRequest, HistoryRequestView};
use crate::builtin::{builtin_named, Builtin};
use crate::shell::Shell;
use crate::sink::Sink;
use crate::text::{
    char_vec, find_char, first_index_of, is_valid_identifier, join, join_strings, parse_i32,
    parse_i32_spec, parse_usize, parse_usize_spec, starts_with_char, str_eq, string_of,
    valid_identifier, views,
};

verus! {

/// The model of a [`Command`].
#[verifier::ext_equal]
pub struct CommandView {
    pub name: Seq<char>,
    pub args: Seq<Seq<char>>,
    /// What was written to the output stream.
    pub output: Seq<char>,
    /// What was written to the error stream.
    pub err: Seq<char>,
    /// Whether an output or error stream was set in place of the terminal's.
    pub redirected: bool,
    pub completions: Map<Seq<char>, Seq<char>>,
    pub variables: Map<Seq<char>, Seq<char>>,
}

/// What running a command does: the shell's new state, the text it writes
/// to each stream, and the work left for the caller.
#[verifier::ext_equal]
pub struct Outcome {
    pub completions: Map<Seq<char>, Seq<char>>,
    pub variables: Map<Seq<char>, Seq<char>>,
    pub out: Seq<char>,
    pub err: Seq<char>,
    pub action: ActionView,
}

/// `s` as a written line.
pub open spec fn line(s: Seq<char>) -> Seq<char> {
    s + seq!['\n']
}

/// Nothing written, nothing changed, nothing left to do.
pub open spec fn finished(c: CommandView) -> Outcome {
    Outcome {
        completions: c.completions,
        variables: c.variables,
        out: Seq::empty(),
        err: Seq::empty(),
        action: ActionView::Finished,
    }
}

/// Writes the line `msg` to the output stream.
pub open spec fn printing(c: CommandView, msg: Seq<char>) -> Outcome {
    Outcome { out: line(msg), ..finished(c) }
}

/// Writes the line `msg` to the error stream.
pub open spec fn complaining(c: CommandView, msg: Seq<char>) -> Outcome {
    Outcome { err: line(msg), ..finished(c) }
}

/// Leaves `a` to the caller.
pub open spec fn asking(c: CommandView, a: ActionView) -> Outcome {
    Outcome { action: a, ..finished(c) }
}

/// The command after `o` has happened to it.
pub open spec fn apply(c: CommandView, o: Outcome) -> CommandView {
    CommandView {
        output: c.output + o.out,
        err: c.err + o.err,
        completions: o.completions,
        variables: o.variables,
        ..c
    }
}

pub open spec fn declare_line(name: Seq<char>, value: Seq<char>) -> Seq<char> {
    "declare -- "@ + name + "=\""@ + value + "\""@
}

pub open spec fn declare_not_found(name: Seq<char>) -> Seq<char> {
    "declare: "@ + name + ": not found"@
}

pub open spec fn declare_invalid(spec: Seq<char>) -> Seq<char> {
    "declare: `"@ + spec + "': not a valid identifier"@
}

pub open spec fn complete_line(path: Seq<char>, cmd: Seq<char>) -> Seq<char> {
    "complete -C '"@ + path + "' "@ + cmd
}

pub open spec fn complete_missing(cmd: Seq<char>) -> Seq<char> {
    "complete: "@ + cmd + ": no completion specification"@
}

pub open spec fn history_invalid_option(flag: Seq<char>) -> Seq<char> {
    "history: "@ + flag + ": invalid option"@
}

pub open spec fn history_numeric_required(arg: Seq<char>) -> Seq<char> {
    "history: "@ + arg + ": numeric argument required"@
}

pub open spec fn type_builtin_line(cmd: Seq<char>) -> Seq<char> {
    cmd + " is a shell builtin"@
}

pub open spec fn type_found_line(cmd: Seq<char>, path: Seq<char>) -> Seq<char> {
    cmd + " is "@ + path
}

pub open spec fn type_not_found_line(cmd: Seq<char>) -> Seq<char> {
    cmd + ": not found"@
}

pub open spec fn command_not_found_line(name: Seq<char>) -> Seq<char> {
    name + ": command not found"@
}

pub open spec fn cd_failed_line(target: Seq<char>) -> Seq<char> {
    "cd: "@ + target + ": No such file or directory"@
}

/// `s` split at its first `=`: the name before it and the value after it,
/// or all of `s` and an empty value when it holds no `=`.
pub open spec fn split_assignment(s: Seq<char>) -> (Seq<char>, Seq<char>) {
    let k = first_index_of(s, '=');
    if k < s.len() {
        (s.take(k), s.skip(k + 1))
    } else {
        (s, Seq::empty())
    }
}

/// `complete -C PATH CMD`, `complete -r CMD`, `complete -p CMD`.
pub open spec fn complete_outcome(c: CommandView) -> Outcome {
    let a = c.args;
    if a.len() == 3 && a[0] == "-C"@ {
        Outcome { completions: c.completions.insert(a[2], a[1]), ..finished(c) }
    } else if a.len() == 2 && a[0] == "-r"@ {
        Outcome { completions: c.completions.remove(a[1]), ..finished(c) }
    } else if a.len() == 2 && a[0] == "-p"@ {
        if c.completions.dom().contains(a[1]) {
            printing(c, complete_line(c.completions[a[1]], a[1]))
        } else {
            complaining(c, complete_missing(a[1]))
        }
    } else {
        finished(c)
    }
}

/// `declare -p NAME`, `declare NAME=VALUE`, `declare NAME`.
pub open spec fn declare_outcome(c: CommandView) -> Outcome {
    let a = c.args;
    if a.len() == 2 && a[0] == "-p"@ {
        if c.variables.dom().contains(a[1]) {
            printing(c, declare_line(a[1], c.variables[a[1]]))
        } else {
            complaining(c, declare_not_found(a[1]))
        }
    } else if a.len() == 1 {
        let parts = split_assignment(a[0]);
        if valid_identifier(parts.0) {
            Outcome { variables: c.variables.insert(parts.0, parts.1), ..finished(c) }
        } else {
            complaining(c, declare_invalid(a[0]))
        }
    } else {
        finished(c)
    }
}

/// `history`, `history N`, `history -c`, `history -r|-w|-a [FILE]`.
pub open spec fn history_outcome(c: CommandView) -> Outcome {
    let a = c.args;
    if a.len() == 0 {
        asking(c, ActionView::History(HistoryRequestView::Print(None)))
    } else if a.len() == 1 && a[0] == "-c"@ {
        asking(c, ActionView::History(HistoryRequestView::Clear))
    } else if a[0] == "-r"@ || a[0] == "-w"@ || a[0] == "-a"@ {
        let file = if a.len() > 1 {
            a[1]
        } else {
            Seq::empty()
        };
        asking(
            c,
            ActionView::History(
                if a[0] == "-r"@ {
                    HistoryRequestView::Read(file)
                } else if a[0] == "-w"@ {
                    HistoryRequestView::Write(file)
                } else {
                    HistoryRequestView::Append(file)
                },
            ),
        )
    } else if a[0].len() > 0 && a[0][0] == '-' {
        complaining(c, history_invalid_option(a[0]))
    } else {
        match parse_usize_spec(a[0]) {
            Some(n) => asking(c, ActionView::History(HistoryRequestView::Print(Some(n)))),
            None => complaining(c, history_numeric_required(a[0])),
        }
    }
}

/// `type CMD`: builtins are reported at once, other names are looked up.
pub open spec fn type_outcome(c: CommandView) -> Outcome {
    if c.args.len() == 0 {
        finished(c)
    } else if builtin_named(c.args[0]) is Some {
        printing(c, type_builtin_line(c.args[0]))
    } else {
        asking(c, ActionView::LocateType(c.args[0]))
    }
}

/// The status that `exit` ends with: its first argument as an `i32`, else 0.
pub open spec fn exit_status(args: Seq<Seq<char>>) -> i32 {
    if args.len() > 0 {
        match parse_i32_spec(args[0]) {
            Some(n) => n,
            None => 0,
        }
    } else {
        0
    }
}

/// Where `cd` goes: home with no argument or `~`, else its first argument.
pub open spec fn cd_target(args: Seq<Seq<char>>) -> Option<Seq<char>> {
    if args.len() == 0 || args[0] == "~"@ {
        None
    } else {
        Some(args[0])
    }
}

/// What running the command `c` does.
pub open spec fn exec_outcome(c: CommandView) -> Outcome {
    match builtin_named(c.name) {
        None => asking(c, ActionView::RunExternal(c.redirected)),
        Some(b) => match b {
            Builtin::Cd => asking(c, ActionView::ChangeDir(cd_target(c.args))),
            Builtin::Complete => complete_outcome(c),
            Builtin::Declare => declare_outcome(c),
            Builtin::Echo => printing(c, join(c.args, " "@)),
            Builtin::Exit => asking(c, ActionView::Exit(exit_status(c.args))),
            Builtin::History => history_outcome(c),
            Builtin::Jobs => asking(c, ActionView::PrintJobs),
            Builtin::Pwd => asking(c, ActionView::PrintWorkingDir),
            Builtin::Type => type_outcome(c),
        },
    }
}

pub proof fn lemma_apply_finished(c: CommandView)
    ensures
        apply(c, finished(c)) == c,
        apply(c, asking(c, ActionView::Finished)) == c,
{
    assert(apply(c, finished(c)) =~= c);
}

/// A command line being built and run.
pub struct Command {
    name: String,
    args: Vec<String>,
    output: Sink,
    err: Sink,
    redirected: bool,
    shell: Shell,
}

impl View for Command {
    type V = CommandView;

    closed spec fn view(&self) -> CommandView {
        CommandView {
            name: self.name@,
            args: views(self.args@),
            output: self.output@,
            err: self.err@,
            redirected: self.redirected,
            completions: self.shell.completions@,
            variables: self.shell.variables@,
        }
    }
}

impl Command {
    /// An empty command that acts on `shell` and writes to fresh streams.
    pub fn new(shell: Shell) -> (c: Self)
        ensures
            c@ == (CommandView {
                name: Seq::empty(),
                args: Seq::empty(),
                output: Seq::empty(),
                err: Seq::empty(),
                redirected: false,
                completions: shell.completions@,
                variables: shell.variables@,
            }),
    {
        let c = Command {
            name: String::new(),
            args: Vec::new(),
            output: Sink::new(),
            err: Sink::new(),
            redirected: false,
            shell,
        };
        assert(views(c.args@) =~= Seq::<Seq<char>>::empty());
        c
    }

    /// The command's name.
    pub fn name(&self) -> (r: &str)
        ensures
            r@ == self@.name,
    {
        self.name.as_str()
    }

    /// The command's arguments.
    pub fn args(&self) -> (r: &Vec<String>)
        ensures
            views(r@) == self@.args,
    {
        &self.args
    }

    /// The shell the command acts on.
    pub fn shell(&self) -> (r: &Shell)
        ensures
            r.completions@ == self@.completions,
            r.variables@ == self@.variables,
    {
        &self.shell
    }

    /// Gives back the shell the command acted on.
    pub fn into_shell(self) -> (r: Shell)
        ensures
            r.completions@ == self@.completions,
            r.variables@ == self@.variables,
    {
        self.shell
    }

    /// What was written to the output stream.
    pub fn output(&self) -> (r: &Sink)
        ensures
            r@ == self@.output,
    {
        &self.output
    }

    /// What was written to the error stream.
    pub fn err(&self) -> (r: &Sink)
        ensures
            r@ == self@.err,
    {
        &self.err
    }

    /// Whether an output or error stream was set.
    pub fn is_redirected(&self) -> (r: bool)
        ensures
            r == self@.redirected,
    {
        self.redirected
    }

    /// Hands over what was written to the output stream and starts it afresh.
    pub fn take_output(&mut self) -> (r: Sink)
        ensures
            r@ == old(self)@.output,
            final(self)@ == (CommandView { output: Seq::empty(), ..old(self)@ }),
    {
        let mut r = Sink::new();
        std::mem::swap(&mut r, &mut self.output);
        r
    }

    /// Hands over what was written to the error stream and starts it afresh.
    pub fn take_err(&mut self) -> (r: Sink)
        ensures
            r@ == old(self)@.err,
            final(self)@ == (CommandView { err: Seq::empty(), ..old(self)@ }),
    {
        let mut r = Sink::new();
        std::mem::swap(&mut r, &mut self.err);
        r
    }

    /// The first word becomes the name, each later one an argument.
    pub fn push_arg(&mut self, current_arg: &str)
        ensures
            old(self)@.name.len() == 0 ==> final(self)@ == (CommandView {
                name: current_arg@,
                ..old(self)@
            }),
            old(self)@.name.len() != 0 ==> final(self)@ == (CommandView {
                args: old(self)@.args.push(current_arg@),
                ..old(self)@
            }),
    {
        if self.name.as_str().is_empty() {
            self.name = String::from_str(current_arg);
        } else {
            let ghost before = self.args@;
            self.args.push(String::from_str(current_arg));
            assert(views(self.args@) =~= views(before).push(current_arg@));
        }
    }

    /// Sends the command's output to `output` from now on.
    pub fn set_output(&mut self, output: Sink)
        ensures
            final(self)@ == (CommandView { output: output@, redirected: true, ..old(self)@ }),
    {
        self.output = output;
        self.redirected = true;
    }

    /// Sends the command's errors to `err` from now on.
    pub fn set_err(&mut self, err: Sink)
        ensures
            final(self)@ == (CommandView { err: err@, redirected: true, ..old(self)@ }),
    {
        self.err = err;
        self.redirected = true;
    }

    /// Whether no word was given yet.
    pub fn is_empty(&self) -> (r: bool)
        ensures
            r == (self@.name.len() == 0),
    {
        self.name.as_str().is_empty()
    }

    /// Whether the name is that of a builtin.
    pub fn is_builtin(&self) -> (r: bool)
        ensures
            r == (builtin_named(self@.name) is Some),
    {
        Builtin::from_name(self.name.as_str()).is_some()
    }

    /// Removes a last argument `&`, which asks to run the command in the
    /// background, and tells whether there was one.
    pub fn pop_background_token(&mut self) -> (r: bool)
        ensures
            r == (old(self)@.args.len() > 0 && old(self)@.args.last() == "&"@),
            r ==> final(self)@ == (CommandView {
                args: old(self)@.args.drop_last(),
                ..old(self)@
            }),
            !r ==> final(self)@ == old(self)@,
    {
        let n = self.args.len();
        if n > 0 && str_eq(self.args[n - 1].as_str(), "&") {
            let ghost before = self.args@;
            let _ = self.args.pop();
            assert(views(self.args@) =~= views(before).drop_last());
            true
        } else {
            false
        }
    }

    fn print_out(&mut self, msg: &str)
        ensures
            final(self)@ == (CommandView {
                output: old(self)@.output + line(msg@),
                ..old(self)@
            }),
    {
        self.output.write_line(msg);
        assert(self.output@ =~= old(self)@.output + line(msg@));
    }

    fn print_err(&mut self, msg: &str)
        ensures
            final(self)@ == (CommandView { err: old(self)@.err + line(msg@), ..old(self)@ }),
    {
        self.err.write_line(msg);
        assert(self.err@ =~= old(self)@.err + line(msg@));
    }
}

impl Command {
    fn handle_complete(&mut self) -> (r: Action)
        ensures
            final(self)@ == apply(old(self)@, complete_outcome(old(self)@)),
            r@ == complete_outcome(old(self)@).action,
    {
        let ghost c = self@;
        let n = self.args.len();
        assert(n == c.args.len());
        if n == 3 && str_eq(self.args[0].as_str(), "-C") {
            assert(c.args[0] == self.args@[0]@);
            let cmd = self.args[2].clone();
            let path = self.args[1].clone();
            assert(cmd@ == c.args[2] && path@ == c.args[1]);
            self.shell.completions.register(cmd, path);
            assert(self@ =~= apply(c, complete_outcome(c)));
        } else if n == 2 && str_eq(self.args[0].as_str(), "-r") {
            assert(c.args[0] == self.args@[0]@);
            assert(self.args@[1]@ == c.args[1]);
            self.shell.completions.remove(self.args[1].as_str());
            assert(self@ =~= apply(c, complete_outcome(c)));
        } else if n == 2 && str_eq(self.args[0].as_str(), "-p") {
            assert(c.args[0] == self.args@[0]@);
            assert(self.args@[1]@ == c.args[1]);
            let cmd = self.args[1].clone();
            match self.shell.completions.get(cmd.as_str()) {
                Some(path) => {
                    let mut m = String::from_str("complete -C '");
                    m.append(path.as_str());
                    m.append("' ");
                    m.append(cmd.as_str());
                    self.print_out(m.as_str());
                },
                None => {
                    let mut m = String::from_str("complete: ");
                    m.append(cmd.as_str());
                    m.append(": no completion specification");
                    self.print_err(m.as_str());
                },
            }
            assert(self@ =~= apply(c, complete_outcome(c)));
        } else {
            proof {
                if n == 3 || n == 2 {
                    assert(c.args[0] == self.args@[0]@);
                }
                lemma_apply_finished(c);
            }
        }
        Action::Finished
    }

    fn handle_declare(&mut self) -> (r: Action)
        ensures
            final(self)@ == apply(old(self)@, declare_outcome(old(self)@)),
            r@ == declare_outcome(old(self)@).action,
    {
        let ghost c = self@;
        let n = self.args.len();
        assert(n == c.args.len());
        if n == 2 && str_eq(self.args[0].as_str(), "-p") {
            assert(c.args[0] == self.args@[0]@);
            assert(self.args@[1]@ == c.args[1]);
            let name = self.args[1].clone();
            match self.shell.variables.get(name.as_str()) {
                Some(value) => {
                    let mut m = String::from_str("declare -- ");
                    m.append(name.as_str());
                    m.append("=\"");
                    m.append(value.as_str());
                    m.append("\"");
                    self.print_out(m.as_str());
                },
                None => {
                    let mut m = String::from_str("declare: ");
                    m.append(name.as_str());
                    m.append(": not found");
                    self.print_err(m.as_str());
                },
            }
            assert(self@ =~= apply(c, declare_outcome(c)));
        } else if n == 1 {
            proof {
                if n == 2 {
                    assert(c.args[0] == self.args@[0]@);
                }
            }
            let spec = self.args[0].clone();
            assert(spec@ == c.args[0]);
            let v = char_vec(spec.as_str());
            let k = find_char(&v, 0, '=');
            assert(v@.skip(0) =~= v@);
            let name = string_of(&v, 0, k);
            let value = if k < v.len() {
                string_of(&v, k + 1, v.len())
            } else {
                String::new()
            };
            let ghost parts = split_assignment(c.args[0]);
            assert(name@ =~= parts.0);
            assert(value@ =~= parts.1);
            if is_valid_identifier(name.as_str()) {
                self.shell.variables.set(name, value);
            } else {
                let mut m = String::from_str("declare: `");
                m.append(spec.as_str());
                m.append("': not a valid identifier");
                self.print_err(m.as_str());
            }
            assert(self@ =~= apply(c, declare_outcome(c)));
        } else {
            proof {
                if n == 2 {
                    assert(c.args[0] == self.args@[0]@);
                }
                lemma_apply_finished(c);
            }
        }
        Action::Finished
    }

    fn handle_echo(&mut self) -> (r: Action)
        ensures
            final(self)@ == apply(old(self)@, printing(old(self)@, join(old(self)@.args, " "@))),
            r@ == ActionView::Finished,
    {
        let ghost c = self@;
        let arg_str = join_strings(&self.args, " ");
        self.print_out(arg_str.as_str());
        assert(self@ =~= apply(c, printing(c, join(c.args, " "@))));
        Action::Finished
    }

    fn handle_history(&mut self) -> (r: Action)
        ensures
            final(self)@ == apply(old(self)@, history_outcome(old(self)@)),
            r@ == history_outcome(old(self)@).action,
    {
        let ghost c = self@;
        let n = self.args.len();
        assert(n == c.args.len());
        if n == 0 {
            proof { lemma_apply_finished(c); }
            assert(self@ =~= apply(c, history_outcome(c)));
            return Action::History(HistoryRequest::Print(None));
        }
        let first = self.args[0].clone();
        assert(first@ == c.args[0]);
        if n == 1 && str_eq(first.as_str(), "-c") {
            assert(self@ =~= apply(c, history_outcome(c)));
            return Action::History(HistoryRequest::Clear);
        }
        let is_read = str_eq(first.as_str(), "-r");
        let is_write = str_eq(first.as_str(), "-w");
        let is_append = str_eq(first.as_str(), "-a");
        if is_read || is_write || is_append {
            let file = if n > 1 {
                self.args[1].clone()
            } else {
                String::new()
            };
            proof {
                if n > 1 {
                    assert(self.args@[1]@ == c.args[1]);
                }
            }
            assert(self@ =~= apply(c, history_outcome(c)));
            if is_read {
                Action::History(HistoryRequest::Read(file))
            } else if is_write {
                Action::History(HistoryRequest::Write(file))
            } else {
                Action::History(HistoryRequest::Append(file))
            }
        } else if starts_with_char(first.as_str(), '-') {
            let mut m = String::from_str("history: ");
            m.append(first.as_str());
            m.append(": invalid option");
            self.print_err(m.as_str());
            assert(self@ =~= apply(c, history_outcome(c)));
            Action::Finished
        } else {
            match parse_usize(first.as_str()) {
                Some(count) => {
                    assert(self@ =~= apply(c, history_outcome(c)));
                    Action::History(HistoryRequest::Print(Some(count)))
                },
                None => {
                    let mut m = String::from_str("history: ");
                    m.append(first.as_str());
                    m.append(": numeric argument required");
                    self.print_err(m.as_str());
                    assert(self@ =~= apply(c, history_outcome(c)));
                    Action::Finished
                },
            }
        }
    }

    fn handle_type(&mut self) -> (r: Action)
        ensures
            final(self)@ == apply(old(self)@, type_outcome(old(self)@)),
            r@ == type_outcome(old(self)@).action,
    {
        let ghost c = self@;
        if self.args.len() == 0 {
            proof { lemma_apply_finished(c); }
            return Action::Finished;
        }
        let cmd = self.args[0].clone();
        assert(cmd@ == c.args[0]);
        match Builtin::from_name(cmd.as_str()) {
            Some(_) => {
                let mut m = cmd.clone();
                m.append(" is a shell builtin");
                self.print_out(m.as_str());
                assert(self@ =~= apply(c, type_outcome(c)));
                Action::Finished
            },
            None => {
                assert(self@ =~= apply(c, type_outcome(c)));
                Action::LocateType(cmd)
            },
        }
    }

    /// Runs the command as far as the shell itself can: a builtin changes the
    /// shell and writes its text; what needs the outside world is handed back.
    pub fn execute(&mut self) -> (r: Action)
        ensures
            final(self)@ == apply(old(self)@, exec_outcome(old(self)@)),
            r@ == exec_outcome(old(self)@).action,
    {
        let ghost c = self@;
        match Builtin::from_name(self.name.as_str()) {
            None => {
                assert(self@ =~= apply(c, exec_outcome(c)));
                Action::RunExternal(self.redirected)
            },
            Some(builtin) => match builtin {
                Builtin::Cd => {
                    let target = if self.args.len() == 0 {
                        None
                    } else if str_eq(self.args[0].as_str(), "~") {
                        None
                    } else {
                        Some(self.args[0].clone())
                    };
                    proof {
                        if self.args.len() > 0 {
                            assert(self.args@[0]@ == c.args[0]);
                        }
                    }
                    assert(self@ =~= apply(c, exec_outcome(c)));
                    Action::ChangeDir(target)
                },
                Builtin::Complete => self.handle_complete(),
                Builtin::Declare => self.handle_declare(),
                Builtin::Echo => self.handle_echo(),
                Builtin::Exit => {
                    let status = if self.args.len() > 0 {
                        assert(self.args@[0]@ == c.args[0]);
                        match parse_i32(self.args[0].as_str()) {
                            Some(s) => s,
                            None => 0,
                        }
                    } else {
                        0
                    };
                    assert(self@ =~= apply(c, exec_outcome(c)));
                    Action::Exit(status)
                },
                Builtin::History => self.handle_history(),
                Builtin::Jobs => {
                    assert(self@ =~= apply(c, exec_outcome(c)));
                    Action::PrintJobs
                },
                Builtin::Pwd => {
                    assert(self@ =~= apply(c, exec_outcome(c)));
                    Action::PrintWorkingDir
                },
                Builtin::Type => self.handle_type(),
            },
        }
    }

    /// Runs the command with its output sent to `out`, then gives the output
    /// stream back as it was and clears the redirection; returns what is left
    /// to do and `out` with what the command wrote to it.
    pub fn execute_to_output(&mut self, out: Sink) -> (r: (Action, Sink))
        ensures
            ({
                let c = CommandView { output: out@, redirected: true, ..old(self)@ };
                let o = exec_outcome(c);
                &&& r.0@ == o.action
                &&& r.1@ == out@ + o.out
                &&& final(self)@ == (CommandView {
                    output: old(self)@.output,
                    redirected: false,
                    ..apply(c, o)
                })
            }),
    {
        let mut orig_out = out;
        std::mem::swap(&mut orig_out, &mut self.output);
        self.redirected = true;
        let action = self.execute();
        std::mem::swap(&mut orig_out, &mut self.output);
        self.redirected = false;
        (action, orig_out)
    }
}

/// The permission bits that let the owner, the group or others execute a file.
pub const ANY_EXEC: u32 = 0o111;

/// Whether a file whose metadata could be read (`Some((is_file, mode))`)
/// can be run: it is a regular file with an execute bit set.
pub fn is_executable(metadata: Option<(bool, u32)>) -> (r: bool)
    ensures
        r == match metadata {
            Some((is_file, mode)) => is_file && (mode & ANY_EXEC) != 0,
            None => false,
        },
{
    match metadata {
        Some((is_file, mode)) => is_file && (mode & ANY_EXEC) != 0,
        None => false,
    }
}

/// Where `cd` with no argument goes: the value of `HOME`, or `/` when it is unset.
pub fn home_or_root(home: Option<String>) -> (r: String)
    ensures
        r@ == match home {
            Some(h) => h@,
            None => "/"@,
        },
{
    match home {
        Some(h) => h,
        None => String::from_str("/"),
    }
}

/// The line `cd` writes to the error stream when it cannot enter `target`.
pub fn cd_failure_message(target: &str) -> (r: String)
    ensures
        r@ == cd_failed_line(target@),
{
    let mut m = String::from_str("cd: ");
    m.append(target);
    m.append(": No such file or directory");
    m
}

/// The line `type` writes for a name that is no builtin, given where the
/// search of `PATH` found it.
pub fn type_lookup_message(cmd: &str, path: Option<&str>) -> (r: String)
    ensures
        r@ == match path {
            Some(p) => type_found_line(cmd@, p@),
            None => type_not_found_line(cmd@),
        },
{
    let mut m = String::from_str(cmd);
    match path {
        Some(p) => {
            m.append(" is ");
            m.append(p);
        },
        None => {
            m.append(": not found");
        },
    }
    m
}

/// The line written to the error stream when no program in `PATH` has the
/// command's name.
pub fn command_not_found_message(name: &str) -> (r: String)
    ensures
        r@ == command_not_found_line(name@),
{
    let mut m = String::from_str(name);
    m.append(": command not found");
    m
}

} // verus!
