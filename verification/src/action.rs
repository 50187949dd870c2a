//! What is left for the caller to do after a command has decided: the work
//! that needs the file system, the environment, processes, or the shell's
//! history and job table.
use vstd::prelude::*;

verus! {

/// What `history` asks of the shell's history.
#[derive(Debug, PartialEq, Eq)]
pub enum HistoryRequest {
    /// Print the history; with `Some(n)`, only its last `n` entries.
    Print(Option<usize>),
    /// Forget every entry.
    Clear,
    /// Append the lines of the named file to the history.
    Read(String),
    /// Write the history to the named file.
    Write(String),
    /// Append the history to the named file.
    Append(String),
}

/// The model of a [`HistoryRequest`].
pub enum HistoryRequestView {
    Print(Option<usize>),
    Clear,
    Read(Seq<char>),
    Write(Seq<char>),
    Append(Seq<char>),
}

impl View for HistoryRequest {
    type V = HistoryRequestView;

    open spec fn view(&self) -> HistoryRequestView {
        match self {
            HistoryRequest::Print(n) => HistoryRequestView::Print(*n),
            HistoryRequest::Clear => HistoryRequestView::Clear,
            HistoryRequest::Read(f) => HistoryRequestView::Read(f@),
            HistoryRequest::Write(f) => HistoryRequestView::Write(f@),
            HistoryRequest::Append(f) => HistoryRequestView::Append(f@),
        }
    }
}

/// The outside work that finishes a command.
#[derive(Debug, PartialEq, Eq)]
pub enum Action {
    /// Nothing is left to do.
    Finished,
    /// Change the working directory: to the given path, or, with `None`, to
    /// the home directory.
    ChangeDir(Option<String>),
    /// Print the working directory.
    PrintWorkingDir,
    /// Print the job table.
    PrintJobs,
    /// Serve a request on the history.
    History(HistoryRequest),
    /// Save the history and end the process with this status.
    Exit(i32),
    /// Look the name up in `PATH` and report what `type` found.
    LocateType(String),
    /// Run the command as a program found in `PATH`; with `true`, its output
    /// is captured into the command's streams, else it is inherited.
    RunExternal(bool),
}

/// The model of an [`Action`].
pub enum ActionView {
    Finished,
    ChangeDir(Option<Seq<char>>),
    PrintWorkingDir,
    PrintJobs,
    History(HistoryRequestView),
    Exit(i32),
    LocateType(Seq<char>),
    RunExternal(bool),
}

impl View for Action {
    type V = ActionView;

    open spec fn view(&self) -> ActionView {
        match self {
            Action::Finished => ActionView::Finished,
            Action::ChangeDir(t) => ActionView::ChangeDir(
                match t {
                    Some(p) => Some(p@),
                    None => None,
                },
            ),
            Action::PrintWorkingDir => ActionView::PrintWorkingDir,
            Action::PrintJobs => ActionView::PrintJobs,
            Action::History(h) => ActionView::History(h@),
            Action::Exit(s) => ActionView::Exit(*s),
            Action::LocateType(c) => ActionView::LocateType(c@),
            Action::RunExternal(r) => ActionView::RunExternal(*r),
        }
    }
}

} // verus!
