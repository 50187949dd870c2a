//! The core of a small interactive shell: the builtins (`cd`, `complete`,
//! `declare`, `echo`, `exit`, `history`, `jobs`, `pwd`, `type`), the shell's
//! variables and completions, and `$NAME` / `${NAME}` expansion.
//!
//! Running a [`command::Command`] changes the shell and writes text to the
//! command's streams; what needs the file system, the environment, other
//! processes, or the shell's history and job table is handed back to the
//! caller as an [`action::Action`].
pub mod action;
pub mod builtin;
pub mod command;
pub mod completion;
pub mod laws;
pub mod shell;
pub mod sink;
mod table;
pub mod text;
pub mod variable;
