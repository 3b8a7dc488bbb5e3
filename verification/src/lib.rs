//! Verified core of a small interactive shell.
//!
//! The library holds the parts of the shell that decide and compute: the
//! tokenizer that splits a raw input line into words under the shell's
//! quoting and escaping rules, the extraction of output redirections from a
//! word list, the search-path resolver, the pure logic of the builtin
//! commands (`echo`, `pwd`, `cd`, `type`, `cat`, `exit`), and the dispatcher
//! that turns a line into a command plan.  Reading input, touching the
//! filesystem and the environment, and spawning processes are left to the
//! surrounding program, which hands the results to these functions as plain
//! values.

pub mod builtins;
pub mod dispatch;
pub mod path_search;
pub mod redirect;
pub mod strutil;
pub mod tokenize;
