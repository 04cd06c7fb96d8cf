//! The command-line surface as plain data: the parsed invocation the
//! program acts on.  Reading the actual arguments happens outside the
//! library; it hands the library one of these values.

use vstd::prelude::*;

verus! {

/// A whole invocation: one optional subcommand.
pub struct Cli {
    pub command: Option<Commands>,
}

/// The subcommands and their arguments.
pub enum Commands {
    /// Add a new task.
    Add {
        title: Option<String>,
        limit: Option<String>,
        description: Option<String>,
        priority: Option<String>,
        tags: Option<String>,
        dep: Option<String>,
    },
    /// Mark a task as done.
    Done { id: Option<i64> },
    /// Remove a task.
    Remove { id: Option<i64> },
    /// List tasks.
    List { all: bool, tag: Option<String>, priority: Option<String>, order: Option<String> },
    /// Show one task in full.
    Show { id: Option<i64> },
    /// Edit one task field by field.
    Edit { id: Option<i64> },
    /// Run the interactive screen.
    Tui,
}

} // verus!
