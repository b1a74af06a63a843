//! The tool's command surface, as plain data. Argument parsing happens in
//! the surrounding binary, which converts what it parsed into these values.

use vstd::prelude::*;

verus! {

/// The parsed invocation.
#[derive(Debug)]
pub struct Wicli {
    pub commands: Command,
}

/// What the user asked for: managing the file sources, or a search.
#[derive(Debug)]
pub enum Command {
    Sources(SourcesSubcommand),
    Search { term: String },
}

/// The source-management actions.
#[derive(Debug)]
pub enum SourcesSubcommand {
    Add { path: String },
    List,
    Remove { path: String },
}

} // verus!
