//! The search commands: a literal or regex search and a fuzzy file picker.
use vstd::prelude::*;
use crate::search::SearchService;
use crate::text::{join_with, joined, string_views};

verus! {

/// The search commands.
pub enum SearchCommand {
    /// Run a fast literal/regex search using ripgrep.
    Grep(SearchArgs),
    /// Fuzzy-find note paths using fzf.
    Fzf(SearchArgs),
}

/// The arguments of a search.
pub struct SearchArgs {
    /// Query string to search for, word by word.
    pub query: Vec<String>,
}

/// Which tool a search runs, and with which arguments.
pub enum SearchPlan {
    /// Run ripgrep with these arguments in the vault.
    Grep(Vec<String>),
    /// List the files with ripgrep and pick among them with fzf, which gets
    /// these arguments.
    Fzf(Vec<String>),
}

/// The query of a search command: its words with single spaces between them.
pub open spec fn query_of(cmd: SearchCommand) -> Seq<char> {
    match cmd {
        SearchCommand::Grep(args) => joined(string_views(args.query@), " "@),
        SearchCommand::Fzf(args) => joined(string_views(args.query@), " "@),
    }
}

/// Decides which tool a search command runs, and with which arguments.
pub fn handle(cmd: SearchCommand, service: &SearchService) -> (plan: SearchPlan)
    ensures
        match cmd {
            SearchCommand::Grep(_) => plan matches SearchPlan::Grep(args) && args@.len() == 5
                && args@[0]@ == "--hidden"@ && args@[1]@ == "--glob"@ && args@[2]@ == "!.git"@
                && args@[3]@ == query_of(cmd) && args@[4]@ == "."@,
            SearchCommand::Fzf(_) => plan matches SearchPlan::Fzf(args) && args@.len() == 3
                && args@[0]@ == "--ansi"@ && args@[1]@ == "--query"@ && args@[2]@ == query_of(cmd),
        },
{
    match cmd {
        SearchCommand::Grep(args) => {
            let query = join_with(&args.query, " ");
            SearchPlan::Grep(service.grep(query.as_str()))
        },
        SearchCommand::Fzf(args) => {
            let query = join_with(&args.query, " ");
            SearchPlan::Fzf(service.fuzzy(query.as_str()))
        },
    }
}

} // verus!
