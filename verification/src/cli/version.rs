//! The version command.
use vstd::prelude::*;
use crate::text::string_views;

verus! {

/// The arguments of `version`.
pub struct VersionCommand {
    /// Output version information as JSON.
    pub json: bool,
    /// Show additional build metadata when available.
    pub verbose: bool,
}

/// What is known of the build.
pub struct VersionInfo {
    pub name: String,
    pub version: String,
    pub description: Option<String>,
    pub git_commit: Option<String>,
    pub build_timestamp: Option<String>,
}

/// What the version command shows.
pub enum VersionOutput {
    /// The build information as JSON.
    Json,
    /// These lines.
    Lines(Vec<String>),
}

/// The line for a value that may be unknown: label and value, or no line.
pub open spec fn optional_line(label: Seq<char>, value: Option<String>) -> Seq<Seq<char>> {
    match value {
        Some(v) => seq![label + v@],
        None => Seq::empty(),
    }
}

/// The lines that the version command prints: name and version, and with
/// `verbose` the description, the commit and the build time, where known.
pub open spec fn version_lines(verbose: bool, info: VersionInfo) -> Seq<Seq<char>> {
    let first = seq![info.name@ + " "@ + info.version@];
    if verbose {
        first + optional_line(Seq::empty(), info.description) + optional_line(
            "commit: "@,
            info.git_commit,
        ) + optional_line("built: "@, info.build_timestamp)
    } else {
        first
    }
}

fn push_optional(out: &mut Vec<String>, label: &str, value: &Option<String>)
    ensures
        string_views(final(out)@) == string_views(old(out)@) + optional_line(label@, *value),
{
    match value {
        Some(v) => {
            let mut line = label.to_owned();
            line.append(v.as_str());
            out.push(line);
            assert(string_views(out@) =~= string_views(old(out)@) + optional_line(label@, *value));
        },
        None => {
            assert(string_views(out@) =~= string_views(old(out)@) + optional_line(label@, *value));
        },
    }
}

/// Decides what the version command shows.
pub fn handle(cmd: VersionCommand, info: &VersionInfo) -> (out: VersionOutput)
    ensures
        cmd.json ==> out is Json,
        !cmd.json ==> (out matches VersionOutput::Lines(lines) && string_views(lines@)
            == version_lines(cmd.verbose, *info)),
{
    if cmd.json {
        return VersionOutput::Json;
    }
    let mut lines: Vec<String> = Vec::new();
    let mut first = info.name.clone();
    first.append(" ");
    first.append(info.version.as_str());
    lines.push(first);
    assert(string_views(lines@) =~= seq![info.name@ + " "@ + info.version@]);
    if cmd.verbose {
        proof {
            reveal_strlit("");
            assert(""@ =~= Seq::<char>::empty());
        }
        push_optional(&mut lines, "", &info.description);
        push_optional(&mut lines, "commit: ", &info.git_commit);
        push_optional(&mut lines, "built: ", &info.build_timestamp);
    }
    VersionOutput::Lines(lines)
}

} // verus!
