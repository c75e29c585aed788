//! The template provider: the skeletons that new vault files start from.
use vstd::prelude::*;

verus! {

/// The skeleton of a daily note; `{{date}}` stands for the date of the day.
pub const DAILY_TEMPLATE: &'static str =
    "# Daily {{date}}\n\n## Highlights\n\n- \n\n## Tasks\n\n- [ ] \n\n## Notes\n\n- \n";

/// The skeleton of the task ledger.
pub const TASK_TEMPLATE: &'static str = "# Tasks\n\n- [ ] Example task\n";

/// Where the daily template is kept, relative to the vault root.
pub const DAILY_TEMPLATE_PATH: &'static str = "templates/daily.md";

/// Where the task template is kept, relative to the vault root.
pub const TASK_TEMPLATE_PATH: &'static str = "templates/task.md";

/// A template file and the skeleton that it holds unless someone changed it.
pub struct TemplateFile {
    /// The path of the file, relative to the vault root.
    pub path: String,
    pub default: String,
}

/// The text of a template: what its file holds, or the skeleton where the
/// file does not exist.
pub open spec fn template_text(stored: Option<String>, default: Seq<char>) -> Seq<char> {
    match stored {
        Some(t) => t@,
        None => default,
    }
}

/// What to write into a file that must exist: nothing where it exists, else
/// the given default.
pub fn ensure_file(exists: bool, default: &str) -> (content: Option<String>)
    ensures
        exists ==> content is None,
        !exists ==> (content matches Some(c) && c@ == default@),
{
    if exists {
        None
    } else {
        Some(default.to_owned())
    }
}

/// The template files of a vault, each with its skeleton.
pub fn install_defaults() -> (files: Vec<TemplateFile>)
    ensures
        files@.len() == 2,
        files@[0].path@ == DAILY_TEMPLATE_PATH@,
        files@[0].default@ == DAILY_TEMPLATE@,
        files@[1].path@ == TASK_TEMPLATE_PATH@,
        files@[1].default@ == TASK_TEMPLATE@,
{
    let mut files: Vec<TemplateFile> = Vec::new();
    files.push(
        TemplateFile { path: DAILY_TEMPLATE_PATH.to_owned(), default: DAILY_TEMPLATE.to_owned() },
    );
    files.push(
        TemplateFile { path: TASK_TEMPLATE_PATH.to_owned(), default: TASK_TEMPLATE.to_owned() },
    );
    files
}

/// The text of a template whose file holds `stored`.
pub fn load_template(stored: Option<String>, default: &str) -> (text: String)
    ensures
        text@ == template_text(stored, default@),
{
    match stored {
        Some(text) => text,
        None => default.to_owned(),
    }
}

/// The daily template: what its file holds, or the skeleton of a daily note.
pub fn load_daily_template(stored: Option<String>) -> (text: String)
    ensures
        text@ == template_text(stored, DAILY_TEMPLATE@),
{
    load_template(stored, DAILY_TEMPLATE)
}

/// The task template: what its file holds, or the skeleton of the ledger.
pub fn load_task_template(stored: Option<String>) -> (text: String)
    ensures
        text@ == template_text(stored, TASK_TEMPLATE@),
{
    load_template(stored, TASK_TEMPLATE)
}

} // verus!
