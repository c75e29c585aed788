//! The protocol front end: what its four tools make of their arguments and
//! what they answer. Serving the protocol and touching files is left to the
//! caller; the tools work on the ledger, the journal store and the search.
use vstd::prelude::*;
use crate::codec::{Record, TaskEntry};
use crate::config::{opt_text, AppContext};
use crate::decimal::{decimal, push_decimal};
use crate::lines::{join_lines, line_views, split, split_lines};
use crate::tasks::{
    entry_view, find_titled, has_id, lowercase, records_of, set_status_lines, to_lowercase,
    TaskService,
};
use crate::text::{
    chars_of, has_prefix, join_with, joined, push_str, same_text, starts_with_in, string_of,
    string_views, text_of, trim, trim_bounds,
};

verus! {

/// Why a tool refused a call.
#[derive(Debug)]
pub enum ToolError {
    /// The status is none of the words for done or open.
    UnknownStatus(String),
    /// Neither an identifier nor a title says which task is meant.
    MissingTarget,
    /// No task has the identifier or the title.
    TaskNotFound,
    /// The scope of a summary is not today.
    BadScope(String),
    /// No tool has this name.
    UnknownTool(String),
    /// A step of the tool failed.
    Internal { context: String, error: String },
}

/// The tools of the front end.
#[derive(Clone, Copy, PartialEq, Eq, Structural, Debug)]
pub enum ToolKind {
    AppendDailyNote,
    UpdateTaskStatus,
    QueryKnowledge,
    SummarizeToday,
}

/// The front end over the configuration of a vault.
pub struct ObsctlMcpServer {
    ctx: AppContext,
}

impl ObsctlMcpServer {
    /// The configuration that the tools work with.
    pub closed spec fn spec_ctx(&self) -> AppContext {
        self.ctx
    }

    /// The front end over a loaded configuration.
    pub fn new(ctx: AppContext) -> (s: ObsctlMcpServer)
        ensures
            s.spec_ctx() == ctx,
    {
        ObsctlMcpServer { ctx }
    }

    /// The configuration that the tools work with.
    pub fn context(&self) -> (ctx: &AppContext)
        ensures
            *ctx == self.spec_ctx(),
    {
        &self.ctx
    }

    /// The names of the tools, in the order in which they are offered.
    pub fn list_available_tools(&self) -> (names: Vec<&'static str>)
        ensures
            names@.len() == 4,
            names@[0]@ == "append_daily_note"@,
            names@[1]@ == "update_task_status"@,
            names@[2]@ == "query_knowledge"@,
            names@[3]@ == "summarize_today"@,
    {
        let mut names: Vec<&'static str> = Vec::new();
        names.push("append_daily_note");
        names.push("update_task_status");
        names.push("query_knowledge");
        names.push("summarize_today");
        names
    }
}

/// The tool that a name stands for.
pub open spec fn tool_of(name: Seq<char>) -> Option<ToolKind> {
    if name == "append_daily_note"@ {
        Some(ToolKind::AppendDailyNote)
    } else if name == "update_task_status"@ {
        Some(ToolKind::UpdateTaskStatus)
    } else if name == "query_knowledge"@ {
        Some(ToolKind::QueryKnowledge)
    } else if name == "summarize_today"@ {
        Some(ToolKind::SummarizeToday)
    } else {
        None
    }
}

/// The tool that is called by `name`, or the refusal of an unknown name.
pub fn call_tool(name: &str) -> (r: Result<ToolKind, ToolError>)
    ensures
        match tool_of(name@) {
            Some(kind) => r matches Ok(k) && k == kind,
            None => r matches Err(ToolError::UnknownTool(n)) && n@ == name@,
        },
{
    if same_text(name, "append_daily_note") {
        Ok(ToolKind::AppendDailyNote)
    } else if same_text(name, "update_task_status") {
        Ok(ToolKind::UpdateTaskStatus)
    } else if same_text(name, "query_knowledge") {
        Ok(ToolKind::QueryKnowledge)
    } else if same_text(name, "summarize_today") {
        Ok(ToolKind::SummarizeToday)
    } else {
        Err(ToolError::UnknownTool(name.to_owned()))
    }
}

/// The status that a lowercase word stands for: `true` for done.
pub open spec fn status_of(word: Seq<char>) -> Option<bool> {
    if word == "done"@ || word == "complete"@ || word == "completed"@ || word == "finished"@ {
        Some(true)
    } else if word == "open"@ || word == "todo"@ || word == "pending"@ || word == "reopen"@
        || word == "reopened"@ {
        Some(false)
    } else {
        None
    }
}

/// The status that a lowercase word stands for, or the refusal of the word.
pub fn status_of_word(word: &str) -> (r: Result<bool, ToolError>)
    ensures
        match status_of(word@) {
            Some(done) => r matches Ok(d) && d == done,
            None => r matches Err(ToolError::UnknownStatus(w)) && w@ == word@,
        },
{
    if same_text(word, "done") || same_text(word, "complete") || same_text(word, "completed")
        || same_text(word, "finished") {
        Ok(true)
    } else if same_text(word, "open") || same_text(word, "todo") || same_text(word, "pending")
        || same_text(word, "reopen") || same_text(word, "reopened") {
        Ok(false)
    } else {
        Err(ToolError::UnknownStatus(word.to_owned()))
    }
}

/// The status that a word stands for, whatever its letter case.
pub fn normalize_status(input: &str) -> (r: Result<bool, ToolError>)
    ensures
        match status_of(lowercase(input@)) {
            Some(done) => r matches Ok(d) && d == done,
            None => r matches Err(ToolError::UnknownStatus(w)) && w@ == lowercase(input@),
        },
{
    let word = to_lowercase(input);
    status_of_word(word.as_str())
}

/// Whether a lowercase scope is the scope of today.
pub fn scope_is_today(scope: &str) -> (r: bool)
    ensures
        r == (scope@ == "today"@),
{
    same_text(scope, "today")
}

/// Accepts the scope of a summary: none, or today in any letter case.
pub fn check_scope(scope: Option<&str>) -> (r: Result<(), ToolError>)
    ensures
        match scope {
            Some(s) => if lowercase(s@) == "today"@ {
                r is Ok
            } else {
                r matches Err(ToolError::BadScope(t)) && t@ == s@
            },
            None => r is Ok,
        },
{
    match scope {
        Some(s) => {
            let lowered = to_lowercase(s);
            if scope_is_today(lowered.as_str()) {
                Ok(())
            } else {
                Err(ToolError::BadScope(s.to_owned()))
            }
        },
        None => Ok(()),
    }
}

/// Checks a request to update a task before the ledger is touched: the
/// status must be known, and an identifier or a title must be given.
pub fn check_update_request(id: Option<usize>, title: Option<&str>, status: &str) -> (r: Result<
    bool,
    ToolError,
>)
    ensures
        match status_of(lowercase(status@)) {
            Some(done) => if id is None && title is None {
                r matches Err(ToolError::MissingTarget)
            } else {
                r matches Ok(d) && d == done
            },
            None => r matches Err(ToolError::UnknownStatus(w)) && w@ == lowercase(status@),
        },
{
    let done = match normalize_status(status) {
        Ok(d) => d,
        Err(e) => {
            return Err(e);
        },
    };
    if id.is_none() && title.is_none() {
        return Err(ToolError::MissingTarget);
    }
    Ok(done)
}

/// The first of the records with identifier `id`.
pub open spec fn find_by_id(rs: Seq<Record>, id: usize) -> Option<Record>
    decreases rs.len(),
{
    if rs.len() == 0 {
        None
    } else if rs[0].id == id {
        Some(rs[0])
    } else {
        find_by_id(rs.skip(1), id)
    }
}

/// The task that a request means: the first with the identifier where one is
/// given, else the first with the title, apart from letter case.
pub open spec fn target_of(rs: Seq<Record>, id: Option<usize>, title: Option<Seq<char>>) -> Option<
    Record,
> {
    match id {
        Some(i) => find_by_id(rs, i),
        None => match title {
            Some(t) => find_titled(rs, t),
            None => None,
        },
    }
}

/// The word for a status in an answer.
pub open spec fn status_label(done: bool) -> Seq<char> {
    if done {
        "done"@
    } else {
        "open"@
    }
}

/// What the tool answers after it set the status of task `id`.
pub open spec fn update_answer(id: usize, done: bool) -> Seq<char> {
    "Task #"@ + decimal(id as nat) + " marked as "@ + status_label(done)
}

/// The first of the entries with identifier `id`.
pub fn entry_with_id(entries: Vec<TaskEntry>, id: usize) -> (found: Option<TaskEntry>)
    ensures
        entry_view(found) == find_by_id(crate::tasks::entry_views(entries@), id),
{
    let ghost es = crate::tasks::entry_views(entries@);
    let mut pool = entries;
    let mut i: usize = 0;
    proof {
        assert(es.skip(0) =~= es);
    }
    while i < pool.len()
        invariant
            i <= pool@.len(),
            es == crate::tasks::entry_views(pool@),
            es == crate::tasks::entry_views(entries@),
            find_by_id(es, id) == find_by_id(es.skip(i as int), id),
        decreases pool@.len() - i,
    {
        proof {
            assert(es.skip(i as int)[0] == pool@[i as int]@);
            assert(es.skip(i as int).skip(1) =~= es.skip(i + 1));
        }
        if pool[i].id == id {
            let ghost wanted = pool@[i as int]@;
            let e = pool.swap_remove(i);
            assert(e@ == wanted);
            return Some(e);
        }
        i += 1;
    }
    None
}

/// Sets the status of the task that a request means and answers what was
/// done; where no task is meant, the ledger stays as it is.
pub fn update_task_status(
    service: &mut TaskService,
    id: Option<usize>,
    title: Option<&str>,
    done: bool,
) -> (r: Result<String, ToolError>)
    ensures
        match target_of(records_of(old(service).lines()), id, opt_text(title)) {
            Some(task) => {
                &&& r matches Ok(answer) && answer@ == update_answer(task.id, done)
                &&& final(service)@ == join_lines(
                    set_status_lines(old(service).lines(), task.id, done),
                )
            },
            None => r matches Err(ToolError::TaskNotFound) && final(service)@ == old(service)@,
        },
{
    let target = match id {
        Some(i) => entry_with_id(service.tasks(), i),
        None => match title {
            Some(t) => service.find_task_by_title(t),
            None => None,
        },
    };
    let task = match target {
        Some(t) => t,
        None => {
            return Err(ToolError::TaskNotFound);
        },
    };
    proof {
        lemma_target_is_in_ledger(old(service).lines(), id, opt_text(title));
    }
    match service.set_status(task.id, done) {
        Ok(()) => {},
        Err(_) => {
            return Err(ToolError::TaskNotFound);
        },
    }
    let mut out: Vec<char> = Vec::new();
    push_str(&mut out, "Task #");
    push_decimal(&mut out, task.id);
    push_str(&mut out, " marked as ");
    push_str(&mut out, if done {
        "done"
    } else {
        "open"
    });
    let answer = string_of(out.as_slice());
    assert(answer@ =~= update_answer(task.id, done));
    Ok(answer)
}

/// Every record among the records of some lines stands on one of the lines.
pub proof fn lemma_record_is_on_a_line(ls: Seq<Seq<char>>, k: int)
    requires
        0 <= k < records_of(ls).len(),
    ensures
        has_id(ls, records_of(ls)[k].id),
    decreases ls.len(),
{
    let d = ls.drop_last();
    let i = ls.len() - 1;
    if k < records_of(d).len() {
        lemma_record_is_on_a_line(d, k);
        let j = choose|j: int| crate::tasks::is_record_with_id(d, j, records_of(d)[k].id);
        assert(d[j] == ls[j]);
        assert(crate::tasks::is_record_with_id(ls, j, records_of(ls)[k].id));
    } else {
        assert(crate::tasks::is_record_with_id(ls, i, records_of(ls)[k].id));
    }
}

/// The task that a request means is one of the records.
pub proof fn lemma_found_is_a_record(rs: Seq<Record>, id: Option<usize>, title: Option<Seq<char>>)
    ensures
        target_of(rs, id, title) matches Some(r) ==> exists|k: int|
            0 <= k < rs.len() && #[trigger] rs[k] == r,
{
    match id {
        Some(i) => lemma_find_by_id_in(rs, i),
        None => match title {
            Some(t) => lemma_find_titled_in(rs, t),
            None => {},
        },
    }
}

proof fn lemma_find_by_id_in(rs: Seq<Record>, id: usize)
    ensures
        find_by_id(rs, id) matches Some(r) ==> exists|k: int|
            0 <= k < rs.len() && #[trigger] rs[k] == r,
    decreases rs.len(),
{
    if rs.len() > 0 {
        if rs[0].id == id {
            assert(rs[0] == find_by_id(rs, id)->0);
        } else {
            lemma_find_by_id_in(rs.skip(1), id);
            if find_by_id(rs, id) is Some {
                let k = choose|k: int|
                    0 <= k < rs.skip(1).len() && #[trigger] rs.skip(1)[k] == find_by_id(rs, id)->0;
                assert(rs[k + 1] == find_by_id(rs, id)->0);
            }
        }
    }
}

proof fn lemma_find_titled_in(rs: Seq<Record>, title: Seq<char>)
    ensures
        find_titled(rs, title) matches Some(r) ==> exists|k: int|
            0 <= k < rs.len() && #[trigger] rs[k] == r,
    decreases rs.len(),
{
    if rs.len() > 0 {
        if crate::tasks::same_title(rs[0].title, title) {
            assert(rs[0] == find_titled(rs, title)->0);
        } else {
            lemma_find_titled_in(rs.skip(1), title);
            if find_titled(rs, title) is Some {
                let k = choose|k: int|
                    0 <= k < rs.skip(1).len() && #[trigger] rs.skip(1)[k] == find_titled(
                        rs,
                        title,
                    )->0;
                assert(rs[k + 1] == find_titled(rs, title)->0);
            }
        }
    }
}

/// The task that a request means is a record of the ledger.
pub proof fn lemma_target_is_in_ledger(
    ls: Seq<Seq<char>>,
    id: Option<usize>,
    title: Option<Seq<char>>,
)
    ensures
        target_of(records_of(ls), id, title) matches Some(r) ==> has_id(ls, r.id),
{
    let rs = records_of(ls);
    lemma_found_is_a_record(rs, id, title);
    if target_of(rs, id, title) is Some {
        let r = target_of(rs, id, title)->0;
        let k = choose|k: int| 0 <= k < rs.len() && #[trigger] rs[k] == r;
        lemma_record_is_on_a_line(ls, k);
    }
}

/// The number of matches that a query shows: five unless told, and at least one.
pub fn effective_limit(limit: Option<usize>) -> (n: usize)
    ensures
        n == match limit {
            Some(l) => if l < 1 {
                1
            } else {
                l
            },
            None => 5usize,
        },
{
    match limit {
        Some(l) => if l < 1 {
            1
        } else {
            l
        },
        None => 5,
    }
}

/// What a query answers: its matches, one on a line, or that there are none.
pub open spec fn query_answer(matches: Seq<Seq<char>>, query: Seq<char>) -> Seq<char> {
    if matches.len() == 0 {
        "No matches for \""@ + query + "\""@
    } else {
        joined(matches, "\n"@)
    }
}

/// What a query answers.
pub fn query_knowledge(matches: &Vec<String>, query: &str) -> (answer: String)
    ensures
        answer@ == query_answer(string_views(matches@), query@),
{
    if matches.len() == 0 {
        let mut out: Vec<char> = Vec::new();
        push_str(&mut out, "No matches for \"");
        push_str(&mut out, query);
        push_str(&mut out, "\"");
        let answer = string_of(out.as_slice());
        assert(answer@ =~= query_answer(string_views(matches@), query@));
        answer
    } else {
        join_with(matches, "\n")
    }
}

/// What the tool answers after an append to the note at `path`.
pub fn append_daily(path: &str) -> (answer: String)
    ensures
        answer@ == "Appended entry to "@ + path@,
{
    let mut answer = "Appended entry to ".to_owned();
    answer.append(path);
    answer
}

/// Whether a trimmed line is worth showing in a summary: a heading or a
/// list item.
pub open spec fn is_notable(t: Seq<char>) -> bool {
    t.len() > 0 && (t[0] == '#' || has_prefix(t, seq!['-', ' ']) || has_prefix(t, seq!['*', ' ']))
}

/// The notable lines among the given lines, trimmed, in order.
pub open spec fn highlights(ls: Seq<Seq<char>>) -> Seq<Seq<char>>
    decreases ls.len(),
{
    if ls.len() == 0 {
        Seq::empty()
    } else if is_notable(trim(ls.last())) {
        highlights(ls.drop_last()).push(trim(ls.last()))
    } else {
        highlights(ls.drop_last())
    }
}

/// The first twelve of the texts, or all of them where there are fewer.
pub open spec fn first_twelve(s: Seq<Seq<char>>) -> Seq<Seq<char>> {
    if s.len() > 12 {
        s.take(12)
    } else {
        s
    }
}

/// The summary of a note: its first twelve headings and list items, one on
/// a line, or a sentence that says that there are none.
pub open spec fn summary_of(content: Seq<char>) -> Seq<char> {
    let found = first_twelve(highlights(split_lines(content)));
    if found.len() == 0 {
        "No notable entries found for today."@
    } else {
        joined(found, "\n"@)
    }
}

/// Whether the trimmed window `[a, b)` of `cs` is notable.
fn notable(cs: &[char], a: usize, b: usize) -> (r: bool)
    requires
        a <= b <= cs@.len(),
    ensures
        r == is_notable(cs@.subrange(a as int, b as int)),
{
    if a == b {
        return false;
    }
    let dash = vec!['-', ' '];
    let star = vec!['*', ' '];
    assert(dash@ =~= seq!['-', ' ']);
    assert(star@ =~= seq!['*', ' ']);
    assert(cs@.subrange(a as int, b as int)[0] == cs@[a as int]);
    cs[a] == '#' || starts_with_in(cs, dash.as_slice(), a, b) || starts_with_in(
        cs,
        star.as_slice(),
        a,
        b,
    )
}

/// The summary of a note.
pub fn summarize_text(content: &str) -> (summary: String)
    ensures
        summary@ == summary_of(content@),
{
    let cs = chars_of(content);
    let lines = split(cs.as_slice());
    let ghost ls = line_views(lines@);
    let mut found: Vec<String> = Vec::new();
    let mut i: usize = 0;
    while i < lines.len()
        invariant
            i <= lines@.len(),
            ls == line_views(lines@),
            string_views(found@) == first_twelve(highlights(ls.take(i as int))),
        decreases lines@.len() - i,
    {
        let ghost before = string_views(found@);
        proof {
            assert(ls.take(i + 1).drop_last() =~= ls.take(i as int));
            assert(ls.take(i + 1).last() == lines@[i as int]@);
        }
        let line = lines[i].as_slice();
        assert(line@.subrange(0, line@.len() as int) =~= line@);
        let (a, b) = trim_bounds(line, 0, line.len());
        if notable(line, a, b) {
            if found.len() < 12 {
                let t = text_of(line, a, b);
                found.push(t);
                assert(string_views(found@) =~= before.push(trim(line@)));
            }
            assert(string_views(found@) =~= first_twelve(highlights(ls.take(i + 1))));
        }
        i += 1;
    }
    assert(ls.take(i as int) =~= ls);
    if found.len() == 0 {
        "No notable entries found for today.".to_owned()
    } else {
        join_with(&found, "\n")
    }
}

/// Forty dashes.
pub open spec fn rule() -> Seq<char> {
    Seq::new(40, |i: int| '-')
}

/// What the tool answers for the note at `path` with the given content: the
/// path, a rule, and the summary of the content.
pub fn summarize_today(path: &str, content: &str) -> (page: String)
    ensures
        page@ == path@ + seq!['\n'] + rule() + seq!['\n'] + summary_of(content@),
{
    let mut out: Vec<char> = Vec::new();
    push_str(&mut out, path);
    out.push('\n');
    let ghost head = out@;
    let mut i: usize = 0;
    while i < 40
        invariant
            i <= 40,
            out@ == head + Seq::new(i as nat, |j: int| '-'),
        decreases 40 - i,
    {
        out.push('-');
        assert(out@ =~= head + Seq::new((i + 1) as nat, |j: int| '-'));
        i += 1;
    }
    out.push('\n');
    let summary = summarize_text(content);
    push_str(&mut out, summary.as_str());
    let page = string_of(out.as_slice());
    assert(page@ =~= path@ + seq!['\n'] + rule() + seq!['\n'] + summary_of(content@));
    page
}

/// What tells the caller that a step of a tool failed.
pub fn internal_error(context: &str, error: &str) -> (e: ToolError)
    ensures
        e matches ToolError::Internal { context: c, error: m } && c@ == context@ && m@ == error@,
{
    ToolError::Internal { context: context.to_owned(), error: error.to_owned() }
}

/// What an error says.
pub open spec fn tool_error_text(e: ToolError) -> Seq<char> {
    match e {
        ToolError::UnknownStatus(w) => "unknown status: "@ + w@,
        ToolError::MissingTarget => "either `id` or `title` must be provided"@,
        ToolError::TaskNotFound => "task not found"@,
        ToolError::BadScope(_) => "scope must be \"today\""@,
        ToolError::UnknownTool(n) => "unknown tool: "@ + n@,
        ToolError::Internal { context, error } => context@ + " failed"@,
    }
}

impl ToolError {
    /// What the error says, for the caller of the tool.
    pub fn message(&self) -> (m: String)
        ensures
            m@ == tool_error_text(*self),
    {
        match self {
            ToolError::UnknownStatus(w) => {
                let mut m = "unknown status: ".to_owned();
                m.append(w.as_str());
                m
            },
            ToolError::MissingTarget => "either `id` or `title` must be provided".to_owned(),
            ToolError::TaskNotFound => "task not found".to_owned(),
            ToolError::BadScope(_) => "scope must be \"today\"".to_owned(),
            ToolError::UnknownTool(n) => {
                let mut m = "unknown tool: ".to_owned();
                m.append(n.as_str());
                m
            },
            ToolError::Internal { context, error } => {
                let mut m = context.clone();
                m.append(" failed");
                m
            },
        }
    }

    /// Whether the error is about the arguments of the call, not about a
    /// failure inside the tool.
    pub fn is_invalid_params(&self) -> (r: bool)
        ensures
            r == !(self is Internal),
    {
        match self {
            ToolError::Internal { .. } => false,
            _ => true,
        }
    }
}

} // verus!
