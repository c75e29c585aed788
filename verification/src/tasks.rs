//! The task ledger: one text file whose record lines are tasks and whose
//! other lines (headings, prose, blank lines) are kept as they are.
//!
//! `TaskService` holds the text of the ledger file. Every operation reads the
//! text line by line and, where it changes the ledger, says exactly which text
//! results. Reading the file and writing it back is left to the caller.
use vstd::prelude::*;
use crate::codec::{
    flip, flip_chars, parse_chars, parse_line, render_line, NewTask, NewTaskView, Record,
    TaskEntry, TaskFilter, TaskRecord,
};
use crate::decimal::push_decimal;
use crate::lines::{
    is_terminated, join, join_lines, line_views, split, split_lines,
};
use crate::text::{chars_of, push_all, push_str, string_of, string_views};

verus! {

/// Where the ledger file lies, relative to the vault root.
pub const LEDGER_PATH: &'static str = "Tasks/tasks.md";

/// Why a ledger operation failed.
#[derive(Clone, Copy, PartialEq, Eq, Structural, Debug)]
pub enum TaskError {
    /// No record of the ledger has this identifier.
    NotFound { id: usize },
}

/// The records among the given lines, in order.
pub open spec fn records_of(ls: Seq<Seq<char>>) -> Seq<Record>
    decreases ls.len(),
{
    if ls.len() == 0 {
        Seq::empty()
    } else {
        match parse_line(ls.last()) {
            Some(r) => records_of(ls.drop_last()).push(r),
            None => records_of(ls.drop_last()),
        }
    }
}

/// The largest identifier among the records of the given lines, 0 if there is none.
pub open spec fn max_id(ls: Seq<Seq<char>>) -> nat
    decreases ls.len(),
{
    if ls.len() == 0 {
        0
    } else {
        let m = max_id(ls.drop_last());
        match parse_line(ls.last()) {
            Some(r) => if r.id > m {
                r.id as nat
            } else {
                m
            },
            None => m,
        }
    }
}

/// Whether line `i` is a record with identifier `id`.
pub open spec fn is_record_with_id(ls: Seq<Seq<char>>, i: int, id: usize) -> bool {
    0 <= i < ls.len() && parse_line(ls[i]) is Some && parse_line(ls[i])->0.id == id
}

/// Whether some record of the given lines has identifier `id`.
pub open spec fn has_id(ls: Seq<Seq<char>>, id: usize) -> bool {
    exists|i: int| is_record_with_id(ls, i, id)
}

/// A line after the status of task `id` is set: a record with that identifier
/// becomes its trimmed text with the status switched, every other line stays.
pub open spec fn set_status_line(line: Seq<char>, id: usize, done: bool) -> Seq<char> {
    match parse_line(line) {
        Some(r) => if r.id == id {
            flip(r.raw, done)
        } else {
            line
        },
        None => line,
    }
}

/// The lines after the status of task `id` is set.
pub open spec fn set_status_lines(ls: Seq<Seq<char>>, id: usize, done: bool) -> Seq<Seq<char>> {
    Seq::new(ls.len(), |i: int| set_status_line(ls[i], id, done))
}

/// Whether a purge keeps the line: it is no record, or an open one.
pub open spec fn survives_purge(line: Seq<char>) -> bool {
    match parse_line(line) {
        Some(r) => !r.done,
        None => true,
    }
}

/// The lines that a purge keeps, in order.
pub open spec fn purge_lines(ls: Seq<Seq<char>>) -> Seq<Seq<char>>
    decreases ls.len(),
{
    if ls.len() == 0 {
        Seq::empty()
    } else if survives_purge(ls.last()) {
        purge_lines(ls.drop_last()).push(ls.last())
    } else {
        purge_lines(ls.drop_last())
    }
}

/// Whether a record passes a filter.
pub open spec fn passes(r: Record, filter: TaskFilter) -> bool {
    match filter {
        TaskFilter::All => true,
        TaskFilter::Open => !r.done,
        TaskFilter::Done => r.done,
    }
}

/// The trimmed text of the records that pass the filter, in order.
pub open spec fn listing(ls: Seq<Seq<char>>, filter: TaskFilter) -> Seq<Seq<char>>
    decreases ls.len(),
{
    if ls.len() == 0 {
        Seq::empty()
    } else {
        match parse_line(ls.last()) {
            Some(r) => if passes(r, filter) {
                listing(ls.drop_last(), filter).push(r.raw)
            } else {
                listing(ls.drop_last(), filter)
            },
            None => listing(ls.drop_last(), filter),
        }
    }
}

/// The text with a line feed after it, unless it is empty or has one.
pub open spec fn terminated(text: Seq<char>) -> Seq<char> {
    if is_terminated(text) {
        text
    } else {
        text + seq!['\n']
    }
}

/// The ledger text after `line` is appended as a new last line.
pub open spec fn append_line(text: Seq<char>, line: Seq<char>) -> Seq<char> {
    terminated(text) + line + seq!['\n']
}

/// The identifier that the next added task gets.
pub open spec fn next_id(text: Seq<char>) -> usize {
    (max_id(split_lines(text)) + 1) as usize
}

/// The ledger text after a task is added: the task stands on a new last
/// line, under the identifier after the largest one.
pub open spec fn add_text(text: Seq<char>, task: NewTaskView) -> Seq<char> {
    append_line(text, render_line(next_id(text), task))
}

/// The ledger text after the status of task `id` is set: where the task
/// exists, every line is rewritten, else the text stays as it is.
pub open spec fn set_status_text(text: Seq<char>, id: usize, done: bool) -> Seq<char> {
    if has_id(split_lines(text), id) {
        join_lines(set_status_lines(split_lines(text), id, done))
    } else {
        text
    }
}

/// The ledger text after a purge.
pub open spec fn purge_text(text: Seq<char>) -> Seq<char> {
    join_lines(purge_lines(split_lines(text)))
}

/// What the entries say.
pub open spec fn entry_views(v: Seq<TaskEntry>) -> Seq<Record> {
    Seq::new(v.len(), |i: int| v[i]@)
}

/// What an optional entry says.
pub open spec fn entry_view(e: Option<TaskEntry>) -> Option<Record> {
    match e {
        Some(e) => Some(e@),
        None => None,
    }
}

/// What `str::to_lowercase` returns for a text.
pub uninterp spec fn lowercase(s: Seq<char>) -> Seq<char>;

/// Whether two titles are the same apart from letter case.
pub open spec fn same_title(a: Seq<char>, b: Seq<char>) -> bool {
    lowercase(a) == lowercase(b)
}

/// The first of the records whose title is `wanted` apart from letter case.
pub open spec fn find_titled(rs: Seq<Record>, wanted: Seq<char>) -> Option<Record>
    decreases rs.len(),
{
    if rs.len() == 0 {
        None
    } else if same_title(rs[0].title, wanted) {
        Some(rs[0])
    } else {
        find_titled(rs.skip(1), wanted)
    }
}

/// The first index at which `wanted` stands in `texts`, or `texts.len()`.
pub open spec fn first_equal(texts: Seq<Seq<char>>, wanted: Seq<char>) -> int
    decreases texts.len(),
{
    if texts.len() == 0 {
        0
    } else if texts[0] == wanted {
        0
    } else {
        1 + first_equal(texts.skip(1), wanted)
    }
}

/// Lowers the case of a text with `str::to_lowercase`; the result is the
/// lowercase text that std defines for the argument.
#[verifier::external_body]
pub(crate) fn to_lowercase(s: &str) -> (r: String)
    ensures
        r@ == lowercase(s@),
{
    s.to_lowercase()
}

/// The first index at which a text equal to `wanted` stands in `texts`.
pub fn position_of(texts: &Vec<String>, wanted: &String) -> (r: Option<usize>)
    ensures
        match r {
            Some(i) => i < texts@.len() && i == first_equal(string_views(texts@), wanted@),
            None => first_equal(string_views(texts@), wanted@) == texts@.len(),
        },
{
    let ghost tv = string_views(texts@);
    let mut i: usize = 0;
    proof {
        assert(tv.skip(0) =~= tv);
    }
    while i < texts.len()
        invariant
            i <= texts@.len(),
            tv == string_views(texts@),
            first_equal(tv, wanted@) == i + first_equal(tv.skip(i as int), wanted@),
        decreases texts@.len() - i,
    {
        let ghost rest = tv.skip(i as int);
        assert(rest[0] == texts@[i as int]@);
        if texts[i] == *wanted {
            return Some(i);
        }
        assert(rest.skip(1) =~= tv.skip(i + 1));
        i += 1;
    }
    None
}

/// The task ledger over the text of its file.
pub struct TaskService {
    text: String,
}

impl View for TaskService {
    type V = Seq<char>;

    /// The text of the ledger file.
    closed spec fn view(&self) -> Seq<char> {
        self.text@
    }
}

impl TaskService {
    /// The lines of the ledger.
    pub open spec fn lines(&self) -> Seq<Seq<char>> {
        split_lines(self@)
    }

    /// Whether the ledger can take one more task: the next identifier fits.
    pub open spec fn has_room(&self) -> bool {
        max_id(self.lines()) < usize::MAX
    }

    /// A ledger over the stored text of its file, or over the task template
    /// where the file does not exist yet.
    pub fn new(stored: Option<String>, template: &str) -> (s: TaskService)
        ensures
            s@ == match stored {
                Some(t) => t@,
                None => template@,
            },
    {
        match stored {
            Some(text) => TaskService { text },
            None => TaskService { text: template.to_owned() },
        }
    }

    /// The text of the ledger file as it stands now.
    pub fn text(&self) -> (t: &str)
        ensures
            t@ == self@,
    {
        self.text.as_str()
    }

    fn read_lines(&self) -> (lines: Vec<Vec<char>>)
        ensures
            line_views(lines@) == self.lines(),
    {
        let cs = chars_of(self.text.as_str());
        split(cs.as_slice())
    }

    fn write_lines(&mut self, lines: &Vec<Vec<char>>)
        ensures
            final(self)@ == join_lines(line_views(lines@)),
    {
        let cs = join(lines);
        self.text = string_of(cs.as_slice());
    }

    /// The records of the ledger, in file order.
    pub fn read_records(&self) -> (records: Vec<TaskRecord>)
        ensures
            record_views(records@) == records_of(self.lines()),
    {
        let lines = self.read_lines();
        let ghost ls = line_views(lines@);
        let mut records: Vec<TaskRecord> = Vec::new();
        let mut i: usize = 0;
        while i < lines.len()
            invariant
                i <= lines@.len(),
                ls == line_views(lines@),
                record_views(records@) == records_of(ls.take(i as int)),
            decreases lines@.len() - i,
        {
            let ghost before = record_views(records@);
            proof {
                assert(ls.take(i + 1).drop_last() =~= ls.take(i as int));
                assert(ls.take(i + 1).last() == lines@[i as int]@);
            }
            match parse_chars(lines[i].as_slice()) {
                Some(r) => {
                    records.push(r);
                    assert(record_views(records@) =~= before.push(r@));
                },
                None => {},
            }
            i += 1;
        }
        assert(ls.take(i as int) =~= ls);
        records
    }

    /// The largest identifier in the ledger, 0 where it holds no record.
    pub fn last_id(&self) -> (m: usize)
        ensures
            m == max_id(self.lines()),
    {
        let lines = self.read_lines();
        let ghost ls = line_views(lines@);
        let mut m: usize = 0;
        let mut i: usize = 0;
        while i < lines.len()
            invariant
                i <= lines@.len(),
                ls == line_views(lines@),
                m == max_id(ls.take(i as int)),
            decreases lines@.len() - i,
        {
            proof {
                assert(ls.take(i + 1).drop_last() =~= ls.take(i as int));
                assert(ls.take(i + 1).last() == lines@[i as int]@);
            }
            match parse_chars(lines[i].as_slice()) {
                Some(r) => {
                    if r.id > m {
                        m = r.id;
                    }
                },
                None => {},
            }
            i += 1;
        }
        assert(ls.take(i as int) =~= ls);
        m
    }

    /// Whether the ledger text is empty or ends with a line feed, so that
    /// a new line can follow at once.
    pub fn file_ends_with_newline(&self) -> (r: bool)
        ensures
            r == is_terminated(self@),
    {
        let cs = chars_of(self.text.as_str());
        let n = cs.len();
        n == 0 || cs[n - 1] == '\n'
    }

    /// Adds a task as a new last line and returns its identifier, one more
    /// than the largest identifier in the ledger.
    pub fn add_task(&mut self, new_task: NewTask) -> (id: usize)
        requires
            old(self).has_room(),
        ensures
            id == next_id(old(self)@),
            id == max_id(old(self).lines()) + 1,
            final(self)@ == add_text(old(self)@, new_task@),
    {
        let id = self.last_id() + 1;
        let ends_well = self.file_ends_with_newline();
        let mut cs = chars_of(self.text.as_str());
        if !ends_well {
            cs.push('\n');
        }
        assert(cs@ =~= terminated(old(self)@));
        let line = new_task.render_chars(id);
        push_all(&mut cs, line.as_slice());
        cs.push('\n');
        self.text = string_of(cs.as_slice());
        id
    }

    /// Marks task `id` as done.
    pub fn mark_done(&mut self, id: usize) -> (r: Result<(), TaskError>)
        ensures
            final(self)@ == set_status_text(old(self)@, id, true),
            r is Ok <==> has_id(old(self).lines(), id),
            r is Err ==> r == Err::<(), TaskError>(TaskError::NotFound { id }),
    {
        self.set_status(id, true)
    }

    /// Sets the status of every record with identifier `id`, or fails and
    /// leaves the ledger alone where there is none.
    pub fn set_status(&mut self, id: usize, done: bool) -> (r: Result<(), TaskError>)
        ensures
            final(self)@ == set_status_text(old(self)@, id, done),
            r is Ok <==> has_id(old(self).lines(), id),
            r is Err ==> r == Err::<(), TaskError>(TaskError::NotFound { id }),
    {
        let lines = self.read_lines();
        let ghost ls = line_views(lines@);
        let mut out: Vec<Vec<char>> = Vec::new();
        let mut updated = false;
        let mut i: usize = 0;
        while i < lines.len()
            invariant
                i <= lines@.len(),
                ls == line_views(lines@),
                line_views(out@) == set_status_lines(ls, id, done).take(i as int),
                updated <==> exists|j: int| 0 <= j < i && is_record_with_id(ls, j, id),
            decreases lines@.len() - i,
        {
            let ghost before = line_views(out@);
            let ghost was = updated;
            let ghost line = lines@[i as int]@;
            assert(line == ls[i as int]);
            match parse_chars(lines[i].as_slice()) {
                Some(r) => {
                    if r.id == id {
                        updated = true;
                        let raw = chars_of(r.raw_text.as_str());
                        out.push(flip_chars(raw, done));
                    } else {
                        out.push(lines[i].clone());
                    }
                },
                None => {
                    out.push(lines[i].clone());
                },
            }
            proof {
                assert(line_views(out@) =~= before.push(set_status_line(line, id, done)));
                assert(set_status_lines(ls, id, done).take(i + 1) =~= set_status_lines(
                    ls,
                    id,
                    done,
                ).take(i as int).push(set_status_line(line, id, done)));
                if updated {
                    if was {
                        let j = choose|j: int| 0 <= j < i && is_record_with_id(ls, j, id);
                        assert(0 <= j < i + 1 && is_record_with_id(ls, j, id));
                    } else {
                        assert(is_record_with_id(ls, i as int, id));
                    }
                } else {
                    assert forall|j: int| 0 <= j < i + 1 implies !is_record_with_id(ls, j, id) by {
                        if j == i {
                            assert(!is_record_with_id(ls, i as int, id));
                        }
                    }
                }
            }
            i += 1;
        }
        proof {
            assert(set_status_lines(ls, id, done).take(i as int) =~= set_status_lines(
                ls,
                id,
                done,
            ));
        }
        if !updated {
            assert(!has_id(ls, id)) by {
                if has_id(ls, id) {
                    let j = choose|j: int| is_record_with_id(ls, j, id);
                    assert(0 <= j < i && is_record_with_id(ls, j, id));
                }
            }
            return Err(TaskError::NotFound { id });
        }
        assert(has_id(ls, id)) by {
            let j = choose|j: int| 0 <= j < i && is_record_with_id(ls, j, id);
            assert(is_record_with_id(ls, j, id));
        }
        self.write_lines(&out);
        Ok(())
    }

    /// The trimmed lines of the records that pass the filter, in file order.
    pub fn list_tasks(&self, filter: TaskFilter) -> (items: Vec<String>)
        ensures
            string_views(items@) == listing(self.lines(), filter),
    {
        let lines = self.read_lines();
        let ghost ls = line_views(lines@);
        let mut items: Vec<String> = Vec::new();
        let mut i: usize = 0;
        while i < lines.len()
            invariant
                i <= lines@.len(),
                ls == line_views(lines@),
                string_views(items@) == listing(ls.take(i as int), filter),
            decreases lines@.len() - i,
        {
            let ghost before = string_views(items@);
            proof {
                assert(ls.take(i + 1).drop_last() =~= ls.take(i as int));
                assert(ls.take(i + 1).last() == lines@[i as int]@);
            }
            match parse_chars(lines[i].as_slice()) {
                Some(r) => {
                    let keep = match filter {
                        TaskFilter::All => true,
                        TaskFilter::Open => !r.done,
                        TaskFilter::Done => r.done,
                    };
                    if keep {
                        let ghost raw = r.raw_text@;
                        items.push(r.raw_text);
                        assert(string_views(items@) =~= before.push(raw));
                    }
                },
                None => {},
            }
            i += 1;
        }
        assert(ls.take(i as int) =~= ls);
        items
    }

    /// Removes the records that are done; every other line stays in place.
    pub fn clean_completed(&mut self)
        ensures
            final(self)@ == purge_text(old(self)@),
    {
        let lines = self.read_lines();
        let ghost ls = line_views(lines@);
        let mut out: Vec<Vec<char>> = Vec::new();
        let mut i: usize = 0;
        while i < lines.len()
            invariant
                i <= lines@.len(),
                ls == line_views(lines@),
                line_views(out@) == purge_lines(ls.take(i as int)),
            decreases lines@.len() - i,
        {
            let ghost before = line_views(out@);
            proof {
                assert(ls.take(i + 1).drop_last() =~= ls.take(i as int));
                assert(ls.take(i + 1).last() == lines@[i as int]@);
            }
            let keep = match parse_chars(lines[i].as_slice()) {
                Some(r) => !r.done,
                None => true,
            };
            if keep {
                out.push(lines[i].clone());
                assert(line_views(out@) =~= before.push(lines@[i as int]@));
            }
            i += 1;
        }
        assert(ls.take(i as int) =~= ls);
        self.write_lines(&out);
    }

    /// The first task, in file order, whose title is `title` apart from letter case.
    pub fn find_task_by_title(&self, title: &str) -> (found: Option<TaskEntry>)
        ensures
            entry_view(found) == find_titled(records_of(self.lines()), title@),
    {
        let mut records = self.read_records();
        let ghost rs = record_views(records@);
        let wanted = to_lowercase(title);
        let mut folded: Vec<String> = Vec::new();
        let mut i: usize = 0;
        while i < records.len()
            invariant
                i <= records@.len(),
                rs == record_views(records@),
                folded@.len() == i,
                forall|j: int| 0 <= j < i ==> (#[trigger] folded@[j])@ == lowercase(rs[j].title),
            decreases records@.len() - i,
        {
            folded.push(to_lowercase(records[i].title.as_str()));
            i += 1;
        }
        let pos = position_of(&folded, &wanted);
        proof {
            lemma_find_titled(rs, title@, string_views(folded@));
        }
        match pos {
            Some(k) => {
                let r = records.swap_remove(k);
                Some(r.into_entry())
            },
            None => None,
        }
    }

    /// Every task of the ledger, in file order.
    pub fn tasks(&self) -> (entries: Vec<TaskEntry>)
        ensures
            entry_views(entries@) == records_of(self.lines()),
    {
        let records = self.read_records();
        let ghost rs = record_views(records@);
        let mut entries: Vec<TaskEntry> = Vec::new();
        let mut i: usize = 0;
        while i < records.len()
            invariant
                i <= records@.len(),
                rs == record_views(records@),
                entry_views(entries@) == rs.take(i as int),
            decreases records@.len() - i,
        {
            let ghost before = entry_views(entries@);
            let r = &records[i];
            entries.push(
                TaskEntry {
                    id: r.id,
                    done: r.done,
                    title: r.title.clone(),
                    raw: r.raw_text.clone(),
                },
            );
            assert(entry_views(entries@) =~= before.push(rs[i as int]));
            assert(rs.take(i + 1) =~= rs.take(i as int).push(rs[i as int]));
            i += 1;
        }
        assert(rs.take(i as int) =~= rs);
        entries
    }
}

impl TaskError {
    /// What the error says, for the user.
    pub fn message(&self) -> (m: String)
        ensures
            m@ == error_text(*self),
    {
        match self {
            TaskError::NotFound { id } => {
                let mut out: Vec<char> = Vec::new();
                proof {
                    reveal_strlit("task #");
                    reveal_strlit(" was not found");
                }
                push_str(&mut out, "task #");
                push_decimal(&mut out, *id);
                push_str(&mut out, " was not found");
                let m = string_of(out.as_slice());
                assert(m@ =~= error_text(*self));
                m
            },
        }
    }
}

/// What a ledger error says.
pub open spec fn error_text(e: TaskError) -> Seq<char> {
    match e {
        TaskError::NotFound { id } => "task #"@ + crate::decimal::decimal(id as nat)
            + " was not found"@,
    }
}

/// What the records say.
pub open spec fn record_views(v: Seq<TaskRecord>) -> Seq<Record> {
    Seq::new(v.len(), |i: int| v[i]@)
}

/// Looking for the lowered title among the lowered titles finds what
/// `find_titled` finds.
pub proof fn lemma_find_titled(rs: Seq<Record>, wanted: Seq<char>, folded: Seq<Seq<char>>)
    requires
        folded.len() == rs.len(),
        forall|j: int| 0 <= j < rs.len() ==> #[trigger] folded[j] == lowercase(rs[j].title),
    ensures
        0 <= first_equal(folded, lowercase(wanted)) <= rs.len(),
        find_titled(rs, wanted) == if first_equal(folded, lowercase(wanted)) < rs.len() {
            Some(rs[first_equal(folded, lowercase(wanted))])
        } else {
            None
        },
    decreases rs.len(),
{
    if rs.len() > 0 {
        assert(folded[0] == lowercase(rs[0].title));
        if !same_title(rs[0].title, wanted) {
            let fr = folded.skip(1);
            let rr = rs.skip(1);
            assert forall|j: int| 0 <= j < rr.len() implies #[trigger] fr[j] == lowercase(
                rr[j].title,
            ) by {
                assert(fr[j] == folded[j + 1]);
            }
            lemma_find_titled(rr, wanted, fr);
        }
    }
}

} // verus!
