//! The record codec: one ledger line read as a task record, a new task
//! written as a line, and the status of a record line switched in place.
//!
//! A line is a task record when, with the whitespace around it removed, it reads
//!
//! ```text
//! "- [" status "]" spaces "(" id ")" rest
//! ```
//!
//! where `status` is one ASCII character, `x` or `X` for a finished task and
//! anything else for an open one, and `id` is an unsigned decimal integer.
//! Every other line is no record and is left alone wherever a ledger is rewritten.
use vstd::prelude::*;
use crate::decimal::{decimal, parse_unsigned, push_decimal, read_unsigned};
use crate::text::{
    chars_of, find_char, find_char_in, find_sub, find_sub_in, lemma_find_char_shape, push_str,
    string_of, text_of, trim, trim_bounds,
};

verus! {

/// How urgent a task is.
#[derive(Clone, Copy, PartialEq, Eq, Structural, Debug)]
pub enum Priority {
    Low,
    Medium,
    High,
}

/// Which records a listing shows.
#[derive(Clone, Copy, PartialEq, Eq, Structural, Debug)]
pub enum TaskFilter {
    All,
    Open,
    Done,
}

/// A task that is about to be added to the ledger.
pub struct NewTask {
    pub title: String,
    pub due_date: Option<String>,
    pub recurrence: Option<String>,
    pub priority: Option<Priority>,
}

/// What a `NewTask` holds, as plain text.
pub struct NewTaskView {
    pub title: Seq<char>,
    pub due_date: Option<Seq<char>>,
    pub recurrence: Option<Seq<char>>,
    pub priority: Option<Priority>,
}

/// A line of the ledger, read as a task.
pub struct TaskRecord {
    pub id: usize,
    pub done: bool,
    pub title: String,
    pub raw_text: String,
}

/// A task as the ledger hands it out.
pub struct TaskEntry {
    pub id: usize,
    pub done: bool,
    pub title: String,
    pub raw: String,
}

/// What a record line says: the mathematical model of `TaskRecord` and `TaskEntry`.
pub struct Record {
    pub id: usize,
    pub done: bool,
    pub title: Seq<char>,
    pub raw: Seq<char>,
}

/// The text of an optional string.
pub open spec fn text_view(s: Option<String>) -> Option<Seq<char>> {
    match s {
        Some(t) => Some(t@),
        None => None,
    }
}

impl View for NewTask {
    type V = NewTaskView;

    open spec fn view(&self) -> NewTaskView {
        NewTaskView {
            title: self.title@,
            due_date: text_view(self.due_date),
            recurrence: text_view(self.recurrence),
            priority: self.priority,
        }
    }
}

impl View for TaskRecord {
    type V = Record;

    open spec fn view(&self) -> Record {
        Record { id: self.id, done: self.done, title: self.title@, raw: self.raw_text@ }
    }
}

impl View for TaskEntry {
    type V = Record;

    open spec fn view(&self) -> Record {
        Record { id: self.id, done: self.done, title: self.title@, raw: self.raw@ }
    }
}

/// What an optional record says.
pub open spec fn record_view(r: Option<TaskRecord>) -> Option<Record> {
    match r {
        Some(t) => Some(t@),
        None => None,
    }
}

/// The glyph that introduces a due date.
pub open spec fn due_glyph() -> Seq<char> {
    seq!['\u{1F4C5}']
}

/// The glyph that introduces a recurrence.
pub open spec fn repeat_glyph() -> Seq<char> {
    seq!['\u{1F501}']
}

/// The glyph that marks a priority.
pub open spec fn priority_glyph(p: Priority) -> Seq<char> {
    match p {
        Priority::Low => seq!['\u{2B07}', '\u{FE0F}'],
        Priority::Medium => seq!['\u{23EB}'],
        Priority::High => seq!['\u{1F525}'],
    }
}

/// The smaller of two numbers.
pub open spec fn min_int(a: int, b: int) -> int {
    if a <= b {
        a
    } else {
        b
    }
}

/// Where the metadata of a remainder starts: the first occurrence of any of
/// the five marker glyphs, or the end of the remainder.
pub open spec fn title_end(rem: Seq<char>) -> int {
    min_int(
        min_int(
            min_int(
                min_int(find_sub(rem, due_glyph()), find_sub(rem, repeat_glyph())),
                find_sub(rem, priority_glyph(Priority::Low)),
            ),
            find_sub(rem, priority_glyph(Priority::Medium)),
        ),
        find_sub(rem, priority_glyph(Priority::High)),
    )
}

/// The title in the text that follows the identifier: everything before the
/// first marker glyph, trimmed.
pub open spec fn title_of(rem: Seq<char>) -> Seq<char> {
    trim(rem.take(title_end(rem)))
}

/// Whether a character is an ASCII character.
pub open spec fn is_ascii_char(c: char) -> bool {
    c <= '\u{7F}'
}

/// Whether a trimmed line opens with a well-formed status token.
pub open spec fn has_status_token(t: Seq<char>) -> bool {
    &&& t.len() >= 5
    &&& t[0] == '-'
    &&& t[1] == ' '
    &&& t[2] == '['
    &&& is_ascii_char(t[3])
    &&& t[4] == ']'
}

/// What a line says as a task record, or `None` where it is no record.
pub open spec fn parse_line(line: Seq<char>) -> Option<Record> {
    let t = trim(line);
    if !has_status_token(t) {
        None
    } else {
        let after = trim(t.skip(5));
        if !(after.len() > 0 && after[0] == '(') {
            None
        } else {
            let close = find_char(after, ')');
            if !(0 < close < after.len()) {
                None
            } else {
                match parse_unsigned(after.subrange(1, close)) {
                    None => None,
                    Some(id) => Some(
                        Record {
                            id,
                            done: t[3] == 'x' || t[3] == 'X',
                            title: title_of(trim(after.skip(close + 1))),
                            raw: t,
                        },
                    ),
                }
            }
        }
    }
}

/// The status character that stands for `done`.
pub open spec fn status_char(done: bool) -> char {
    if done {
        'x'
    } else {
        ' '
    }
}

/// A record line with its status switched: the status token, where it is
/// `[ ]`, `[x]` or `[X]`, becomes the token for `done`; nothing else changes.
pub open spec fn flip(raw: Seq<char>, done: bool) -> Seq<char> {
    if has_status_token(raw) && (raw[3] == ' ' || raw[3] == 'x' || raw[3] == 'X') {
        raw.update(3, status_char(done))
    } else {
        raw
    }
}

/// A value behind its glyph: a space, the glyph, a space and the value; nothing where there is no value.
pub open spec fn labelled(glyph: Seq<char>, value: Option<Seq<char>>) -> Seq<char> {
    match value {
        Some(v) => seq![' '] + glyph + seq![' '] + v,
        None => Seq::empty(),
    }
}

/// A priority as it is written: a space and its glyph; nothing where there is none.
pub open spec fn priority_suffix(p: Option<Priority>) -> Seq<char> {
    match p {
        Some(p) => seq![' '] + priority_glyph(p),
        None => Seq::empty(),
    }
}

/// The metadata that follows the title of a new task: due date, recurrence
/// and priority, in this order, each only where it is given.
pub open spec fn render_meta(t: NewTaskView) -> Seq<char> {
    labelled(due_glyph(), t.due_date) + labelled(repeat_glyph(), t.recurrence) + priority_suffix(
        t.priority,
    )
}

/// The opening of a new record line, up to the title.
pub open spec fn render_head(id: usize) -> Seq<char> {
    seq!['-', ' ', '[', ' ', ']', ' ', '('] + decimal(id as nat) + seq![')', ' ']
}

/// The line that adds task `t` under identifier `id`.
pub open spec fn render_line(id: usize, t: NewTaskView) -> Seq<char> {
    render_head(id) + t.title + render_meta(t)
}

impl Priority {
    /// The glyph that marks this priority in a record line.
    pub fn marker(&self) -> (m: &'static str)
        ensures
            m@ == priority_glyph(*self),
    {
        proof {
            reveal_strlit("\u{2B07}\u{FE0F}");
            reveal_strlit("\u{23EB}");
            reveal_strlit("\u{1F525}");
        }
        match self {
            Priority::Low => {
                let m = "\u{2B07}\u{FE0F}";
                assert(m@ =~= priority_glyph(Priority::Low));
                m
            },
            Priority::Medium => {
                let m = "\u{23EB}";
                assert(m@ =~= priority_glyph(Priority::Medium));
                m
            },
            Priority::High => {
                let m = "\u{1F525}";
                assert(m@ =~= priority_glyph(Priority::High));
                m
            },
        }
    }
}

fn min_usize(a: usize, b: usize) -> (m: usize)
    ensures
        m == min_int(a as int, b as int),
{
    if a <= b {
        a
    } else {
        b
    }
}

/// Bounds of the title inside the remainder `[from, to)` of `cs`.
fn title_bounds(cs: &[char], from: usize, to: usize) -> (r: (usize, usize))
    requires
        from <= to <= cs@.len(),
    ensures
        from <= r.0 <= r.1 <= to,
        cs@.subrange(r.0 as int, r.1 as int) == title_of(cs@.subrange(from as int, to as int)),
{
    let due = vec!['\u{1F4C5}'];
    let repeat = vec!['\u{1F501}'];
    let low = vec!['\u{2B07}', '\u{FE0F}'];
    let medium = vec!['\u{23EB}'];
    let high = vec!['\u{1F525}'];
    assert(due@ =~= due_glyph());
    assert(repeat@ =~= repeat_glyph());
    assert(low@ =~= priority_glyph(Priority::Low));
    assert(medium@ =~= priority_glyph(Priority::Medium));
    assert(high@ =~= priority_glyph(Priority::High));
    let mut end = find_sub_in(cs, due.as_slice(), from, to);
    end = min_usize(end, find_sub_in(cs, repeat.as_slice(), from, to));
    end = min_usize(end, find_sub_in(cs, low.as_slice(), from, to));
    end = min_usize(end, find_sub_in(cs, medium.as_slice(), from, to));
    end = min_usize(end, find_sub_in(cs, high.as_slice(), from, to));
    let ghost rem = cs@.subrange(from as int, to as int);
    assert(end - from == title_end(rem));
    assert(rem.take(end - from) =~= cs@.subrange(from as int, end as int));
    trim_bounds(cs, from, end)
}

/// The title in the text that follows the identifier of a record.
pub fn extract_title(input: &str) -> (title: String)
    ensures
        title@ == title_of(input@),
{
    let cs = chars_of(input);
    assert(cs@.subrange(0, cs@.len() as int) =~= cs@);
    let (a, b) = title_bounds(cs.as_slice(), 0, cs.len());
    text_of(cs.as_slice(), a, b)
}

/// Reads the characters of one line as a task record.
pub fn parse_chars(cs: &[char]) -> (r: Option<TaskRecord>)
    ensures
        record_view(r) == parse_line(cs@),
{
    let n = cs.len();
    assert(cs@.subrange(0, n as int) =~= cs@);
    let (a, b) = trim_bounds(cs, 0, n);
    let ghost t = cs@.subrange(a as int, b as int);
    if b - a < 5 {
        return None;
    }
    if !(cs[a] == '-' && cs[a + 1] == ' ' && cs[a + 2] == '[' && cs[a + 3] <= '\u{7F}' && cs[a
        + 4] == ']') {
        return None;
    }
    assert(has_status_token(t));
    let (p, q) = trim_bounds(cs, a + 5, b);
    let ghost after = cs@.subrange(p as int, q as int);
    assert(t.skip(5) =~= cs@.subrange(a + 5, b as int));
    if p == q || cs[p] != '(' {
        return None;
    }
    let close = find_char_in(cs, ')', p, q);
    if close == q {
        return None;
    }
    proof {
        lemma_find_char_shape(after, ')');
        assert(after[0] == cs@[p as int]);
    }
    assert(after.subrange(1, close - p) =~= cs@.subrange(p + 1, close as int));
    assert(after.skip(close - p + 1) =~= cs@.subrange(close + 1, q as int));
    let id = match read_unsigned(cs, p + 1, close) {
        None => {
            return None;
        },
        Some(id) => id,
    };
    let (ra, rb) = trim_bounds(cs, close + 1, q);
    let (ta, tb) = title_bounds(cs, ra, rb);
    let status = cs[a + 3];
    Some(
        TaskRecord {
            id,
            done: status == 'x' || status == 'X',
            title: text_of(cs, ta, tb),
            raw_text: text_of(cs, a, b),
        },
    )
}

impl TaskRecord {
    /// Reads one line as a task record; `None` where the line is no record.
    pub fn parse(line: &str) -> (r: Option<TaskRecord>)
        ensures
            record_view(r) == parse_line(line@),
    {
        let cs = chars_of(line);
        parse_chars(cs.as_slice())
    }

    /// The line of this record with its status set to `done`.
    pub fn into_status_line(self, done: bool) -> (line: String)
        ensures
            line@ == flip(self.raw_text@, done),
    {
        let cs = chars_of(self.raw_text.as_str());
        string_of(flip_chars(cs, done).as_slice())
    }

    /// This record as the ledger hands it out.
    pub fn into_entry(self) -> (e: TaskEntry)
        ensures
            e@ == self@,
    {
        TaskEntry { id: self.id, done: self.done, title: self.title, raw: self.raw_text }
    }
}

/// Whether `cs` opens with a well-formed status token.
pub fn starts_with_status(cs: &[char]) -> (b: bool)
    ensures
        b == has_status_token(cs@),
{
    cs.len() >= 5 && cs[0] == '-' && cs[1] == ' ' && cs[2] == '[' && cs[3] <= '\u{7F}' && cs[4]
        == ']'
}

/// Switches the status of a record line.
pub fn flip_chars(cs: Vec<char>, done: bool) -> (out: Vec<char>)
    ensures
        out@ == flip(cs@, done),
{
    let mut out = cs;
    if starts_with_status(out.as_slice()) && (out[3] == ' ' || out[3] == 'x' || out[3] == 'X') {
        out.set(3, if done {
            'x'
        } else {
            ' '
        });
    }
    out
}

impl NewTask {
    /// The ledger line that holds the new task under the identifier `id`.
    pub fn render(&self, id: usize) -> (line: String)
        ensures
            line@ == render_line(id, self@),
    {
        string_of(self.render_chars(id).as_slice())
    }

    /// The characters of `render`.
    pub fn render_chars(&self, id: usize) -> (out: Vec<char>)
        ensures
            out@ == render_line(id, self@),
    {
        let mut out: Vec<char> = vec!['-', ' ', '[', ' ', ']', ' ', '('];
        push_decimal(&mut out, id);
        out.push(')');
        out.push(' ');
        assert(out@ =~= render_head(id));
        push_str(&mut out, self.title.as_str());
        let ghost base = out@;
        push_labelled(&mut out, '\u{1F4C5}', &self.due_date);
        push_labelled(&mut out, '\u{1F501}', &self.recurrence);
        push_priority(&mut out, &self.priority);
        assert(out@ =~= base + render_meta(self@));
        out
    }
}

/// Appends a space, the glyph, a space and the value, where there is a value.
fn push_labelled(out: &mut Vec<char>, glyph: char, value: &Option<String>)
    ensures
        final(out)@ == old(out)@ + labelled(seq![glyph], text_view(*value)),
{
    match value {
        Some(v) => {
            out.push(' ');
            out.push(glyph);
            out.push(' ');
            assert(out@ =~= old(out)@ + (seq![' '] + seq![glyph] + seq![' ']));
            push_str(out, v.as_str());
            assert(out@ =~= old(out)@ + labelled(seq![glyph], text_view(*value)));
        },
        None => {
            assert(out@ =~= old(out)@ + labelled(seq![glyph], text_view(*value)));
        },
    }
}

/// Appends a space and the glyph of the priority, where there is one.
fn push_priority(out: &mut Vec<char>, priority: &Option<Priority>)
    ensures
        final(out)@ == old(out)@ + priority_suffix(*priority),
{
    match priority {
        Some(p) => {
            out.push(' ');
            push_str(out, p.marker());
            assert(out@ =~= old(out)@ + priority_suffix(*priority));
        },
        None => {
            assert(out@ =~= old(out)@ + priority_suffix(*priority));
        },
    }
}

} // verus!
