//! The journal store: one note file per calendar day under the journal
//! directory of the vault, named by the ISO date of the day.
//!
//! The store computes: which file belongs to a day, what a new file is seeded
//! with, what an append adds, and which notes are the most recent. Paths are
//! relative to the vault root, with `/` between the directory and the file.
//! Creating, reading and appending to the files is left to the caller.
use vstd::prelude::*;
use chrono::Datelike;
use crate::codec::min_int;
use crate::decimal::decimal;
use crate::lines::line_views;
use crate::text::{
    chars_of, find_sub, find_sub_in, lemma_find_sub_shape, push_all, string_of, string_views,
};

verus! {

/// A calendar day of the proleptic Gregorian calendar. Every value is a day
/// that exists, within the years that `chrono::NaiveDate` can hold.
#[derive(Clone, Copy, PartialEq, Eq, Structural, Debug)]
pub struct JournalDate {
    year: i32,
    month: u32,
    day: u32,
}

/// Why a journal operation failed.
#[derive(Debug)]
pub enum VaultError {
    /// The text is no date of the form `YYYY-MM-DD`.
    InvalidDate(String),
}

/// The note file of a day.
pub struct DailyNote {
    /// The path of the file, relative to the vault root.
    pub path: String,
    pub date: JournalDate,
}

/// Text to add at the end of the note file of a day.
pub struct JournalAppend {
    /// The path of the file, relative to the vault root.
    pub path: String,
    pub date: JournalDate,
    /// What is written at the end of the file.
    pub line: String,
}

/// Whether a year of the proleptic Gregorian calendar has a 29th of February.
pub open spec fn is_leap_year(year: int) -> bool {
    year % 4 == 0 && (year % 100 != 0 || year % 400 == 0)
}

/// The number of days of a month.
pub open spec fn days_in_month(year: int, month: int) -> int {
    if month == 2 {
        if is_leap_year(year) {
            29
        } else {
            28
        }
    } else if month == 4 || month == 6 || month == 9 || month == 11 {
        30
    } else {
        31
    }
}

/// The days that `chrono::NaiveDate` can hold.
pub open spec fn valid_date(year: int, month: int, day: int) -> bool {
    &&& -262143 <= year <= 262142
    &&& 1 <= month <= 12
    &&& 1 <= day <= days_in_month(year, month)
}

impl View for JournalDate {
    type V = (int, int, int);

    /// Year, month and day.
    closed spec fn view(&self) -> (int, int, int) {
        (self.year as int, self.month as int, self.day as int)
    }
}

impl JournalDate {
    #[verifier::type_invariant]
    spec fn exists_in_calendar(self) -> bool {
        valid_date(self.year as int, self.month as int, self.day as int)
    }

    /// Whether the date is a day of the calendar; every date in use is.
    pub open spec fn is_valid(&self) -> bool {
        valid_date(self@.0, self@.1, self@.2)
    }

    /// The date of the given year, month and day, if there is such a day.
    pub fn new(year: i32, month: u32, day: u32) -> (r: Option<JournalDate>)
        ensures
            r is Some <==> valid_date(year as int, month as int, day as int),
            r matches Some(d) ==> d@ == (year as int, month as int, day as int),
    {
        if year < -262143 || year > 262142 || month < 1 || month > 12 || day < 1 {
            return None;
        }
        // a multiple of 400 years later the calendar is the same
        let shifted: u32 = (year + 262400) as u32;
        assert(is_leap_year(year as int) == is_leap_year(shifted as int));
        let leap = shifted % 4 == 0 && (shifted % 100 != 0 || shifted % 400 == 0);
        let days: u32 = if month == 2 {
            if leap {
                29
            } else {
                28
            }
        } else if month == 4 || month == 6 || month == 9 || month == 11 {
            30
        } else {
            31
        };
        if day > days {
            return None;
        }
        Some(JournalDate { year, month, day })
    }

    /// The year of the date.
    pub fn year(&self) -> (y: i32)
        ensures
            y == self@.0,
    {
        self.year
    }

    /// The month of the date, from 1 to 12.
    pub fn month(&self) -> (m: u32)
        ensures
            m == self@.1,
    {
        self.month
    }

    /// The day of the month, from 1.
    pub fn day(&self) -> (d: u32)
        ensures
            d == self@.2,
    {
        self.day
    }
}

/// The decimal writing of `n`, with zeros in front up to `width` characters.
pub open spec fn zero_padded(n: nat, width: nat) -> Seq<char> {
    let d = decimal(n);
    if d.len() >= width {
        d
    } else {
        Seq::new((width - d.len()) as nat, |i: int| '0') + d
    }
}

/// A year as an ISO date writes it: four digits, and from 10000 on or below 0
/// a sign and at least four digits.
pub open spec fn year_text(year: int) -> Seq<char> {
    if 0 <= year <= 9999 {
        zero_padded(year as nat, 4)
    } else if year > 9999 {
        seq!['+'] + zero_padded(year as nat, 4)
    } else {
        seq!['-'] + zero_padded((-year) as nat, 4)
    }
}

/// The ISO text `YYYY-MM-DD` of a date, given by year, month and day.
pub open spec fn iso_text(date: (int, int, int)) -> Seq<char> {
    year_text(date.0) + seq!['-'] + zero_padded(date.1 as nat, 2) + seq!['-'] + zero_padded(
        date.2 as nat,
        2,
    )
}

/// The name of the journal directory inside the vault.
pub open spec fn journal_dir() -> Seq<char> {
    seq!['J', 'o', 'u', 'r', 'n', 'a', 'l']
}

/// The name of the note file of a date.
pub open spec fn note_name(date: (int, int, int)) -> Seq<char> {
    iso_text(date) + seq!['.', 'm', 'd']
}

/// The path of a file of the journal directory, relative to the vault root.
pub open spec fn journal_path(name: Seq<char>) -> Seq<char> {
    journal_dir() + seq!['/'] + name
}

/// The placeholder that a daily template holds for the date.
pub open spec fn date_placeholder() -> Seq<char> {
    seq!['{', '{', 'd', 'a', 't', 'e', '}', '}']
}

/// `s` with every occurrence of the non-empty `pat` replaced by `to`, from
/// left to right and without overlaps.
pub open spec fn replace_all(s: Seq<char>, pat: Seq<char>, to: Seq<char>) -> Seq<char>
    decreases s.len(),
{
    let k = find_sub(s, pat);
    if pat.len() > 0 && 0 <= k && k + pat.len() <= s.len() {
        s.take(k) + to + replace_all(s.skip(k + pat.len()), pat, to)
    } else {
        s
    }
}

/// What a new note file of `date` holds: the template with the date in the
/// place of every placeholder.
pub open spec fn seeded(template: Seq<char>, date: (int, int, int)) -> Seq<char> {
    replace_all(template, date_placeholder(), iso_text(date))
}

/// What `chrono::NaiveDate::parse_from_str` makes of a text under the format
/// `%Y-%m-%d`: year, month and day, or `None` where it refuses the text.
pub uninterp spec fn parsed_date(text: Seq<char>) -> Option<(int, int, int)>;

/// Reads a date with `chrono::NaiveDate::parse_from_str` under the format
/// `%Y-%m-%d`. A date that chrono hands out is a day of the calendar within
/// the years that it supports; which texts it accepts is left to chrono.
#[verifier::external_body]
fn parse_date(text: &str) -> (r: Option<JournalDate>)
    ensures
        match r {
            Some(d) => d.is_valid() && parsed_date(text@) == Some(d@),
            None => parsed_date(text@) is None,
        },
{
    match chrono::NaiveDate::parse_from_str(text, "%Y-%m-%d") {
        Ok(d) => Some(JournalDate { year: d.year(), month: d.month(), day: d.day() }),
        Err(_) => None,
    }
}

/// The current day in the local time zone, from `chrono::Local::now`. Which
/// day comes back depends on the clock; it is a day of the calendar.
#[verifier::external_body]
fn today() -> (d: JournalDate)
    ensures
        d.is_valid(),
{
    let d = chrono::Local::now().date_naive();
    JournalDate { year: d.year(), month: d.month(), day: d.day() }
}

/// Writes a date with `chrono::NaiveDate::format` under the format
/// `%Y-%m-%d`: the year with four digits (with a sign and at least four
/// digits outside 0 to 9999), the month and the day with two digits each.
/// `chrono::NaiveDate::from_ymd_opt` takes every day of the calendar within
/// the years that chrono supports.
#[verifier::external_body]
fn format_date(date: &JournalDate) -> (r: Option<String>)
    ensures
        r is Some || !date.is_valid(),
        r matches Some(s) ==> s@ == iso_text(date@),
{
    match chrono::NaiveDate::from_ymd_opt(date.year, date.month, date.day) {
        Some(d) => Some(d.format("%Y-%m-%d").to_string()),
        None => None,
    }
}

/// The ISO text `YYYY-MM-DD` of a day.
pub fn date_text(date: &JournalDate) -> (s: String)
    ensures
        s@ == iso_text(date@),
{
    proof {
        use_type_invariant(date);
    }
    match format_date(date) {
        Some(s) => s,
        None => String::new(),
    }
}

/// Whether `a` comes before `b` in the order of file names: character by
/// character, a prefix before what it is a prefix of.
pub open spec fn text_less(a: Seq<char>, b: Seq<char>) -> bool
    decreases a.len(),
{
    if b.len() == 0 {
        false
    } else if a.len() == 0 {
        true
    } else if a[0] != b[0] {
        a[0] < b[0]
    } else {
        text_less(a.skip(1), b.skip(1))
    }
}

/// Whether a file name has the extension `md` after a non-empty stem.
pub open spec fn is_note_name(name: Seq<char>) -> bool {
    name.len() > 3 && name.subrange(name.len() - 3, name.len() as int) == seq!['.', 'm', 'd']
}

/// The names with the extension `md`, in order.
pub open spec fn note_names(names: Seq<Seq<char>>) -> Seq<Seq<char>>
    decreases names.len(),
{
    if names.len() == 0 {
        Seq::empty()
    } else if is_note_name(names.last()) {
        note_names(names.drop_last()).push(names.last())
    } else {
        note_names(names.drop_last())
    }
}

/// Where `x` goes into the descending sequence `s`: before the first name
/// that comes before `x`.
pub open spec fn insert_point(s: Seq<Seq<char>>, x: Seq<char>) -> int
    decreases s.len(),
{
    if s.len() == 0 {
        0
    } else if text_less(s[0], x) {
        0
    } else {
        1 + insert_point(s.skip(1), x)
    }
}

/// The names in descending order; of equal names the earlier stays first.
pub open spec fn sort_desc(names: Seq<Seq<char>>) -> Seq<Seq<char>>
    decreases names.len(),
{
    if names.len() == 0 {
        Seq::empty()
    } else {
        let s = sort_desc(names.drop_last());
        s.insert(insert_point(s, names.last()), names.last())
    }
}

/// The paths of the most recent notes among the given file names: the names
/// with the extension `md`, newest first, not more than `limit`.
pub open spec fn recent(names: Seq<Seq<char>>, limit: int) -> Seq<Seq<char>> {
    let sorted = sort_desc(note_names(names));
    Seq::new(min_int(limit, sorted.len() as int) as nat, |i: int| journal_path(sorted[i]))
}

/// Whether `a` comes before `b` in the order of file names.
pub fn less(a: &[char], b: &[char]) -> (r: bool)
    ensures
        r == text_less(a@, b@),
{
    let mut i: usize = 0;
    proof {
        assert(a@.skip(0) =~= a@);
        assert(b@.skip(0) =~= b@);
    }
    loop
        invariant
            i <= a@.len(),
            i <= b@.len(),
            text_less(a@, b@) == text_less(a@.skip(i as int), b@.skip(i as int)),
        decreases a@.len() - i,
    {
        if i >= b.len() {
            return false;
        }
        if i >= a.len() {
            return true;
        }
        proof {
            assert(a@.skip(i as int)[0] == a@[i as int]);
            assert(b@.skip(i as int)[0] == b@[i as int]);
            assert(a@.skip(i as int).skip(1) =~= a@.skip(i + 1));
            assert(b@.skip(i as int).skip(1) =~= b@.skip(i + 1));
        }
        if a[i] != b[i] {
            return a[i] < b[i];
        }
        i += 1;
    }
}

/// Whether a file name has the extension `md` after a non-empty stem.
pub fn has_md_extension(name: &[char]) -> (r: bool)
    ensures
        r == is_note_name(name@),
{
    let n = name.len();
    if n <= 3 {
        return false;
    }
    let r = name[n - 3] == '.' && name[n - 2] == 'm' && name[n - 1] == 'd';
    proof {
        let tail = name@.subrange(n - 3, n as int);
        assert(tail[0] == name@[n - 3] && tail[1] == name@[n - 2] && tail[2] == name@[n - 1]);
        if r {
            assert(tail =~= seq!['.', 'm', 'd']);
        }
    }
    r
}

/// Puts `x` into the descending vector `sorted`.
fn insert_desc(sorted: &mut Vec<Vec<char>>, x: Vec<char>)
    ensures
        line_views(final(sorted)@) == line_views(old(sorted)@).insert(
            insert_point(line_views(old(sorted)@), x@),
            x@,
        ),
{
    let ghost s = line_views(sorted@);
    let mut p: usize = 0;
    proof {
        assert(s.skip(0) =~= s);
    }
    while p < sorted.len() && !less(sorted[p].as_slice(), x.as_slice())
        invariant
            p <= sorted@.len(),
            s == line_views(sorted@),
            insert_point(s, x@) == p + insert_point(s.skip(p as int), x@),
        decreases sorted@.len() - p,
    {
        proof {
            assert(s.skip(p as int)[0] == sorted@[p as int]@);
            assert(s.skip(p as int).skip(1) =~= s.skip(p + 1));
        }
        p += 1;
    }
    proof {
        if p < sorted@.len() {
            assert(s.skip(p as int)[0] == sorted@[p as int]@);
        }
        assert(insert_point(s, x@) == p);
    }
    let ghost xv = x@;
    sorted.insert(p, x);
    assert(line_views(sorted@) =~= s.insert(p as int, xv));
}

/// Builds the text of a template with the date in the place of every placeholder.
pub fn replace(text: &[char], pat: &[char], to: &[char]) -> (out: Vec<char>)
    requires
        pat@.len() > 0,
    ensures
        out@ == replace_all(text@, pat@, to@),
{
    let n = text.len();
    let mut out: Vec<char> = Vec::new();
    let mut pos: usize = 0;
    proof {
        assert(text@.skip(0) =~= text@);
        assert(out@ + replace_all(text@, pat@, to@) =~= replace_all(text@, pat@, to@));
    }
    loop
        invariant
            pos <= n == text@.len(),
            pat@.len() > 0,
            out@ + replace_all(text@.skip(pos as int), pat@, to@) == replace_all(
                text@,
                pat@,
                to@,
            ),
        decreases n - pos,
    {
        let ghost rest = text@.skip(pos as int);
        assert(rest =~= text@.subrange(pos as int, n as int));
        let k = find_sub_in(text, pat, pos, n);
        let ghost before = out@;
        if pat.len() <= n - k {
            let mut i = pos;
            while i < k
                invariant
                    pos <= i <= k <= text@.len(),
                    out@ == before + text@.subrange(pos as int, i as int),
                decreases k - i,
            {
                out.push(text[i]);
                assert(out@ =~= before + text@.subrange(pos as int, i + 1));
                i += 1;
            }
            push_all(&mut out, to);
            proof {
                assert(rest.take(k - pos) =~= text@.subrange(pos as int, k as int));
                assert(rest.skip(k - pos + pat@.len()) =~= text@.skip(k + pat@.len()));
                assert(out@ + replace_all(text@.skip(k + pat@.len()), pat@, to@) =~= before
                    + replace_all(rest, pat@, to@));
            }
            pos = k + pat.len();
        } else {
            let mut i = pos;
            while i < n
                invariant
                    pos <= i <= n == text@.len(),
                    out@ == before + text@.subrange(pos as int, i as int),
                decreases n - i,
            {
                out.push(text[i]);
                assert(out@ =~= before + text@.subrange(pos as int, i + 1));
                i += 1;
            }
            proof {
                lemma_find_sub_shape(rest, pat@);
                assert(replace_all(rest, pat@, to@) == rest);
            }
            return out;
        }
    }
}

/// The journal store of a vault.
pub struct VaultService {
    journal_dir: String,
}

impl VaultService {
    #[verifier::type_invariant]
    spec fn keeps_its_directory(self) -> bool {
        self.journal_dir@ == journal_dir()
    }

    /// The directory of the notes, relative to the vault root.
    pub closed spec fn dir(&self) -> Seq<char> {
        self.journal_dir@
    }

    /// The journal store over the journal directory of a vault.
    pub fn new() -> (s: VaultService)
        ensures
            s.dir() == journal_dir(),
    {
        proof {
            reveal_strlit("Journal");
        }
        let dir = "Journal".to_owned();
        assert(dir@ =~= journal_dir());
        VaultService { journal_dir: dir }
    }

    /// The journal directory, relative to the vault root.
    pub fn journal_dir(&self) -> (d: &str)
        ensures
            d@ == journal_dir(),
            d@ == self.dir(),
    {
        proof {
            use_type_invariant(self);
        }
        self.journal_dir.as_str()
    }

    /// The name of the note file of a day.
    pub fn filename_for(date: &JournalDate) -> (name: String)
        ensures
            name@ == note_name(date@),
    {
        proof {
            reveal_strlit(".md");
        }
        let mut name = date_text(date);
        name.append(".md");
        assert(name@ =~= note_name(date@));
        name
    }

    /// The path of a file of the journal directory, relative to the vault root.
    pub fn path_of(&self, name: &str) -> (path: String)
        ensures
            path@ == journal_path(name@),
    {
        proof {
            reveal_strlit("/");
            use_type_invariant(self);
        }
        let mut path = self.journal_dir.clone();
        path.append("/");
        path.append(name);
        assert(path@ =~= journal_path(name@));
        path
    }

    /// The note file of today.
    pub fn today_note(&self) -> (note: DailyNote)
        ensures
            note.date.is_valid(),
            note.path@ == journal_path(note_name(note.date@)),
    {
        let date = today();
        self.note_of(date)
    }

    /// The note file of a day.
    pub fn note_of(&self, date: JournalDate) -> (note: DailyNote)
        ensures
            note.date == date,
            note.path@ == journal_path(note_name(date@)),
    {
        let name = VaultService::filename_for(&date);
        DailyNote { path: self.path_of(name.as_str()), date }
    }

    /// The path of the note file of today, relative to the vault root.
    pub fn today_path(&self) -> (path: String)
        ensures
            exists|d: JournalDate| d.is_valid() && path@ == journal_path(#[trigger] note_name(d@)),
    {
        let note = self.today_note();
        assert(note.date.is_valid() && note.path@ == journal_path(note_name(note.date@)));
        note.path
    }

    /// The note file of the day that a text was read as: the note of the date
    /// where the text was a date, the error with the text where it was none.
    pub fn note_for_parsed(&self, parsed: Option<JournalDate>, text: &str) -> (r: Result<
        DailyNote,
        VaultError,
    >)
        ensures
            match parsed {
                Some(d) => r matches Ok(note) && note.date == d && note.path@ == journal_path(
                    note_name(d@),
                ),
                None => r matches Err(VaultError::InvalidDate(t)) && t@ == text@,
            },
    {
        match parsed {
            Some(date) => Ok(self.note_of(date)),
            None => Err(VaultError::InvalidDate(text.to_owned())),
        }
    }

    /// The note file of a day: of today where no date is given, else of the
    /// date that the text is read as. A text that is no date is refused.
    pub fn path_for(&self, date: Option<&str>) -> (r: Result<DailyNote, VaultError>)
        ensures
            match date {
                Some(text) => match parsed_date(text@) {
                    Some(ymd) => r matches Ok(note) && note.date.is_valid() && note.date@ == ymd && note.path@ == journal_path(note_name(note.date@)),
                    None => r matches Err(VaultError::InvalidDate(t)) && t@ == text@,
                },
                None => r matches Ok(note) && note.date.is_valid() && note.path@ == journal_path(
                    note_name(note.date@),
                ),
            },
    {
        match date {
            Some(text) => {
                let parsed = parse_date(text);
                self.note_for_parsed(parsed, text)
            },
            None => Ok(self.today_note()),
        }
    }

    /// What to write into the note file of a day before it is used: nothing
    /// where the file exists, else the template with the date filled in.
    pub fn ensure_daily_file(exists: bool, template: &str, date: &JournalDate) -> (seed: Option<
        String,
    >)
        ensures
            exists ==> seed is None,
            !exists ==> (seed matches Some(s) && s@ == seeded(template@, date@)),
    {
        if exists {
            return None;
        }
        let text = chars_of(template);
        let pat = vec!['{', '{', 'd', 'a', 't', 'e', '}', '}'];
        assert(pat@ =~= date_placeholder());
        let to = chars_of(date_text(date).as_str());
        let out = replace(text.as_slice(), pat.as_slice(), to.as_slice());
        Some(string_of(out.as_slice()))
    }

    /// What an append to the note of a day adds: the text and a line feed, at
    /// the end of the note file of the day.
    pub fn append_for_date(&self, date: JournalDate, text: &str) -> (a: JournalAppend)
        ensures
            a.date == date,
            a.path@ == journal_path(note_name(date@)),
            a.line@ == text@ + seq!['\n'],
    {
        proof {
            reveal_strlit("\n");
        }
        let note = self.note_of(date);
        let mut line = text.to_owned();
        line.append("\n");
        assert(line@ =~= text@ + seq!['\n']);
        JournalAppend { path: note.path, date, line }
    }

    /// What an append to the note of today adds.
    pub fn append_today(&self, text: &str) -> (a: JournalAppend)
        ensures
            a.date.is_valid(),
            a.path@ == journal_path(note_name(a.date@)),
            a.line@ == text@ + seq!['\n'],
    {
        self.append_for_date(today(), text)
    }

    /// The paths of the most recent notes, newest first and not more than
    /// `limit`, among the names of the files of the journal directory.
    pub fn list_recent(&self, names: &Vec<String>, limit: usize) -> (paths: Vec<String>)
        ensures
            string_views(paths@) == recent(string_views(names@), limit as int),
    {
        let ghost ns = string_views(names@);
        let mut sorted: Vec<Vec<char>> = Vec::new();
        let mut i: usize = 0;
        while i < names.len()
            invariant
                i <= names@.len(),
                ns == string_views(names@),
                line_views(sorted@) == sort_desc(note_names(ns.take(i as int))),
            decreases names@.len() - i,
        {
            proof {
                assert(ns.take(i + 1).drop_last() =~= ns.take(i as int));
                assert(ns.take(i + 1).last() == names@[i as int]@);
            }
            let name = chars_of(names[i].as_str());
            if has_md_extension(name.as_slice()) {
                proof {
                    let kept = note_names(ns.take(i as int));
                    assert(kept.push(name@).drop_last() =~= kept);
                }
                insert_desc(&mut sorted, name);
            }
            i += 1;
        }
        assert(ns.take(i as int) =~= ns);
        let ghost all = line_views(sorted@);
        let mut paths: Vec<String> = Vec::new();
        let mut j: usize = 0;
        while j < sorted.len() && j < limit
            invariant
                j <= sorted@.len(),
                j <= limit,
                all == line_views(sorted@),
                paths@.len() == j,
                forall|k: int| 0 <= k < j ==> (#[trigger] paths@[k])@ == journal_path(all[k]),
            decreases sorted@.len() - j,
        {
            let name = string_of(sorted[j].as_slice());
            paths.push(self.path_of(name.as_str()));
            j += 1;
        }
        assert(string_views(paths@) =~= recent(ns, limit as int));
        paths
    }
}

impl VaultError {
    /// What the error says, for the user.
    pub fn message(&self) -> (m: String)
        ensures
            match self {
                VaultError::InvalidDate(text) => m@ == "invalid date format: "@ + text@,
            },
    {
        match self {
            VaultError::InvalidDate(text) => {
                let mut m = "invalid date format: ".to_owned();
                m.append(text.as_str());
                m
            },
        }
    }
}

} // verus!
