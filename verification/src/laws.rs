//! What holds of the task ledger across its operations.
//!
//! The statements speak of the ledger text before and after an operation, in
//! the terms in which the operations of `TaskService` state their results.
use vstd::prelude::*;
use crate::codec::{
    Record, flip, labelled, parse_line, priority_glyph, priority_suffix, render_head,
    render_line, render_meta, due_glyph, repeat_glyph, NewTaskView, TaskFilter,
};
use crate::decimal::{decimal, lemma_decimal_reads_back};
use crate::lines::{
    all_no_newline, is_terminated, lemma_join_one, lemma_split_concat,
    lemma_split_join, lemma_split_lines_no_newline, lemma_split_terminate, no_newline,
    split_lines,
};
use crate::roundtrip::{
    clean_title, flipped, glyph_free, is_glyph, is_meta_tail, lemma_digits_plain, lemma_flip_twice,
    lemma_parse_flip, lemma_parse_head, lemma_parse_rendered, lemma_parse_trimmed,
};
use crate::tasks::{
    add_text, append_line, has_id, is_record_with_id, listing, max_id, next_id, passes,
    purge_lines, purge_text, records_of, set_status_line, set_status_lines, set_status_text, survives_purge,
    terminated,
};
use crate::text::{
    find_char, is_trimmed, lemma_find_char_shape, lemma_trim_end_shape, lemma_trim_start_shape, occurs_at,
    trim, trim_end, trim_start,
};

verus! {

/// Whether a line reads as a record with these values.
pub open spec fn reads_as(line: Seq<char>, id: usize, done: bool, title: Seq<char>) -> bool {
    &&& parse_line(line) is Some
    &&& parse_line(line)->0.id == id
    &&& parse_line(line)->0.done == done
    &&& parse_line(line)->0.title == title
}

/// Whether an optional text holds no line feed.
pub open spec fn opt_no_newline(s: Option<Seq<char>>) -> bool {
    match s {
        Some(v) => no_newline(v),
        None => true,
    }
}

/// Whether a task holds no line feed, so that its record is one line.
pub open spec fn on_one_line(task: NewTaskView) -> bool {
    &&& no_newline(task.title)
    &&& opt_no_newline(task.due_date)
    &&& opt_no_newline(task.recurrence)
}

/// The lines that are no records, in order.
pub open spec fn other_lines(ls: Seq<Seq<char>>) -> Seq<Seq<char>>
    decreases ls.len(),
{
    if ls.len() == 0 {
        Seq::empty()
    } else if parse_line(ls.last()) is None {
        other_lines(ls.drop_last()).push(ls.last())
    } else {
        other_lines(ls.drop_last())
    }
}

/// The ledger text after the tasks are added one after the other.
pub open spec fn add_all(text: Seq<char>, tasks: Seq<NewTaskView>) -> Seq<char>
    decreases tasks.len(),
{
    if tasks.len() == 0 {
        text
    } else {
        add_text(add_all(text, tasks.drop_last()), tasks.last())
    }
}

/// Trimming brings no line feed into a text.
pub proof fn lemma_trim_no_newline(l: Seq<char>)
    requires
        no_newline(l),
    ensures
        no_newline(trim(l)),
{
    lemma_trim_start_shape(l);
    let t = trim_start(l);
    lemma_trim_end_shape(t);
    let u = trim_end(t);
    assert forall|i: int| 0 <= i < u.len() implies #[trigger] u[i] != '\n' by {
        assert(u[i] == t[i]);
        assert(t[i] == l[i + (l.len() - t.len())]);
    }
}

/// Setting a status brings no line feed into a line.
pub proof fn lemma_set_status_no_newline(ls: Seq<Seq<char>>, id: usize, done: bool)
    requires
        all_no_newline(ls),
    ensures
        all_no_newline(set_status_lines(ls, id, done)),
{
    let out = set_status_lines(ls, id, done);
    assert forall|i: int| 0 <= i < out.len() implies no_newline(#[trigger] out[i]) by {
        assert(no_newline(ls[i]));
        lemma_trim_no_newline(ls[i]);
        let f = flip(trim(ls[i]), done);
        assert forall|j: int| 0 <= j < f.len() implies #[trigger] f[j] != '\n' by {
            if j != 3 {
                assert(f[j] == trim(ls[i])[j]);
            }
        }
    }
}

/// A purge brings no line feed into a line.
pub proof fn lemma_purge_no_newline(ls: Seq<Seq<char>>)
    requires
        all_no_newline(ls),
    ensures
        all_no_newline(purge_lines(ls)),
    decreases ls.len(),
{
    if ls.len() > 0 {
        let d = ls.drop_last();
        assert forall|i: int| 0 <= i < d.len() implies no_newline(#[trigger] d[i]) by {
            assert(d[i] == ls[i]);
        }
        lemma_purge_no_newline(d);
        assert(no_newline(ls[ls.len() - 1]));
    }
}

/// The lines of a ledger after a text is appended as its new end.
pub proof fn lemma_lines_after_append(text: Seq<char>, line: Seq<char>)
    ensures
        split_lines(append_line(text, line)) == split_lines(text) + split_lines(
            line + seq!['\n'],
        ),
{
    let t = terminated(text);
    if !is_terminated(text) {
        lemma_split_terminate(text);
    }
    lemma_split_concat(t, line + seq!['\n']);
    assert(append_line(text, line) =~= t + (line + seq!['\n']));
}

/// A line without line feeds, followed by one, is one line.
pub proof fn lemma_one_line(line: Seq<char>)
    requires
        no_newline(line),
    ensures
        split_lines(line + seq!['\n']) == seq![line],
{
    lemma_join_one(line);
    assert(all_no_newline(seq![line]));
    lemma_split_join(seq![line]);
}

/// No record has an identifier above the largest one.
pub proof fn lemma_max_id_bounds(ls: Seq<Seq<char>>, i: int, id: usize)
    requires
        is_record_with_id(ls, i, id),
    ensures
        id <= max_id(ls),
    decreases ls.len(),
{
    if i < ls.len() - 1 {
        let d = ls.drop_last();
        assert(d[i] == ls[i]);
        lemma_max_id_bounds(d, i, id);
    }
}

/// The largest identifier after one more line.
pub proof fn lemma_max_id_push(ls: Seq<Seq<char>>, l: Seq<char>)
    ensures
        max_id(ls.push(l)) == match parse_line(l) {
            Some(r) => if r.id > max_id(ls) {
                r.id as nat
            } else {
                max_id(ls)
            },
            None => max_id(ls),
        },
{
    assert(ls.push(l).drop_last() =~= ls);
}

/// A record that passes the filter stands in the listing.
pub proof fn lemma_listing_has(ls: Seq<Seq<char>>, i: int, filter: TaskFilter)
    requires
        0 <= i < ls.len(),
        parse_line(ls[i]) is Some,
        passes(parse_line(ls[i])->0, filter),
    ensures
        exists|j: int|
            0 <= j < listing(ls, filter).len() && #[trigger] listing(ls, filter)[j] == parse_line(
                ls[i],
            )->0.raw,
    decreases ls.len(),
{
    let d = ls.drop_last();
    if i < ls.len() - 1 {
        assert(d[i] == ls[i]);
        lemma_listing_has(d, i, filter);
        let j = choose|j: int|
            0 <= j < listing(d, filter).len() && #[trigger] listing(d, filter)[j] == parse_line(
                ls[i],
            )->0.raw;
        assert(listing(ls, filter)[j] == listing(d, filter)[j]);
    } else {
        let j = listing(d, filter).len() as int;
        assert(listing(ls, filter)[j] == parse_line(ls[i])->0.raw);
    }
}

/// The trimmed text of the given records.
pub open spec fn raw_texts(rs: Seq<Record>) -> Seq<Seq<char>> {
    Seq::new(rs.len(), |i: int| rs[i].raw)
}

/// A listing without filter shows every record of the ledger, in file order.
pub proof fn law_listing_all_shows_every_record(ls: Seq<Seq<char>>)
    ensures
        listing(ls, TaskFilter::All) == raw_texts(records_of(ls)),
    decreases ls.len(),
{
    if ls.len() > 0 {
        law_listing_all_shows_every_record(ls.drop_last());
    }
    assert(listing(ls, TaskFilter::All) =~= raw_texts(records_of(ls)));
}

/// The metadata of a rendered task is a meta tail.
pub proof fn lemma_meta_tail(task: NewTaskView)
    ensures
        is_meta_tail(render_meta(task)),
{
    let m = render_meta(task);
    match task.due_date {
        Some(v) => {
            let g = due_glyph();
            assert(m.subrange(1, 2) =~= g);
            assert(is_glyph(g) && occurs_at(m, g, 1));
        },
        None => {
            match task.recurrence {
                Some(v) => {
                    let g = repeat_glyph();
                    assert(m.subrange(1, 2) =~= g);
                    assert(is_glyph(g) && occurs_at(m, g, 1));
                },
                None => {
                    match task.priority {
                        Some(p) => {
                            let g = priority_glyph(p);
                            assert(m.subrange(1, 1 + g.len() as int) =~= g);
                            assert(is_glyph(g) && occurs_at(m, g, 1));
                        },
                        None => {
                            assert(m.len() == 0);
                        },
                    }
                },
            }
        },
    }
}

/// The opening of a record line holds no line feed.
pub proof fn lemma_head_no_newline(id: usize)
    ensures
        no_newline(render_head(id)),
{
    lemma_decimal_reads_back(id as nat);
    let dec = decimal(id as nat);
    lemma_digits_plain(dec);
    let h = render_head(id);
    assert forall|i: int| 0 <= i < h.len() implies #[trigger] h[i] != '\n' by {
        if 7 <= i < 7 + dec.len() {
            assert(h[i] == dec[i - 7]);
        }
    }
}

/// The record of a task that is written on one line holds no line feed.
pub proof fn lemma_render_no_newline(id: usize, task: NewTaskView)
    requires
        on_one_line(task),
    ensures
        no_newline(render_line(id, task)),
{
    lemma_head_no_newline(id);
    let h = render_head(id);
    let d = labelled(due_glyph(), task.due_date);
    let r = labelled(repeat_glyph(), task.recurrence);
    let p = priority_suffix(task.priority);
    assert(no_newline(d));
    assert(no_newline(r));
    assert(no_newline(p));
    let line = render_line(id, task);
    assert(line =~= h + task.title + d + r + p);
    assert forall|i: int| 0 <= i < line.len() implies #[trigger] line[i] != '\n' by {
        if i < h.len() {
            assert(line[i] == h[i]);
        } else if i < h.len() + task.title.len() {
            assert(line[i] == task.title[i - h.len()]);
        } else if i < h.len() + task.title.len() + d.len() {
            assert(line[i] == d[i - h.len() - task.title.len()]);
        } else if i < h.len() + task.title.len() + d.len() + r.len() {
            assert(line[i] == r[i - h.len() - task.title.len() - d.len()]);
        } else {
            assert(line[i] == p[i - h.len() - task.title.len() - d.len() - r.len()]);
        }
    }
}

/// The first line of a rendered task with a clean title is a record with the
/// identifier and the title of the task.
pub proof fn lemma_first_line_of_rendered(id: usize, task: NewTaskView)
    requires
        clean_title(task.title),
    ensures
        split_lines(render_line(id, task) + seq!['\n']).len() > 0,
        reads_as(split_lines(render_line(id, task) + seq!['\n'])[0], id, false, task.title),
{
    let h = render_head(id);
    let title = task.title;
    let meta = render_meta(task);
    let full = render_line(id, task) + seq!['\n'];
    assert(full =~= h + title + meta + seq!['\n']);
    lemma_head_no_newline(id);
    lemma_meta_tail(task);
    lemma_find_char_shape(full, '\n');
    let k = find_char(full, '\n');
    let base = h.len() + title.len();
    assert(full[full.len() - 1] == '\n');
    assert(k < full.len());
    assert(k >= base) by {
        if k < base {
            if k < h.len() {
                assert(full[k] == h[k]);
            } else {
                assert(full[k] == title[k - h.len()]);
            }
        }
    }
    let m = full.subrange(base as int, k);
    assert(full.take(k) =~= h + title + m);
    if meta.len() == 0 {
        assert(full[base as int] == '\n');
        assert(k == base);
    } else {
        let g = choose|g: Seq<char>| is_glyph(g) && #[trigger] occurs_at(meta, g, 1);
        assert(1 <= g.len() <= 2);
        assert(meta.subrange(1, 1 + g.len() as int) == g);
        assert forall|j: int| 0 <= j < g.len() implies meta[1 + j] == #[trigger] g[j] by {
            assert(meta.subrange(1, 1 + g.len() as int)[j] == meta[1 + j]);
        }
        assert(k >= base + 1 + g.len() as int) by {
            if k < base + 1 + g.len() {
                assert(full[k] == meta[k - base]);
                if k > base {
                    assert(meta[k - base] == g[k - base - 1]);
                }
            }
        }
        assert(m[0] == meta[0]);
        assert(m.subrange(1, 1 + g.len() as int) =~= g) by {
            assert forall|j: int| 0 <= j < g.len() implies m.subrange(1, 1 + g.len() as int)[j]
                == g[j] by {
                assert(m.subrange(1, 1 + g.len() as int)[j] == meta[1 + j]);
            }
        }
        assert(occurs_at(m, g, 1));
    }
    lemma_parse_rendered(id, title, m);
}

/// A rendered task reads back as it was written: the line is a record with
/// the identifier, open, and with the title of the task. This holds of the
/// titles that are trimmed and hold no marker glyph.
pub proof fn law_rendered_line_reads_back(id: usize, task: NewTaskView)
    requires
        is_trimmed(task.title),
        glyph_free(task.title),
    ensures
        reads_as(render_line(id, task), id, false, task.title),
{
    lemma_meta_tail(task);
    lemma_parse_rendered(id, task.title, render_meta(task));
}

/// A task that was just added is listed: with every record listed, the
/// listing holds a line that reads as a record with the identifier that the
/// addition returned, open, and with the title as it was given. This holds
/// of the titles that a record line can hold: trimmed, on one line, without
/// marker glyphs.
pub proof fn law_added_task_is_listed(text: Seq<char>, task: NewTaskView)
    requires
        max_id(split_lines(text)) < usize::MAX,
        clean_title(task.title),
    ensures
        exists|j: int|
            0 <= j < listing(split_lines(add_text(text, task)), TaskFilter::All).len() && reads_as(
                #[trigger] listing(split_lines(add_text(text, task)), TaskFilter::All)[j],
                next_id(text),
                false,
                task.title,
            ),
{
    let id = next_id(text);
    let line = render_line(id, task);
    let before = split_lines(text);
    let added = split_lines(line + seq!['\n']);
    lemma_lines_after_append(text, line);
    lemma_first_line_of_rendered(id, task);
    let ls = split_lines(add_text(text, task));
    let i = before.len() as int;
    assert(ls[i] == added[0]);
    lemma_listing_has(ls, i, TaskFilter::All);
    let j = choose|j: int|
        0 <= j < listing(ls, TaskFilter::All).len() && #[trigger] listing(ls, TaskFilter::All)[j]
            == parse_line(ls[i])->0.raw;
    lemma_parse_trimmed(ls[i]);
}

/// The lines of a ledger after a task on one line is added: the old lines and
/// the record of the task, which holds the new identifier.
pub proof fn lemma_lines_after_add(text: Seq<char>, task: NewTaskView)
    requires
        on_one_line(task),
    ensures
        split_lines(add_text(text, task)) == split_lines(text).push(
            render_line(next_id(text), task),
        ),
        parse_line(render_line(next_id(text), task)) is Some,
        parse_line(render_line(next_id(text), task))->0.id == next_id(text),
{
    let id = next_id(text);
    let line = render_line(id, task);
    lemma_lines_after_append(text, line);
    lemma_render_no_newline(id, task);
    lemma_one_line(line);
    lemma_parse_head(id, task.title + render_meta(task));
    assert(line =~= render_head(id) + (task.title + render_meta(task)));
    assert(split_lines(text) + seq![line] =~= split_lines(text).push(line));
}

/// Every added task gets the identifier after the largest one.
pub proof fn law_add_counts_up(text: Seq<char>, task: NewTaskView)
    requires
        max_id(split_lines(text)) < usize::MAX,
        on_one_line(task),
    ensures
        max_id(split_lines(add_text(text, task))) == max_id(split_lines(text)) + 1,
        next_id(text) == max_id(split_lines(text)) + 1,
{
    lemma_lines_after_add(text, task);
    lemma_max_id_push(split_lines(text), render_line(next_id(text), task));
}

/// After the tasks are added, the largest identifier has grown by their number.
pub proof fn lemma_add_all_max_id(text: Seq<char>, tasks: Seq<NewTaskView>)
    requires
        max_id(split_lines(text)) + tasks.len() <= usize::MAX,
        forall|k: int| 0 <= k < tasks.len() ==> on_one_line(#[trigger] tasks[k]),
    ensures
        max_id(split_lines(add_all(text, tasks))) == max_id(split_lines(text)) + tasks.len(),
    decreases tasks.len(),
{
    if tasks.len() > 0 {
        let d = tasks.drop_last();
        assert forall|k: int| 0 <= k < d.len() implies on_one_line(#[trigger] d[k]) by {
            assert(d[k] == tasks[k]);
        }
        lemma_add_all_max_id(text, d);
        assert(on_one_line(tasks[tasks.len() - 1]));
        law_add_counts_up(add_all(text, d), tasks.last());
    }
}

/// Tasks that are added to a ledger without records get the identifiers
/// 1, 2, 3 and so on, in the order in which they are added: the task added
/// after `k` others gets `k + 1`. This holds of tasks that hold no line feed.
pub proof fn law_ids_count_from_one(text: Seq<char>, tasks: Seq<NewTaskView>, k: int)
    requires
        max_id(split_lines(text)) == 0,
        tasks.len() <= usize::MAX,
        forall|i: int| 0 <= i < tasks.len() ==> on_one_line(#[trigger] tasks[i]),
        0 <= k < tasks.len(),
    ensures
        next_id(add_all(text, tasks.take(k))) == k + 1,
{
    let before = tasks.take(k);
    assert forall|i: int| 0 <= i < before.len() implies on_one_line(#[trigger] before[i]) by {
        assert(before[i] == tasks[i]);
    }
    lemma_add_all_max_id(text, before);
}

/// The identifier of the next added task is the identifier of no record in the ledger.
pub proof fn law_next_id_is_fresh(text: Seq<char>)
    requires
        max_id(split_lines(text)) < usize::MAX,
    ensures
        !has_id(split_lines(text), next_id(text)),
{
    let ls = split_lines(text);
    if has_id(ls, next_id(text)) {
        let i = choose|i: int| is_record_with_id(ls, i, next_id(text));
        lemma_max_id_bounds(ls, i, next_id(text));
    }
}

/// Whether no two records of the given lines have the same identifier.
pub open spec fn ids_are_unique(ls: Seq<Seq<char>>) -> bool {
    forall|i: int, j: int, id: usize|
        #![trigger is_record_with_id(ls, i, id), is_record_with_id(ls, j, id)]
        is_record_with_id(ls, i, id) && is_record_with_id(ls, j, id) ==> i == j
}

/// A ledger whose identifiers are unique keeps them unique when a task is
/// added. This holds of tasks that hold no line feed.
pub proof fn law_add_keeps_ids_unique(text: Seq<char>, task: NewTaskView)
    requires
        max_id(split_lines(text)) < usize::MAX,
        on_one_line(task),
        ids_are_unique(split_lines(text)),
    ensures
        ids_are_unique(split_lines(add_text(text, task))),
{
    lemma_lines_after_add(text, task);
    let before = split_lines(text);
    let after = split_lines(add_text(text, task));
    let n = before.len() as int;
    assert forall|i: int, j: int, id: usize|
        #![trigger is_record_with_id(after, i, id), is_record_with_id(after, j, id)]
        is_record_with_id(after, i, id) && is_record_with_id(after, j, id) implies i == j by {
        if i < n {
            assert(after[i] == before[i]);
            assert(is_record_with_id(before, i, id));
            lemma_max_id_bounds(before, i, id);
        }
        if j < n {
            assert(after[j] == before[j]);
            assert(is_record_with_id(before, j, id));
            lemma_max_id_bounds(before, j, id);
        }
    }
}

/// The lines of a ledger after a purge are the lines that the purge keeps.
pub proof fn lemma_lines_after_purge(text: Seq<char>)
    ensures
        split_lines(purge_text(text)) == purge_lines(split_lines(text)),
{
    lemma_split_lines_no_newline(text);
    lemma_purge_no_newline(split_lines(text));
    lemma_split_join(purge_lines(split_lines(text)));
}

/// A task that is added after a purge gets an identifier that no record
/// left in the ledger has.
pub proof fn law_add_after_purge_is_fresh(text: Seq<char>)
    requires
        max_id(purge_lines(split_lines(text))) < usize::MAX,
    ensures
        !has_id(purge_lines(split_lines(text)), next_id(purge_text(text))),
{
    lemma_lines_after_purge(text);
    law_next_id_is_fresh(purge_text(text));
}

/// The lines of a ledger after a status is set with success.
pub proof fn lemma_lines_after_set_status(text: Seq<char>, id: usize, done: bool)
    requires
        has_id(split_lines(text), id),
    ensures
        split_lines(set_status_text(text, id, done)) == set_status_lines(
            split_lines(text),
            id,
            done,
        ),
{
    lemma_split_lines_no_newline(text);
    lemma_set_status_no_newline(split_lines(text), id, done);
    lemma_split_join(set_status_lines(split_lines(text), id, done));
}

/// A line whose status was set is left alone when the same status is set again,
/// and is a record with identifier `id` exactly if it was one before.
pub proof fn lemma_set_status_line_twice(line: Seq<char>, id: usize, done: bool)
    ensures
        set_status_line(set_status_line(line, id, done), id, done) == set_status_line(
            line,
            id,
            done,
        ),
        parse_line(set_status_line(line, id, done)) is Some <==> parse_line(line) is Some,
        parse_line(line) is Some ==> parse_line(set_status_line(line, id, done))->0.id
            == parse_line(line)->0.id,
{
    match parse_line(line) {
        Some(r) => {
            if r.id == id {
                lemma_parse_flip(line, done);
                lemma_flip_twice(r.raw, done);
                assert(flipped(r, done).raw == flip(r.raw, done));
            }
        },
        None => {},
    }
}

/// Setting a status twice is setting it once: the second call leaves the
/// ledger as the first call left it, whether the task exists or not.
pub proof fn law_set_status_twice(text: Seq<char>, id: usize, done: bool)
    ensures
        set_status_text(set_status_text(text, id, done), id, done) == set_status_text(
            text,
            id,
            done,
        ),
{
    let ls = split_lines(text);
    if has_id(ls, id) {
        lemma_lines_after_set_status(text, id, done);
        let once = set_status_lines(ls, id, done);
        let i = choose|i: int| is_record_with_id(ls, i, id);
        lemma_set_status_line_twice(ls[i], id, done);
        assert(is_record_with_id(once, i, id));
        assert(has_id(once, id));
        let twice = set_status_lines(once, id, done);
        assert(twice =~= once) by {
            assert forall|j: int| 0 <= j < once.len() implies twice[j] == once[j] by {
                lemma_set_status_line_twice(ls[j], id, done);
            }
        }
    }
}

/// Setting a status keeps the number of lines and changes no line but the
/// records with the given identifier; above all, it changes no line that is
/// no record.
pub proof fn law_set_status_keeps_other_lines(text: Seq<char>, id: usize, done: bool, i: int)
    requires
        0 <= i < split_lines(text).len(),
        !is_record_with_id(split_lines(text), i, id),
    ensures
        split_lines(set_status_text(text, id, done)).len() == split_lines(text).len(),
        split_lines(set_status_text(text, id, done))[i] == split_lines(text)[i],
{
    if has_id(split_lines(text), id) {
        lemma_lines_after_set_status(text, id, done);
    }
}

/// Adding a task keeps every line of the ledger in its place.
pub proof fn law_add_keeps_lines(text: Seq<char>, task: NewTaskView, i: int)
    requires
        0 <= i < split_lines(text).len(),
    ensures
        i < split_lines(add_text(text, task)).len(),
        split_lines(add_text(text, task))[i] == split_lines(text)[i],
{
    lemma_lines_after_append(text, render_line(next_id(text), task));
}

/// A purge keeps the lines that are no records.
pub proof fn lemma_other_lines_of_purge(ls: Seq<Seq<char>>)
    ensures
        other_lines(purge_lines(ls)) == other_lines(ls),
    decreases ls.len(),
{
    if ls.len() > 0 {
        let d = ls.drop_last();
        lemma_other_lines_of_purge(d);
        if survives_purge(ls.last()) {
            assert(purge_lines(ls).drop_last() =~= purge_lines(d));
        }
    }
}

/// A purge keeps every line that is no record, in the order in which they stood.
pub proof fn law_purge_keeps_other_lines(text: Seq<char>)
    ensures
        other_lines(split_lines(purge_text(text))) == other_lines(split_lines(text)),
{
    lemma_lines_after_purge(text);
    lemma_other_lines_of_purge(split_lines(text));
}

/// Every line that a purge keeps is no record or an open one.
pub proof fn lemma_purge_leaves_open(ls: Seq<Seq<char>>, j: int)
    requires
        0 <= j < purge_lines(ls).len(),
    ensures
        survives_purge(purge_lines(ls)[j]),
    decreases ls.len(),
{
    if ls.len() > 0 {
        let d = ls.drop_last();
        if j < purge_lines(d).len() {
            lemma_purge_leaves_open(d, j);
        }
    }
}

/// After a purge no record of the ledger is done.
pub proof fn law_purge_leaves_no_done(text: Seq<char>, j: int)
    requires
        0 <= j < split_lines(purge_text(text)).len(),
    ensures
        survives_purge(split_lines(purge_text(text))[j]),
{
    lemma_lines_after_purge(text);
    lemma_purge_leaves_open(split_lines(text), j);
}

/// A status that is set shows: a record with the identifier whose status
/// token is `[ ]`, `[x]` or `[X]` reads with the new status afterwards.
pub proof fn law_set_status_shows(text: Seq<char>, id: usize, done: bool, i: int)
    requires
        is_record_with_id(split_lines(text), i, id),
        ({
            let c = parse_line(split_lines(text)[i])->0.raw[3];
            c == ' ' || c == 'x' || c == 'X'
        }),
    ensures
        i < split_lines(set_status_text(text, id, done)).len(),
        parse_line(split_lines(set_status_text(text, id, done))[i]) is Some,
        parse_line(split_lines(set_status_text(text, id, done))[i])->0.done == done,
        parse_line(split_lines(set_status_text(text, id, done))[i])->0.id == id,
        parse_line(split_lines(set_status_text(text, id, done))[i])->0.title == parse_line(
            split_lines(text)[i],
        )->0.title,
{
    lemma_lines_after_set_status(text, id, done);
    lemma_parse_flip(split_lines(text)[i], done);
}

} // verus!
