//! What the record codec guarantees across its functions: a rendered task
//! reads back as it was written, and a status switch changes the status and
//! nothing else.
use vstd::prelude::*;
use crate::codec::{
    due_glyph, flip, has_status_token, parse_line, priority_glyph, render_head, repeat_glyph,
    status_char, title_end, title_of, Priority, Record,
};
use crate::decimal::{all_digits, decimal, lemma_decimal_reads_back};
use crate::text::{
    find_sub, is_space, is_trimmed, lemma_find_char_is, lemma_find_sub_is,
    lemma_find_sub_shape, lemma_trim_end_shape, lemma_trim_is_trimmed, lemma_trim_window,
    occurs_at, trim, trim_end,
};

verus! {

/// The five marker glyphs.
pub open spec fn is_glyph(g: Seq<char>) -> bool {
    ||| g == due_glyph()
    ||| g == repeat_glyph()
    ||| g == priority_glyph(Priority::Low)
    ||| g == priority_glyph(Priority::Medium)
    ||| g == priority_glyph(Priority::High)
}

/// Whether no marker glyph occurs in `s`.
pub open spec fn glyph_free(s: Seq<char>) -> bool {
    forall|g: Seq<char>, i: int| is_glyph(g) ==> !#[trigger] occurs_at(s, g, i)
}

/// Whether no marker glyph occurs in `s` before index `k`.
pub open spec fn glyph_free_before(s: Seq<char>, k: int) -> bool {
    forall|g: Seq<char>, i: int| is_glyph(g) && 0 <= i < k ==> !#[trigger] occurs_at(s, g, i)
}

/// The titles that a record line hands back unchanged: trimmed, on one line,
/// and free of marker glyphs.
pub open spec fn clean_title(title: Seq<char>) -> bool {
    &&& is_trimmed(title)
    &&& forall|i: int| 0 <= i < title.len() ==> #[trigger] title[i] != '\n'
    &&& glyph_free(title)
}

proof fn lemma_glyph_chars(g: Seq<char>)
    requires
        is_glyph(g),
    ensures
        1 <= g.len() <= 2,
        forall|i: int| 0 <= i < g.len() ==> !is_space(#[trigger] g[i]) && g[i] != '\n',
{
}

proof fn lemma_find_sub_at_least(s: Seq<char>, g: Seq<char>, k: int)
    requires
        0 <= k <= s.len(),
        forall|i: int| 0 <= i < k ==> !occurs_at(s, g, i),
    ensures
        find_sub(s, g) >= k,
{
    lemma_find_sub_shape(s, g);
}

/// Where a glyph stands at index `k` and none before it, the title ends at `k`.
pub proof fn lemma_title_end_at(rem: Seq<char>, g: Seq<char>, k: int)
    requires
        is_glyph(g),
        occurs_at(rem, g, k),
        glyph_free_before(rem, k),
    ensures
        title_end(rem) == k,
{
    lemma_glyph_chars(g);
    lemma_find_sub_at_least(rem, due_glyph(), k);
    lemma_find_sub_at_least(rem, repeat_glyph(), k);
    lemma_find_sub_at_least(rem, priority_glyph(Priority::Low), k);
    lemma_find_sub_at_least(rem, priority_glyph(Priority::Medium), k);
    lemma_find_sub_at_least(rem, priority_glyph(Priority::High), k);
    lemma_find_sub_is(rem, g, k);
}

/// Where no glyph stands in the remainder, the title runs to its end.
pub proof fn lemma_title_end_none(rem: Seq<char>)
    requires
        glyph_free(rem),
    ensures
        title_end(rem) == rem.len(),
{
    let n = rem.len() as int;
    lemma_find_sub_is(rem, due_glyph(), n);
    lemma_find_sub_is(rem, repeat_glyph(), n);
    lemma_find_sub_is(rem, priority_glyph(Priority::Low), n);
    lemma_find_sub_is(rem, priority_glyph(Priority::Medium), n);
    lemma_find_sub_is(rem, priority_glyph(Priority::High), n);
}

/// After a glyph-free title and a space, no glyph starts before the space ends.
pub proof fn lemma_glyph_free_prefix(title: Seq<char>, rest: Seq<char>)
    requires
        glyph_free(title),
    ensures
        glyph_free_before(title + seq![' '] + rest, title.len() as int + 1),
{
    let s = title + seq![' '] + rest;
    let k = title.len() as int;
    assert forall|g: Seq<char>, i: int| is_glyph(g) && 0 <= i < k + 1 implies !#[trigger] occurs_at(
        s,
        g,
        i,
    ) by {
        lemma_glyph_chars(g);
        if occurs_at(s, g, i) {
            let w = s.subrange(i, i + g.len());
            if i + g.len() <= k {
                assert(title.subrange(i, i + g.len()) =~= w);
                assert(occurs_at(title, g, i));
            } else {
                assert(w[k - i] == s[k]);
                assert(s[k] == ' ');
                assert(g[k - i] == ' ');
            }
        }
    }
}

/// A meta tail: nothing, or a space, a marker glyph, and anything after it.
pub open spec fn is_meta_tail(m: Seq<char>) -> bool {
    m.len() == 0 || (m[0] == ' ' && exists|g: Seq<char>| is_glyph(g) && #[trigger] occurs_at(
        m,
        g,
        1,
    ))
}

/// The title that stands before a meta tail is read back whole.
pub proof fn lemma_title_before_tail(title: Seq<char>, m: Seq<char>)
    requires
        is_trimmed(title),
        glyph_free(title),
        is_meta_tail(m),
    ensures
        title_of(trim(seq![' '] + title + m)) == title,
{
    let s = seq![' '] + title + m;
    lemma_trim_is_trimmed(title);
    if m.len() == 0 {
        assert(s =~= seq![' '] + title);
        if title.len() == 0 {
            lemma_trim_window(s, 1, 1);
            assert(s.subrange(1, 1) =~= title);
        } else {
            lemma_trim_window(s, 1, s.len() as int);
            assert(s.subrange(1, s.len() as int) =~= title);
        }
        assert(trim(s) == title);
        lemma_title_end_none(title);
        assert(title.take(title.len() as int) =~= title);
    } else {
        let g = choose|g: Seq<char>| is_glyph(g) && #[trigger] occurs_at(m, g, 1);
        lemma_glyph_chars(g);
        // the glyph keeps the end of the trimmed text behind it
        let gend: int = 1 + title.len() as int + 1 + g.len() as int;
        assert(m.subrange(1, 1 + g.len() as int) == g);
        assert forall|j: int| 0 <= j < g.len() implies s[1 + title.len() + 1 + j] == #[trigger] g[j] by {
            assert(m.subrange(1, 1 + g.len() as int)[j] == m[1 + j]);
        }
        lemma_trim_end_shape(s);
        let n = trim_end(s).len() as int;
        assert(n >= gend) by {
            if n < gend {
                assert(is_space(s[gend - 1]));
                assert(s[gend - 1] == g[g.len() - 1]);
            }
        }
        let a: int = if title.len() == 0 {
            2
        } else {
            1
        };
        assert(!is_space(s[a])) by {
            if title.len() == 0 {
                assert(s[2] == g[0]);
            } else {
                assert(s[1] == title[0]);
            }
        }
        assert(is_space(s[0]));
        if title.len() == 0 {
            assert(s[1] == m[0]);
        }
        lemma_trim_window(s, a, n);
        let rem = s.subrange(a, n);
        assert(trim(s) == rem);
        let k: int = if title.len() == 0 {
            0
        } else {
            title.len() as int + 1
        };
        // the glyph stands at k in the remainder
        assert(rem.subrange(k, k + g.len()) =~= g) by {
            assert forall|j: int| 0 <= j < g.len() implies rem.subrange(k, k + g.len())[j]
                == g[j] by {
                assert(rem.subrange(k, k + g.len())[j] == s[a + k + j]);
            }
        }
        assert(occurs_at(rem, g, k));
        if title.len() == 0 {
            assert(glyph_free_before(rem, 0));
        } else {
            let rest = rem.skip(k);
            assert(rem =~= title + seq![' '] + rest);
            lemma_glyph_free_prefix(title, rest);
        }
        lemma_title_end_at(rem, g, k);
        if title.len() == 0 {
            assert(rem.take(0) =~= title);
        } else {
            let p = rem.take(k);
            assert(p =~= title + seq![' ']);
            lemma_trim_window(p, 0, title.len() as int);
            assert(p.subrange(0, title.len() as int) =~= title);
        }
    }
}

/// A line that starts with the opening for `id` is a record: open, with this
/// identifier, and with the title that stands in what follows the opening.
pub proof fn lemma_parse_head(id: usize, rest: Seq<char>)
    ensures
        parse_line(render_head(id) + rest) is Some,
        parse_line(render_head(id) + rest)->0.id == id,
        !parse_line(render_head(id) + rest)->0.done,
        parse_line(render_head(id) + rest)->0.title == title_of(trim(seq![' '] + rest)),
{
    let dec = decimal(id as nat);
    lemma_decimal_reads_back(id as nat);
    let head = render_head(id);
    let line = head + rest;
    let p: int = 7 + dec.len() as int;  // index of the closing bracket
    assert(head.len() == p + 2);
    assert(line[0] == '-' && line[1] == ' ' && line[2] == '[' && line[3] == ' ' && line[4] == ']'
        && line[5] == ' ' && line[6] == '(');
    assert(line[p] == ')');
    assert(line[p + 1] == ' ');
    assert forall|j: int| 0 <= j < dec.len() implies line[7 + j] == #[trigger] dec[j] by {}
    lemma_trim_end_shape(line);
    let n = trim_end(line).len() as int;
    assert(n > p) by {
        if n <= p {
            assert(is_space(line[p]));
        }
    }
    lemma_trim_window(line, 0, n);
    let t = line.subrange(0, n);
    assert(trim(line) == t);
    assert(has_status_token(t));
    // after the status token: one space, then the bracketed identifier
    let u = t.skip(5);
    assert(u[0] == ' ' && u[1] == '(');
    assert(u.last() == line[n - 1]);
    lemma_trim_window(u, 1, u.len() as int);
    let after = u.subrange(1, u.len() as int);
    assert(trim(u) == after);
    assert(after =~= line.subrange(6, n));
    assert(after[0] == '(');
    let close: int = 1 + dec.len() as int;
    assert forall|i: int| 0 <= i < close implies #[trigger] after[i] != ')' by {
        if i > 0 {
            assert(after[i] == dec[i - 1]);
            assert(crate::decimal::is_digit(dec[i - 1]));
        }
    }
    assert(after[close] == ')');
    lemma_find_char_is(after, ')', close);
    assert(after.subrange(1, close) =~= dec);
    // the remainder
    let r0 = after.skip(close + 1);
    assert(r0 =~= line.subrange(p + 1, n));
    let s = seq![' '] + rest;
    assert(line =~= head.take(p + 1) + s);
    // the trimmed end of the line is the trimmed end of its remainder
    assert(trim(r0) == trim(s)) by {
        assert forall|i: int| n - p - 1 <= i < s.len() implies is_space(#[trigger] s[i]) by {
            assert(s[i] == line[i + p + 1]);
        }
        lemma_trim_of_cut(s, n - p - 1);
        assert(s.take(n - p - 1) =~= r0);
    }
}

/// A line made of the opening for `id`, a clean title and a meta tail is a
/// record: open, with this identifier and this title.
pub proof fn lemma_parse_rendered(id: usize, title: Seq<char>, m: Seq<char>)
    requires
        is_trimmed(title),
        glyph_free(title),
        is_meta_tail(m),
    ensures
        parse_line(render_head(id) + title + m) is Some,
        parse_line(render_head(id) + title + m)->0.id == id,
        !parse_line(render_head(id) + title + m)->0.done,
        parse_line(render_head(id) + title + m)->0.title == title,
{
    lemma_parse_head(id, title + m);
    lemma_title_before_tail(title, m);
    assert(render_head(id) + title + m =~= render_head(id) + (title + m));
    assert(seq![' '] + title + m =~= seq![' '] + (title + m));
}

/// Cutting trailing whitespace off a text does not change what trimming leaves.
pub proof fn lemma_trim_of_cut(s: Seq<char>, k: int)
    requires
        0 <= k <= s.len(),
        forall|i: int| k <= i < s.len() ==> is_space(#[trigger] s[i]),
    ensures
        trim(s.take(k)) == trim(s),
    decreases s.len() - k,
{
    crate::text::lemma_trim_start_shape(s);
    let c = s.take(k);
    crate::text::lemma_trim_start_shape(c);
    let a = s.len() - crate::text::trim_start(s).len();
    let ac = c.len() - crate::text::trim_start(c).len();
    // both trims are windows of s
    let ts = crate::text::trim_start(s);
    lemma_trim_end_shape(ts);
    let b = a + trim_end(ts).len();
    if a < k {
        assert(!is_space(s[a])) by {
            assert(ts[0] == s[a]);
        }
        assert(b <= k) by {
            if b > k {
                assert(trim_end(ts).last() == ts[b - a - 1]);
                assert(ts[b - a - 1] == s[b - 1]);
            }
        }
        assert(b > a) by {
            if b == a {
                assert(is_space(ts[0]));
            }
        }
        assert forall|i: int| 0 <= i < a implies is_space(#[trigger] c[i]) by {
            assert(c[i] == s[i]);
        }
        assert forall|i: int| b <= i < c.len() implies is_space(#[trigger] c[i]) by {
            assert(c[i] == s[i]);
            if i >= a {
                assert(ts[i - a] == s[i]);
            }
        }
        assert(!is_space(c[b - 1])) by {
            assert(trim_end(ts).last() == ts[b - a - 1]);
            assert(ts[b - a - 1] == s[b - 1]);
        }
        lemma_trim_window(c, a, b);
        assert(c.subrange(a, b) =~= trim_end(ts)) by {
            assert(trim_end(ts) == ts.take(b - a));
        }
    } else {
        // everything is whitespace
        assert(a == s.len()) by {
            if a < s.len() {
                assert(ts[0] == s[a]);
            }
        }
        assert forall|i: int| 0 <= i < c.len() implies is_space(#[trigger] c[i]) by {
            assert(c[i] == s[i]);
        }
        lemma_trim_window(c, c.len() as int, c.len() as int);
        assert(ts.len() == 0);
        assert(c.subrange(c.len() as int, c.len() as int) =~= trim_end(ts));
    }
}

/// Reading a line and reading its trimmed text give the same record.
pub proof fn lemma_parse_trimmed(line: Seq<char>)
    ensures
        parse_line(trim(line)) == parse_line(line),
        parse_line(line) is Some ==> parse_line(line)->0.raw == trim(line),
{
    lemma_trim_is_trimmed(line);
}

/// The record that a line with a switched status holds: the same identifier
/// and title, and the new status where the old token was `[ ]`, `[x]` or `[X]`.
pub open spec fn flipped(r: Record, done: bool) -> Record {
    Record {
        id: r.id,
        done: if r.raw[3] == ' ' || r.raw[3] == 'x' || r.raw[3] == 'X' {
            done
        } else {
            r.done
        },
        title: r.title,
        raw: flip(r.raw, done),
    }
}

/// A record line with its status switched is a record again, with the same
/// identifier and title.
pub proof fn lemma_parse_flip(line: Seq<char>, done: bool)
    requires
        parse_line(line) is Some,
    ensures
        parse_line(flip(parse_line(line)->0.raw, done)) == Some(
            flipped(parse_line(line)->0, done),
        ),
{
    lemma_trim_is_trimmed(line);
    let t = trim(line);
    let f = flip(t, done);
    assert(is_trimmed(f)) by {
        assert(f[0] == t[0]);
        assert(f.last() == t.last() || t.len() == 4);
    }
    assert(trim(f) == f);
    assert(f.skip(5) =~= t.skip(5));
    assert(has_status_token(f));
    assert(status_char(done) != 'X');
}

/// A status switch keeps the length of the line and every character of it
/// but the status character.
pub proof fn law_flip_keeps_the_rest(raw: Seq<char>, done: bool, i: int)
    requires
        0 <= i < raw.len(),
        i != 3,
    ensures
        flip(raw, done).len() == raw.len(),
        flip(raw, done)[i] == raw[i],
{
}

/// Switching the status twice to the same value is switching it once.
pub proof fn lemma_flip_twice(raw: Seq<char>, done: bool)
    ensures
        flip(flip(raw, done), done) == flip(raw, done),
{
    let f = flip(raw, done);
    assert(flip(f, done) =~= f);
}

/// Digits hold no closing bracket, no line feed and no whitespace.
pub proof fn lemma_digits_plain(s: Seq<char>)
    requires
        all_digits(s),
    ensures
        forall|i: int| 0 <= i < s.len() ==> #[trigger] s[i] != '\n' && !is_space(s[i]),
{
    assert forall|i: int| 0 <= i < s.len() implies #[trigger] s[i] != '\n' && !is_space(s[i]) by {
        assert(crate::decimal::is_digit(s[i]));
    }
}

} // verus!
