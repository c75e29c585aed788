//! A text file as a sequence of lines: every line ends with a line feed, and
//! the last one may go without.
use vstd::prelude::*;
use crate::text::{find_char, find_char_in, lemma_find_char_is, lemma_find_char_shape, push_all};

verus! {

/// Whether a text holds no line feed.
pub open spec fn no_newline(s: Seq<char>) -> bool {
    forall|i: int| 0 <= i < s.len() ==> #[trigger] s[i] != '\n'
}

/// Whether none of the lines holds a line feed.
pub open spec fn all_no_newline(ls: Seq<Seq<char>>) -> bool {
    forall|i: int| 0 <= i < ls.len() ==> no_newline(#[trigger] ls[i])
}

/// The lines of a text: the pieces between line feeds. A text that ends with
/// a line feed has no empty line after it.
pub open spec fn split_lines(s: Seq<char>) -> Seq<Seq<char>>
    decreases s.len(),
{
    if s.len() == 0 {
        Seq::empty()
    } else {
        let k = find_char(s, '\n');
        if 0 <= k < s.len() {
            seq![s.take(k)] + split_lines(s.skip(k + 1))
        } else {
            seq![s]
        }
    }
}

/// The text that holds the given lines, each followed by a line feed.
pub open spec fn join_lines(ls: Seq<Seq<char>>) -> Seq<char>
    decreases ls.len(),
{
    if ls.len() == 0 {
        Seq::empty()
    } else {
        ls[0] + seq!['\n'] + join_lines(ls.skip(1))
    }
}

/// Whether a text is empty or ends with a line feed.
pub open spec fn is_terminated(s: Seq<char>) -> bool {
    s.len() == 0 || s.last() == '\n'
}

/// The views of a vector of lines.
pub open spec fn line_views(v: Seq<Vec<char>>) -> Seq<Seq<char>> {
    Seq::new(v.len(), |i: int| v[i]@)
}

/// The lines of a text hold no line feed.
pub proof fn lemma_split_lines_no_newline(s: Seq<char>)
    ensures
        all_no_newline(split_lines(s)),
    decreases s.len(),
{
    if s.len() > 0 {
        lemma_find_char_shape(s, '\n');
        let k = find_char(s, '\n');
        if k < s.len() {
            lemma_split_lines_no_newline(s.skip(k + 1));
            let rest = split_lines(s.skip(k + 1));
            assert forall|i: int| 0 <= i < split_lines(s).len() implies no_newline(
                #[trigger] split_lines(s)[i],
            ) by {
                if i > 0 {
                    assert(split_lines(s)[i] == rest[i - 1]);
                }
            }
        }
    }
}

/// Joining lines is additive.
pub proof fn lemma_join_concat(a: Seq<Seq<char>>, b: Seq<Seq<char>>)
    ensures
        join_lines(a + b) == join_lines(a) + join_lines(b),
    decreases a.len(),
{
    if a.len() == 0 {
        assert(a + b =~= b);
        assert(join_lines(a) + join_lines(b) =~= join_lines(b));
    } else {
        lemma_join_concat(a.skip(1), b);
        assert((a + b).skip(1) =~= a.skip(1) + b);
        assert(join_lines(a + b) =~= join_lines(a) + join_lines(b));
    }
}

/// One line, joined, is the line and a line feed.
pub proof fn lemma_join_one(l: Seq<char>)
    ensures
        join_lines(seq![l]) == l + seq!['\n'],
{
    assert(seq![l].skip(1) =~= Seq::<Seq<char>>::empty());
    assert(join_lines(seq![l].skip(1)) =~= Seq::<char>::empty());
    assert(join_lines(seq![l]) =~= l + seq!['\n']);
}

/// Lines without line feeds are the lines of their joined text.
pub proof fn lemma_split_join(ls: Seq<Seq<char>>)
    requires
        all_no_newline(ls),
    ensures
        split_lines(join_lines(ls)) == ls,
    decreases ls.len(),
{
    if ls.len() > 0 {
        let rest = ls.skip(1);
        assert forall|i: int| 0 <= i < rest.len() implies no_newline(#[trigger] rest[i]) by {
            assert(rest[i] == ls[i + 1]);
        }
        lemma_split_join(rest);
        let t = join_lines(ls);
        let k = ls[0].len() as int;
        assert(no_newline(ls[0]));
        assert forall|i: int| 0 <= i < k implies #[trigger] t[i] != '\n' by {
            assert(t[i] == ls[0][i]);
        }
        assert(t[k] == '\n');
        lemma_find_char_is(t, '\n', k);
        assert(t.take(k) =~= ls[0]);
        assert(t.skip(k + 1) =~= join_lines(rest));
        assert(split_lines(t) =~= ls);
    }
}

/// After a terminated text, more text only adds its own lines.
pub proof fn lemma_split_concat(t: Seq<char>, u: Seq<char>)
    requires
        is_terminated(t),
    ensures
        split_lines(t + u) == split_lines(t) + split_lines(u),
    decreases t.len(),
{
    if t.len() == 0 {
        assert(t + u =~= u);
        assert(split_lines(t) + split_lines(u) =~= split_lines(u));
    } else {
        lemma_find_char_shape(t, '\n');
        let k = find_char(t, '\n');
        assert(k < t.len()) by {
            if k >= t.len() {
                assert(t[t.len() - 1] != '\n');
            }
        }
        let tu = t + u;
        assert forall|i: int| 0 <= i < k implies #[trigger] tu[i] != '\n' by {
            assert(tu[i] == t[i]);
        }
        assert(tu[k] == t[k]);
        lemma_find_char_is(tu, '\n', k);
        let rest = t.skip(k + 1);
        if rest.len() > 0 {
            assert(rest.last() == t.last());
        }
        lemma_split_concat(rest, u);
        assert(tu.take(k) =~= t.take(k));
        assert(tu.skip(k + 1) =~= rest + u);
        assert(split_lines(tu) =~= split_lines(t) + split_lines(u));
    }
}

/// A line feed after an unterminated text adds no line.
pub proof fn lemma_split_terminate(t: Seq<char>)
    requires
        !is_terminated(t),
    ensures
        split_lines(t + seq!['\n']) == split_lines(t),
    decreases t.len(),
{
    lemma_find_char_shape(t, '\n');
    let k = find_char(t, '\n');
    let tn = t + seq!['\n'];
    assert forall|i: int| 0 <= i < k implies #[trigger] tn[i] != '\n' by {
        assert(tn[i] == t[i]);
    }
    if k < t.len() {
        assert(tn[k] == t[k]);
        lemma_find_char_is(tn, '\n', k);
        let rest = t.skip(k + 1);
        assert(rest.len() > 0) by {
            if rest.len() == 0 {
                assert(t.last() == t[k]);
            }
        }
        assert(rest.last() == t.last());
        lemma_split_terminate(rest);
        assert(tn.take(k) =~= t.take(k));
        assert(tn.skip(k + 1) =~= rest + seq!['\n']);
    } else {
        assert(tn[k] == '\n');
        lemma_find_char_is(tn, '\n', k);
        assert(tn.take(k) =~= t);
        assert(tn.skip(k + 1) =~= Seq::<char>::empty());
        assert(split_lines(tn.skip(k + 1)) =~= Seq::<Seq<char>>::empty());
        assert(split_lines(tn) =~= seq![t]);
    }
}

/// Splits a text into its lines.
pub fn split(cs: &[char]) -> (lines: Vec<Vec<char>>)
    ensures
        line_views(lines@) == split_lines(cs@),
{
    let mut lines: Vec<Vec<char>> = Vec::new();
    let n = cs.len();
    let mut start: usize = 0;
    proof {
        assert(cs@.skip(0) =~= cs@);
        assert(line_views(lines@) + split_lines(cs@) =~= split_lines(cs@));
    }
    while start < n
        invariant
            start <= n == cs@.len(),
            line_views(lines@) + split_lines(cs@.skip(start as int)) == split_lines(cs@),
        decreases n - start,
    {
        let k = find_char_in(cs, '\n', start, n);
        let ghost rest = cs@.skip(start as int);
        assert(rest =~= cs@.subrange(start as int, n as int));
        let mut line: Vec<char> = Vec::new();
        let mut i = start;
        while i < k
            invariant
                start <= i <= k <= cs@.len(),
                line@ == cs@.subrange(start as int, i as int),
            decreases k - i,
        {
            line.push(cs[i]);
            assert(line@ =~= cs@.subrange(start as int, i + 1));
            i += 1;
        }
        let ghost before = line_views(lines@);
        lines.push(line);
        proof {
            assert(line_views(lines@) =~= before + seq![rest.take(k - start)]) by {
                assert(rest.take(k - start) =~= cs@.subrange(start as int, k as int));
            }
            if k < n {
                assert(rest.skip(k - start + 1) =~= cs@.skip(k + 1));
                assert(line_views(lines@) + split_lines(cs@.skip(k + 1)) =~= before + split_lines(
                    rest,
                ));
            } else {
                assert(rest.take(k - start) =~= rest);
                assert(cs@.skip(n as int) =~= Seq::<char>::empty());
                assert(line_views(lines@) + split_lines(cs@.skip(n as int)) =~= before
                    + split_lines(rest));
            }
        }
        start = if k < n {
            k + 1
        } else {
            n
        };
    }
    proof {
        assert(cs@.skip(start as int) =~= Seq::<char>::empty());
        assert(line_views(lines@) + Seq::<Seq<char>>::empty() =~= line_views(lines@));
    }
    lines
}

/// Appends `line` and a line feed to `out`.
pub fn push_line(out: &mut Vec<char>, line: &[char])
    ensures
        final(out)@ == old(out)@ + line@ + seq!['\n'],
{
    push_all(out, line);
    out.push('\n');
}

/// Joins lines into a text, each line followed by a line feed.
pub fn join(lines: &Vec<Vec<char>>) -> (out: Vec<char>)
    ensures
        out@ == join_lines(line_views(lines@)),
{
    let mut out: Vec<char> = Vec::new();
    let ghost ls = line_views(lines@);
    let mut i: usize = 0;
    while i < lines.len()
        invariant
            i <= lines@.len(),
            ls == line_views(lines@),
            out@ == join_lines(ls.take(i as int)),
        decreases lines@.len() - i,
    {
        push_line(&mut out, lines[i].as_slice());
        proof {
            lemma_join_concat(ls.take(i as int), seq![ls[i as int]]);
            lemma_join_one(ls[i as int]);
            assert(ls.take(i + 1) =~= ls.take(i as int) + seq![ls[i as int]]);
        }
        i += 1;
    }
    assert(ls.take(i as int) =~= ls);
    out
}

} // verus!
