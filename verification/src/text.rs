//! Character-level text utilities shared by the record codec, the task ledger
//! and the journal store: whitespace trimming, searching, decimal numbers and
//! conversion between strings and character vectors.
use vstd::prelude::*;
use vstd::std_specs::iter::IteratorSpec;

verus! {

/// The characters with the Unicode `White_Space` property.
pub open spec fn is_space(c: char) -> bool {
    ||| ('\u{9}' <= c && c <= '\u{D}')
    ||| c == ' '
    ||| c == '\u{85}'
    ||| c == '\u{A0}'
    ||| c == '\u{1680}'
    ||| ('\u{2000}' <= c && c <= '\u{200A}')
    ||| c == '\u{2028}'
    ||| c == '\u{2029}'
    ||| c == '\u{202F}'
    ||| c == '\u{205F}'
    ||| c == '\u{3000}'
}

/// `s` without its leading whitespace.
pub open spec fn trim_start(s: Seq<char>) -> Seq<char>
    decreases s.len(),
{
    if s.len() > 0 && is_space(s[0]) {
        trim_start(s.skip(1))
    } else {
        s
    }
}

/// `s` without its trailing whitespace.
pub open spec fn trim_end(s: Seq<char>) -> Seq<char>
    decreases s.len(),
{
    if s.len() > 0 && is_space(s.last()) {
        trim_end(s.drop_last())
    } else {
        s
    }
}

/// `s` without leading and trailing whitespace.
pub open spec fn trim(s: Seq<char>) -> Seq<char> {
    trim_end(trim_start(s))
}

/// A text is trimmed when it neither starts nor ends with whitespace.
pub open spec fn is_trimmed(s: Seq<char>) -> bool {
    s.len() > 0 ==> !is_space(s[0]) && !is_space(s.last())
}

/// Index of the first occurrence of `c` in `s`, or `s.len()` if there is none.
pub open spec fn find_char(s: Seq<char>, c: char) -> int
    decreases s.len(),
{
    if s.len() == 0 {
        0
    } else if s[0] == c {
        0
    } else {
        1 + find_char(s.skip(1), c)
    }
}

/// Whether `pat` occurs in `s` at index `i`.
pub open spec fn occurs_at(s: Seq<char>, pat: Seq<char>, i: int) -> bool {
    0 <= i && i + pat.len() <= s.len() && s.subrange(i, i + pat.len()) == pat
}

/// Index of the first occurrence of `pat` in `s`, or `s.len()` if there is none.
pub open spec fn find_sub(s: Seq<char>, pat: Seq<char>) -> int
    decreases s.len(),
{
    if occurs_at(s, pat, 0) {
        0
    } else if s.len() == 0 {
        0
    } else {
        1 + find_sub(s.skip(1), pat)
    }
}

/// Whether a character is whitespace.
pub fn space(c: char) -> (b: bool)
    ensures
        b == is_space(c),
{
    ('\u{9}' <= c && c <= '\u{D}') || c == ' ' || c == '\u{85}' || c == '\u{A0}' || c
        == '\u{1680}' || ('\u{2000}' <= c && c <= '\u{200A}') || c == '\u{2028}' || c
        == '\u{2029}' || c == '\u{202F}' || c == '\u{205F}' || c == '\u{3000}'
}

/// What `trim_start` leaves is the end of the text behind its leading whitespace.
pub proof fn lemma_trim_start_shape(s: Seq<char>)
    ensures
        trim_start(s).len() <= s.len(),
        trim_start(s) == s.skip(s.len() - trim_start(s).len()),
        trim_start(s).len() > 0 ==> !is_space(trim_start(s)[0]),
        forall|i: int| 0 <= i < s.len() - trim_start(s).len() ==> is_space(#[trigger] s[i]),
    decreases s.len(),
{
    if s.len() > 0 && is_space(s[0]) {
        let r = s.skip(1);
        lemma_trim_start_shape(r);
        let d = r.len() - trim_start(r).len();
        assert(r.skip(d) =~= s.skip(d + 1));
        assert forall|i: int| 0 <= i < s.len() - trim_start(s).len() implies is_space(
            #[trigger] s[i],
        ) by {
            if i > 0 {
                assert(s[i] == r[i - 1]);
            }
        }
    } else {
        assert(s.skip(0) =~= s);
    }
}

/// What `trim_end` leaves is the start of the text before its trailing whitespace.
pub proof fn lemma_trim_end_shape(s: Seq<char>)
    ensures
        trim_end(s).len() <= s.len(),
        trim_end(s) == s.take(trim_end(s).len() as int),
        trim_end(s).len() > 0 ==> !is_space(trim_end(s).last()),
        forall|i: int| trim_end(s).len() <= i < s.len() ==> is_space(#[trigger] s[i]),
    decreases s.len(),
{
    if s.len() > 0 && is_space(s.last()) {
        let r = s.drop_last();
        lemma_trim_end_shape(r);
        let n = trim_end(r).len() as int;
        assert(r.take(n) =~= s.take(n));
        assert forall|i: int| trim_end(s).len() <= i < s.len() implies is_space(
            #[trigger] s[i],
        ) by {
            if i < s.len() - 1 {
                assert(s[i] == r[i]);
            }
        }
    } else {
        assert(s.take(s.len() as int) =~= s);
    }
}

/// A window `[a, b)` of `s` that is bounded by non-whitespace and surrounded
/// by whitespace only is the trimmed text.
pub proof fn lemma_trim_window(s: Seq<char>, a: int, b: int)
    requires
        0 <= a <= b <= s.len(),
        forall|i: int| 0 <= i < a ==> is_space(#[trigger] s[i]),
        forall|i: int| b <= i < s.len() ==> is_space(#[trigger] s[i]),
        a < b ==> !is_space(s[a]) && !is_space(s[b - 1]),
        a == b ==> b == s.len(),
    ensures
        trim(s) == s.subrange(a, b),
    decreases s.len(),
{
    lemma_trim_start_window(s, a);
    lemma_trim_end_window(s.skip(a), b - a);
    assert(s.skip(a).take(b - a) =~= s.subrange(a, b));
}

/// The text behind leading whitespace that ends at `a` is what `trim_start` leaves.
pub proof fn lemma_trim_start_window(s: Seq<char>, a: int)
    requires
        0 <= a <= s.len(),
        forall|i: int| 0 <= i < a ==> is_space(#[trigger] s[i]),
        a < s.len() ==> !is_space(s[a]),
    ensures
        trim_start(s) == s.skip(a),
    decreases a,
{
    if a == 0 {
        assert(s.skip(0) =~= s);
    } else {
        assert(is_space(s[0]));
        let r = s.skip(1);
        assert forall|i: int| 0 <= i < a - 1 implies is_space(#[trigger] r[i]) by {
            assert(r[i] == s[i + 1]);
        }
        lemma_trim_start_window(r, a - 1);
        assert(r.skip(a - 1) =~= s.skip(a));
    }
}

/// The text before trailing whitespace that starts at `b` is what `trim_end` leaves.
pub proof fn lemma_trim_end_window(s: Seq<char>, b: int)
    requires
        0 <= b <= s.len(),
        forall|i: int| b <= i < s.len() ==> is_space(#[trigger] s[i]),
        b > 0 ==> !is_space(s[b - 1]),
    ensures
        trim_end(s) == s.take(b),
    decreases s.len() - b,
{
    if b == s.len() {
        assert(s.take(b) =~= s);
    } else {
        assert(is_space(s[s.len() - 1]));
        let r = s.drop_last();
        assert forall|i: int| b <= i < r.len() implies is_space(#[trigger] r[i]) by {
            assert(r[i] == s[i]);
        }
        lemma_trim_end_window(r, b);
        assert(r.take(b) =~= s.take(b));
    }
}

/// Trimming yields a trimmed text, and leaves a trimmed text alone.
pub proof fn lemma_trim_is_trimmed(s: Seq<char>)
    ensures
        is_trimmed(trim(s)),
        is_trimmed(s) ==> trim(s) == s,
        trim(trim(s)) == trim(s),
{
    lemma_trim_start_shape(s);
    let t = trim_start(s);
    lemma_trim_end_shape(t);
    let u = trim_end(t);
    if u.len() > 0 {
        assert(u[0] == t[0]);
    }
    lemma_trimmed_fixed(u);
    lemma_trimmed_fixed(s);
}

/// Trimming leaves a trimmed text as it is.
pub proof fn lemma_trimmed_fixed(s: Seq<char>)
    ensures
        is_trimmed(s) ==> trim(s) == s,
{
}

/// What `find_char` finds is the first index that holds the character.
pub proof fn lemma_find_char_shape(s: Seq<char>, c: char)
    ensures
        0 <= find_char(s, c) <= s.len(),
        find_char(s, c) < s.len() ==> s[find_char(s, c)] == c,
        forall|i: int| 0 <= i < find_char(s, c) ==> #[trigger] s[i] != c,
    decreases s.len(),
{
    if s.len() > 0 && s[0] != c {
        let r = s.skip(1);
        lemma_find_char_shape(r, c);
        assert forall|i: int| 0 <= i < find_char(s, c) implies #[trigger] s[i] != c by {
            if i > 0 {
                assert(s[i] == r[i - 1]);
            }
        }
    }
}

/// The first index that holds `c`, with none before it, is what `find_char` finds.
pub proof fn lemma_find_char_is(s: Seq<char>, c: char, k: int)
    requires
        0 <= k <= s.len(),
        forall|i: int| 0 <= i < k ==> #[trigger] s[i] != c,
        k < s.len() ==> s[k] == c,
    ensures
        find_char(s, c) == k,
    decreases k,
{
    if k > 0 {
        let r = s.skip(1);
        assert(s[0] != c);
        assert forall|i: int| 0 <= i < k - 1 implies #[trigger] r[i] != c by {
            assert(r[i] == s[i + 1]);
        }
        lemma_find_char_is(r, c, k - 1);
    }
}

/// What `find_sub` finds is the first index at which the pattern occurs.
pub proof fn lemma_find_sub_shape(s: Seq<char>, pat: Seq<char>)
    ensures
        0 <= find_sub(s, pat) <= s.len(),
        find_sub(s, pat) < s.len() ==> occurs_at(s, pat, find_sub(s, pat)),
        forall|i: int| 0 <= i < find_sub(s, pat) ==> !occurs_at(s, pat, i),
    decreases s.len(),
{
    if !occurs_at(s, pat, 0) && s.len() > 0 {
        let r = s.skip(1);
        lemma_find_sub_shape(r, pat);
        let k = find_sub(r, pat);
        if k < r.len() {
            assert(r.subrange(k, k + pat.len()) =~= s.subrange(k + 1, k + 1 + pat.len()));
        }
        assert forall|i: int| 0 <= i < find_sub(s, pat) implies !occurs_at(s, pat, i) by {
            if i > 0 {
                if occurs_at(s, pat, i) {
                    assert(r.subrange(i - 1, i - 1 + pat.len()) =~= s.subrange(
                        i,
                        i + pat.len(),
                    ));
                    assert(occurs_at(r, pat, i - 1));
                }
            }
        }
    }
}

/// The first index at which `pat` occurs, with none before it, is what
/// `find_sub` finds; `s.len()` stands for no occurrence.
pub proof fn lemma_find_sub_is(s: Seq<char>, pat: Seq<char>, k: int)
    requires
        0 <= k <= s.len(),
        forall|i: int| 0 <= i < k ==> !occurs_at(s, pat, i),
        k < s.len() ==> occurs_at(s, pat, k),
    ensures
        find_sub(s, pat) == k,
    decreases k,
{
    if k > 0 {
        let r = s.skip(1);
        assert(!occurs_at(s, pat, 0));
        assert forall|i: int| 0 <= i < k - 1 implies !occurs_at(r, pat, i) by {
            if occurs_at(r, pat, i) {
                assert(r.subrange(i, i + pat.len()) =~= s.subrange(i + 1, i + 1 + pat.len()));
                assert(occurs_at(s, pat, i + 1));
            }
        }
        if k < s.len() {
            assert(r.subrange(k - 1, k - 1 + pat.len()) =~= s.subrange(k, k + pat.len()));
        }
        lemma_find_sub_is(r, pat, k - 1);
    }
}

/// The characters of a string, in order.
pub fn chars_of(s: &str) -> (v: Vec<char>)
    ensures
        v@ == s@,
{
    broadcast use vstd::string::group_string_axioms;

    let mut v: Vec<char> = Vec::new();
    let mut it = s.chars();
    loop
        invariant
            it.obeys_prophetic_iter_laws(),
            it.decrease() is Some,
            v@ + it.remaining() == s@,
        decreases it.decrease()->0,
    {
        match it.next() {
            Some(c) => {
                v.push(c);
                assert(v@ + it.remaining() =~= s@);
            },
            None => {
                assert(v@ =~= s@);
                return v;
            },
        }
    }
}

/// Collects the window `[from, to)` of `cs` into a string with
/// `String::from_iter`, which keeps every character in its place.
#[verifier::external_body]
pub(crate) fn text_of(cs: &[char], from: usize, to: usize) -> (s: String)
    requires
        from <= to <= cs@.len(),
    ensures
        s@ == cs@.subrange(from as int, to as int),
{
    String::from_iter(cs[from..to].iter())
}

/// The whole of `cs` as a string.
pub fn string_of(cs: &[char]) -> (s: String)
    ensures
        s@ == cs@,
{
    let s = text_of(cs, 0, cs.len());
    assert(cs@.subrange(0, cs@.len() as int) =~= cs@);
    s
}

/// Appends the characters of `cs` to `out`.
pub fn push_all(out: &mut Vec<char>, cs: &[char])
    ensures
        final(out)@ == old(out)@ + cs@,
{
    let mut i: usize = 0;
    while i < cs.len()
        invariant
            i <= cs@.len(),
            out@ == old(out)@ + cs@.take(i as int),
        decreases cs@.len() - i,
    {
        out.push(cs[i]);
        assert(out@ =~= old(out)@ + cs@.take(i + 1));
        i += 1;
    }
    assert(cs@.take(cs@.len() as int) =~= cs@);
}

/// Appends the characters of the string `s` to `out`.
pub fn push_str(out: &mut Vec<char>, s: &str)
    ensures
        final(out)@ == old(out)@ + s@,
{
    let cs = chars_of(s);
    push_all(out, cs.as_slice());
}

/// Bounds `(a, b)` of the trimmed part of the window `[from, to)` of `cs`.
pub fn trim_bounds(cs: &[char], from: usize, to: usize) -> (r: (usize, usize))
    requires
        from <= to <= cs@.len(),
    ensures
        from <= r.0 <= r.1 <= to,
        cs@.subrange(r.0 as int, r.1 as int) == trim(cs@.subrange(from as int, to as int)),
{
    let ghost w = cs@.subrange(from as int, to as int);
    let mut a = from;
    while a < to && space(cs[a])
        invariant
            from <= a <= to <= cs@.len(),
            w == cs@.subrange(from as int, to as int),
            forall|i: int| 0 <= i < a - from ==> is_space(#[trigger] w[i]),
        decreases to - a,
    {
        a += 1;
    }
    let mut b = to;
    while a < b && space(cs[b - 1])
        invariant
            from <= a <= b <= to <= cs@.len(),
            w == cs@.subrange(from as int, to as int),
            forall|i: int| b - from <= i < w.len() ==> is_space(#[trigger] w[i]),
        decreases b - a,
    {
        b -= 1;
    }
    proof {
        if a == b {
            // the whole window is whitespace
            assert forall|i: int| 0 <= i < w.len() implies is_space(#[trigger] w[i]) by {}
            lemma_trim_window(w, w.len() as int, w.len() as int);
            assert(w.subrange(w.len() as int, w.len() as int) =~= cs@.subrange(a as int, b as int));
        } else {
            lemma_trim_window(w, a - from, b - from);
            assert(w.subrange(a - from, b - from) =~= cs@.subrange(a as int, b as int));
        }
    }
    (a, b)
}

/// First index in `[from, to)` that holds `c`, or `to`.
pub fn find_char_in(cs: &[char], c: char, from: usize, to: usize) -> (k: usize)
    requires
        from <= to <= cs@.len(),
    ensures
        from <= k <= to,
        k - from == find_char(cs@.subrange(from as int, to as int), c),
{
    let ghost w = cs@.subrange(from as int, to as int);
    let mut k = from;
    while k < to && cs[k] != c
        invariant
            from <= k <= to <= cs@.len(),
            w == cs@.subrange(from as int, to as int),
            forall|i: int| 0 <= i < k - from ==> #[trigger] w[i] != c,
        decreases to - k,
    {
        k += 1;
    }
    proof {
        lemma_find_char_is(w, c, k - from);
    }
    k
}

/// Whether `pat` stands in `cs` at index `i`, inside the window that ends at `to`.
pub fn matches_at(cs: &[char], pat: &[char], i: usize, to: usize) -> (b: bool)
    requires
        i <= to <= cs@.len(),
    ensures
        b == (i + pat@.len() <= to && cs@.subrange(i as int, i + pat@.len()) == pat@),
{
    if pat.len() > to - i {
        return false;
    }
    let mut j: usize = 0;
    while j < pat.len()
        invariant
            i + pat@.len() <= to <= cs@.len(),
            j <= pat@.len(),
            forall|m: int| 0 <= m < j ==> cs@[i + m] == pat@[m],
        decreases pat@.len() - j,
    {
        if cs[i + j] != pat[j] {
            assert(cs@.subrange(i as int, i + pat@.len())[j as int] != pat@[j as int]);
            return false;
        }
        j += 1;
    }
    assert(cs@.subrange(i as int, i + pat@.len()) =~= pat@);
    true
}

/// First index in `[from, to)` at which `pat` occurs inside the window, or `to`.
pub fn find_sub_in(cs: &[char], pat: &[char], from: usize, to: usize) -> (k: usize)
    requires
        from <= to <= cs@.len(),
    ensures
        from <= k <= to,
        k - from == find_sub(cs@.subrange(from as int, to as int), pat@),
{
    let ghost w = cs@.subrange(from as int, to as int);
    let mut k = from;
    while k < to
        invariant
            from <= k <= to <= cs@.len(),
            w == cs@.subrange(from as int, to as int),
            forall|i: int| 0 <= i < k - from ==> !occurs_at(w, pat@, i),
        decreases to - k,
    {
        if matches_at(cs, pat, k, to) {
            proof {
                assert(w.subrange(k - from, k - from + pat@.len()) =~= cs@.subrange(
                    k as int,
                    k + pat@.len(),
                ));
                lemma_find_sub_is(w, pat@, k - from);
            }
            return k;
        }
        proof {
            if occurs_at(w, pat@, k - from) {
                assert(w.subrange(k - from, k - from + pat@.len()) =~= cs@.subrange(
                    k as int,
                    k + pat@.len(),
                ));
            }
        }
        k += 1;
    }
    proof {
        lemma_find_sub_is(w, pat@, k - from);
    }
    k
}

/// The parts with `sep` between them.
pub open spec fn joined(parts: Seq<Seq<char>>, sep: Seq<char>) -> Seq<char>
    decreases parts.len(),
{
    if parts.len() == 0 {
        Seq::empty()
    } else if parts.len() == 1 {
        parts[0]
    } else {
        joined(parts.drop_last(), sep) + sep + parts.last()
    }
}

/// The views of a vector of strings.
pub open spec fn string_views(v: Seq<String>) -> Seq<Seq<char>> {
    Seq::new(v.len(), |i: int| v[i]@)
}

/// Whether `s` starts with `prefix`.
pub open spec fn has_prefix(s: Seq<char>, prefix: Seq<char>) -> bool {
    prefix.len() <= s.len() && s.take(prefix.len() as int) == prefix
}

/// Whether two texts are the same.
pub fn same_text(a: &str, b: &str) -> (r: bool)
    ensures
        r == (a@ == b@),
{
    let x = chars_of(a);
    let y = chars_of(b);
    same_chars(x.as_slice(), y.as_slice())
}

/// Whether two sequences of characters are the same.
pub fn same_chars(a: &[char], b: &[char]) -> (r: bool)
    ensures
        r == (a@ == b@),
{
    if a.len() != b.len() {
        return false;
    }
    let mut i: usize = 0;
    while i < a.len()
        invariant
            i <= a@.len() == b@.len(),
            forall|j: int| 0 <= j < i ==> a@[j] == b@[j],
        decreases a@.len() - i,
    {
        if a[i] != b[i] {
            return false;
        }
        i += 1;
    }
    assert(a@ =~= b@);
    true
}

/// Whether the window `[from, to)` of `cs` starts with `prefix`.
pub fn starts_with_in(cs: &[char], prefix: &[char], from: usize, to: usize) -> (r: bool)
    requires
        from <= to <= cs@.len(),
    ensures
        r == has_prefix(cs@.subrange(from as int, to as int), prefix@),
{
    let r = matches_at(cs, prefix, from, to);
    proof {
        let w = cs@.subrange(from as int, to as int);
        if from + prefix@.len() <= to {
            assert(w.take(prefix@.len() as int) =~= cs@.subrange(
                from as int,
                from + prefix@.len(),
            ));
        }
    }
    r
}

/// Joins the parts with `sep` between them.
pub fn join_with(parts: &Vec<String>, sep: &str) -> (out: String)
    ensures
        out@ == joined(string_views(parts@), sep@),
{
    let ghost ps = string_views(parts@);
    let mut out: Vec<char> = Vec::new();
    let mut i: usize = 0;
    while i < parts.len()
        invariant
            i <= parts@.len(),
            ps == string_views(parts@),
            out@ == joined(ps.take(i as int), sep@),
        decreases parts@.len() - i,
    {
        proof {
            assert(ps.take(i + 1).drop_last() =~= ps.take(i as int));
            assert(ps.take(i + 1).last() == parts@[i as int]@);
        }
        if i > 0 {
            push_str(&mut out, sep);
        }
        push_str(&mut out, parts[i].as_str());
        proof {
            if i == 0 {
                assert(out@ =~= parts@[0]@);
            }
        }
        i += 1;
    }
    assert(ps.take(i as int) =~= ps);
    string_of(out.as_slice())
}

} // verus!
