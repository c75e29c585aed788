//! What holds of the order in which the journal store lists its notes.
use vstd::prelude::*;
use vstd::seq_lib::{to_multiset_build, to_multiset_insert};
use crate::vault::{insert_point, is_note_name, note_names, sort_desc, text_less};

verus! {

/// No name comes before a later one: the sequence runs from the last name
/// in the order of file names to the first.
pub open spec fn descending(s: Seq<Seq<char>>) -> bool {
    forall|i: int, j: int| 0 <= i < j < s.len() ==> !text_less(#[trigger] s[i], #[trigger] s[j])
}

/// No name comes before itself.
pub proof fn lemma_less_irreflexive(a: Seq<char>)
    ensures
        !text_less(a, a),
    decreases a.len(),
{
    if a.len() > 0 {
        lemma_less_irreflexive(a.skip(1));
    }
}

/// What comes before a name comes before all that the name comes before.
pub proof fn lemma_less_transitive(a: Seq<char>, b: Seq<char>, c: Seq<char>)
    requires
        text_less(a, b),
        text_less(b, c),
    ensures
        text_less(a, c),
    decreases a.len(),
{
    if a.len() > 0 && a[0] == b[0] && b[0] == c[0] {
        lemma_less_transitive(a.skip(1), b.skip(1), c.skip(1));
    }
}

/// The place of a name in a sequence: no name before the place comes before
/// the name, and the name at the place does.
pub proof fn lemma_insert_point(s: Seq<Seq<char>>, x: Seq<char>)
    ensures
        0 <= insert_point(s, x) <= s.len(),
        forall|i: int| 0 <= i < insert_point(s, x) ==> !text_less(#[trigger] s[i], x),
        insert_point(s, x) < s.len() ==> text_less(s[insert_point(s, x)], x),
    decreases s.len(),
{
    if s.len() > 0 && !text_less(s[0], x) {
        let r = s.skip(1);
        lemma_insert_point(r, x);
        assert forall|i: int| 0 <= i < insert_point(s, x) implies !text_less(#[trigger] s[i], x) by {
            if i > 0 {
                assert(s[i] == r[i - 1]);
            }
        }
    }
}

/// A name that is put at its place into a descending sequence leaves it descending.
pub proof fn lemma_insert_keeps_descending(s: Seq<Seq<char>>, x: Seq<char>)
    requires
        descending(s),
    ensures
        descending(s.insert(insert_point(s, x), x)),
{
    lemma_insert_point(s, x);
    let p = insert_point(s, x);
    let t = s.insert(p, x);
    assert forall|i: int, j: int| 0 <= i < j < t.len() implies !text_less(
        #[trigger] t[i],
        #[trigger] t[j],
    ) by {
        if j < p {
            assert(t[i] == s[i] && t[j] == s[j]);
        } else if j == p {
            assert(t[i] == s[i]);
        } else if i == p {
            // t[j] stood at or behind the place, so it does not come after x
            assert(t[j] == s[j - 1]);
            if text_less(x, s[j - 1]) {
                lemma_less_transitive(s[p], x, s[j - 1]);
                if j - 1 == p {
                    lemma_less_irreflexive(s[p]);
                }
            }
        } else if i < p {
            assert(t[i] == s[i] && t[j] == s[j - 1]);
        } else {
            assert(t[i] == s[i - 1] && t[j] == s[j - 1]);
        }
    }
}

/// The sorted names run from the last in the order of file names to the first.
pub proof fn law_sorted_is_descending(names: Seq<Seq<char>>)
    ensures
        descending(sort_desc(names)),
    decreases names.len(),
{
    if names.len() > 0 {
        law_sorted_is_descending(names.drop_last());
        lemma_insert_keeps_descending(sort_desc(names.drop_last()), names.last());
    }
}

/// Sorting neither loses a name nor adds one.
pub proof fn law_sorted_is_a_rearrangement(names: Seq<Seq<char>>)
    ensures
        sort_desc(names).to_multiset() == names.to_multiset(),
        sort_desc(names).len() == names.len(),
    decreases names.len(),
{
    if names.len() > 0 {
        let d = names.drop_last();
        law_sorted_is_a_rearrangement(d);
        lemma_insert_point(sort_desc(d), names.last());
        to_multiset_insert(sort_desc(d), insert_point(sort_desc(d), names.last()), names.last());
        to_multiset_build(d, names.last());
        assert(d.push(names.last()) =~= names);
    } else {
        assert(sort_desc(names) =~= names);
    }
}

/// The names that are kept as notes are the names with the extension `md`.
pub proof fn law_note_names_have_the_extension(names: Seq<Seq<char>>, i: int)
    requires
        0 <= i < note_names(names).len(),
    ensures
        is_note_name(note_names(names)[i]),
    decreases names.len(),
{
    if names.len() > 0 {
        let d = names.drop_last();
        if i < note_names(d).len() {
            law_note_names_have_the_extension(d, i);
        }
    }
}

} // verus!
