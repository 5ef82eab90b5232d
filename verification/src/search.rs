//! Literal substring search over byte strings.
//!
//! Every text this crate handles is modelled as the sequence of its bytes.
//! The specification functions here say where one byte string occurs in
//! another; the executable functions find and replace such occurrences.

use vstd::prelude::*;

verus! {

/// `needle` occurs in `hay` at offset `at`.
pub open spec fn occurs_at(hay: Seq<u8>, needle: Seq<u8>, at: int) -> bool {
    &&& 0 <= at
    &&& at + needle.len() <= hay.len()
    &&& hay.subrange(at, at + needle.len()) == needle
}

/// `needle` occurs somewhere in `hay`.
pub open spec fn occurs(hay: Seq<u8>, needle: Seq<u8>) -> bool {
    exists|at: int| occurs_at(hay, needle, at)
}

/// `at` is the first offset, counting from `from`, at which `needle` occurs in `hay`.
pub open spec fn first_at(hay: Seq<u8>, needle: Seq<u8>, from: int, at: int) -> bool {
    &&& 0 <= from <= at
    &&& occurs_at(hay, needle, at)
    &&& forall|earlier: int| from <= earlier < at ==> !occurs_at(hay, needle, earlier)
}

/// The first offset at which `needle` occurs in `hay`, if it occurs at all.
pub open spec fn first_occurrence(hay: Seq<u8>, needle: Seq<u8>) -> Option<int> {
    if occurs(hay, needle) {
        Some(choose|at: int| first_at(hay, needle, 0, at))
    } else {
        None
    }
}

/// `hay` with its first occurrence of `needle` replaced by `with`;
/// `hay` itself where `needle` does not occur.
pub open spec fn replaced_first(hay: Seq<u8>, needle: Seq<u8>, with: Seq<u8>) -> Seq<u8> {
    match first_occurrence(hay, needle) {
        Some(at) => hay.subrange(0, at) + with + hay.subrange(
            at + needle.len(),
            hay.len() as int,
        ),
        None => hay,
    }
}

/// A first occurrence is unique, so it is the one `first_occurrence` names.
pub proof fn lemma_first_occurrence_is(hay: Seq<u8>, needle: Seq<u8>, at: int)
    requires
        first_at(hay, needle, 0, at),
    ensures
        first_occurrence(hay, needle) == Some(at),
{
    assert(occurs(hay, needle));
    let chosen = choose|k: int| first_at(hay, needle, 0, k);
    assert(first_at(hay, needle, 0, chosen));
    if chosen < at {
        assert(!occurs_at(hay, needle, chosen));
    } else if at < chosen {
        assert(!occurs_at(hay, needle, at));
    }
}

/// Where `needle` occurs at or after `from`, some occurrence is the first one.
pub proof fn lemma_first_exists(hay: Seq<u8>, needle: Seq<u8>, from: int, at: int)
    requires
        0 <= from <= at,
        occurs_at(hay, needle, at),
    ensures
        exists|first: int| from <= first <= at && first_at(hay, needle, from, first),
    decreases at - from,
{
    if exists|earlier: int| from <= earlier < at && occurs_at(hay, needle, earlier) {
        let earlier = choose|earlier: int| from <= earlier < at && occurs_at(hay, needle, earlier);
        lemma_first_exists(hay, needle, from, earlier);
        let first = choose|first: int|
            from <= first <= earlier && first_at(hay, needle, from, first);
        assert(from <= first <= at && first_at(hay, needle, from, first));
    } else {
        assert(first_at(hay, needle, from, at));
    }
}

/// The middle one of three joined byte strings occurs where the first ends.
pub proof fn lemma_occurs_in_joined(before: Seq<u8>, middle: Seq<u8>, after: Seq<u8>)
    ensures
        occurs_at(before + middle + after, middle, before.len() as int),
{
    let joined = before + middle + after;
    assert(joined.subrange(before.len() as int, (before.len() + middle.len()) as int) =~= middle);
}

/// What occurs in the beginning of a byte string occurs in the whole of it.
pub proof fn lemma_occurs_in_longer(hay: Seq<u8>, upto: int, needle: Seq<u8>, at: int)
    requires
        0 <= upto <= hay.len(),
        occurs_at(hay.subrange(0, upto), needle, at),
    ensures
        occurs_at(hay, needle, at),
{
    assert(hay.subrange(at, at + needle.len()) =~= hay.subrange(0, upto).subrange(
        at,
        at + needle.len(),
    ));
}

/// What occurs in an occurrence occurs in the byte string around it.
pub proof fn lemma_occurs_inside(
    hay: Seq<u8>,
    outer: Seq<u8>,
    at: int,
    inner: Seq<u8>,
    inside: int,
)
    requires
        occurs_at(hay, outer, at),
        occurs_at(outer, inner, inside),
    ensures
        occurs_at(hay, inner, at + inside),
{
    assert(hay.subrange(at + inside, at + inside + inner.len()) =~= hay.subrange(
        at,
        at + outer.len(),
    ).subrange(inside, inside + inner.len()));
}

/// In a byte string that begins with `before + lead + kept + trail`, the
/// three last parts occur together where `before` ends, and `kept` where
/// `lead` ends.
pub proof fn lemma_occurs_in_beginning(
    hay: Seq<u8>,
    before: Seq<u8>,
    lead: Seq<u8>,
    kept: Seq<u8>,
    trail: Seq<u8>,
)
    requires
        (before + (lead + kept + trail)).len() <= hay.len(),
        hay.subrange(0, (before + (lead + kept + trail)).len() as int) == before + (lead + kept
            + trail),
    ensures
        occurs_at(hay, lead + kept + trail, before.len() as int),
        occurs_at(hay, kept, (before.len() + lead.len()) as int),
{
    let note = lead + kept + trail;
    let upto = before + note;
    lemma_occurs_in_joined(before, note, Seq::empty());
    assert(before + note + Seq::<u8>::empty() =~= upto);
    lemma_occurs_in_longer(hay, upto.len() as int, note, before.len() as int);
    lemma_occurs_in_joined(lead, kept, trail);
    lemma_occurs_inside(hay, note, before.len() as int, kept, lead.len() as int);
}

/// Counting from one offset, at most one offset is the first occurrence.
pub proof fn lemma_first_at_unique(hay: Seq<u8>, needle: Seq<u8>, from: int, a: int, b: int)
    requires
        first_at(hay, needle, from, a),
        first_at(hay, needle, from, b),
    ensures
        a == b,
{
    if a < b {
        assert(!occurs_at(hay, needle, a));
    } else if b < a {
        assert(!occurs_at(hay, needle, b));
    }
}

/// What `first_occurrence` names is a first occurrence.
pub proof fn lemma_first_occurrence_first(hay: Seq<u8>, needle: Seq<u8>)
    ensures
        first_occurrence(hay, needle) matches Some(at) ==> first_at(hay, needle, 0, at),
        first_occurrence(hay, needle) is None ==> !occurs(hay, needle),
{
    if occurs(hay, needle) {
        let somewhere = choose|at: int| occurs_at(hay, needle, at);
        lemma_first_exists(hay, needle, 0, somewhere);
    }
}

/// Of two occurrences only the first is replaced: what follows the first
/// occurrence is carried over as it is, so a later occurrence is still
/// there, moved by the difference of the two lengths.
pub proof fn lemma_only_first_replaced(
    hay: Seq<u8>,
    needle: Seq<u8>,
    with: Seq<u8>,
    first: int,
    later: int,
)
    requires
        first_at(hay, needle, 0, first),
        occurs_at(hay, needle, later),
        first + needle.len() <= later,
    ensures
        replaced_first(hay, needle, with) == hay.subrange(0, first) + with + hay.subrange(
            first + needle.len(),
            hay.len() as int,
        ),
        occurs_at(replaced_first(hay, needle, with), needle, later - needle.len() + with.len()),
{
    lemma_first_occurrence_is(hay, needle, first);
    let out = replaced_first(hay, needle, with);
    let moved = later - needle.len() + with.len();
    assert(out.subrange(moved, moved + needle.len()) =~= hay.subrange(
        later,
        later + needle.len(),
    ));
}

/// Appends the bytes `src[from..to]` to `out`.
pub fn push_range(out: &mut Vec<u8>, src: &[u8], from: usize, to: usize)
    requires
        from <= to <= src@.len(),
    ensures
        final(out)@ == old(out)@ + src@.subrange(from as int, to as int),
{
    let mut i: usize = from;
    while i < to
        invariant
            from <= i <= to <= src@.len(),
            out@ == old(out)@ + src@.subrange(from as int, i as int),
        decreases to - i,
    {
        out.push(src[i]);
        i = i + 1;
        assert(src@.subrange(from as int, i as int) == src@.subrange(from as int, i - 1).push(
            src@[i - 1],
        ));
    }
}

/// Tells whether `needle` occurs in `hay` at offset `at`.
pub fn matches_at(hay: &[u8], needle: &[u8], at: usize) -> (found: bool)
    ensures
        found == occurs_at(hay@, needle@, at as int),
{
    if at > hay.len() || needle.len() > hay.len() - at {
        return false;
    }
    let mut i: usize = 0;
    while i < needle.len()
        invariant
            at + needle@.len() <= hay@.len() <= usize::MAX,
            i <= needle@.len(),
            forall|j: int| 0 <= j < i ==> hay@[at + j] == needle@[j],
        decreases needle@.len() - i,
    {
        if hay[at + i] != needle[i] {
            assert(hay@.subrange(at as int, at + needle@.len())[i as int] != needle@[i as int]);
            return false;
        }
        i = i + 1;
    }
    assert(hay@.subrange(at as int, at + needle@.len()) =~= needle@);
    true
}

/// Finds the first offset at or after `from` at which `needle` occurs in `hay`.
pub fn find_from(hay: &[u8], needle: &[u8], from: usize) -> (found: Option<usize>)
    ensures
        found matches Some(at) ==> first_at(hay@, needle@, from as int, at as int),
        found is None ==> forall|at: int| from <= at ==> !occurs_at(hay@, needle@, at),
{
    if from > hay.len() || needle.len() > hay.len() - from {
        return None;
    }
    let last: usize = hay.len() - needle.len();
    let mut at: usize = from;
    loop
        invariant
            from <= at <= last,
            last == hay@.len() - needle@.len(),
            forall|earlier: int| from <= earlier < at ==> !occurs_at(hay@, needle@, earlier),
        decreases last - at,
    {
        if matches_at(hay, needle, at) {
            return Some(at);
        }
        if at == last {
            return None;
        }
        at = at + 1;
    }
}

/// Tells whether `at` is the first offset, counting from `from`, at which
/// `needle` occurs in `hay`.
pub fn is_first_at(hay: &[u8], needle: &[u8], from: usize, at: usize) -> (holds: bool)
    ensures
        holds == first_at(hay@, needle@, from as int, at as int),
{
    match find_from(hay, needle, from) {
        Some(first) => {
            proof {
                if first_at(hay@, needle@, from as int, at as int) {
                    lemma_first_at_unique(hay@, needle@, from as int, first as int, at as int);
                }
            }
            first == at
        },
        None => false,
    }
}

/// Finds the first offset at which `needle` occurs in `hay`.
pub fn find_first(hay: &[u8], needle: &[u8]) -> (found: Option<usize>)
    ensures
        found is Some <==> occurs(hay@, needle@),
        found matches Some(at) ==> first_at(hay@, needle@, 0, at as int),
        found matches Some(at) ==> first_occurrence(hay@, needle@) == Some(at as int),
{
    let found = find_from(hay, needle, 0);
    proof {
        if let Some(at) = found {
            lemma_first_occurrence_is(hay@, needle@, at as int);
        }
    }
    found
}

/// Replaces the first occurrence of `needle` in `hay` by `with`.
/// Later occurrences stay as they are.
pub fn replace_first(hay: &[u8], needle: &[u8], with: &[u8]) -> (out: Vec<u8>)
    ensures
        out@ == replaced_first(hay@, needle@, with@),
{
    let mut out: Vec<u8> = Vec::new();
    let hay_len: usize = hay.len();
    match find_first(hay, needle) {
        Some(at) => {
            push_range(&mut out, hay, 0, at);
            push_range(&mut out, with, 0, with.len());
            push_range(&mut out, hay, at + needle.len(), hay_len);
            assert(with@.subrange(0, with@.len() as int) == with@);
        },
        None => {
            push_range(&mut out, hay, 0, hay.len());
            assert(hay@.subrange(0, hay@.len() as int) == hay@);
        },
    }
    out
}

} // verus!
