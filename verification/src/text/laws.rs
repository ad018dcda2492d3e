//! What trimming and splitting leave of a text.
use vstd::prelude::*;

verus! {

proof fn lemma_trimmed_front(s: Seq<char>) -> (k: int)
    ensures
        0 <= k <= s.len(),
        crate::text::trimmed_front(s) == s.skip(k),
        forall|j: int| 0 <= j < k ==> crate::text::white_space(#[trigger] s[j]),
        k < s.len() ==> !crate::text::white_space(s[k]),
    decreases s.len(),
{
    if s.len() > 0 && crate::text::white_space(s[0]) {
        let rest: Seq<char> = s.drop_first();
        let k: int = lemma_trimmed_front(rest);
        assert(rest.skip(k) =~= s.skip(k + 1));
        assert forall|j: int| 0 <= j < k + 1 implies crate::text::white_space(
            #[trigger] s[j],
        ) by {
            if j > 0 {
                assert(s[j] == rest[j - 1]);
            }
        }
        if k < rest.len() {
            assert(s[k + 1] == rest[k]);
        }
        k + 1
    } else {
        assert(s.skip(0) =~= s);
        0
    }
}

proof fn lemma_trimmed_back(s: Seq<char>) -> (k: int)
    ensures
        0 <= k <= s.len(),
        crate::text::trimmed_back(s) == s.take(k),
        forall|j: int| k <= j < s.len() ==> crate::text::white_space(#[trigger] s[j]),
        k > 0 ==> !crate::text::white_space(s[k - 1]),
    decreases s.len(),
{
    if s.len() > 0 && crate::text::white_space(s.last()) {
        let rest: Seq<char> = s.drop_last();
        let k: int = lemma_trimmed_back(rest);
        assert(rest.take(k) =~= s.take(k));
        assert forall|j: int| k <= j < s.len() implies crate::text::white_space(
            #[trigger] s[j],
        ) by {
            if j < rest.len() {
                assert(s[j] == rest[j]);
            }
        }
        k
    } else {
        assert(s.take(s.len() as int) =~= s);
        s.len() as int
    }
}

/// Whether all of a text but what lies between two positions is white space.
pub open spec fn white_outside(s: Seq<char>, from: int, to: int) -> bool {
    &&& 0 <= from <= to <= s.len()
    &&& forall|j: int|
        (0 <= j < from || to <= j < s.len()) ==> crate::text::white_space(#[trigger] s[j])
}

/// Trimming takes white space off both ends and nothing else, and leaves none there.
pub proof fn law_trimming_takes_white_space_off_the_ends(s: Seq<char>)
    ensures
        ({
            let t: Seq<char> = crate::text::trimmed(s);
            &&& exists|from: int, to: int| #[trigger]
                white_outside(s, from, to) && t == s.subrange(from, to)
            &&& t.len() > 0 ==> !crate::text::white_space(t[0]) && !crate::text::white_space(
                t.last(),
            )
        }),
{
    let from: int = lemma_trimmed_front(s);
    let rest: Seq<char> = crate::text::trimmed_front(s);
    let k: int = lemma_trimmed_back(rest);
    let to: int = from + k;
    assert(crate::text::trimmed(s) =~= s.subrange(from, to));
    assert forall|j: int| (0 <= j < from || to <= j < s.len()) implies crate::text::white_space(
        #[trigger] s[j],
    ) by {
        if j >= from {
            assert(s[j] == rest[j - from]);
        }
    }
    assert(white_outside(s, from, to));
    if k > 0 {
        assert(crate::text::trimmed(s)[0] == s[from]);
        assert(crate::text::trimmed(s).last() == rest[k - 1]);
    }
}

/// Texts with a separator between each two.
pub open spec fn joined(parts: Seq<Seq<char>>, separator: char) -> Seq<char>
    decreases parts.len(),
{
    if parts.len() == 0 {
        Seq::empty()
    } else if parts.len() == 1 {
        parts[0]
    } else {
        parts[0] + seq![separator] + joined(parts.drop_first(), separator)
    }
}

proof fn lemma_first_position(s: Seq<char>, c: char)
    ensures
        crate::text::first_position(s, c) <= s.len(),
        forall|j: int|
            0 <= j < crate::text::first_position(s, c) ==> #[trigger] s[j] != c,
        crate::text::first_position(s, c) < s.len() ==> s[crate::text::first_position(
            s,
            c,
        ) as int] == c,
    decreases s.len(),
{
    if s.len() > 0 && s[0] != c {
        let rest: Seq<char> = s.drop_first();
        lemma_first_position(rest, c);
        let i: nat = crate::text::first_position(s, c);
        assert forall|j: int| 0 <= j < i implies #[trigger] s[j] != c by {
            if j > 0 {
                assert(s[j] == rest[j - 1]);
            }
        }
        if i < s.len() {
            assert(s[i as int] == rest[i - 1]);
        }
    }
}

/// The parts of a text hold no separator, and with one between each two they are the text again.
pub proof fn law_splitting_is_undone_by_joining(s: Seq<char>, separator: char)
    ensures
        ({
            let parts: Seq<Seq<char>> = crate::text::split_parts(s, separator);
            &&& parts.len() > 0
            &&& joined(parts, separator) == s
            &&& forall|i: int|
                0 <= i < parts.len() ==> !(#[trigger] parts[i]).contains(separator)
        }),
    decreases s.len(),
{
    let parts: Seq<Seq<char>> = crate::text::split_parts(s, separator);
    let i: nat = crate::text::first_position(s, separator);
    lemma_first_position(s, separator);
    if i < s.len() {
        let rest: Seq<char> = s.skip(i as int + 1);
        let others: Seq<Seq<char>> = crate::text::split_parts(rest, separator);
        law_splitting_is_undone_by_joining(rest, separator);
        assert(parts.drop_first() =~= others);
        assert(joined(parts, separator) =~= s);
        assert forall|k: int| 0 <= k < parts.len() implies !(#[trigger] parts[k]).contains(
            separator,
        ) by {
            if k > 0 {
                assert(parts[k] == others[k - 1]);
            } else {
                assert(parts[0] == s.take(i as int));
            }
        }
    }
}

} // verus!
