//! Text: the few operations on strings that the rules below are written with.
use vstd::prelude::*;
use vstd::string::*;

pub mod laws;

verus! {

/// The characters with the Unicode property White_Space.
pub open spec fn white_space(c: char) -> bool {
    let code: u32 = c as u32;
    ||| 0x9 <= code <= 0xd
    ||| code == 0x20
    ||| code == 0x85
    ||| code == 0xa0
    ||| code == 0x1680
    ||| 0x2000 <= code <= 0x200a
    ||| code == 0x2028
    ||| code == 0x2029
    ||| code == 0x202f
    ||| code == 0x205f
    ||| code == 0x3000
}

/// The text without leading white space.
pub open spec fn trimmed_front(s: Seq<char>) -> Seq<char>
    decreases s.len(),
{
    if s.len() > 0 && white_space(s[0]) {
        trimmed_front(s.drop_first())
    } else {
        s
    }
}

/// The text without trailing white space.
pub open spec fn trimmed_back(s: Seq<char>) -> Seq<char>
    decreases s.len(),
{
    if s.len() > 0 && white_space(s.last()) {
        trimmed_back(s.drop_last())
    } else {
        s
    }
}

/// The text without leading and trailing white space.
pub open spec fn trimmed(s: Seq<char>) -> Seq<char> {
    trimmed_back(trimmed_front(s))
}

/// Whether two characters are the same up to the case of ASCII letters.
pub open spec fn same_letter(a: char, b: char) -> bool {
    let x: u32 = a as u32;
    let y: u32 = b as u32;
    ||| x == y
    ||| 65 <= x <= 90 && y == x + 32
    ||| 65 <= y <= 90 && x == y + 32
}

/// Whether two texts are the same up to the case of ASCII letters.
pub open spec fn same_ignoring_case(a: Seq<char>, b: Seq<char>) -> bool {
    &&& a.len() == b.len()
    &&& forall|i: int| 0 <= i < a.len() ==> same_letter(#[trigger] a[i], b[i])
}

/// Whether `part` occurs in `s` at position `i`.
pub open spec fn occurs_at(s: Seq<char>, part: Seq<char>, i: int) -> bool {
    &&& 0 <= i
    &&& i + part.len() <= s.len()
    &&& s.subrange(i, i + part.len()) == part
}

/// Whether `part` occurs in `s`.
pub open spec fn contains_text(s: Seq<char>, part: Seq<char>) -> bool {
    exists|i: int| #[trigger] occurs_at(s, part, i)
}

/// The first position at or after `from` where `part` occurs in `s`.
pub open spec fn next_occurrence(s: Seq<char>, part: Seq<char>, from: int) -> Option<int>
    decreases s.len() + 1 - from,
{
    if from + part.len() > s.len() {
        None
    } else if occurs_at(s, part, from) {
        Some(from)
    } else {
        next_occurrence(s, part, from + 1)
    }
}

/// The text with each occurrence of a non-empty `part`, from left to right, replaced by `by`.
pub open spec fn replaced(s: Seq<char>, part: Seq<char>, by: Seq<char>) -> Seq<char>
    decreases s.len(),
{
    match next_occurrence(s, part, 0) {
        Some(i) => if part.len() > 0 && 0 <= i && i + part.len() <= s.len() {
            s.take(i) + by + replaced(s.skip(i + part.len()), part, by)
        } else {
            s
        },
        None => s,
    }
}

/// The position of the first `c` in `s`, the length of `s` where there is none.
pub open spec fn first_position(s: Seq<char>, c: char) -> nat
    decreases s.len(),
{
    if s.len() == 0 || s[0] == c {
        0
    } else {
        1 + first_position(s.drop_first(), c)
    }
}

/// The parts of `s` between the occurrences of `separator`.
pub open spec fn split_parts(s: Seq<char>, separator: char) -> Seq<Seq<char>>
    decreases s.len(),
{
    let i: nat = first_position(s, separator);
    if i >= s.len() {
        seq![s]
    } else {
        seq![s.take(i as int)] + split_parts(s.skip(i as int + 1), separator)
    }
}

/// The characters of a string.
pub fn characters(s: &str) -> (chars: Vec<char>)
    ensures
        chars@ == s@,
{
    let mut chars: Vec<char> = Vec::new();
    for c in it: s.chars()
        invariant
            it.seq() == s@,
            chars@ == s@.take(it.index()),
    {
        chars.push(c);
    }
    assert(s@.take(s@.len() as int) == s@);
    chars
}

/// Whether two strings are equal.
pub fn same(a: &str, b: &str) -> (equal: bool)
    ensures
        equal == (a@ == b@),
{
    let x: Vec<char> = characters(a);
    let y: Vec<char> = characters(b);
    if x.len() != y.len() {
        return false;
    }
    let mut i: usize = 0;
    while i < x.len()
        invariant
            i <= x@.len() == y@.len(),
            x@ == a@,
            y@ == b@,
            forall|j: int| 0 <= j < i ==> x@[j] == y@[j],
        decreases x@.len() - i,
    {
        if x[i] != y[i] {
            return false;
        }
        i = i + 1;
    }
    assert(a@ =~= b@);
    true
}

fn is_same_letter(a: char, b: char) -> (same: bool)
    ensures
        same == same_letter(a, b),
{
    let x: u32 = a as u32;
    let y: u32 = b as u32;
    x == y || (65 <= x && x <= 90 && y == x + 32) || (65 <= y && y <= 90 && x == y + 32)
}

/// Whether two strings are equal up to the case of ASCII letters.
pub fn eq_ignore_case(a: &str, b: &str) -> (equal: bool)
    ensures
        equal == same_ignoring_case(a@, b@),
{
    let x: Vec<char> = characters(a);
    let y: Vec<char> = characters(b);
    if x.len() != y.len() {
        return false;
    }
    let mut i: usize = 0;
    while i < x.len()
        invariant
            i <= x@.len() == y@.len(),
            x@ == a@,
            y@ == b@,
            forall|j: int| 0 <= j < i ==> same_letter(#[trigger] a@[j], b@[j]),
        decreases x@.len() - i,
    {
        if !is_same_letter(x[i], y[i]) {
            assert(!same_letter(a@[i as int], b@[i as int]));
            return false;
        }
        i = i + 1;
    }
    true
}

fn is_white_space(c: char) -> (white: bool)
    ensures
        white == white_space(c),
{
    let code: u32 = c as u32;
    (0x9 <= code && code <= 0xd) || code == 0x20 || code == 0x85 || code == 0xa0 || code == 0x1680
        || (0x2000 <= code && code <= 0x200a) || code == 0x2028 || code == 0x2029 || code == 0x202f
        || code == 0x205f || code == 0x3000
}

/// The string without leading and trailing white space.
pub fn trim(s: &str) -> (result: &str)
    ensures
        result@ == trimmed(s@),
{
    let chars: Vec<char> = characters(s);
    let length: usize = chars.len();
    let mut start: usize = 0;
    assert(s@.skip(0) == s@);
    while start < length && is_white_space(chars[start])
        invariant
            start <= length == chars@.len(),
            chars@ == s@,
            trimmed_front(s@.skip(start as int)) == trimmed_front(s@),
        decreases length - start,
    {
        assert(s@.skip(start as int).drop_first() == s@.skip(start + 1));
        start = start + 1;
    }
    let ghost front: Seq<char> = s@.skip(start as int);
    assert(trimmed_front(s@) == front);
    let mut end: usize = length;
    assert(s@.subrange(start as int, end as int) == front);
    while start < end && is_white_space(chars[end - 1])
        invariant
            start <= end <= length == chars@.len(),
            chars@ == s@,
            trimmed_back(s@.subrange(start as int, end as int)) == trimmed_back(front),
        decreases end,
    {
        let ghost here: Seq<char> = s@.subrange(start as int, end as int);
        assert(here.last() == s@[end - 1]);
        assert(here.drop_last() == s@.subrange(start as int, end - 1));
        end = end - 1;
    }
    proof {
        let here: Seq<char> = s@.subrange(start as int, end as int);
        if start < end {
            assert(here.last() == s@[end - 1]);
        }
    }
    s.substring_char(start, end)
}

/// Whether `part` occurs in `chars` at position `at`.
fn matches_at(chars: &Vec<char>, part: &Vec<char>, at: usize) -> (found: bool)
    requires
        at <= chars@.len(),
    ensures
        found == occurs_at(chars@, part@, at as int),
{
    if part.len() > chars.len() - at {
        return false;
    }
    let length: usize = chars.len();
    let mut i: usize = 0;
    while i < part.len()
        invariant
            at + part@.len() <= chars@.len() == length,
            i <= part@.len(),
            forall|j: int| 0 <= j < i ==> chars@[at + j] == part@[j],
        decreases part@.len() - i,
    {
        if chars[at + i] != part[i] {
            assert(chars@.subrange(at as int, at + part@.len())[i as int] != part@[i as int]);
            return false;
        }
        i = i + 1;
    }
    assert(chars@.subrange(at as int, at + part@.len()) =~= part@);
    true
}

/// The first position at or after `from` where `part` occurs.
pub fn find(chars: &Vec<char>, part: &Vec<char>, from: usize) -> (position: Option<usize>)
    requires
        from <= chars@.len(),
    ensures
        match position {
            Some(i) => {
                &&& next_occurrence(chars@, part@, from as int) == Some(i as int)
                &&& from <= i
                &&& occurs_at(chars@, part@, i as int)
            },
            None => {
                &&& next_occurrence(chars@, part@, from as int) is None
                &&& forall|j: int| from <= j ==> !#[trigger] occurs_at(chars@, part@, j)
            },
        },
{
    let mut i: usize = from;
    while i < chars.len()
        invariant
            from <= i <= chars@.len(),
            forall|j: int| from <= j < i ==> !#[trigger] occurs_at(chars@, part@, j),
            next_occurrence(chars@, part@, from as int) == next_occurrence(
                chars@,
                part@,
                i as int,
            ),
        decreases chars@.len() - i,
    {
        if matches_at(chars, part, i) {
            return Some(i);
        }
        proof {
            if i + part@.len() > chars@.len() {
                assert(next_occurrence(chars@, part@, i + 1) is None);
            }
        }
        i = i + 1;
    }
    if matches_at(chars, part, i) {
        Some(i)
    } else {
        proof {
            if part@.len() == 0 {
                assert(chars@.subrange(i as int, i as int) =~= part@);
            }
        }
        None
    }
}

/// Whether `part` occurs in `s`.
pub fn contains(s: &str, part: &str) -> (found: bool)
    ensures
        found == contains_text(s@, part@),
{
    let chars: Vec<char> = characters(s);
    let wanted: Vec<char> = characters(part);
    match find(&chars, &wanted, 0) {
        Some(i) => {
            assert(occurs_at(s@, part@, i as int));
            true
        },
        None => false,
    }
}

/// The first position of a character is one where it stands, with none before.
pub proof fn lemma_first_position(s: Seq<char>, c: char, i: int)
    requires
        0 <= i <= s.len(),
        forall|j: int| 0 <= j < i ==> s[j] != c,
        i < s.len() ==> s[i] == c,
    ensures
        first_position(s, c) == i,
    decreases s.len(),
{
    if s.len() > 0 && i > 0 {
        lemma_first_position(s.drop_first(), c, i - 1);
    }
}

/// The parts of a string between the occurrences of a separator.
pub fn split(s: &str, separator: char) -> (parts: Vec<String>)
    ensures
        parts@.len() == split_parts(s@, separator).len(),
        forall|i: int|
            0 <= i < parts@.len() ==> #[trigger] parts@[i]@ == split_parts(s@, separator)[i],
{
    let chars: Vec<char> = characters(s);
    let mut parts: Vec<String> = Vec::new();
    let mut start: usize = 0;
    let mut i: usize = 0;
    let ghost all: Seq<Seq<char>> = split_parts(s@, separator);
    assert(s@.skip(0) == s@);
    while i < chars.len()
        invariant
            start <= i <= chars@.len(),
            chars@ == s@,
            forall|j: int| start <= j < i ==> s@[j] != separator,
            all.len() == parts@.len() + split_parts(s@.skip(start as int), separator).len(),
            all.skip(parts@.len() as int) == split_parts(s@.skip(start as int), separator),
            forall|j: int| 0 <= j < parts@.len() ==> #[trigger] parts@[j]@ == all[j],
        decreases chars@.len() - i,
    {
        if chars[i] == separator {
            proof {
                let rest: Seq<char> = s@.skip(start as int);
                lemma_first_position(rest, separator, i - start);
                assert(rest.take(i - start) == s@.subrange(start as int, i as int));
                assert(rest.skip(i - start + 1) == s@.skip(i + 1));
                let here: Seq<Seq<char>> = split_parts(rest, separator);
                assert(here == seq![rest.take(i - start)] + split_parts(s@.skip(i + 1), separator));
                assert(here[0] == all[parts@.len() as int]);
                assert(all.skip(parts@.len() as int + 1) =~= here.skip(1));
                assert(here.skip(1) =~= split_parts(s@.skip(i + 1), separator));
            }
            parts.push(s.substring_char(start, i).to_owned());
            start = i + 1;
        }
        i = i + 1;
    }
    proof {
        let rest: Seq<char> = s@.skip(start as int);
        lemma_first_position(rest, separator, i - start);
        assert(rest == s@.subrange(start as int, i as int));
        let here: Seq<Seq<char>> = split_parts(rest, separator);
        assert(here == seq![rest]);
        assert(here[0] == all[parts@.len() as int]);
    }
    parts.push(s.substring_char(start, i).to_owned());
    parts
}

/// Two strings joined.
pub fn join(a: &str, b: &str) -> (result: String)
    ensures
        result@ == a@ + b@,
{
    a.to_owned().concat(b)
}

/// An occurrence in what follows a position is an occurrence in the whole.
proof fn lemma_next_in_rest(s: Seq<char>, part: Seq<char>, start: int, from: int)
    requires
        0 <= start,
        0 <= from,
        start + from <= s.len(),
    ensures
        next_occurrence(s.skip(start), part, from) == match next_occurrence(s, part, start + from) {
            Some(i) => Some(i - start),
            None => None,
        },
    decreases s.len() - from,
{
    let rest: Seq<char> = s.skip(start);
    if from + part.len() <= rest.len() {
        assert(rest.subrange(from, from + part.len()) =~= s.subrange(
            start + from,
            start + from + part.len(),
        ));
        if !occurs_at(rest, part, from) && start + from < s.len() {
            lemma_next_in_rest(s, part, start, from + 1);
        }
    }
}

/// The string with each occurrence of `part` replaced; an empty `part` replaces nothing.
pub fn replace(s: &str, part: &str, by: &str) -> (result: String)
    ensures
        result@ == replaced(s@, part@, by@),
{
    let chars: Vec<char> = characters(s);
    let length: usize = chars.len();
    let wanted: Vec<char> = characters(part);
    if wanted.len() == 0 {
        return s.to_owned();
    }
    let mut result: String = "".to_owned();
    let mut start: usize = 0;
    proof {
        reveal_strlit("");
        assert(s@.skip(0) == s@);
        assert(result@ + replaced(s@.skip(0), part@, by@) =~= replaced(s@, part@, by@));
    }
    loop
        invariant
            start <= length == chars@.len(),
            chars@ == s@,
            wanted@ == part@,
            wanted@.len() > 0,
            result@ + replaced(s@.skip(start as int), part@, by@) == replaced(s@, part@, by@),
        decreases chars@.len() - start,
    {
        proof {
            lemma_next_in_rest(s@, part@, start as int, 0);
        }
        match find(&chars, &wanted, start) {
            Some(i) => {
                let ghost before: Seq<char> = result@;
                let between: &str = s.substring_char(start, i);
                result = join(join(result.as_str(), between).as_str(), by);
                proof {
                    let rest: Seq<char> = s@.skip(start as int);
                    assert(between@ =~= rest.take(i - start));
                    assert(rest.skip(i - start + part@.len()) =~= s@.skip(i + part@.len()));
                    assert(result@ =~= before + (rest.take(i - start) + by@));
                    assert(before + (rest.take(i - start) + by@ + replaced(
                        s@.skip(i + part@.len()),
                        part@,
                        by@,
                    )) =~= result@ + replaced(s@.skip(i + part@.len()), part@, by@));
                }
                start = i + wanted.len();
            },
            None => {
                let rest: &str = s.substring_char(start, length);
                proof {
                    assert(rest@ =~= s@.skip(start as int));
                }
                return join(result.as_str(), rest);
            },
        }
    }
}

/// The text in upper case, by the Unicode mapping of each character.
pub uninterp spec fn upper_case(s: Seq<char>) -> Seq<char>;

/// `str::to_uppercase` of the standard library: the result depends on the text alone.
#[verifier::external_body]
pub(crate) fn to_upper(s: &str) -> (result: String)
    ensures
        result@ == upper_case(s@),
{
    s.to_uppercase()
}

} // verus!
