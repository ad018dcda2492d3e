//! What is written reads back as what it was.
use vstd::prelude::*;

use crate::decimal::Scaled;

verus! {

/// Whether a text is made of digits alone.
pub open spec fn all_digits(s: Seq<char>) -> bool {
    forall|i: int| 0 <= i < s.len() ==> crate::decimal::is_digit(#[trigger] s[i])
}

proof fn lemma_digits_end(s: Seq<char>, i: nat, end: nat)
    requires
        i <= end <= s.len(),
        forall|j: int| i <= j < end ==> crate::decimal::is_digit(#[trigger] s[j]),
        end < s.len() ==> !crate::decimal::is_digit(s[end as int]),
    ensures
        crate::decimal::digits_end(s, i) == end,
    decreases end - i,
{
    if i < end {
        assert(crate::decimal::is_digit(s[i as int]));
        lemma_digits_end(s, i + 1, end);
    }
}

proof fn lemma_printed(n: nat)
    ensures
        crate::decimal::printed(n).len() > 0,
        all_digits(crate::decimal::printed(n)),
        crate::decimal::digits_value(crate::decimal::printed(n)) == n,
    decreases n,
{
    let s: Seq<char> = crate::decimal::printed(n);
    if n < 10 {
        assert(s.drop_last() =~= Seq::<char>::empty());
        assert(crate::decimal::digits_value(s.drop_last()) == 0);
    } else {
        lemma_printed(n / 10);
        let front: Seq<char> = crate::decimal::printed(n / 10);
        assert(s.drop_last() =~= front);
        assert forall|i: int| 0 <= i < s.len() implies crate::decimal::is_digit(
            #[trigger] s[i],
        ) by {
            if i < front.len() {
                assert(s[i] == front[i]);
            }
        }
    }
}

proof fn lemma_leading_zeros(count: nat, s: Seq<char>)
    ensures
        crate::decimal::digits_value(Seq::new(count, |i: int| '0') + s)
            == crate::decimal::digits_value(s),
    decreases s.len(), count,
{
    let zeros: Seq<char> = Seq::new(count, |i: int| '0');
    let all: Seq<char> = zeros + s;
    if s.len() > 0 {
        lemma_leading_zeros(count, s.drop_last());
        assert(all.drop_last() =~= zeros + s.drop_last());
    } else if count > 0 {
        let fewer: Seq<char> = Seq::new((count - 1) as nat, |i: int| '0');
        lemma_leading_zeros((count - 1) as nat, s);
        assert(all.drop_last() =~= fewer + s);
    } else {
        assert(all =~= s);
    }
}

/// A whole number that was written reads back.
pub proof fn law_whole_numbers_read_back(n: nat)
    ensures
        crate::decimal::read_unsigned(crate::decimal::printed(n)) == Some(n),
{
    let s: Seq<char> = crate::decimal::printed(n);
    lemma_printed(n);
    lemma_digits_end(s, 0, s.len());
    assert(crate::decimal::is_digit(s[0]));
}

/// A number that was written with a point reads back, digit for digit.
pub proof fn law_numbers_with_a_point_read_back(n: nat, places: nat)
    ensures
        crate::decimal::read_number(crate::decimal::print::point_text(n, places)) == Some(
            Scaled { digits: n, exponent: -(places as int) },
        ),
{
    let plain: Seq<char> = crate::decimal::printed(n);
    let digits: Seq<char> = crate::decimal::print::padded(plain, places + 1);
    let s: Seq<char> = crate::decimal::print::point_text(n, places);
    lemma_printed(n);
    if plain.len() < places + 1 {
        lemma_leading_zeros((places + 1 - plain.len()) as nat, plain);
    }
    assert(crate::decimal::digits_value(digits) == n);
    assert forall|i: int| 0 <= i < digits.len() implies crate::decimal::is_digit(
        #[trigger] digits[i],
    ) by {
        if plain.len() < places + 1 && i >= places + 1 - plain.len() {
            assert(digits[i] == plain[i - (places + 1 - plain.len())]);
        }
    }
    if places == 0 {
        lemma_digits_end(s, 0, s.len());
        assert(crate::decimal::fraction_digits(s) =~= Seq::<char>::empty());
        assert(crate::decimal::number_digits(s) =~= digits);
    } else {
        reveal_strlit(".");
        let front: nat = (digits.len() - places) as nat;
        assert forall|i: int| 0 <= i < front implies crate::decimal::is_digit(#[trigger] s[i]) by {
            assert(s[i] == digits[i]);
        }
        assert(s[front as int] == '.');
        lemma_digits_end(s, 0, front);
        assert forall|i: int| front + 1 <= i < s.len() implies crate::decimal::is_digit(
            #[trigger] s[i],
        ) by {
            assert(s[i] == digits[i - 1]);
        }
        lemma_digits_end(s, front + 1, s.len());
        assert(crate::decimal::fraction_digits(s) =~= digits.skip(front as int));
        assert(crate::decimal::number_digits(s) =~= digits);
    }
}

} // verus!
