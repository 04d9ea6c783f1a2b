//! How texts are put together and taken apart again, character by character.

use crate::text::{
    decimal, decimal_value, drop_trailing, hex, hex_bound, hex_digit, is_digit, is_white_space,
    signed_decimal, trim_end, trim_start, trimmed, u64_value, without, words,
};
use vstd::prelude::*;

verus! {

/// Whether a text is made of the characters from `0` to `9` only.
pub open spec fn all_digits(s: Seq<char>) -> bool {
    forall|i: int| 0 <= i < s.len() ==> 48 <= (#[trigger] s[i]) as int <= 57
}

/// The number that digits stand for: each one is worth its distance from `0`, and ten times as much
/// with every place further left.
pub open spec fn number(s: Seq<char>) -> int
    decreases s.len(),
{
    if s.len() == 0 {
        0
    } else {
        10 * number(s.drop_last()) + (s.last() as int - 48)
    }
}

/// Whether a text is white space only.
pub open spec fn blank(s: Seq<char>) -> bool {
    forall|i: int| 0 <= i < s.len() ==> is_white_space(#[trigger] s[i])
}

/// Whether a text holds no white space.
pub open spec fn unbroken(s: Seq<char>) -> bool {
    forall|i: int| 0 <= i < s.len() ==> !is_white_space(#[trigger] s[i])
}

/// A character, some times over.
pub open spec fn run_of(c: char, count: nat) -> Seq<char> {
    Seq::new(count, |i: int| c)
}

proof fn lemma_number_is_decimal_value(s: Seq<char>)
    requires
        all_digits(s),
    ensures
        decimal_value(s) == number(s),
    decreases s.len(),
{
    if s.len() > 0 {
        assert(all_digits(s.drop_last())) by {
            assert forall|i: int| 0 <= i < s.drop_last().len() implies 48 <= (
            #[trigger] s.drop_last()[i]) as int <= 57 by {
                assert(s[i] == s.drop_last()[i]);
            }
        }
        lemma_number_is_decimal_value(s.drop_last());
    }
}

/// A number is read out of its digits, at least one of them, with or without a plus sign before
/// them, where a `u64` can hold it. Nothing is read out of any other text.
pub proof fn law_numbers_are_read(digits: Seq<char>)
    ensures
        ({
            let expected = if digits.len() > 0 && all_digits(digits) && number(digits) <= u64::MAX {
                Some(number(digits) as u64)
            } else {
                None
            };
            &&& (digits.len() == 0 || digits[0] != '+') ==> u64_value(digits) == expected
            &&& u64_value(seq!['+'] + digits) == expected
        }),
{
    assert((seq!['+'] + digits).skip(1) == digits);
    if all_digits(digits) {
        lemma_number_is_decimal_value(digits);
    }
    if forall|i: int| 0 <= i < digits.len() ==> is_digit(#[trigger] digits[i]) {
        assert forall|i: int| 0 <= i < digits.len() implies 48 <= (#[trigger] digits[i]) as int
            <= 57 by {
            assert(is_digit(digits[i]));
        }
    }
    if all_digits(digits) {
        assert forall|i: int| 0 <= i < digits.len() implies is_digit(#[trigger] digits[i]) by {
            assert(48 <= digits[i] as int <= 57);
        }
    }
}

/// The decimal text of a number is made of digits that stand for that number, without a zero in
/// front.
pub proof fn law_decimals_are_read_back(n: nat)
    ensures
        all_digits(decimal(n)),
        number(decimal(n)) == n,
        decimal(n).len() > 0,
        n > 0 ==> decimal(n)[0] != '0',
    decreases n,
{
    reveal_with_fuel(number, 2);
    if n < 10 {
        assert(decimal(n).drop_last() == Seq::<char>::empty());
    } else {
        law_decimals_are_read_back(n / 10);
        assert(decimal(n).drop_last() == decimal(n / 10));
        assert(decimal(n).last() as int - 48 == n % 10);
    }
}

/// The decimal text of a number with a sign is a minus sign for a negative one, and then the digits
/// of its amount.
pub proof fn law_signed_decimals_are_read_back(n: int)
    ensures
        n >= 0 ==> all_digits(signed_decimal(n)) && number(signed_decimal(n)) == n,
        n < 0 ==> signed_decimal(n).len() > 0 && signed_decimal(n)[0] == '-' && all_digits(
            signed_decimal(n).skip(1),
        ) && number(signed_decimal(n).skip(1)) == -n,
{
    if n >= 0 {
        law_decimals_are_read_back(n as nat);
    } else {
        law_decimals_are_read_back((-n) as nat);
        assert(signed_decimal(n).skip(1) == decimal((-n) as nat));
    }
}

/// The worth of a hexadecimal digit, by its distance from `0` or from `a`.
pub open spec fn hex_worth(c: char) -> int {
    if 48 <= c as int <= 57 {
        c as int - 48
    } else {
        c as int - 97 + 10
    }
}

/// Whether a text is made of lower-case hexadecimal digits.
pub open spec fn all_hex_digits(s: Seq<char>) -> bool {
    forall|i: int|
        0 <= i < s.len() ==> (48 <= (#[trigger] s[i]) as int <= 57 || 97 <= s[i] as int <= 102)
}

/// The number that hexadecimal digits stand for.
pub open spec fn hex_number(s: Seq<char>) -> int
    decreases s.len(),
{
    if s.len() == 0 {
        0
    } else {
        16 * hex_number(s.drop_last()) + hex_worth(s.last())
    }
}

/// The hexadecimal text of a 32-bit number is made of eight digits that stand for that number.
pub proof fn law_hex_is_read_back(n: u32)
    ensures
        hex(n as nat, 8).len() == 8,
        all_hex_digits(hex(n as nat, 8)),
        hex_number(hex(n as nat, 8)) == n,
{
    reveal_with_fuel(hex_bound, 9);
    lemma_hex_is_read_back(n as nat, 8);
}

proof fn lemma_hex_is_read_back(n: nat, width: nat)
    requires
        n < hex_bound(width),
    ensures
        hex(n, width).len() == width,
        all_hex_digits(hex(n, width)),
        hex_number(hex(n, width)) == n,
    decreases width,
{
    if width > 0 {
        let rest = (width - 1) as nat;
        lemma_hex_is_read_back(n / 16, rest);
        assert(hex(n, width).drop_last() == hex(n / 16, rest));
        let c = hex_digit(n % 16);
        assert(hex_worth(c) == n % 16);
    }
}

proof fn lemma_trim_start(before: Seq<char>, rest: Seq<char>)
    requires
        blank(before),
    ensures
        trim_start(before + rest) == trim_start(rest),
    decreases before.len(),
{
    if before.len() == 0 {
        assert(before + rest == rest);
    } else {
        assert((before + rest)[0] == before[0]);
        assert((before + rest).skip(1) == before.skip(1) + rest);
        assert(blank(before.skip(1))) by {
            assert forall|i: int| 0 <= i < before.skip(1).len() implies is_white_space(
                #[trigger] before.skip(1)[i],
            ) by {
                assert(before.skip(1)[i] == before[i + 1]);
            }
        }
        lemma_trim_start(before.skip(1), rest);
    }
}

proof fn lemma_trim_end(rest: Seq<char>, after: Seq<char>)
    requires
        blank(after),
    ensures
        trim_end(rest + after) == trim_end(rest),
    decreases after.len(),
{
    if after.len() == 0 {
        assert(rest + after == rest);
    } else {
        assert((rest + after).last() == after[after.len() - 1]);
        assert((rest + after).drop_last() == rest + after.drop_last());
        assert(blank(after.drop_last())) by {
            assert forall|i: int| 0 <= i < after.drop_last().len() implies is_white_space(
                #[trigger] after.drop_last()[i],
            ) by {
                assert(after.drop_last()[i] == after[i]);
            }
        }
        lemma_trim_end(rest, after.drop_last());
    }
}

/// Trimming gives back a text that begins and ends with something else than white space, whatever
/// white space stands around it. Of white space alone nothing is left.
pub proof fn law_trimming_gives_the_middle(before: Seq<char>, middle: Seq<char>, after: Seq<char>)
    requires
        blank(before),
        blank(after),
        middle.len() > 0 ==> !is_white_space(middle[0]) && !is_white_space(middle.last()),
    ensures
        trimmed(before + middle + after) == middle,
{
    assert(before + middle + after == before + (middle + after));
    lemma_trim_start(before, middle + after);
    if middle.len() == 0 {
        assert(middle + after == after + Seq::<char>::empty());
        lemma_trim_start(after, Seq::empty());
        assert(trimmed(before + middle + after) == Seq::<char>::empty());
        assert(middle == Seq::<char>::empty());
    } else {
        assert((middle + after)[0] == middle[0]);
        lemma_trim_end(middle, after);
    }
}

/// Dropping a trailing character gives back a text that does not end with it, however often it
/// stands behind.
pub proof fn law_trailing_characters_are_dropped(stem: Seq<char>, c: char, count: nat)
    requires
        stem.len() > 0 ==> stem.last() != c,
    ensures
        drop_trailing(stem + run_of(c, count), c) == stem,
    decreases count,
{
    let whole = stem + run_of(c, count);
    if count == 0 {
        assert(whole == stem);
    } else {
        assert(whole.last() == c);
        assert(whole.drop_last() == stem + run_of(c, (count - 1) as nat));
        law_trailing_characters_are_dropped(stem, c, (count - 1) as nat);
    }
}

/// Removing a character takes out every place where it stands and nothing else: a text without it
/// stays, and around each of its places the parts are taken one by one.
pub proof fn law_removing_a_character_keeps_the_rest(before: Seq<char>, c: char, after: Seq<char>)
    ensures
        without(before + seq![c] + after, c) == without(before, c) + without(after, c),
        !before.contains(c) ==> without(before, c) == before,
    decreases before.len() + after.len(),
{
    let whole = before + seq![c] + after;
    if after.len() == 0 {
        assert(whole.drop_last() == before);
        assert(whole.last() == c);
        assert(without(before, c) + without(after, c) == without(before, c));
    } else {
        law_removing_a_character_keeps_the_rest(before, c, after.drop_last());
        assert(whole.drop_last() == before + seq![c] + after.drop_last());
        assert(whole.last() == after.last());
        assert(without(before, c) + without(after, c) =~= if after.last() == c {
            without(before, c) + without(after.drop_last(), c)
        } else {
            (without(before, c) + without(after.drop_last(), c)).push(after.last())
        });
    }
    if !before.contains(c) {
        lemma_without_absent(before, c);
    }
}

proof fn lemma_without_absent(s: Seq<char>, c: char)
    requires
        !s.contains(c),
    ensures
        without(s, c) == s,
    decreases s.len(),
{
    if s.len() > 0 {
        assert(s[s.len() - 1] == s.last());
        assert(!s.drop_last().contains(c)) by {
            if s.drop_last().contains(c) {
                let i = choose|i: int| 0 <= i < s.drop_last().len() && s.drop_last()[i] == c;
                assert(s[i] == c);
            }
        }
        lemma_without_absent(s.drop_last(), c);
        assert(s.drop_last().push(s.last()) == s);
    }
}

/// White space behind a text adds no word to it, and an unbroken text that white space parts from
/// what stands before it adds itself. So the words of a line are its unbroken parts, in order.
pub proof fn law_words_are_parted_by_white_space(s: Seq<char>, gap: Seq<char>, word: Seq<char>)
    requires
        blank(gap),
        unbroken(word),
        word.len() > 0,
        s.len() == 0 || gap.len() > 0,
    ensures
        words(s + gap) == words(s),
        words(s + gap + word) == words(s).push(word),
        words(Seq::<char>::empty()).len() == 0,
{
    lemma_words_gap(s, gap);
    lemma_words_word(s + gap, word);
}

proof fn lemma_words_gap(s: Seq<char>, gap: Seq<char>)
    requires
        blank(gap),
    ensures
        words(s + gap) == words(s),
    decreases gap.len(),
{
    if gap.len() == 0 {
        assert(s + gap == s);
    } else {
        assert((s + gap).last() == gap[gap.len() - 1]);
        assert((s + gap).drop_last() == s + gap.drop_last());
        assert(blank(gap.drop_last())) by {
            assert forall|i: int| 0 <= i < gap.drop_last().len() implies is_white_space(
                #[trigger] gap.drop_last()[i],
            ) by {
                assert(gap.drop_last()[i] == gap[i]);
            }
        }
        lemma_words_gap(s, gap.drop_last());
    }
}

proof fn lemma_words_word(s: Seq<char>, word: Seq<char>)
    requires
        unbroken(word),
        word.len() > 0,
        s.len() > 0 ==> is_white_space(s.last()),
    ensures
        words(s + word) == words(s).push(word),
    decreases word.len(),
{
    let whole = s + word;
    let c = word[word.len() - 1];
    assert(whole.last() == c);
    assert(!is_white_space(c));
    if word.len() == 1 {
        assert(whole.drop_last() == s);
        assert(word == seq![c]);
        if s.len() > 0 {
            assert(whole[whole.len() - 2] == s.last());
        }
    } else {
        let front = word.drop_last();
        assert(unbroken(front)) by {
            assert forall|i: int| 0 <= i < front.len() implies !is_white_space(
                #[trigger] front[i],
            ) by {
                assert(front[i] == word[i]);
            }
        }
        lemma_words_word(s, front);
        assert(whole.drop_last() == s + front);
        assert(whole[whole.len() - 2] == word[word.len() - 2]);
        assert(words(s).push(front).drop_last() == words(s));
        assert(front.push(c) == word);
    }
}

/// What stands behind white space does not change the words before it.
pub(crate) proof fn lemma_words_before(s: Seq<char>, tail: Seq<char>)
    requires
        tail.len() > 0 ==> is_white_space(tail[0]),
    ensures
        words(s + tail).len() >= words(s).len(),
        forall|i: int|
            0 <= i < words(s).len() ==> #[trigger] words(s + tail)[i] == words(s)[i],
        tail.len() > 0 && !is_white_space(tail.last()) ==> words(s + tail).len() > words(s).len(),
    decreases tail.len(),
{
    if tail.len() == 0 {
        assert(s + tail == s);
    } else {
        let whole = s + tail;
        let front = tail.drop_last();
        assert(whole.drop_last() == s + front);
        assert(whole.last() == tail.last());
        if front.len() > 0 {
            assert(front[0] == tail[0]);
            assert(whole[whole.len() - 2] == front.last());
        } else {
            assert(whole == s + tail);
        }
        lemma_words_before(s, front);
        if !is_white_space(tail.last()) {
            assert(front.len() > 0);
        }
    }
}

} // verus!
