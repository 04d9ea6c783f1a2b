//! What the lines of `rsync --progress` say, by the characters that they are made of.

use crate::grammar::{
    all_digits, blank, law_numbers_are_read, law_trailing_characters_are_dropped,
    law_words_are_parted_by_white_space, lemma_words_before, number, run_of, unbroken,
};
use crate::progress::{
    byte_report, ends_line, law_total_is_the_scaled_count, pending_line, progress_counts, reported,
    rsync_progress,
};
use crate::text::{drop_trailing, is_white_space, lossy_text, u64_value, without, words};
use vstd::prelude::*;

verus! {

/// Whether a text is made of digits and commas, with at least one digit.
pub open spec fn is_count(s: Seq<char>) -> bool {
    &&& forall|i: int| 0 <= i < s.len() ==> 48 <= (#[trigger] s[i]) as int <= 57 || s[i] == ','
    &&& exists|i: int| 0 <= i < s.len() && (#[trigger] s[i]) != ','
}

/// The number that digits stand for, whatever commas stand among them.
pub open spec fn grouped_number(s: Seq<char>) -> int
    decreases s.len(),
{
    if s.len() == 0 {
        0
    } else if s.last() == ',' {
        grouped_number(s.drop_last())
    } else {
        10 * grouped_number(s.drop_last()) + (s.last() as int - 48)
    }
}

proof fn lemma_commas(s: Seq<char>)
    requires
        forall|i: int| 0 <= i < s.len() ==> 48 <= (#[trigger] s[i]) as int <= 57 || s[i] == ',',
    ensures
        all_digits(without(s, ',')),
        number(without(s, ',')) == grouped_number(s),
        (exists|i: int| 0 <= i < s.len() && (#[trigger] s[i]) != ',') ==> without(s, ',').len() > 0,
    decreases s.len(),
{
    if s.len() > 0 {
        let front = s.drop_last();
        assert forall|i: int| 0 <= i < front.len() implies 48 <= (#[trigger] front[i]) as int <= 57
            || front[i] == ',' by {
            assert(front[i] == s[i]);
        }
        lemma_commas(front);
        assert(s[s.len() - 1] == s.last());
        if s.last() == ',' {
            if exists|i: int| 0 <= i < s.len() && (#[trigger] s[i]) != ',' {
                let i = choose|i: int| 0 <= i < s.len() && (#[trigger] s[i]) != ',';
                assert(front[i] == s[i]);
            }
        } else {
            let rest = without(front, ',');
            assert(rest.push(s.last()).drop_last() == rest);
        }
    }
}

/// A line that starts with two words, whatever follows them.
proof fn lemma_first_words(
    before: Seq<char>,
    first: Seq<char>,
    between: Seq<char>,
    second: Seq<char>,
    tail: Seq<char>,
)
    requires
        blank(before),
        blank(between),
        between.len() > 0,
        first.len() > 0,
        second.len() > 0,
        unbroken(first),
        unbroken(second),
        tail.len() > 0 ==> is_white_space(tail[0]),
    ensures
        ({
            let parts = words(before + first + between + second + tail);
            parts.len() >= 2 && parts[0] == first && parts[1] == second
        }),
{
    let none = Seq::<char>::empty();
    law_words_are_parted_by_white_space(none, before, first);
    assert(none + before + first == before + first);
    let head = before + first;
    law_words_are_parted_by_white_space(head, between, second);
    let start = head + between + second;
    lemma_words_before(start, tail);
    assert(words(start) == words(none).push(first).push(second));
    assert(words(start)[0] == first && words(start)[1] == second);
    assert(words(start + tail)[0] == words(start)[0]);
    assert(words(start + tail)[1] == words(start)[1]);
}

/// A line that begins with a byte count and a percentage is read, whatever stands behind them: the
/// count in digits, with commas anywhere, white space before and behind it, then the percentage in
/// digits, with any number of percent signs, and then nothing, or white space and any text at all.
/// The line reports the count and the whole number of bytes of which the count is that percentage,
/// or nothing where a `u64` cannot hold that number. At zero per cent the count is all that is
/// known of the whole.
pub proof fn law_progress_line_is_read(
    before: Seq<char>,
    count: Seq<char>,
    between: Seq<char>,
    percentage: Seq<char>,
    signs: nat,
    tail: Seq<char>,
)
    requires
        blank(before),
        is_count(count),
        grouped_number(count) <= u64::MAX,
        blank(between),
        between.len() > 0,
        percentage.len() > 0,
        all_digits(percentage),
        number(percentage) <= u64::MAX,
        tail.len() > 0 ==> is_white_space(tail[0]),
    ensures
        ({
            let line = before + count + between + percentage + run_of('%', signs) + tail;
            let bytes = grouped_number(count);
            let percent = number(percentage);
            &&& progress_counts(line) == Some((bytes as u64, percent as u64))
            &&& match rsync_progress(line) {
                Some((sent, total)) => if percent == 0 {
                    sent == 0 && total == bytes && bytes > 0
                } else {
                    sent == bytes && total * percent <= bytes * 100 < (total + 1) * percent
                },
                None => if percent == 0 {
                    bytes == 0
                } else {
                    bytes * 100 >= (u64::MAX + 1) * percent
                },
            }
        }),
{
    let second = percentage + run_of('%', signs);
    let line = before + count + between + percentage + run_of('%', signs) + tail;
    assert(line == before + count + between + second + tail);
    assert(count.len() > 0);
    assert(unbroken(count));
    assert(unbroken(second)) by {
        assert forall|i: int| 0 <= i < second.len() implies !is_white_space(
            #[trigger] second[i],
        ) by {
            if i < percentage.len() {
                assert(second[i] == percentage[i]);
            } else {
                assert(second[i] == '%');
            }
        }
    }
    lemma_first_words(before, count, between, second, tail);
    lemma_commas(count);
    law_numbers_are_read(without(count, ','));
    assert(without(count, ',')[0] != '+');
    assert(percentage[percentage.len() - 1] == percentage.last());
    law_trailing_characters_are_dropped(percentage, '%', signs);
    law_numbers_are_read(percentage);
    assert(percentage[0] != '+');
    let (bytes, percent) = (grouped_number(count), number(percentage));
    lemma_numbers_are_natural(count, percentage);
    if percent > 0 {
        law_total_is_the_scaled_count(line, bytes as u64, percent as u64);
        if rsync_progress(line) is None {
            let total = bytes * 100 / percent;
            assert(bytes * 100 >= (u64::MAX + 1) * percent) by (nonlinear_arith)
                requires
                    percent > 0,
                    total == bytes * 100 / percent,
                    total >= u64::MAX + 1,
            ;
        }
    }
}

proof fn lemma_numbers_are_natural(count: Seq<char>, digits: Seq<char>)
    requires
        forall|i: int|
            0 <= i < count.len() ==> 48 <= (#[trigger] count[i]) as int <= 57 || count[i] == ',',
        all_digits(digits),
    ensures
        grouped_number(count) >= 0,
        number(digits) >= 0,
    decreases count.len() + digits.len(),
{
    if count.len() > 0 {
        let front = count.drop_last();
        assert forall|i: int| 0 <= i < front.len() implies 48 <= (#[trigger] front[i]) as int <= 57
            || front[i] == ',' by {
            assert(front[i] == count[i]);
        }
        assert(count[count.len() - 1] == count.last());
        lemma_numbers_are_natural(front, digits);
    } else if digits.len() > 0 {
        let front = digits.drop_last();
        assert forall|i: int| 0 <= i < front.len() implies 48 <= (#[trigger] front[i]) as int
            <= 57 by {
            assert(front[i] == digits[i]);
        }
        assert(digits[digits.len() - 1] == digits.last());
        lemma_numbers_are_natural(count, front);
    }
}

/// Whether a character may stand in a count.
pub open spec fn may_count(c: char) -> bool {
    48 <= c as int <= 57 || c == ',' || c == '+'
}

/// Whether a character may stand in a percentage.
pub open spec fn may_be_percent(c: char) -> bool {
    48 <= c as int <= 57 || c == '%' || c == '+'
}

/// A line whose first word holds anything but digits, commas and a plus sign, or whose second word
/// anything but digits, percent signs and a plus sign, reports nothing.
pub proof fn law_other_words_report_nothing(
    before: Seq<char>,
    first: Seq<char>,
    between: Seq<char>,
    second: Seq<char>,
    tail: Seq<char>,
)
    requires
        blank(before),
        blank(between),
        between.len() > 0,
        first.len() > 0,
        second.len() > 0,
        unbroken(first),
        unbroken(second),
        tail.len() > 0 ==> is_white_space(tail[0]),
        rsync_progress(before + first + between + second + tail) is Some,
    ensures
        forall|i: int| 0 <= i < first.len() ==> may_count(#[trigger] first[i]),
        forall|i: int| 0 <= i < second.len() ==> may_be_percent(#[trigger] second[i]),
{
    lemma_first_words(before, first, between, second, tail);
    lemma_number_text(without(first, ','));
    lemma_number_text(drop_trailing(second, '%'));
    lemma_without_keeps(first, ',');
    lemma_drop_keeps(second, '%');
    assert forall|i: int| 0 <= i < first.len() implies may_count(#[trigger] first[i]) by {
        if first[i] != ',' {
            let k = choose|k: int|
                0 <= k < without(first, ',').len() && without(first, ',')[k] == first[i];
        }
    }
    assert forall|i: int| 0 <= i < second.len() implies may_be_percent(#[trigger] second[i]) by {
        if i < drop_trailing(second, '%').len() {
            assert(drop_trailing(second, '%')[i] == second[i]);
        }
    }
}

/// A line with fewer than two words reports nothing.
pub proof fn law_single_words_report_nothing(before: Seq<char>, word: Seq<char>, after: Seq<char>)
    requires
        blank(before),
        blank(after),
        unbroken(word),
    ensures
        rsync_progress(before + word + after) is None,
{
    let none = Seq::<char>::empty();
    let a = seq!['a'];
    if word.len() > 0 {
        law_words_are_parted_by_white_space(none, before, word);
        assert(none + before + word == before + word);
        if after.len() > 0 {
            law_words_are_parted_by_white_space(before + word, after, a);
        } else {
            assert(before + word + after == before + word);
        }
        assert(words(before + word + after) == words(none).push(word));
    } else {
        let gap = before + after;
        assert(before + word + after == none + gap);
        assert(blank(gap));
        law_words_are_parted_by_white_space(none, gap, a);
    }
}

proof fn lemma_number_text(s: Seq<char>)
    requires
        u64_value(s) is Some,
    ensures
        forall|i: int|
            0 <= i < s.len() ==> (48 <= (#[trigger] s[i]) as int <= 57 || s[i] == '+'),
{
    if s.len() > 0 && s[0] == '+' {
        let digits = s.skip(1);
        assert(s == seq!['+'] + digits);
        law_numbers_are_read(digits);
        assert forall|i: int| 0 <= i < s.len() implies (48 <= (#[trigger] s[i]) as int <= 57
            || s[i] == '+') by {
            if i > 0 {
                assert(s[i] == digits[i - 1]);
            }
        }
    } else {
        law_numbers_are_read(s);
    }
}

proof fn lemma_without_keeps(s: Seq<char>, c: char)
    ensures
        forall|i: int|
            0 <= i < s.len() && #[trigger] s[i] != c ==> exists|k: int|
                0 <= k < without(s, c).len() && without(s, c)[k] == s[i],
    decreases s.len(),
{
    if s.len() > 0 {
        let front = s.drop_last();
        lemma_without_keeps(front, c);
        let (old_rest, rest) = (without(front, c), without(s, c));
        assert forall|i: int| 0 <= i < s.len() && #[trigger] s[i] != c implies exists|k: int|
            0 <= k < rest.len() && rest[k] == s[i] by {
            if i < front.len() {
                assert(front[i] == s[i]);
                let k = choose|k: int| 0 <= k < old_rest.len() && old_rest[k] == front[i];
                assert(rest[k] == s[i]);
            } else {
                assert(rest[rest.len() - 1] == s[i]);
            }
        }
    }
}

proof fn lemma_drop_keeps(s: Seq<char>, c: char)
    ensures
        drop_trailing(s, c).len() <= s.len(),
        drop_trailing(s, c) == s.take(drop_trailing(s, c).len() as int),
        forall|i: int| drop_trailing(s, c).len() <= i < s.len() ==> #[trigger] s[i] == c,
    decreases s.len(),
{
    if s.len() > 0 && s.last() == c {
        let front = s.drop_last();
        lemma_drop_keeps(front, c);
        let size = drop_trailing(s, c).len() as int;
        assert(front.take(size) == s.take(size));
        assert forall|i: int| size <= i < s.len() implies #[trigger] s[i] == c by {
            if i < front.len() {
                assert(front[i] == s[i]);
            }
        }
    } else {
        assert(s.take(s.len() as int) == s);
    }
}

/// A line ends with a carriage return or with a line feed, and with nothing else: text in between
/// is gathered as it comes, and the line that it makes is reported once, when it ends.
pub proof fn law_lines_end_at_returns_and_feeds(output: Seq<u8>, text: Seq<u8>, end: u8)
    requires
        output.len() == 0 || output.last() == 13 || output.last() == 10,
        forall|i: int| 0 <= i < text.len() ==> #[trigger] text[i] != 13 && text[i] != 10,
        end == 13 || end == 10,
    ensures
        pending_line(output + text) == text,
        reported(output + text) == reported(output),
        reported((output + text).push(end)) == reported(output) + (if text.len() == 0 {
            Seq::empty()
        } else {
            match rsync_progress(lossy_text(text)) {
                Some(report) => seq![report],
                None => Seq::empty(),
            }
        }),
    decreases text.len(),
{
    let whole = (output + text).push(end);
    assert(whole.drop_last() == output + text);
    if text.len() == 0 {
        assert(output + text == output);
        assert(pending_line(output) == text);
        assert(reported(whole) =~= reported(output) + Seq::<(u64, u64)>::empty());
    } else {
        let front = text.drop_last();
        assert forall|i: int| 0 <= i < front.len() implies #[trigger] front[i] != 13 && front[i]
            != 10 by {
            assert(front[i] == text[i]);
        }
        law_lines_end_at_returns_and_feeds(output, front, end);
        assert((output + text).drop_last() == output + front);
        assert((output + text).last() == text[text.len() - 1]);
        assert(pending_line(output + text) == front.push(text.last()));
        assert(front.push(text.last()) == text);
        assert(reported(output + text) == reported(output));
        assert(pending_line(whole.drop_last()) == text);
        assert(ends_line(whole.last()));
        assert(byte_report(text, end) == rsync_progress(lossy_text(text)));
        match rsync_progress(lossy_text(text)) {
            Some(report) => {
                assert(reported(whole) =~= reported(output) + seq![report]);
            },
            None => {
                assert(reported(whole) =~= reported(output) + Seq::<(u64, u64)>::empty());
            },
        }
    }
}

} // verus!
