//! What holds of numbers and texts as they are written.

use vstd::prelude::*;

use super::{
    begins_with, contains_text, decimal_text, digits_value, first_chars, grouped, in_threes, is_blank_text, is_digits, is_space, joined,
    lemma_text_le_antisymmetric, lemma_text_le_total, lower, nat_digits, number_in, padded_text,
    same_letters, split_text, stands_at, text_le, trim_end, trim_start, trim_text, unsigned_digits, without_suffix, zeros,
};

verus! {

/// A part that is added stands at the end, behind a separator unless it is the first.
pub proof fn law_joining_adds_behind_a_separator(
    parts: Seq<Seq<char>>,
    part: Seq<char>,
    separator: Seq<char>,
)
    ensures
        joined(Seq::empty(), separator).len() == 0,
        parts.len() == 0 ==> joined(parts.push(part), separator) == part,
        parts.len() > 0 ==> joined(parts.push(part), separator) == joined(parts, separator)
            + separator + part,
{
    assert(parts.push(part).drop_last() =~= parts);
}

/// The parts between the `c`s hold no `c`, and with `c` between each two of them they make up
/// the text again.
pub proof fn law_splitting_loses_nothing(s: Seq<char>, c: char)
    ensures
        split_text(s, c).len() >= 1,
        joined(split_text(s, c), seq![c]) == s,
        forall|i: int|
            0 <= i < split_text(s, c).len() ==> !(#[trigger] split_text(s, c)[i]).contains(c),
    decreases s.len(),
{
    let parts = split_text(s, c);
    let separator = seq![c];
    if s.len() == 0 {
        assert(joined(parts, separator) =~= s);
    } else {
        let fewer = s.drop_last();
        law_splitting_loses_nothing(fewer, c);
        let before = split_text(fewer, c);
        assert(s =~= fewer.push(s.last()));
        if s.last() == c {
            law_joining_adds_behind_a_separator(before, Seq::empty(), separator);
            assert(joined(parts, separator) =~= s);
            assert forall|i: int| 0 <= i < parts.len() implies !(#[trigger] parts[i]).contains(
                c,
            ) by {
                if i < before.len() {
                    assert(parts[i] == before[i]);
                }
            }
        } else {
            let most = before.drop_last();
            assert(before =~= most.push(before.last()));
            let longer = before.last().push(s.last());
            assert(parts =~= most.push(longer));
            law_joining_adds_behind_a_separator(most, before.last(), separator);
            law_joining_adds_behind_a_separator(most, longer, separator);
            assert(joined(parts, separator) =~= s);
            assert forall|i: int| 0 <= i < parts.len() implies !(#[trigger] parts[i]).contains(
                c,
            ) by {
                assert(!before[i].contains(c));
                if i == before.len() - 1 {
                    assert(parts[i] == longer);
                    if longer.contains(c) {
                        let k = choose|k: int| 0 <= k < longer.len() && longer[k] == c;
                        assert(k < before.last().len());
                        assert(before.last()[k] == c);
                    }
                } else {
                    assert(parts[i] == before[i]);
                }
            }
        }
    }
}

/// The digits of a number are decimal digits, write that number, and begin with a zero only
/// where the number is zero.
pub proof fn law_digits_read_back(n: nat)
    ensures
        is_digits(nat_digits(n)),
        digits_value(nat_digits(n)) == n,
        n > 0 ==> nat_digits(n)[0] != '0',
    decreases n,
{
    reveal_with_fuel(digits_value, 2);
    let s = nat_digits(n);
    if n < 10 {
        assert(s.drop_last() =~= Seq::<char>::empty());
    } else {
        law_digits_read_back(n / 10);
        assert(s.drop_last() =~= nat_digits(n / 10));
        assert forall|i: int| 0 <= i < s.len() implies '0' <= #[trigger] s[i] <= '9' by {
            if i < s.len() - 1 {
                assert(s[i] == nat_digits(n / 10)[i]);
            }
        }
    }
}

/// A number is written as its digits, behind a minus sign exactly where it is negative.
pub proof fn law_numbers_are_written_in_digits(n: int)
    ensures
        n >= 0 ==> digits_value(decimal_text(n)) == n && is_digits(decimal_text(n)),
        n < 0 ==> {
            &&& decimal_text(n)[0] == '-'
            &&& is_digits(decimal_text(n).skip(1))
            &&& digits_value(decimal_text(n).skip(1)) == -n
        },
{
    if n >= 0 {
        law_digits_read_back(n as nat);
    } else {
        law_digits_read_back((-n) as nat);
        assert(decimal_text(n).skip(1) =~= nat_digits((-n) as nat));
    }
}

/// In a number that is written in groups, every fourth character from the right is a comma,
/// and no other.
pub proof fn law_commas_stand_between_threes(digits: Seq<char>, i: int)
    requires
        !digits.contains(','),
        0 <= i < in_threes(digits).len(),
    ensures
        in_threes(digits)[i] == ',' <==> (in_threes(digits).len() - i) % 4 == 0,
        digits.len() > 0 ==> in_threes(digits).len() % 4 != 0,
    decreases digits.len(),
{
    let s = in_threes(digits);
    if digits.len() <= 3 {
        assert(digits.contains(digits[i]));
    } else {
        let head = digits.take(digits.len() - 3);
        let tail = digits.skip(digits.len() - 3);
        let first = in_threes(head);
        assert(!head.contains(',')) by {
            if head.contains(',') {
                let k = choose|k: int| 0 <= k < head.len() && head[k] == ',';
                assert(digits[k] == ',');
            }
        }
        lemma_groups_not_empty(head);
        if i < first.len() {
            law_commas_stand_between_threes(head, i);
            assert(s[i] == first[i]);
        } else {
            law_commas_stand_between_threes(head, 0);
            if i > first.len() {
                let k = i - first.len() - 1;
                assert(s[i] == tail[k]);
                assert(digits.contains(digits[digits.len() - 3 + k]));
            }
        }
    }
}

proof fn lemma_groups_not_empty(digits: Seq<char>)
    requires
        digits.len() > 0,
    ensures
        in_threes(digits).len() > 0,
{
}

/// A minus sign stays before the groups.
pub proof fn law_sign_stays_before_the_groups(digits: Seq<char>)
    requires
        is_digits(digits),
    ensures
        grouped(digits) == in_threes(digits),
        grouped(seq!['-'] + digits) == seq!['-'] + in_threes(digits),
{
    assert((seq!['-'] + digits).drop_first() =~= digits);
}

pub proof fn lemma_value_not_negative(s: Seq<char>)
    requires
        is_digits(s),
    ensures
        digits_value(s) >= 0,
    decreases s.len(),
{
    reveal_with_fuel(digits_value, 2);
    let fewer = s.drop_last();
    if fewer.len() > 0 {
        assert forall|i: int| 0 <= i < fewer.len() implies '0' <= #[trigger] fewer[i] <= '9' by {
            assert(s[i] == fewer[i]);
        }
        lemma_value_not_negative(fewer);
    }
    assert('0' <= s[s.len() - 1] <= '9');
}

/// A number that is filled up has at least the width; without the zeros before them its
/// digits are those of the number, and a minus sign stands before all of them.
pub proof fn law_filled_numbers(n: int, width: int)
    requires
        0 <= n,
        0 <= width,
    ensures
        is_digits(padded_text(n, width)),
        digits_value(padded_text(n, width)) == n,
        padded_text(n, width).len() == if nat_digits(n as nat).len() < width {
            width
        } else {
            nat_digits(n as nat).len() as int
        },
        n > 0 ==> padded_text(-n, width) == seq!['-'] + padded_text(n, width - 1),
{
    let digits = nat_digits(n as nat);
    law_digits_read_back(n as nat);
    let lead = zeros(width - digits.len());
    let all = padded_text(n, width);
    lemma_leading_zeros(lead, digits);
    assert forall|i: int| 0 <= i < all.len() implies '0' <= #[trigger] all[i] <= '9' by {
        if i >= lead.len() {
            assert(all[i] == digits[i - lead.len()]);
        }
    }
    if n > 0 {
        assert(padded_text(-n, width) =~= seq!['-'] + padded_text(n, width - 1));
    }
}

proof fn lemma_leading_zeros(lead: Seq<char>, digits: Seq<char>)
    requires
        forall|i: int| 0 <= i < lead.len() ==> #[trigger] lead[i] == '0',
    ensures
        digits_value(lead + digits) == digits_value(digits),
    decreases lead.len() + digits.len(),
{
    if digits.len() > 0 {
        lemma_leading_zeros(lead, digits.drop_last());
        assert((lead + digits).drop_last() =~= lead + digits.drop_last());
    } else if lead.len() > 0 {
        let fewer = lead.drop_last();
        assert forall|i: int| 0 <= i < fewer.len() implies #[trigger] fewer[i] == '0' by {
            assert(lead[i] == '0');
        }
        lemma_leading_zeros(fewer, digits);
        assert(lead + digits =~= lead);
        assert(fewer + digits =~= fewer);
        assert(lead[lead.len() - 1] == '0');
    } else {
        assert(lead + digits =~= digits);
    }
}

proof fn lemma_trim_start(s: Seq<char>)
    ensures
        ({
            let t = trim_start(s);
            let n = s.len() - t.len();
            &&& 0 <= n
            &&& t == s.skip(n)
            &&& forall|i: int| 0 <= i < n ==> is_space(#[trigger] s[i])
            &&& t.len() > 0 ==> !is_space(t[0])
        }),
    decreases s.len(),
{
    if s.len() > 0 && is_space(s[0]) {
        let rest = s.drop_first();
        lemma_trim_start(rest);
        let n = s.len() - trim_start(s).len();
        assert(rest.skip(n - 1) =~= s.skip(n));
        assert forall|i: int| 0 <= i < n implies is_space(#[trigger] s[i]) by {
            if i > 0 {
                assert(s[i] == rest[i - 1]);
            }
        }
    } else {
        assert(s =~= s.skip(0));
    }
}

proof fn lemma_trim_end(s: Seq<char>)
    ensures
        ({
            let t = trim_end(s);
            &&& t.len() <= s.len()
            &&& t == s.take(t.len() as int)
            &&& forall|i: int| t.len() <= i < s.len() ==> is_space(#[trigger] s[i])
            &&& t.len() > 0 ==> !is_space(t.last())
        }),
    decreases s.len(),
{
    if s.len() > 0 && is_space(s.last()) {
        let rest = s.drop_last();
        lemma_trim_end(rest);
        let t = trim_end(s);
        assert(rest.take(t.len() as int) =~= s.take(t.len() as int));
        assert forall|i: int| t.len() <= i < s.len() implies is_space(#[trigger] s[i]) by {
            if i < rest.len() {
                assert(s[i] == rest[i]);
            }
        }
    } else {
        assert(s =~= s.take(s.len() as int));
    }
}

/// Trimming takes the white space before and behind a text, and nothing else: what is left
/// begins and ends with something else, unless it is empty.
pub proof fn law_trimming(s: Seq<char>) -> (parts: (Seq<char>, Seq<char>))
    ensures
        s == parts.0 + trim_text(s) + parts.1,
        is_blank_text(parts.0),
        is_blank_text(parts.1),
        trim_text(s).len() > 0 ==> !is_space(trim_text(s)[0]) && !is_space(trim_text(s).last()),
{
    lemma_trim_start(s);
    let t = trim_start(s);
    lemma_trim_end(t);
    let u = trim_text(s);
    let n = s.len() - t.len();
    let parts = (s.take(n), t.skip(u.len() as int));
    assert(s =~= parts.0 + u + parts.1);
    parts
}

/// The characters of white space are those that Unicode calls so: among them the space, the
/// tab and the line break, and no letter and no digit.
pub proof fn law_white_space(c: char)
    ensures
        is_space(' ') && is_space('\t') && is_space('\n') && is_space('\r'),
        '!' <= c <= '~' ==> !is_space(c),
{
}

/// Texts are the same but for the case of their letters: a letter and its capital are, and
/// characters that are no letters only where they are the same.
pub proof fn law_case_of_letters(a: Seq<char>, b: Seq<char>)
    ensures
        a == b ==> same_letters(a, b),
        same_letters(a, b) ==> same_letters(b, a),
        same_letters(a, b) ==> a.len() == b.len(),
        lower('A') == 'a' && lower('Z') == 'z' && lower('a') == 'a' && lower('z') == 'z',
        same_letters(a, b) && a != b ==> exists|i: int|
            0 <= i < a.len() && #[trigger] a[i] != b[i] && ('A' <= a[i] <= 'Z' || 'A' <= b[i]
                <= 'Z'),
{
    if same_letters(a, b) && a != b {
        assert(exists|i: int| 0 <= i < a.len() && #[trigger] a[i] != b[i]) by {
            if forall|i: int| 0 <= i < a.len() ==> #[trigger] a[i] == b[i] {
                assert(a =~= b);
            }
        }
        let i = choose|i: int| 0 <= i < a.len() && #[trigger] a[i] != b[i];
        assert(lower(a[i]) == lower(b[i]));
    }
}

/// An unsigned number is read where a text is made of digits, perhaps behind a plus sign, and
/// is not too large; what is read is what was written.
pub proof fn law_numbers_are_read(n: u64, s: Seq<char>)
    ensures
        number_in(nat_digits(n as nat)) == Some(n),
        number_in(seq!['+'] + nat_digits(n as nat)) == Some(n),
        number_in(s) is Some ==> is_digits(unsigned_digits(s)) && number_in(s)->0 == digits_value(
            unsigned_digits(s),
        ),
        s.len() == 0 ==> number_in(s) is None,
{
    law_digits_read_back(n as nat);
    let digits = nat_digits(n as nat);
    assert(digits[0] != '+');
    assert((seq!['+'] + digits).drop_first() =~= digits);
    if number_in(s) is Some {
        lemma_value_not_negative(unsigned_digits(s));
    }
}

/// Texts are in the order of their first different characters, and a beginning stands before
/// what it is the beginning of.
pub proof fn law_order_of_texts(a: Seq<char>, b: Seq<char>, c: char, d: char, rest: Seq<char>)
    ensures
        text_le(a, a + b),
        c < d ==> text_le(a + seq![c] + b, a + seq![d] + rest),
        c < d ==> !text_le(a + seq![d] + rest, a + seq![c] + b),
        text_le(a, b) || text_le(b, a),
        text_le(a, b) && text_le(b, a) ==> a == b,
    decreases a.len(),
{
    lemma_text_le_total(a, b);
    if text_le(a, b) && text_le(b, a) {
        lemma_text_le_antisymmetric(a, b);
    }
    if a.len() > 0 {
        let t = a.drop_first();
        law_order_of_texts(t, b, c, d, rest);
        assert((a + b).drop_first() =~= t + b);
        assert((a + seq![c] + b).drop_first() =~= t + seq![c] + b);
        assert((a + seq![d] + rest).drop_first() =~= t + seq![d] + rest);
    }
}

/// A text stands in another where that is made up of something, it and something more; and
/// only there.
pub proof fn law_standing_in_a_text(a: Seq<char>, needle: Seq<char>, b: Seq<char>, s: Seq<char>)
    ensures
        contains_text(a + needle + b, needle),
        begins_with(needle + b, needle),
        begins_with(s, needle) ==> s == needle + s.skip(needle.len() as int),
        contains_text(s, needle) ==> exists|x: Seq<char>, y: Seq<char>|
            s == #[trigger] (x + needle + y),
{
    let whole = a + needle + b;
    assert(whole.subrange(a.len() as int, a.len() as int + needle.len()) =~= needle);
    assert(stands_at(whole, needle, a.len() as int));
    assert((needle + b).take(needle.len() as int) =~= needle);
    if begins_with(s, needle) {
        assert(s =~= needle + s.skip(needle.len() as int));
    }
    if contains_text(s, needle) {
        let i = choose|i: int| stands_at(s, needle, i);
        let x = s.take(i);
        let y = s.skip(i + needle.len());
        assert(s =~= x + needle + y);
    }
}

/// The first characters of a text are its beginning, as long as asked for or all of it.
pub proof fn law_first_characters(s: Seq<char>, count: int)
    requires
        0 <= count,
    ensures
        first_chars(s, count).is_prefix_of(s),
        first_chars(s, count).len() == if s.len() < count {
            s.len() as int
        } else {
            count
        },
{
    assert(s =~= s.take(s.len() as int));
}

/// An ending is taken off, however often it stands there, and nothing else.
pub proof fn law_endings_are_taken_off(s: Seq<char>, suffix: Seq<char>)
    requires
        suffix.len() > 0,
    ensures
        without_suffix(s + suffix, suffix) == without_suffix(s, suffix),
        without_suffix(s, suffix).is_prefix_of(s),
        s.len() < suffix.len() || s.skip(s.len() - suffix.len()) != suffix ==> without_suffix(
            s,
            suffix,
        ) == s,
    decreases s.len(),
{
    let whole = s + suffix;
    assert(whole.skip(whole.len() - suffix.len()) =~= suffix);
    assert(whole.take(whole.len() - suffix.len()) =~= s);
    if suffix.len() <= s.len() && s.skip(s.len() - suffix.len()) == suffix {
        let head = s.take(s.len() - suffix.len());
        law_endings_are_taken_off(head, suffix);
        let t = without_suffix(head, suffix);
        assert(t =~= s.take(t.len() as int)) by {
            assert(t =~= head.take(t.len() as int));
        }
    } else {
        assert(s =~= s.take(s.len() as int));
    }
}

}
