//! Text as a sequence of characters: the small operations on strings that the
//! rest of the library is built from.

use vstd::prelude::*;

pub mod laws;

verus! {

/// `String::push` appends one character at the end of the string.
pub assume_specification[ String::push ](s: &mut String, c: char)
    ensures
        final(s)@ == old(s)@.push(c),
;

/// Two string slices are equal exactly when they hold the same characters
/// (`<str as PartialEq>::eq`, written as the operator `==`).
#[verifier::external_body]
pub(crate) fn same(a: &str, b: &str) -> (r: bool)
    ensures
        r == (a@ == b@),
{
    a == b
}

/// The characters of `s`, in order.
pub fn chars_of(s: &str) -> (r: Vec<char>)
    ensures
        r@ == s@,
{
    let mut out: Vec<char> = Vec::new();
    for c in it: s.chars()
        invariant
            out@ == it.seq().take(it.index() as int),
            it.seq() == s@,
    {
        out.push(c);
    }
    out
}

/// The characters of `v` from `from` up to `to` as a string.
pub fn string_of(v: &Vec<char>, from: usize, to: usize) -> (r: String)
    requires
        from <= to <= v@.len(),
    ensures
        r@ == v@.subrange(from as int, to as int),
{
    let mut out = String::new();
    let mut i: usize = from;
    while i < to
        invariant
            from <= i <= to <= v@.len(),
            out@ == v@.subrange(from as int, i as int),
        decreases to - i,
    {
        out.push(v[i]);
        proof {
            assert(v@.subrange(from as int, i as int + 1) =~= v@.subrange(from as int, i as int).push(v@[i as int]));
        }
        i = i + 1;
    }
    out
}

/// The texts one after the other.
pub fn cat2(a: &str, b: &str) -> (r: String)
    ensures
        r@ == a@ + b@,
{
    let mut s = a.to_owned();
    s.append(b);
    s
}

pub fn cat3(a: &str, b: &str, c: &str) -> (r: String)
    ensures
        r@ == a@ + b@ + c@,
{
    let mut s = cat2(a, b);
    s.append(c);
    s
}

pub fn cat4(a: &str, b: &str, c: &str, d: &str) -> (r: String)
    ensures
        r@ == a@ + b@ + c@ + d@,
{
    let mut s = cat3(a, b, c);
    s.append(d);
    s
}

pub fn cat5(a: &str, b: &str, c: &str, d: &str, e: &str) -> (r: String)
    ensures
        r@ == a@ + b@ + c@ + d@ + e@,
{
    let mut s = cat4(a, b, c, d);
    s.append(e);
    s
}

/// The decimal digit `d`.
pub open spec fn digit_char(d: int) -> char {
    (48 + d) as char
}

/// The decimal digits of `n`, without leading zeros.
pub open spec fn nat_digits(n: nat) -> Seq<char>
    decreases n,
{
    if n < 10 {
        seq![digit_char(n as int)]
    } else {
        nat_digits(n / 10).push(digit_char((n % 10) as int))
    }
}

/// `n` in decimal notation.
pub open spec fn decimal_text(n: int) -> Seq<char> {
    if n < 0 {
        seq!['-'] + nat_digits((-n) as nat)
    } else {
        nat_digits(n as nat)
    }
}

fn push_digits(out: &mut String, n: u64)
    ensures
        final(out)@ == old(out)@ + nat_digits(n as nat),
    decreases n,
{
    if n >= 10 {
        push_digits(out, n / 10);
    }
    let d: u8 = (n % 10) as u8;
    out.push((48u8 + d) as char);
    proof {
        if n >= 10 {
            assert(old(out)@ + nat_digits((n / 10) as nat).push(digit_char((n % 10) as int)) =~= (
            old(out)@ + nat_digits((n / 10) as nat)).push(digit_char((n % 10) as int)));
        } else {
            assert(old(out)@ + seq![digit_char(n as int)] =~= old(out)@.push(digit_char(n as int)));
        }
    }
}

/// The absolute value.
pub fn magnitude(n: i64) -> (r: u64)
    ensures
        r == if n < 0 { -n } else { n as int },
{
    if n < 0 {
        let m: i64 = -(n + 1);
        m as u64 + 1
    } else {
        n as u64
    }
}

/// `n` in decimal notation.
pub fn decimal(n: i64) -> (r: String)
    ensures
        r@ == decimal_text(n as int),
{
    let mut out = String::new();
    if n < 0 {
        out.push('-');
    }
    push_digits(&mut out, magnitude(n));
    proof {
        assert(Seq::<char>::empty().push('-') =~= seq!['-']);
        assert(Seq::<char>::empty() + nat_digits(n as nat) =~= nat_digits(n as nat));
    }
    out
}

/// `n` in decimal notation.
pub fn decimal_u64(n: u64) -> (r: String)
    ensures
        r@ == decimal_text(n as int),
{
    let mut out = String::new();
    push_digits(&mut out, n);
    proof {
        assert(Seq::<char>::empty() + nat_digits(n as nat) =~= nat_digits(n as nat));
    }
    out
}

/// Digits in threes, counted from the right, with commas between them.
pub open spec fn in_threes(s: Seq<char>) -> Seq<char>
    decreases s.len(),
{
    if s.len() <= 3 {
        s
    } else {
        in_threes(s.take(s.len() - 3)).push(',') + s.skip(s.len() - 3)
    }
}

/// A number that is written in digits, perhaps behind a minus sign, with its digits in
/// threes.
pub open spec fn grouped(s: Seq<char>) -> Seq<char> {
    if s.len() > 0 && s[0] == '-' {
        seq!['-'] + in_threes(s.drop_first())
    } else {
        in_threes(s)
    }
}

/// `n` in decimal notation, with its digits in threes.
pub open spec fn grouped_text(n: int) -> Seq<char> {
    grouped(decimal_text(n))
}

/// A number that is written in digits, with its digits in threes.
pub fn group_digits(s: &str) -> (r: String)
    ensures
        r@ == grouped(s@),
{
    let chars = chars_of(s);
    let negative = chars.len() > 0 && chars[0] == '-';
    let mut out = String::new();
    let mut start: usize = 0;
    if negative {
        out.push('-');
        start = 1;
    }
    let ghost sign = out@;
    let ghost digits = chars@.skip(start as int);
    proof {
        assert(negative ==> digits =~= s@.drop_first());
        assert(!negative ==> digits =~= s@);
        assert(digits.take(0) =~= Seq::<char>::empty());
        assert(sign + Seq::<char>::empty() =~= sign);
    }
    let mut i: usize = start;
    while i < chars.len()
        invariant
            start <= i <= chars@.len(),
            digits == chars@.skip(start as int),
            out@ == sign + commas_before(digits, i - start),
        decreases chars@.len() - i,
    {
        if i > start && (chars.len() - i) % 3 == 0 {
            out.push(',');
        }
        out.push(chars[i]);
        proof {
            assert(digits[i - start] == chars@[i as int]);
            assert(out@ =~= sign + commas_before(digits, i - start + 1));
        }
        i = i + 1;
    }
    proof {
        lemma_in_threes(digits, digits.len() as int);
        assert(digits.take(digits.len() as int) =~= digits);
        assert(negative ==> sign =~= seq!['-']);
        assert(!negative ==> sign + in_threes(digits) =~= in_threes(digits));
    }
    out
}

/// The first digits, each that begins a group of three behind a comma.
spec fn commas_before(digits: Seq<char>, count: int) -> Seq<char>
    decreases count,
{
    if count <= 0 {
        Seq::empty()
    } else {
        let before = commas_before(digits, count - 1);
        let at = count - 1;
        if at > 0 && (digits.len() - at) % 3 == 0 {
            before.push(',').push(digits[at])
        } else {
            before.push(digits[at])
        }
    }
}

/// Digits that end where a group ends are in threes.
proof fn lemma_in_threes(digits: Seq<char>, count: int)
    requires
        0 <= count <= digits.len(),
        (digits.len() - count) % 3 == 0,
    ensures
        commas_before(digits, count) == in_threes(digits.take(count)),
    decreases count,
{
    let s = digits.take(count);
    if count <= 3 {
        reveal_with_fuel(commas_before, 4);
        assert(commas_before(digits, count) =~= s);
    } else {
        lemma_in_threes(digits, count - 3);
        assert(s.take(count - 3) =~= digits.take(count - 3));
        reveal_with_fuel(commas_before, 4);
        assert(commas_before(digits, count) =~= commas_before(digits, count - 3).push(',').push(
            digits[count - 3],
        ).push(digits[count - 2]).push(digits[count - 1]));
        assert(commas_before(digits, count) =~= in_threes(s));
    }
}

/// The text without its commas.
pub open spec fn without_commas(s: Seq<char>) -> Seq<char> {
    s.filter(|c: char| c != ',')
}

/// Grouping adds commas and nothing else: without them the digits stand as they were.
pub proof fn law_grouping_adds_commas(s: Seq<char>)
    requires
        !s.contains(','),
    ensures
        without_commas(in_threes(s)) == s,
    decreases s.len(),
{
    let keep = |c: char| c != ',';
    if s.len() <= 3 {
        lemma_no_commas(s);
    } else {
        let head = s.take(s.len() - 3);
        let tail = s.skip(s.len() - 3);
        assert(!head.contains(',')) by {
            if head.contains(',') {
                let k = choose|k: int| 0 <= k < head.len() && head[k] == ',';
                assert(s[k] == ',');
            }
        }
        assert(!tail.contains(',')) by {
            if tail.contains(',') {
                let k = choose|k: int| 0 <= k < tail.len() && tail[k] == ',';
                assert(s[s.len() - 3 + k] == ',');
            }
        }
        law_grouping_adds_commas(head);
        lemma_no_commas(tail);
        Seq::filter_distributes_over_add(in_threes(head).push(','), tail, keep);
        Seq::filter_distributes_over_add(in_threes(head), seq![','], keep);
        assert(in_threes(head).push(',') =~= in_threes(head) + seq![',']);
        assert(seq![','].filter(keep) =~= Seq::<char>::empty()) by {
            reveal_with_fuel(Seq::filter, 2);
            assert(seq![','].last() == ',');
            assert(seq![','].drop_last() =~= Seq::<char>::empty());
        }
        assert(head + tail =~= s);
        assert(without_commas(in_threes(s)) =~= s);
    }
}

proof fn lemma_no_commas(s: Seq<char>)
    requires
        !s.contains(','),
    ensures
        without_commas(s) == s,
    decreases s.len(),
{
    reveal(Seq::filter);
    if s.len() > 0 {
        let rest = s.drop_last();
        assert(!rest.contains(',')) by {
            if rest.contains(',') {
                let k = choose|k: int| 0 <= k < rest.len() && rest[k] == ',';
                assert(s[k] == ',');
            }
        }
        assert(s[s.len() - 1] != ',');
        lemma_no_commas(rest);
        assert(rest.push(s.last()) =~= s);
    } else {
        assert(without_commas(s) =~= s);
    }
}

/// `n` in decimal notation, with its digits in threes.
pub fn decimal_grouped(n: i64) -> (r: String)
    ensures
        r@ == grouped_text(n as int),
{
    group_digits(decimal(n).as_str())
}

/// `count` zeros.
pub open spec fn zeros(count: int) -> Seq<char> {
    Seq::new(
        if count < 0 {
            0
        } else {
            count as nat
        },
        |i: int| '0',
    )
}

/// `n` in decimal notation, filled up with zeros behind the sign to `width`
/// characters.
pub open spec fn padded_text(n: int, width: int) -> Seq<char> {
    if n < 0 {
        let digits = nat_digits((-n) as nat);
        seq!['-'] + zeros(width - 1 - digits.len()) + digits
    } else {
        let digits = nat_digits(n as nat);
        zeros(width - digits.len()) + digits
    }
}

/// `n` in decimal notation, filled up with zeros behind the sign to `width`
/// characters.
pub fn padded(n: i64, width: usize) -> (r: String)
    ensures
        r@ == padded_text(n as int, width as int),
{
    let digits = decimal_u64(magnitude(n));
    let len: usize = digits.as_str().unicode_len();
    let mut out = String::new();
    let mut used: usize = len;
    let ghost mut lead = Seq::<char>::empty();
    if n < 0 {
        out.push('-');
        proof {
            lead = seq!['-'];
            assert(out@ =~= lead);
        }
        if width == 0 {
            out.append(digits.as_str());
            proof {
                assert(lead + zeros(-1 - digits@.len()) =~= lead);
            }
            return out;
        }
    }
    let target: usize = if n < 0 { width - 1 } else { width };
    while used < target
        invariant
            used >= len,
            len == digits@.len(),
            used <= target || used == len,
            out@ == lead + zeros(used - len),
        decreases target - used,
    {
        out.push('0');
        proof {
            assert((lead + zeros(used - len)).push('0') =~= lead + zeros(used + 1 - len));
        }
        used = used + 1;
    }
    out.append(digits.as_str());
    proof {
        assert(zeros(used - len) =~= zeros(target - len));
        assert(Seq::<char>::empty() + zeros(used - len) =~= zeros(used - len));
    }
    out
}

/// `count` spaces.
pub open spec fn spaces(count: int) -> Seq<char> {
    Seq::new(
        if count < 0 {
            0
        } else {
            count as nat
        },
        |i: int| ' ',
    )
}

/// The text, filled up with spaces behind it to `width` characters.
pub open spec fn filled_text(s: Seq<char>, width: int) -> Seq<char> {
    s + spaces(width - s.len())
}

/// The text, filled up with spaces behind it to `width` characters.
pub fn filled(s: &str, width: usize) -> (r: String)
    ensures
        r@ == filled_text(s@, width as int),
{
    let len: usize = s.unicode_len();
    let mut out = s.to_owned();
    let mut used: usize = len;
    proof {
        assert(out@ =~= s@ + spaces(0));
    }
    while used < width
        invariant
            len == s@.len(),
            len <= used,
            used <= width || used == len,
            out@ == s@ + spaces(used - len),
        decreases width - used,
    {
        out.push(' ');
        proof {
            assert((s@ + spaces(used - len)).push(' ') =~= s@ + spaces(used + 1 - len));
        }
        used = used + 1;
    }
    proof {
        assert(spaces(used - len) =~= spaces(width - len));
    }
    out
}

/// The first `count` characters, or all where there are fewer.
pub open spec fn first_chars(s: Seq<char>, count: int) -> Seq<char> {
    if s.len() <= count {
        s
    } else {
        s.take(count)
    }
}

/// The first `count` characters of `s`, or all of it where there are fewer.
pub fn take(s: &str, count: usize) -> (r: String)
    ensures
        r@ == first_chars(s@, count as int),
{
    let len: usize = s.unicode_len();
    if len <= count {
        s.to_owned()
    } else {
        s.substring_char(0, count).to_owned()
    }
}

/// The texts one after the other, `separator` between each two.
pub open spec fn joined(parts: Seq<Seq<char>>, separator: Seq<char>) -> Seq<char>
    decreases parts.len(),
{
    if parts.len() == 0 {
        Seq::empty()
    } else if parts.len() == 1 {
        parts[0]
    } else {
        joined(parts.drop_last(), separator) + separator + parts.last()
    }
}

/// The texts one after the other, `separator` between each two.
pub fn join(parts: &Vec<String>, separator: &str) -> (r: String)
    ensures
        r@ == joined(parts.deep_view(), separator@),
{
    if parts.len() == 0 {
        return String::new();
    }
    let ghost all = parts.deep_view();
    let mut out = parts[0].clone();
    let mut i: usize = 1;
    proof {
        assert(all.take(1)[0] == out@);
    }
    while i < parts.len()
        invariant
            1 <= i <= parts@.len(),
            all == parts.deep_view(),
            out@ == joined(all.take(i as int), separator@),
        decreases parts@.len() - i,
    {
        proof {
            assert(all.take(i as int + 1).drop_last() =~= all.take(i as int));
            assert(all.take(i as int + 1).last() == parts@[i as int]@);
        }
        out.append(separator);
        out.append(parts[i].as_str());
        i = i + 1;
    }
    proof {
        assert(all.take(all.len() as int) =~= all);
    }
    out
}

/// The order of texts: by the first character in which they differ, a text before
/// every longer one that it begins.
pub open spec fn text_le(a: Seq<char>, b: Seq<char>) -> bool
    decreases a.len(),
{
    if a.len() == 0 {
        true
    } else if b.len() == 0 {
        false
    } else if a[0] != b[0] {
        a[0] < b[0]
    } else {
        text_le(a.drop_first(), b.drop_first())
    }
}

/// Whether `a` stands before `b` or is the same text.
pub fn at_most(a: &str, b: &str) -> (r: bool)
    ensures
        r == text_le(a@, b@),
{
    let x = chars_of(a);
    let y = chars_of(b);
    let mut i: usize = 0;
    proof {
        assert(x@.skip(0) =~= x@);
        assert(y@.skip(0) =~= y@);
    }
    while i < x.len() && i < y.len()
        invariant
            i <= x@.len(),
            i <= y@.len(),
            x@ == a@,
            y@ == b@,
            text_le(x@, y@) == text_le(x@.skip(i as int), y@.skip(i as int)),
        decreases x@.len() - i,
    {
        if x[i] != y[i] {
            return x[i] < y[i];
        }
        proof {
            assert(x@.skip(i as int).drop_first() =~= x@.skip(i as int + 1));
            assert(y@.skip(i as int).drop_first() =~= y@.skip(i as int + 1));
        }
        i = i + 1;
    }
    i >= x.len()
}

pub proof fn lemma_text_le_total(a: Seq<char>, b: Seq<char>)
    ensures
        text_le(a, b) || text_le(b, a),
    decreases a.len(),
{
    if a.len() > 0 && b.len() > 0 && a[0] == b[0] {
        lemma_text_le_total(a.drop_first(), b.drop_first());
    }
}

pub proof fn lemma_text_le_transitive(a: Seq<char>, b: Seq<char>, c: Seq<char>)
    requires
        text_le(a, b),
        text_le(b, c),
    ensures
        text_le(a, c),
    decreases a.len(),
{
    if a.len() > 0 && a[0] == b[0] && b[0] == c[0] {
        lemma_text_le_transitive(a.drop_first(), b.drop_first(), c.drop_first());
    }
}

pub proof fn lemma_text_le_antisymmetric(a: Seq<char>, b: Seq<char>)
    requires
        text_le(a, b),
        text_le(b, a),
    ensures
        a == b,
    decreases a.len(),
{
    if a.len() > 0 && b.len() > 0 {
        lemma_text_le_antisymmetric(a.drop_first(), b.drop_first());
        assert(a =~= seq![a[0]] + a.drop_first());
        assert(b =~= seq![b[0]] + b.drop_first());
    } else {
        assert(a =~= b);
    }
}

/// The index of the first `c` in `s`, or the length of `s`.
pub open spec fn index_of_char(s: Seq<char>, c: char) -> int
    decreases s.len(),
{
    if s.len() == 0 || s[0] == c {
        0
    } else {
        1 + index_of_char(s.drop_first(), c)
    }
}

pub proof fn lemma_index_of_char(s: Seq<char>, c: char)
    ensures
        0 <= index_of_char(s, c) <= s.len(),
        index_of_char(s, c) < s.len() ==> s[index_of_char(s, c)] == c,
        forall|i: int| 0 <= i < index_of_char(s, c) ==> s[i] != c,
    decreases s.len(),
{
    if s.len() > 0 && s[0] != c {
        lemma_index_of_char(s.drop_first(), c);
        assert forall|i: int| 0 <= i < index_of_char(s, c) implies s[i] != c by {
            if i > 0 {
                assert(s[i] == s.drop_first()[i - 1]);
            }
        }
    }
}

/// The index of the first `c` among the characters, or their number.
pub fn find_char(s: &Vec<char>, c: char) -> (r: usize)
    ensures
        r == index_of_char(s@, c),
        r <= s@.len(),
{
    let mut i: usize = 0;
    proof {
        assert(s@.skip(0) =~= s@);
    }
    while i < s.len()
        invariant
            i <= s@.len(),
            index_of_char(s@, c) == i + index_of_char(s@.skip(i as int), c),
        decreases s@.len() - i,
    {
        if s[i] == c {
            return i;
        }
        proof {
            assert(s@.skip(i as int).drop_first() =~= s@.skip(i as int + 1));
        }
        i = i + 1;
    }
    i
}

/// Whether the character is white space, as Unicode has it.
pub open spec fn is_space(c: char) -> bool {
    let n = c as int;
    ||| 0x9 <= n <= 0xd
    ||| n == 0x20
    ||| n == 0x85
    ||| n == 0xa0
    ||| n == 0x1680
    ||| 0x2000 <= n <= 0x200a
    ||| n == 0x2028
    ||| n == 0x2029
    ||| n == 0x202f
    ||| n == 0x205f
    ||| n == 0x3000
}

/// Whether the character is white space, as Unicode has it.
pub fn space(c: char) -> (r: bool)
    ensures
        r == is_space(c),
{
    let n: u32 = c as u32;
    (0x9 <= n && n <= 0xd) || n == 0x20 || n == 0x85 || n == 0xa0 || n == 0x1680 || (0x2000 <= n
        && n <= 0x200a) || n == 0x2028 || n == 0x2029 || n == 0x202f || n == 0x205f || n == 0x3000
}

/// Whether the text is white space all through.
pub open spec fn is_blank_text(s: Seq<char>) -> bool {
    forall|i: int| 0 <= i < s.len() ==> is_space(#[trigger] s[i])
}

/// Whether the text is white space all through.
pub fn is_blank(s: &str) -> (r: bool)
    ensures
        r == is_blank_text(s@),
{
    let chars = chars_of(s);
    let mut i: usize = 0;
    while i < chars.len()
        invariant
            i <= chars@.len(),
            chars@ == s@,
            forall|j: int| 0 <= j < i ==> is_space(#[trigger] chars@[j]),
        decreases chars@.len() - i,
    {
        if !space(chars[i]) {
            return false;
        }
        i = i + 1;
    }
    true
}

/// The text from its first character on that is not white space.
pub open spec fn trim_start(s: Seq<char>) -> Seq<char>
    decreases s.len(),
{
    if s.len() > 0 && is_space(s[0]) {
        trim_start(s.drop_first())
    } else {
        s
    }
}

/// The text up to its last character that is not white space.
pub open spec fn trim_end(s: Seq<char>) -> Seq<char>
    decreases s.len(),
{
    if s.len() > 0 && is_space(s.last()) {
        trim_end(s.drop_last())
    } else {
        s
    }
}

/// The text without the white space around it.
pub open spec fn trim_text(s: Seq<char>) -> Seq<char> {
    trim_end(trim_start(s))
}

/// The text without the white space around it.
pub fn trim(s: &str) -> (r: String)
    ensures
        r@ == trim_text(s@),
{
    let chars = chars_of(s);
    let mut from: usize = 0;
    let mut to: usize = chars.len();
    let ghost all = chars@;
    proof {
        assert(all.skip(0) =~= all);
    }
    while from < to && space(chars[from])
        invariant
            from <= to == chars@.len(),
            all == chars@,
            trim_start(all) == trim_start(all.skip(from as int)),
        decreases to - from,
    {
        proof {
            assert(all.skip(from as int).drop_first() =~= all.skip(from as int + 1));
        }
        from = from + 1;
    }
    let ghost rest = all.skip(from as int);
    proof {
        assert(trim_start(all) == rest);
        assert(all.subrange(from as int, to as int) =~= rest);
    }
    while to > from && space(chars[to - 1])
        invariant
            from <= to <= chars@.len(),
            all == chars@,
            rest == all.skip(from as int),
            trim_end(rest) == trim_end(all.subrange(from as int, to as int)),
        decreases to - from,
    {
        proof {
            assert(all.subrange(from as int, to as int).drop_last() =~= all.subrange(
                from as int,
                to as int - 1,
            ));
        }
        to = to - 1;
    }
    string_of(&chars, from, to)
}

/// Whether `s` begins with `prefix`.
pub open spec fn begins_with(s: Seq<char>, prefix: Seq<char>) -> bool {
    prefix.len() <= s.len() && s.take(prefix.len() as int) == prefix
}

/// What follows `prefix`, if `s` begins with it.
pub fn strip_prefix(s: &str, prefix: &str) -> (r: Option<String>)
    ensures
        begins_with(s@, prefix@) ==> r.deep_view() == Some(s@.skip(prefix@.len() as int)),
        !begins_with(s@, prefix@) ==> r is None,
{
    let n: usize = prefix.unicode_len();
    let len: usize = s.unicode_len();
    if n <= len {
        let head = s.substring_char(0, n);
        proof {
            assert(s@.subrange(0, n as int) =~= s@.take(n as int));
            assert(s@.subrange(n as int, len as int) =~= s@.skip(n as int));
        }
        if same(head, prefix) {
            return Some(s.substring_char(n, len).to_owned());
        }
    }
    None
}

/// The text without `suffix` at its end, however often it stands there.
pub open spec fn without_suffix(s: Seq<char>, suffix: Seq<char>) -> Seq<char>
    decreases s.len(),
{
    if 0 < suffix.len() <= s.len() && s.skip(s.len() - suffix.len()) == suffix {
        without_suffix(s.take(s.len() - suffix.len()), suffix)
    } else {
        s
    }
}

/// The text without `suffix` at its end, however often it stands there.
pub fn trim_end_matches(s: &str, suffix: &str) -> (r: String)
    ensures
        r@ == without_suffix(s@, suffix@),
{
    let n: usize = suffix.unicode_len();
    let mut len: usize = s.unicode_len();
    let mut cut = false;
    proof {
        assert(s@.take(len as int) =~= s@);
    }
    while 0 < n && n <= len && !cut
        invariant
            len <= s@.len(),
            n == suffix@.len(),
            without_suffix(s@, suffix@) == without_suffix(s@.take(len as int), suffix@),
            cut ==> without_suffix(s@.take(len as int), suffix@) == s@.take(len as int),
        decreases len, (if cut { 0int } else { 1int }),
    {
        let ghost now = s@.take(len as int);
        proof {
            assert(now.skip(now.len() - n) =~= s@.subrange(len - n, len as int));
            assert(now.take(now.len() - n) =~= s@.take(len - n));
        }
        if same(s.substring_char(len - n, len), suffix) {
            len = len - n;
        } else {
            cut = true;
        }
    }
    proof {
        assert(s@.subrange(0, len as int) =~= s@.take(len as int));
    }
    s.substring_char(0, len).to_owned()
}

/// The parts of `s` between the `c`s.
pub open spec fn split_text(s: Seq<char>, c: char) -> Seq<Seq<char>>
    decreases s.len(),
{
    if s.len() == 0 {
        seq![Seq::empty()]
    } else {
        let before = split_text(s.drop_last(), c);
        if s.last() == c {
            before.push(Seq::empty())
        } else {
            before.update(before.len() - 1, before.last().push(s.last()))
        }
    }
}

pub proof fn lemma_split_text(s: Seq<char>, c: char)
    ensures
        split_text(s, c).len() >= 1,
    decreases s.len(),
{
    if s.len() > 0 {
        lemma_split_text(s.drop_last(), c);
    }
}

/// The parts of `s` between the `c`s.
pub fn split(s: &str, c: char) -> (r: Vec<String>)
    ensures
        r.deep_view() == split_text(s@, c),
        r@.len() >= 1,
{
    let chars = chars_of(s);
    let ghost all = chars@;
    let mut done: Vec<String> = Vec::new();
    let mut part = String::new();
    let mut i: usize = 0;
    proof {
        assert(all.take(0) =~= Seq::<char>::empty());
        assert(done.deep_view().push(part@) =~= split_text(all.take(0), c));
    }
    while i < chars.len()
        invariant
            i <= chars@.len(),
            all == chars@,
            done.deep_view().push(part@) == split_text(all.take(i as int), c),
        decreases chars@.len() - i,
    {
        let ghost before = done.deep_view();
        let ghost last = part@;
        proof {
            assert(all.take(i as int + 1).drop_last() =~= all.take(i as int));
            assert(all.take(i as int + 1).last() == chars@[i as int]);
        }
        if chars[i] == c {
            done.push(part);
            part = String::new();
            proof {
                assert(done.deep_view() =~= before.push(last));
            }
        } else {
            part.push(chars[i]);
            proof {
                assert(before.push(last).update(before.len() as int, last.push(chars@[i as int]))
                    =~= before.push(part@));
            }
        }
        i = i + 1;
    }
    let ghost before = done.deep_view();
    done.push(part);
    proof {
        assert(all.take(all.len() as int) =~= all);
        assert(done.deep_view() =~= before.push(part@));
    }
    done
}

/// Whether `needle` stands in `s` at `i`.
pub open spec fn stands_at(s: Seq<char>, needle: Seq<char>, i: int) -> bool {
    0 <= i && i + needle.len() <= s.len() && s.subrange(i, i + needle.len()) == needle
}

/// Whether `needle` stands somewhere in `s`.
pub open spec fn contains_text(s: Seq<char>, needle: Seq<char>) -> bool {
    exists|i: int| stands_at(s, needle, i)
}

/// Whether `needle` stands somewhere in `s`.
pub fn contains(s: &str, needle: &str) -> (r: bool)
    ensures
        r == contains_text(s@, needle@),
{
    let len: usize = s.unicode_len();
    let n: usize = needle.unicode_len();
    if n > len {
        assert(forall|i: int| !stands_at(s@, needle@, i));
        return false;
    }
    if n == 0 {
        assert(s@.subrange(0, 0) =~= needle@);
        assert(stands_at(s@, needle@, 0));
        return true;
    }
    let mut i: usize = 0;
    while i <= len - n
        invariant
            0 < n <= len,
            i <= len - n + 1,
            len == s@.len(),
            n == needle@.len(),
            forall|j: int| 0 <= j < i ==> !stands_at(s@, needle@, j),
        decreases len - n + 1 - i,
    {
        if same(s.substring_char(i, i + n), needle) {
            assert(stands_at(s@, needle@, i as int));
            return true;
        }
        i = i + 1;
    }
    false
}

/// The number that decimal digits write.
pub open spec fn digits_value(s: Seq<char>) -> int
    decreases s.len(),
{
    if s.len() == 0 {
        0
    } else {
        10 * digits_value(s.drop_last()) + (s.last() as int - 48)
    }
}

/// Whether the text is made of decimal digits, at least one.
pub open spec fn is_digits(s: Seq<char>) -> bool {
    s.len() > 0 && forall|i: int| 0 <= i < s.len() ==> '0' <= #[trigger] s[i] <= '9'
}

/// The digits of an unsigned number: a plus sign may stand before them.
pub open spec fn unsigned_digits(s: Seq<char>) -> Seq<char> {
    if s.len() > 0 && s[0] == '+' {
        s.drop_first()
    } else {
        s
    }
}

/// The unsigned number of 64 bits that a text writes.
pub open spec fn number_in(s: Seq<char>) -> Option<u64> {
    let digits = unsigned_digits(s);
    if is_digits(digits) && digits_value(digits) <= u64::MAX {
        Some(digits_value(digits) as u64)
    } else {
        None
    }
}

proof fn lemma_digits_grow(s: Seq<char>, i: int)
    requires
        is_digits(s),
        0 <= i <= s.len(),
    ensures
        0 <= digits_value(s.take(i)) <= digits_value(s),
    decreases s.len() - i,
{
    if i == s.len() {
        assert(s.take(i) =~= s);
        lemma_digits_not_negative(s, i);
    } else {
        lemma_digits_grow(s, i + 1);
        lemma_digits_not_negative(s, i);
        assert(s.take(i + 1).drop_last() =~= s.take(i));
        assert(s.take(i + 1).last() == s[i]);
    }
}

proof fn lemma_digits_not_negative(s: Seq<char>, i: int)
    requires
        is_digits(s),
        0 <= i <= s.len(),
    ensures
        0 <= digits_value(s.take(i)),
    decreases i,
{
    if i > 0 {
        lemma_digits_not_negative(s, i - 1);
        assert(s.take(i).drop_last() =~= s.take(i - 1));
        assert(s.take(i).last() == s[i - 1]);
    }
}

/// The unsigned number of 64 bits that a text writes.
pub fn read_u64(s: &str) -> (r: Option<u64>)
    ensures
        r == number_in(s@),
{
    let chars = chars_of(s);
    let start: usize = if chars.len() > 0 && chars[0] == '+' {
        1
    } else {
        0
    };
    let ghost digits = unsigned_digits(s@);
    proof {
        assert(digits =~= chars@.skip(start as int));
        assert(digits.take(0).len() == 0);
    }
    if start == chars.len() {
        return None;
    }
    let mut value: u64 = 0;
    let mut i: usize = start;
    while i < chars.len()
        invariant
            start <= i <= chars@.len(),
            digits == unsigned_digits(s@),
            digits == chars@.skip(start as int),
            digits.len() > 0,
            value == digits_value(digits.take(i - start)),
            forall|j: int| 0 <= j < i - start ==> '0' <= #[trigger] digits[j] <= '9',
        decreases chars@.len() - i,
    {
        let c = chars[i];
        proof {
            assert(c == digits[i - start]);
            assert(digits.take(i - start + 1).drop_last() =~= digits.take(i - start));
            assert(digits.take(i - start + 1).last() == c);
        }
        if c < '0' || c > '9' {
            return None;
        }
        let digit: u64 = c as u64 - 48;
        proof {
            if is_digits(digits) {
                lemma_digits_grow(digits, i - start + 1);
            }
        }
        if value > (u64::MAX - digit) / 10 {
            return None;
        }
        value = value * 10 + digit;
        i = i + 1;
    }
    proof {
        assert(digits.take(digits.len() as int) =~= digits);
    }
    Some(value)
}

/// A letter of the ASCII alphabet in lower case; any other character as it is.
pub open spec fn lower(c: char) -> char {
    if 'A' <= c <= 'Z' {
        ((c as u8) + 32) as char
    } else {
        c
    }
}

fn lower_char(c: char) -> (r: char)
    ensures
        r == lower(c),
{
    if 'A' <= c && c <= 'Z' {
        ((c as u8) + 32) as char
    } else {
        c
    }
}

/// Whether two texts are the same but for the case of their ASCII letters.
pub open spec fn same_letters(a: Seq<char>, b: Seq<char>) -> bool {
    a.len() == b.len() && forall|i: int|
        0 <= i < a.len() ==> lower(#[trigger] a[i]) == lower(b[i])
}

/// Whether two texts are the same but for the case of their ASCII letters.
pub fn same_ignoring_case(a: &str, b: &str) -> (r: bool)
    ensures
        r == same_letters(a@, b@),
{
    let x = chars_of(a);
    let y = chars_of(b);
    if x.len() != y.len() {
        return false;
    }
    let mut i: usize = 0;
    while i < x.len()
        invariant
            i <= x@.len(),
            x@ == a@,
            y@ == b@,
            x@.len() == y@.len(),
            forall|j: int| 0 <= j < i ==> lower(#[trigger] a@[j]) == lower(b@[j]),
        decreases x@.len() - i,
    {
        if lower_char(x[i]) != lower_char(y[i]) {
            assert(lower(a@[i as int]) != lower(b@[i as int]));
            return false;
        }
        i = i + 1;
    }
    true
}

}
