//! Text: white space, words, fields, and decimal numbers.
use vstd::prelude::*;
use vstd::string::*;

verus! {

/// The code points with Unicode's `White_Space` property.
pub open spec fn is_white_space(c: char) -> bool {
    let p = c as int;
    ||| 0x09 <= p <= 0x0d
    ||| p == 0x20
    ||| p == 0x85
    ||| p == 0xa0
    ||| p == 0x1680
    ||| 0x2000 <= p <= 0x200a
    ||| p == 0x2028
    ||| p == 0x2029
    ||| p == 0x202f
    ||| p == 0x205f
    ||| p == 0x3000
}

/// `s` without the white space at its end.
pub open spec fn without_trailing_space(s: Seq<char>) -> Seq<char>
    decreases s.len(),
{
    if s.len() > 0 && is_white_space(s.last()) {
        without_trailing_space(s.drop_last())
    } else {
        s
    }
}

/// `s` without the white space at its start.
pub open spec fn without_leading_space(s: Seq<char>) -> Seq<char>
    decreases s.len(),
{
    if s.len() > 0 && is_white_space(s[0]) {
        without_leading_space(s.drop_first())
    } else {
        s
    }
}

/// The longest prefix of `s` that holds no white space.
pub open spec fn leading_word(s: Seq<char>) -> Seq<char>
    decreases s.len(),
{
    if s.len() == 0 || is_white_space(s[0]) {
        Seq::empty()
    } else {
        seq![s[0]] + leading_word(s.drop_first())
    }
}

/// The first of the words that white space separates in `s`, if there is one.
pub open spec fn first_word_of(s: Seq<char>) -> Option<Seq<char>> {
    let t = without_leading_space(s);
    if t.len() == 0 {
        None
    } else {
        Some(leading_word(t))
    }
}

/// What stands in `s` behind its last `sep`; all of `s` where it holds none.
pub open spec fn last_field_of(s: Seq<char>, sep: char) -> Seq<char>
    decreases s.len(),
{
    if s.len() == 0 || s.last() == sep {
        Seq::empty()
    } else {
        last_field_of(s.drop_last(), sep).push(s.last())
    }
}

/// `part` stands somewhere in `s`, in one piece.
pub open spec fn occurs_in(part: Seq<char>, s: Seq<char>) -> bool {
    exists|i: int|
        0 <= i <= s.len() - part.len() && #[trigger] s.subrange(i, i + part.len()) == part
}

/// The character that writes the digit `d`.
pub open spec fn digit_char(d: nat) -> char {
    (48 + d) as char
}

/// `n` in decimal, without leading zeros.
pub open spec fn decimal_of(n: nat) -> Seq<char>
    decreases n,
{
    if n < 10 {
        seq![digit_char(n)]
    } else {
        decimal_of(n / 10).push(digit_char(n % 10))
    }
}

/// `c` is one of the ten ASCII digits.
pub open spec fn is_digit(c: char) -> bool {
    48 <= c as int <= 57
}

/// Every character of `s` is an ASCII digit.
pub open spec fn all_digits(s: Seq<char>) -> bool {
    forall|i: int| 0 <= i < s.len() ==> is_digit(#[trigger] s[i])
}

/// The number that the digits `s` write in decimal.
pub open spec fn digits_value(s: Seq<char>) -> nat
    decreases s.len(),
{
    if s.len() == 0 {
        0
    } else {
        10 * digits_value(s.drop_last()) + (s.last() as int - 48) as nat
    }
}

/// `s` without a plus sign at its start.
pub open spec fn unsigned_part(s: Seq<char>) -> Seq<char> {
    if s.len() > 0 && s[0] == '+' {
        s.drop_first()
    } else {
        s
    }
}

/// The count that `s` writes: one decimal digit or more, behind at most one plus sign, with a
/// value that a `usize` holds.
pub open spec fn count_of(s: Seq<char>) -> Option<usize> {
    let digits = unsigned_part(s);
    if digits.len() > 0 && all_digits(digits) && digits_value(digits) <= usize::MAX {
        Some(digits_value(digits) as usize)
    } else {
        None
    }
}

/// Tells whether `c` is white space.
pub fn is_space(c: char) -> (yes: bool)
    ensures
        yes == is_white_space(c),
{
    let p: u32 = c as u32;
    (0x09 <= p && p <= 0x0d) || p == 0x20 || p == 0x85 || p == 0xa0 || p == 0x1680 || (0x2000 <= p
        && p <= 0x200a) || p == 0x2028 || p == 0x2029 || p == 0x202f || p == 0x205f || p == 0x3000
}

/// The characters of `s`.
pub fn chars_of(s: &str) -> (chars: Vec<char>)
    ensures
        chars@ == s@,
{
    let mut chars: Vec<char> = Vec::new();
    for c in it: s.chars()
        invariant
            it.seq() == s@,
            chars@ == s@.take(it.index() as int),
    {
        chars.push(c);
    }
    assert(s@.take(s@.len() as int) == s@);
    chars
}

/// `s` without the white space at its end.
pub fn trim_end(s: &str) -> (kept: &str)
    ensures
        kept@ == without_trailing_space(s@),
{
    let chars: Vec<char> = chars_of(s);
    let mut end: usize = chars.len();
    assert(s@.take(end as int) == s@);
    while end > 0 && is_space(chars[end - 1])
        invariant
            end <= chars.len(),
            chars@ == s@,
            without_trailing_space(s@) == without_trailing_space(s@.take(end as int)),
        decreases end,
    {
        assert(s@.take(end as int).drop_last() == s@.take(end - 1));
        end = end - 1;
    }
    assert(s@.take(end as int) == s@.subrange(0, end as int));
    s.substring_char(0, end)
}

/// The first of the words that white space separates in `s`, if there is one.
pub fn first_word(s: &str) -> (word: Option<String>)
    ensures
        word is Some <==> first_word_of(s@) is Some,
        word is Some ==> word->0@ == first_word_of(s@)->0,
{
    let chars: Vec<char> = chars_of(s);
    let mut start: usize = 0;
    assert(s@.skip(0) == s@);
    while start < chars.len() && is_space(chars[start])
        invariant
            start <= chars.len(),
            chars@ == s@,
            without_leading_space(s@) == without_leading_space(s@.skip(start as int)),
        decreases chars.len() - start,
    {
        assert(s@.skip(start as int).drop_first() == s@.skip(start + 1));
        start = start + 1;
    }
    if start == chars.len() {
        return None;
    }
    let ghost tail = s@.skip(start as int);
    let mut end: usize = start;
    assert(s@.subrange(start as int, end as int) + leading_word(tail) == leading_word(tail));
    while end < chars.len() && !is_space(chars[end])
        invariant
            start <= end <= chars.len(),
            chars@ == s@,
            leading_word(tail) == s@.subrange(start as int, end as int) + leading_word(
                s@.skip(end as int),
            ),
        decreases chars.len() - end,
    {
        assert(s@.skip(end as int).drop_first() == s@.skip(end + 1));
        assert(s@.subrange(start as int, end + 1) + leading_word(s@.skip(end + 1)) == s@.subrange(
            start as int,
            end as int,
        ) + (seq![s@[end as int]] + leading_word(s@.skip(end + 1))));
        end = end + 1;
    }
    assert(leading_word(s@.skip(end as int)) == Seq::<char>::empty());
    assert(leading_word(tail) == s@.subrange(start as int, end as int));
    Some(String::from_str(s.substring_char(start, end)))
}

/// Tells whether `s` begins with `head`.
pub fn begins_with(s: &str, head: &str) -> (yes: bool)
    ensures
        yes == head@.is_prefix_of(s@),
{
    let chars: Vec<char> = chars_of(s);
    let wanted: Vec<char> = chars_of(head);
    if wanted.len() > chars.len() {
        return false;
    }
    matches_at(&chars, &wanted, 0)
}

/// Tells whether `wanted` stands in `chars` at `from`.
fn matches_at(chars: &Vec<char>, wanted: &Vec<char>, from: usize) -> (yes: bool)
    requires
        from + wanted.len() <= chars.len(),
    ensures
        yes == (chars@.subrange(from as int, from + wanted.len()) == wanted@),
{
    let ghost here = chars@.subrange(from as int, from + wanted.len());
    let mut i: usize = 0;
    while i < wanted.len()
        invariant
            i <= wanted.len(),
            from + wanted.len() <= chars.len(),
            here == chars@.subrange(from as int, from + wanted.len()),
            forall|j: int| 0 <= j < i ==> here[j] == #[trigger] wanted@[j],
        decreases wanted.len() - i,
    {
        if chars[from + i] != wanted[i] {
            assert(here[i as int] != wanted@[i as int]);
            return false;
        }
        i = i + 1;
    }
    assert(here == wanted@);
    true
}

/// Tells whether two texts are the same.
pub fn same(a: &str, b: &str) -> (yes: bool)
    ensures
        yes == (a@ == b@),
{
    let left: Vec<char> = chars_of(a);
    let right: Vec<char> = chars_of(b);
    if left.len() != right.len() {
        return false;
    }
    assert(left@.subrange(0, right@.len() as int) == left@);
    matches_at(&left, &right, 0)
}

/// Tells whether `part` stands somewhere in `s`.
pub fn holds(s: &str, part: &str) -> (yes: bool)
    ensures
        yes == occurs_in(part@, s@),
{
    let chars: Vec<char> = chars_of(s);
    let wanted: Vec<char> = chars_of(part);
    if wanted.len() > chars.len() {
        return false;
    }
    let last: usize = chars.len() - wanted.len();
    let mut from: usize = 0;
    while from < last
        invariant
            from <= last,
            last == chars.len() - wanted.len(),
            chars@ == s@,
            wanted@ == part@,
            forall|i: int|
                0 <= i < from ==> #[trigger] s@.subrange(i, i + part@.len()) != part@,
        decreases last - from,
    {
        if matches_at(&chars, &wanted, from) {
            return true;
        }
        from = from + 1;
    }
    matches_at(&chars, &wanted, last)
}

/// What stands in `s` behind its last `sep`; all of `s` where it holds none.
pub fn last_field(s: &str, sep: char) -> (field: &str)
    ensures
        field@ == last_field_of(s@, sep),
{
    let chars: Vec<char> = chars_of(s);
    let mut start: usize = chars.len();
    assert(s@.take(s@.len() as int) == s@);
    assert(last_field_of(s@, sep) + s@.skip(s@.len() as int) == last_field_of(s@, sep));
    while start > 0 && chars[start - 1] != sep
        invariant
            start <= chars.len(),
            chars@ == s@,
            last_field_of(s@, sep) == last_field_of(s@.take(start as int), sep) + s@.skip(
                start as int,
            ),
        decreases start,
    {
        assert(s@.take(start as int).drop_last() == s@.take(start - 1));
        assert(last_field_of(s@.take(start - 1), sep).push(s@[start - 1]) + s@.skip(start as int)
            == last_field_of(s@.take(start - 1), sep) + s@.skip(start - 1));
        start = start - 1;
    }
    assert(last_field_of(s@.take(start as int), sep) == Seq::<char>::empty());
    assert(last_field_of(s@, sep) == s@.subrange(start as int, s@.len() as int));
    let end: usize = chars.len();
    s.substring_char(start, end)
}

/// The digit `d` as text.
fn digit(d: usize) -> (text: &'static str)
    requires
        d < 10,
    ensures
        text@ == seq![digit_char(d as nat)],
{
    proof {
        reveal_strlit("0");
        reveal_strlit("1");
        reveal_strlit("2");
        reveal_strlit("3");
        reveal_strlit("4");
        reveal_strlit("5");
        reveal_strlit("6");
        reveal_strlit("7");
        reveal_strlit("8");
        reveal_strlit("9");
    }
    match d {
        0 => "0",
        1 => "1",
        2 => "2",
        3 => "3",
        4 => "4",
        5 => "5",
        6 => "6",
        7 => "7",
        8 => "8",
        _ => "9",
    }
}

/// `n` in decimal.
pub fn decimal(n: usize) -> (text: String)
    ensures
        text@ == decimal_of(n as nat),
    decreases n,
{
    if n < 10 {
        String::from_str(digit(n))
    } else {
        let mut text: String = decimal(n / 10);
        text.append(digit(n % 10));
        assert(text@ == decimal_of(n as nat));
        text
    }
}

/// Dropping digits from the end of a number never makes it larger.
proof fn lemma_value_of_prefix(s: Seq<char>, n: int)
    requires
        0 <= n <= s.len(),
    ensures
        digits_value(s.take(n)) <= digits_value(s),
    decreases s.len() - n,
{
    if n == s.len() {
        assert(s.take(n) == s);
    } else {
        lemma_value_of_prefix(s, n + 1);
        assert(s.take(n + 1).drop_last() == s.take(n));
    }
}

/// The value of the digit `c`; `None` for every other character.
fn digit_value(c: char) -> (value: Option<usize>)
    ensures
        value is Some <==> is_digit(c),
        value is Some ==> value->0 == c as int - 48,
{
    let p: u32 = c as u32;
    if 48 <= p && p <= 57 {
        Some((p - 48) as usize)
    } else {
        None
    }
}

/// Reads a count.
pub fn parse_count(s: &str) -> (count: Option<usize>)
    ensures
        count == count_of(s@),
{
    let chars: Vec<char> = chars_of(s);
    let ghost digits = unsigned_part(s@);
    let signed: bool = chars.len() > 0 && chars[0] == '+';
    let start: usize = if signed {
        1
    } else {
        0
    };
    assert(digits == s@.skip(start as int));
    if start == chars.len() {
        return None;
    }
    let mut value: usize = 0;
    let mut i: usize = start;
    while i < chars.len()
        invariant
            start <= i <= chars.len(),
            chars@ == s@,
            digits == s@.skip(start as int),
            digits == unsigned_part(s@),
            all_digits(digits.take(i - start)),
            value == digits_value(digits.take(i - start)),
        decreases chars.len() - i,
    {
        let c: char = chars[i];
        let ghost n = i - start;
        assert(digits[n] == c);
        assert(digits.take(n + 1).drop_last() == digits.take(n));
        let d: usize = match digit_value(c) {
            Some(d) => d,
            None => {
                assert(!is_digit(digits[n]));
                return None;
            },
        };
        proof {
            lemma_value_of_prefix(digits, n + 1);
            assert(digits.take(n + 1).last() == c);
            assert forall|j: int| 0 <= j < n + 1 implies is_digit(
                #[trigger] digits.take(n + 1)[j],
            ) by {
                if j < n {
                    assert(digits.take(n + 1)[j] == digits.take(n)[j]);
                }
            }
            assert(digits_value(digits.take(n + 1)) == 10 * value + d);
        }
        if value > usize::MAX / 10 {
            return None;
        }
        let tens: usize = value * 10;
        if tens > usize::MAX - d {
            return None;
        }
        value = tens + d;
        i = i + 1;
    }
    assert(digits.take(digits.len() as int) == digits);
    Some(value)
}

/// White space is all that is trimmed from the end of a text, and none is left there.
pub proof fn trimming_takes_space_only(s: Seq<char>)
    ensures
        without_trailing_space(s).is_prefix_of(s),
        forall|i: int|
            without_trailing_space(s).len() <= i < s.len() ==> is_white_space(#[trigger] s[i]),
        without_trailing_space(s).len() > 0 ==> !is_white_space(without_trailing_space(s).last()),
    decreases s.len(),
{
    if s.len() > 0 && is_white_space(s.last()) {
        let shorter = s.drop_last();
        trimming_takes_space_only(shorter);
        assert forall|i: int| without_trailing_space(s).len() <= i < s.len() implies is_white_space(
            #[trigger] s[i],
        ) by {
            if i < shorter.len() {
                assert(shorter[i] == s[i]);
            }
        }
    }
}

/// The last field of a text holds no separator, ends the text, and has a separator in front of it
/// unless it is the whole text.
pub proof fn the_last_field_ends_the_text(s: Seq<char>, sep: char)
    ensures
        !last_field_of(s, sep).contains(sep),
        last_field_of(s, sep).is_suffix_of(s),
        last_field_of(s, sep).len() < s.len() ==> s[s.len() - last_field_of(s, sep).len() - 1]
            == sep,
    decreases s.len(),
{
    if s.len() > 0 && s.last() != sep {
        let shorter = s.drop_last();
        the_last_field_ends_the_text(shorter, sep);
        let f = last_field_of(shorter, sep);
        assert forall|i: int| 0 <= i <= f.len() implies #[trigger] f.push(s.last())[i] != sep by {
            if i < f.len() {
                assert(f[i] == f.push(s.last())[i]);
                assert(f.contains(f[i]));
            }
        }
        assert(f == shorter.subrange(shorter.len() - f.len(), shorter.len() as int));
        assert(f.push(s.last()) == s.subrange(s.len() - f.len() - 1, s.len() as int));
    }
}

/// The digits of a number write that number.
proof fn lemma_decimal_value(n: nat)
    ensures
        digits_value(decimal_of(n)) == n,
        all_digits(decimal_of(n)),
        decimal_of(n).len() > 0,
    decreases n,
{
    if n < 10 {
        let s = decimal_of(n);
        assert(s.drop_last() == Seq::<char>::empty());
        assert(digits_value(s.drop_last()) == 0);
        assert(s.last() == digit_char(n));
    } else {
        let head = decimal_of(n / 10);
        lemma_decimal_value(n / 10);
        let s = decimal_of(n);
        assert(s.drop_last() == head);
        assert(s.last() == digit_char(n % 10));
        assert forall|i: int| 0 <= i < s.len() implies is_digit(#[trigger] s[i]) by {
            if i < head.len() {
                assert(s[i] == head[i]);
            }
        }
    }
}

/// A number that is written in decimal is read back as the same number.
pub proof fn decimals_read_back(n: usize)
    ensures
        count_of(decimal_of(n as nat)) == Some(n),
{
    lemma_decimal_value(n as nat);
    let s = decimal_of(n as nat);
    assert(is_digit(s[0]));
}

/// Different numbers are written differently, and with digits alone.
pub proof fn decimals_tell_numbers_apart(a: nat, b: nat)
    ensures
        decimal_of(a) == decimal_of(b) ==> a == b,
        all_digits(decimal_of(a)),
{
    lemma_decimal_value(a);
    lemma_decimal_value(b);
}

/// The white space that is skipped at the start of a text is all that is skipped.
proof fn lemma_leading_space(s: Seq<char>)
    ensures
        without_leading_space(s).is_suffix_of(s),
        forall|i: int|
            0 <= i < s.len() - without_leading_space(s).len() ==> is_white_space(#[trigger] s[i]),
        without_leading_space(s).len() > 0 ==> !is_white_space(without_leading_space(s)[0]),
    decreases s.len(),
{
    let t = without_leading_space(s);
    if s.len() > 0 && is_white_space(s[0]) {
        let rest = s.drop_first();
        lemma_leading_space(rest);
        assert(t == s.subrange(s.len() - t.len(), s.len() as int));
        assert forall|i: int| 0 <= i < s.len() - t.len() implies is_white_space(
            #[trigger] s[i],
        ) by {
            if i > 0 {
                assert(rest[i - 1] == s[i]);
            }
        }
    }
}

/// The longest word at the start of a text.
proof fn lemma_leading_word(s: Seq<char>)
    ensures
        leading_word(s).is_prefix_of(s),
        forall|i: int|
            0 <= i < leading_word(s).len() ==> !is_white_space(#[trigger] leading_word(s)[i]),
        leading_word(s).len() < s.len() ==> is_white_space(s[leading_word(s).len() as int]),
    decreases s.len(),
{
    if s.len() > 0 && !is_white_space(s[0]) {
        let rest = s.drop_first();
        lemma_leading_word(rest);
        let w = leading_word(s);
        let v = leading_word(rest);
        assert(w == seq![s[0]] + v);
        assert forall|i: int| 0 <= i < w.len() implies w[i] == #[trigger] s[i] && !is_white_space(
            w[i],
        ) by {
            if i > 0 {
                assert(v[i - 1] == w[i]);
                assert(v[i - 1] == rest[i - 1]);
            }
        }
        assert(w == s.subrange(0, w.len() as int));
    }
}

/// A text has a first word unless it is blank. The word is not empty and holds no white space; only
/// white space stands in front of it, and white space or nothing behind it.
pub proof fn the_first_word_leads_the_text(s: Seq<char>)
    ensures
        first_word_of(s) is None <==> forall|i: int|
            0 <= i < s.len() ==> is_white_space(#[trigger] s[i]),
        first_word_of(s) matches Some(word) ==> {
            let start = s.len() - without_leading_space(s).len();
            &&& word.len() > 0
            &&& forall|i: int| 0 <= i < word.len() ==> !is_white_space(#[trigger] word[i])
            &&& word == s.subrange(start, start + word.len())
            &&& forall|i: int| 0 <= i < start ==> is_white_space(#[trigger] s[i])
            &&& start + word.len() < s.len() ==> is_white_space(s[start + word.len()])
        },
{
    let t = without_leading_space(s);
    lemma_leading_space(s);
    lemma_leading_word(t);
    let start = s.len() - t.len();
    assert(t == s.subrange(start, s.len() as int));
    if t.len() > 0 {
        assert(!is_white_space(s[start]));
        let word = leading_word(t);
        assert(word == s.subrange(start, start + word.len()));
    }
}

/// The white space is Unicode's: tabs, line breaks, and the spaces of all widths.
pub proof fn white_space_is_unicodes(c: char)
    ensures
        is_white_space(c) <==> {
            ||| c == ' ' || c == '\t' || c == '\n' || c == '\r' || c == '\u{b}' || c == '\u{c}'
            ||| c == '\u{85}' || c == '\u{a0}' || c == '\u{1680}'
            ||| '\u{2000}' <= c <= '\u{200a}'
            ||| c == '\u{2028}' || c == '\u{2029}' || c == '\u{202f}' || c == '\u{205f}'
            ||| c == '\u{3000}'
        },
{
}

/// Trimming depends on what stands in front of the white space alone: white space that is added at
/// the end goes again, and a text that ends in something else stays whole.
pub proof fn added_space_is_trimmed(s: Seq<char>, c: char)
    ensures
        is_white_space(c) ==> without_trailing_space(s.push(c)) == without_trailing_space(s),
        !is_white_space(c) ==> without_trailing_space(s.push(c)) == s.push(c),
{
    assert(s.push(c).drop_last() == s);
}

/// A text holds exactly those parts that stand in it between something and something else.
pub proof fn a_text_holds_what_stands_in_it(part: Seq<char>, s: Seq<char>)
    ensures
        occurs_in(part, s) <==> exists|a: Seq<char>, b: Seq<char>| s == #[trigger] (a + part + b),
{
    if occurs_in(part, s) {
        let i = choose|i: int|
            0 <= i <= s.len() - part.len() && #[trigger] s.subrange(i, i + part.len()) == part;
        assert(s == s.take(i) + part + s.skip(i + part.len()));
    }
    if exists|a: Seq<char>, b: Seq<char>| s == #[trigger] (a + part + b) {
        let (a, b) = choose|a: Seq<char>, b: Seq<char>| s == #[trigger] (a + part + b);
        lemma_stands_between(a, part, b);
    }
}

/// A text holds what stands between its start and its end.
pub proof fn lemma_stands_between(a: Seq<char>, part: Seq<char>, b: Seq<char>)
    ensures
        occurs_in(part, a + part + b),
{
    let s = a + part + b;
    let i = a.len() as int;
    assert(s.subrange(i, i + part.len()) == part);
}

/// The field behind the last separator is found whole, however long it is and whatever stands in
/// front of it.
pub proof fn the_last_field_is_whole(front: Seq<char>, sep: char, field: Seq<char>)
    requires
        !field.contains(sep),
    ensures
        last_field_of(front.push(sep) + field, sep) == field,
        last_field_of(field, sep) == field,
    decreases field.len(),
{
    let s = front.push(sep) + field;
    if field.len() == 0 {
        assert(s == front.push(sep));
    } else {
        let shorter = field.drop_last();
        assert(field.contains(field.last())) by {
            assert(field[field.len() - 1] == field.last());
        }
        assert forall|i: int| 0 <= i < shorter.len() implies shorter[i] != sep by {
            assert(field.contains(field[i]));
        }
        the_last_field_is_whole(front, sep, shorter);
        assert(s.drop_last() == front.push(sep) + shorter);
        assert(s.last() == field.last());
        assert(shorter.push(field.last()) == field);
    }
}

/// A number is written with the digits `0` to `9`, the tens in front of the ones, and with no more
/// digits than it needs.
pub proof fn decimals_are_written_digit_by_digit(tens: nat, ones: nat)
    requires
        ones < 10,
    ensures
        decimal_of(ones) == seq!["0123456789"@[ones as int]],
        tens > 0 ==> decimal_of(10 * tens + ones) == decimal_of(tens).push(
            "0123456789"@[ones as int],
        ),
{
    reveal_strlit("0123456789");
    let n = 10 * tens + ones;
    assert(n / 10 == tens && n % 10 == ones);
    assert("0123456789"@[ones as int] == digit_char(ones));
}

/// One more digit at the end makes a count ten times as large, and adds itself; where the result is
/// too large, there is none. Anything but a digit makes a text no count.
pub proof fn counts_are_read_digit_by_digit(s: Seq<char>, c: char)
    ensures
        ({
            let d = c as int - '0' as int;
            match count_of(s) {
                Some(n) => count_of(s.push(c)) == (if '0' <= c <= '9' && 10 * n + d <= usize::MAX {
                    Some((10 * n + d) as usize)
                } else {
                    None::<usize>
                }),
                None => s.len() == 0 || s == seq!['+'] || count_of(s.push(c)) is None,
            }
        }),
        count_of(seq![c]) == (if '0' <= c <= '9' {
            Some((c as int - '0' as int) as usize)
        } else {
            None
        }),
        count_of(seq!['+', c]) == count_of(seq![c]),
        count_of(Seq::empty()) is None,
        count_of(seq!['+']) is None,
{
    lemma_one_character(c);
    let digits = unsigned_part(s);
    let more = unsigned_part(s.push(c));
    if s.len() > 0 && s != seq!['+'] {
        assert(digits.len() > 0) by {
            if s[0] == '+' && s.len() == 1 {
                assert(s == seq!['+']);
            }
        }
        assert(more == digits.push(c));
        lemma_one_more_digit(digits, c);
    }
    assert(unsigned_part(seq!['+']) == Seq::<char>::empty());
}

/// How a text of digits goes on.
proof fn lemma_one_more_digit(digits: Seq<char>, c: char)
    ensures
        all_digits(digits.push(c)) <==> all_digits(digits) && is_digit(c),
        is_digit(c) ==> digits_value(digits.push(c)) == 10 * digits_value(digits) + (c as int - 48),
        digits_value(digits) <= digits_value(digits.push(c)),
{
    let more = digits.push(c);
    assert(more.drop_last() == digits);
    if all_digits(more) {
        assert forall|i: int| 0 <= i < digits.len() implies is_digit(#[trigger] digits[i]) by {
            assert(more[i] == digits[i]);
        }
        assert(is_digit(more[digits.len() as int]));
    }
}

/// The count that one character writes, with and without a plus sign.
proof fn lemma_one_character(c: char)
    ensures
        count_of(seq![c]) == (if is_digit(c) {
            Some((c as int - 48) as usize)
        } else {
            None
        }),
        count_of(seq!['+', c]) == count_of(seq![c]),
{
    let one = seq![c];
    assert(one == Seq::<char>::empty().push(c));
    lemma_one_more_digit(Seq::empty(), c);
    assert(seq!['+', c].drop_first() == one);
    if c == '+' {
        assert(one.drop_first() == Seq::<char>::empty());
    }
    if is_digit(c) {
        assert(unsigned_part(one) == one);
    }
    assert(is_digit(c) <==> all_digits(one));
}

} // verus!
