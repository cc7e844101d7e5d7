//! The little text handling that window classes and display names need.
use vstd::prelude::*;

verus! {

/// The character that stands for UTF-16 that cannot be decoded.
pub const REPLACEMENT: char = '\u{FFFD}';

/// Whether a UTF-16 unit is the first half of a surrogate pair.
pub open spec fn is_high_surrogate(unit: u16) -> bool {
    0xD800 <= unit <= 0xDBFF
}

/// Whether a UTF-16 unit is the second half of a surrogate pair.
pub open spec fn is_low_surrogate(unit: u16) -> bool {
    0xDC00 <= unit <= 0xDFFF
}

/// The text that UTF-16 units stand for: a unit outside of the surrogates is its own character,
/// a high surrogate and the low one behind it are one character, and every other surrogate is
/// replaced.
pub open spec fn utf16_text(units: Seq<u16>) -> Seq<char>
    decreases units.len(),
{
    if units.len() == 0 {
        Seq::empty()
    } else if !is_high_surrogate(units[0]) && !is_low_surrogate(units[0]) {
        seq![units[0] as char] + utf16_text(units.skip(1))
    } else if is_high_surrogate(units[0]) && units.len() > 1 && is_low_surrogate(units[1]) {
        seq![(0x10000 + (units[0] - 0xD800) * 0x400 + (units[1] - 0xDC00)) as char] + utf16_text(
            units.skip(2),
        )
    } else {
        seq![REPLACEMENT] + utf16_text(units.skip(1))
    }
}

/// Calls `String::from_utf16_lossy` of the standard library, which decodes UTF-16 and puts the
/// replacement character in the place of each unit that is not part of valid UTF-16.
#[verifier::external_body]
fn from_utf16_lossy(units: &[u16]) -> (text: String)
    ensures
        text@ == utf16_text(units@),
{
    String::from_utf16_lossy(units)
}

/// The position of the first zero among the units, or their number where there is none.
pub open spec fn terminator(units: Seq<u16>) -> int
    decreases units.len(),
{
    if units.len() == 0 || units[0] == 0 {
        0
    } else {
        1 + terminator(units.skip(1))
    }
}

/// The first zero comes behind all units that are not zero.
proof fn lemma_terminator(units: Seq<u16>, n: int)
    requires
        0 <= n <= units.len(),
        forall|i: int| 0 <= i < n ==> units[i] != 0,
        n < units.len() ==> units[n] == 0,
    ensures
        terminator(units) == n,
    decreases n,
{
    if n > 0 {
        let rest = units.skip(1);
        assert forall|i: int| 0 <= i < n - 1 implies rest[i] != 0 by {
            assert(rest[i] == units[i + 1]);
        }
        lemma_terminator(rest, n - 1);
    }
}

/// The text of UTF-16 units of known length.
pub fn text_of_units(units: &[u16]) -> (text: String)
    ensures
        text@ == utf16_text(units@),
{
    from_utf16_lossy(units)
}

/// The text of UTF-16 units up to the first zero.
pub fn text_until_zero(units: &[u16]) -> (text: String)
    ensures
        text@ == utf16_text(units@.take(terminator(units@))),
{
    let mut n: usize = 0;
    while n < units.len() && units[n] != 0
        invariant
            n <= units.len(),
            forall|i: int| 0 <= i < n ==> units@[i] != 0,
        decreases units.len() - n,
    {
        n = n + 1;
    }
    proof {
        lemma_terminator(units@, n as int);
    }
    let front = vstd::slice::slice_subrange(units, 0, n);
    assert(front@ =~= units@.take(n as int));
    from_utf16_lossy(front)
}

/// The characters of a text, one by one.
pub(crate) fn chars_of(text: &str) -> (chars: Vec<char>)
    ensures
        chars@ == text@,
{
    let mut chars: Vec<char> = Vec::new();
    for c in it: text.chars()
        invariant
            it.seq() == text@,
            chars@ == text@.take(it.index() as int),
    {
        chars.push(c);
    }
    assert(text@.take(text@.len() as int) =~= text@);
    chars
}

/// Whether `part` stands in `text` from position `at` on.
pub open spec fn occurs_at(text: Seq<char>, part: Seq<char>, at: int) -> bool {
    &&& 0 <= at
    &&& at + part.len() <= text.len()
    &&& text.subrange(at, at + part.len()) == part
}

/// Whether `part` stands in `text` from position `at` on.
fn part_at(text: &Vec<char>, part: &Vec<char>, at: usize) -> (found: bool)
    requires
        at + part.len() <= text.len(),
    ensures
        found == occurs_at(text@, part@, at as int),
{
    let mut i: usize = 0;
    while i < part.len()
        invariant
            i <= part.len(),
            at + part.len() <= text.len(),
            forall|k: int| 0 <= k < i ==> text@[at + k] == #[trigger] part@[k],
        decreases part.len() - i,
    {
        if text[at + i] != part[i] {
            proof {
                let here = text@.subrange(at as int, at + part@.len());
                assert(here[i as int] != part@[i as int]);
            }
            return false;
        }
        i = i + 1;
    }
    assert(text@.subrange(at as int, at + part@.len()) =~= part@);
    true
}

/// Whether `text` begins with `prefix`.
pub open spec fn begins_with(text: Seq<char>, prefix: Seq<char>) -> bool {
    occurs_at(text, prefix, 0)
}

/// Whether `text` begins with `prefix`.
pub fn starts_with(text: &str, prefix: &str) -> (yes: bool)
    ensures
        yes == begins_with(text@, prefix@),
{
    let text_chars = chars_of(text);
    let prefix_chars = chars_of(prefix);
    prefix_chars.len() <= text_chars.len() && part_at(&text_chars, &prefix_chars, 0)
}

/// Whether two texts are the same.
pub fn same_text(a: &str, b: &str) -> (yes: bool)
    ensures
        yes == (a@ == b@),
{
    let a_chars = chars_of(a);
    let b_chars = chars_of(b);
    if a_chars.len() != b_chars.len() {
        return false;
    }
    assert(a@.subrange(0, b@.len() as int) =~= a@);
    part_at(&a_chars, &b_chars, 0)
}

/// `at` is the last position at which `part` stands in `text`.
pub open spec fn is_last_occurrence(text: Seq<char>, part: Seq<char>, at: int) -> bool {
    &&& occurs_at(text, part, at)
    &&& forall|later: int| at < later ==> !occurs_at(text, part, later)
}

/// The last position at which `part` stands in `text`.
pub fn last_occurrence(text: &Vec<char>, part: &Vec<char>) -> (at: Option<usize>)
    ensures
        match at {
            Some(i) => is_last_occurrence(text@, part@, i as int),
            None => forall|i: int| !occurs_at(text@, part@, i),
        },
{
    if part.len() > text.len() {
        return None;
    }
    let mut at: usize = text.len() - part.len();
    loop
        invariant
            at + part.len() <= text.len(),
            forall|later: int| at < later ==> !occurs_at(text@, part@, later),
        decreases at,
    {
        if part_at(text, part, at) {
            return Some(at);
        }
        if at == 0 {
            return None;
        }
        at = at - 1;
    }
}

/// Whether a character is a decimal digit.
pub open spec fn is_digit(c: char) -> bool {
    '0' <= c <= '9'
}

/// Whether a text is one or more decimal digits.
pub open spec fn all_digits(text: Seq<char>) -> bool {
    text.len() > 0 && forall|i: int| 0 <= i < text.len() ==> is_digit(#[trigger] text[i])
}

/// The number that decimal digits stand for.
pub open spec fn digits_value(digits: Seq<char>) -> nat
    decreases digits.len(),
{
    if digits.len() == 0 {
        0
    } else {
        digits_value(digits.drop_last()) * 10 + (digits.last() as nat - '0' as nat) as nat
    }
}

/// The number that a text stands for: decimal digits with at most one sign before them, where
/// the number can be held in an `i64`.
pub open spec fn decimal_value(text: Seq<char>) -> Option<i64> {
    let signed = text.len() > 0 && (text[0] == '-' || text[0] == '+');
    let negative = text.len() > 0 && text[0] == '-';
    let digits = if signed {
        text.skip(1)
    } else {
        text
    };
    let value = if negative {
        -(digits_value(digits) as int)
    } else {
        digits_value(digits) as int
    };
    if all_digits(digits) && i64::MIN <= value <= i64::MAX {
        Some(value as i64)
    } else {
        None
    }
}

/// A longer row of digits stands for a number that is at least as large.
proof fn lemma_digits_value_grows(digits: Seq<char>, n: int)
    requires
        0 <= n <= digits.len(),
    ensures
        digits_value(digits.take(n)) <= digits_value(digits),
    decreases digits.len(),
{
    if n == digits.len() {
        assert(digits.take(n) =~= digits);
    } else {
        assert(digits.drop_last().take(n) =~= digits.take(n));
        lemma_digits_value_grows(digits.drop_last(), n);
    }
}

/// The number that a text stands for, if it is one.
pub fn parse_decimal(text: &Vec<char>) -> (value: Option<i64>)
    ensures
        value == decimal_value(text@),
{
    let signed = text.len() > 0 && (text[0] == '-' || text[0] == '+');
    let negative = text.len() > 0 && text[0] == '-';
    let start: usize = if signed { 1 } else { 0 };
    let ghost digits = if signed {
        text@.skip(1)
    } else {
        text@
    };
    if start == text.len() {
        return None;
    }
    let limit: i128 = if negative { 0x8000_0000_0000_0000 } else { 0x7fff_ffff_ffff_ffff };
    let mut value: i128 = 0;
    let mut i: usize = start;
    while i < text.len()
        invariant
            start <= i <= text.len(),
            start <= 1,
            start < text.len(),
            signed == (text@.len() > 0 && (text@[0] == '-' || text@[0] == '+')),
            negative == (text@.len() > 0 && text@[0] == '-'),
            start == (if signed { 1int } else { 0int }),
            digits == (if signed { text@.skip(1) } else { text@ }),
            forall|k: int| 0 <= k < i - start ==> is_digit(#[trigger] digits[k]),
            limit == (if negative { 0x8000_0000_0000_0000int } else { 0x7fff_ffff_ffff_ffffint }),
            0 <= value <= limit,
            value == digits_value(digits.take(i - start)),
        decreases text.len() - i,
    {
        let c = text[i];
        proof {
            assert(digits[i - start] == c);
        }
        if c < '0' || c > '9' {
            return None;
        }
        proof {
            let longer = digits.take(i - start + 1);
            assert(longer.drop_last() =~= digits.take(i - start));
            assert(longer.last() == c);
            lemma_digits_value_grows(digits, i - start + 1);
        }
        value = value * 10 + ((c as u32) - ('0' as u32)) as i128;
        if value > limit {
            return None;
        }
        i = i + 1;
    }
    assert(digits.take(i - start) =~= digits);
    if negative {
        Some((-value) as i64)
    } else {
        Some(value as i64)
    }
}

/// A text begins with another exactly where it has all of its characters in front.
pub proof fn law_prefixes(text: &str, prefix: &str, yes: bool)
    requires
        call_ensures(starts_with, (text, prefix), yes),
    ensures
        yes <==> prefix@.len() <= text@.len() && (forall|i: int|
            0 <= i < prefix@.len() ==> #[trigger] text@[i] == prefix@[i]),
{
    let front = text@.subrange(0, prefix@.len() as int);
    if yes {
        assert forall|i: int| 0 <= i < prefix@.len() implies #[trigger] text@[i] == prefix@[i] by {
            assert(front[i] == text@[i]);
        }
    } else if prefix@.len() <= text@.len() && (forall|i: int|
        0 <= i < prefix@.len() ==> #[trigger] text@[i] == prefix@[i]) {
        assert(front =~= prefix@);
    }
}

/// A part stands at a position exactly where the text has the characters of the part from there
/// on.
pub proof fn law_occurrences(text: Seq<char>, part: Seq<char>, at: int)
    ensures
        occurs_at(text, part, at) <==> 0 <= at && at + part.len() <= text.len() && (forall|k: int|
            0 <= k < part.len() ==> #[trigger] part[k] == text[at + k]),
{
    if 0 <= at && at + part.len() <= text.len() {
        let here = text.subrange(at, at + part.len());
        if occurs_at(text, part, at) {
            assert forall|k: int| 0 <= k < part.len() implies #[trigger] part[k] == text[at + k] by {
                assert(here[k] == text[at + k]);
            }
        } else if forall|k: int| 0 <= k < part.len() ==> #[trigger] part[k] == text[at + k] {
            assert(here =~= part);
        }
    }
}

/// The last occurrence of a part is one, and every other comes before it.
pub proof fn law_last_occurrence(text: &Vec<char>, part: &Vec<char>, at: usize, other: int)
    requires
        call_ensures(last_occurrence, (text, part), Some(at)),
    ensures
        at + part@.len() <= text@.len(),
        text@.subrange(at as int, at + part@.len()) == part@,
        0 <= other && other + part@.len() <= text@.len() && text@.subrange(
            other,
            other + part@.len(),
        ) == part@ ==> other <= at,
{
    assert(is_last_occurrence(text@, part@, at as int));
    if 0 <= other && other + part@.len() <= text@.len() && text@.subrange(
        other,
        other + part@.len(),
    ) == part@ {
        assert(occurs_at(text@, part@, other));
    }
}

/// UTF-16 without surrogates is read unit by unit.
pub proof fn law_plain_units_are_characters(units: &[u16], text: String, i: int)
    requires
        call_ensures(text_of_units, (units,), text),
        forall|k: int|
            0 <= k < units@.len() ==> !(0xD800 <= #[trigger] units@[k] && units@[k] <= 0xDFFF),
        0 <= i < units@.len(),
    ensures
        text@.len() == units@.len(),
        text@[i] as int == units@[i] as int,
{
    lemma_plain_text(units@);
}

proof fn lemma_plain_text(units: Seq<u16>)
    requires
        forall|k: int|
            0 <= k < units.len() ==> !(0xD800 <= #[trigger] units[k] && units[k] <= 0xDFFF),
    ensures
        utf16_text(units).len() == units.len(),
        forall|i: int|
            0 <= i < units.len() ==> #[trigger] utf16_text(units)[i] as int == units[i] as int,
    decreases units.len(),
{
    if units.len() > 0 {
        let rest = units.skip(1);
        assert forall|k: int| 0 <= k < rest.len() implies !(0xD800 <= #[trigger] rest[k] && rest[k]
            <= 0xDFFF) by {
            assert(rest[k] == units[k + 1]);
        }
        lemma_plain_text(rest);
        assert forall|i: int| 0 <= i < units.len() implies #[trigger] utf16_text(units)[i] as int
            == units[i] as int by {
            assert(units[0] == units[0]);
            if i > 0 {
                assert(utf16_text(units)[i] == utf16_text(rest)[i - 1]);
                assert(rest[i - 1] == units[i]);
            }
        }
    }
}

/// Two surrogates that belong together are one character, and one that stands alone is replaced.
pub proof fn law_surrogates(units: &[u16], text: String)
    requires
        call_ensures(text_of_units, (units,), text),
    ensures
        units@.len() == 2 && 0xD800 <= units@[0] <= 0xDBFF && 0xDC00 <= units@[1] <= 0xDFFF
            ==> text@.len() == 1 && text@[0] as int == 0x10000 + (units@[0] - 0xD800) * 0x400 + (
        units@[1] - 0xDC00),
        units@.len() == 1 && 0xD800 <= units@[0] <= 0xDFFF ==> text@.len() == 1 && text@[0] as int
            == 0xFFFD,
{
    reveal_with_fuel(utf16_text, 3);
    if units@.len() == 2 {
        assert(units@.skip(2).len() == 0);
    }
}

/// UTF-16 can be read piece by piece, unless a piece ends between two surrogates that belong
/// together.
pub proof fn law_text_of_pieces(
    front: &[u16],
    back: &[u16],
    whole: &[u16],
    front_text: String,
    back_text: String,
    whole_text: String,
)
    requires
        call_ensures(text_of_units, (front,), front_text),
        call_ensures(text_of_units, (back,), back_text),
        call_ensures(text_of_units, (whole,), whole_text),
        whole@ == front@ + back@,
        front@.len() > 0 && back@.len() > 0 ==> !(0xD800 <= front@.last() <= 0xDBFF && 0xDC00
            <= back@[0] <= 0xDFFF),
    ensures
        whole_text@ == front_text@ + back_text@,
{
    lemma_text_of_pieces(front@, back@);
}

proof fn lemma_text_of_pieces(front: Seq<u16>, back: Seq<u16>)
    requires
        front.len() > 0 && back.len() > 0 ==> !(is_high_surrogate(front.last())
            && is_low_surrogate(back[0])),
    ensures
        utf16_text(front + back) == utf16_text(front) + utf16_text(back),
    decreases front.len(),
{
    let whole = front + back;
    if front.len() == 0 {
        assert(whole =~= back);
        assert(utf16_text(front) + utf16_text(back) =~= utf16_text(back));
    } else if is_high_surrogate(front[0]) && front.len() > 1 && is_low_surrogate(front[1]) {
        assert(whole.skip(2) =~= front.skip(2) + back);
        lemma_text_of_pieces(front.skip(2), back);
        assert(utf16_text(whole) =~= utf16_text(front) + utf16_text(back));
    } else {
        assert(whole.skip(1) =~= front.skip(1) + back);
        lemma_text_of_pieces(front.skip(1), back);
        assert(front.len() == 1 ==> front.last() == front[0]);
        assert(utf16_text(whole) =~= utf16_text(front) + utf16_text(back));
    }
}

/// A text that ends at the first zero is the text of the units before it, whatever follows.
pub proof fn law_text_ends_at_the_first_zero(
    units: &[u16],
    front: &[u16],
    text: String,
    front_text: String,
)
    requires
        call_ensures(text_until_zero, (units,), text),
        call_ensures(text_of_units, (front,), front_text),
        front@.len() <= units@.len(),
        units@.take(front@.len() as int) == front@,
        forall|k: int| 0 <= k < front@.len() ==> #[trigger] front@[k] != 0,
        front@.len() < units@.len() ==> units@[front@.len() as int] == 0,
    ensures
        text@ == front_text@,
{
    let n = front@.len() as int;
    assert forall|k: int| 0 <= k < n implies units@[k] != 0 by {
        assert(front@[k] != 0);
        assert(units@.take(n)[k] == units@[k]);
    }
    lemma_terminator(units@, n);
}

/// One digit stands for itself, with a minus sign for its negative.
pub proof fn law_single_digits(text: Vec<char>, value: Option<i64>, digit: char)
    requires
        call_ensures(parse_decimal, (&text,), value),
        '0' <= digit <= '9',
        text@ == seq![digit] || text@ == seq!['+', digit] || text@ == seq!['-', digit],
    ensures
        value == Some(
            (if text@[0] == '-' {
                0x30 - digit as int
            } else {
                digit as int - 0x30
            }) as i64,
        ),
{
    reveal_with_fuel(digits_value, 2);
    if text@.len() == 2 {
        assert(text@.skip(1) =~= seq![digit]);
        assert(seq![digit].drop_last() =~= Seq::<char>::empty());
        assert(seq![digit].last() == digit);
        assert(all_digits(text@.skip(1)));
    } else {
        assert(seq![digit].drop_last() =~= Seq::<char>::empty());
        assert(all_digits(text@));
    }
}

/// One more digit makes ten times the number and the digit out of a number, away from zero, as
/// long as it can be held in an `i64`, and no number where it cannot.
pub proof fn law_digits_are_decimal(
    text: Vec<char>,
    longer: Vec<char>,
    value: Option<i64>,
    next: Option<i64>,
    digit: char,
)
    requires
        call_ensures(parse_decimal, (&text,), value),
        call_ensures(parse_decimal, (&longer,), next),
        '0' <= digit <= '9',
        longer@ == text@.push(digit),
        text@.len() > 0,
        text@.len() == 1 ==> '0' <= text@[0] <= '9',
        '0' <= text@[0] <= '9' || text@[0] == '-' || text@[0] == '+',
        forall|k: int| 0 < k < text@.len() ==> '0' <= #[trigger] text@[k] && text@[k] <= '9',
    ensures
        value is None ==> next is None,
        value matches Some(v) ==> ({
            let more = if text@[0] == '-' {
                v * 10 - (digit as int - 0x30)
            } else {
                v * 10 + (digit as int - 0x30)
            };
            if -0x8000_0000_0000_0000 <= more <= 0x7fff_ffff_ffff_ffff {
                next == Some(more as i64)
            } else {
                next is None
            }
        }),
{
    let signed = text@[0] == '-' || text@[0] == '+';
    let digits = if signed {
        text@.skip(1)
    } else {
        text@
    };
    let more_digits = if signed {
        longer@.skip(1)
    } else {
        longer@
    };
    assert(longer@[0] == text@[0]);
    assert(more_digits =~= digits.push(digit));
    assert(more_digits.drop_last() =~= digits);
    assert forall|k: int| 0 <= k < digits.len() implies is_digit(#[trigger] digits[k]) by {
        if signed {
            assert(digits[k] == text@[k + 1]);
        }
    }
    assert(all_digits(digits));
    assert(all_digits(more_digits));
}

/// A plus sign before digits changes nothing.
pub proof fn law_plus_changes_nothing(
    text: Vec<char>,
    signed: Vec<char>,
    value: Option<i64>,
    with_sign: Option<i64>,
)
    requires
        call_ensures(parse_decimal, (&text,), value),
        call_ensures(parse_decimal, (&signed,), with_sign),
        signed@ == seq!['+'] + text@,
        text@.len() > 0 ==> text@[0] != '+' && text@[0] != '-',
    ensures
        with_sign == value,
{
    assert(signed@[0] == '+');
    assert(signed@.skip(1) =~= text@);
}

/// A minus sign before digits gives the negative number.
pub proof fn law_minus_negates(
    text: Vec<char>,
    signed: Vec<char>,
    value: i64,
    with_sign: Option<i64>,
)
    requires
        call_ensures(parse_decimal, (&text,), Some(value)),
        call_ensures(parse_decimal, (&signed,), with_sign),
        signed@ == seq!['-'] + text@,
        text@[0] != '+' && text@[0] != '-',
    ensures
        with_sign == Some((-value) as i64),
{
    assert(signed@[0] == '-');
    assert(signed@.skip(1) =~= text@);
}

/// A text without digits is no number, nor is one with anything but digits behind a sign at most.
pub proof fn law_other_texts_are_no_numbers(text: Vec<char>, value: Option<i64>, k: int)
    requires
        call_ensures(parse_decimal, (&text,), value),
        text@.len() == 0 || (text@.len() == 1 && !('0' <= text@[0] <= '9')) || (0 <= k
            < text@.len() && !('0' <= text@[k] <= '9') && !(k == 0 && (text@[0] == '-' || text@[0]
            == '+'))),
    ensures
        value is None,
{
    if 1 <= k < text@.len() {
        assert(text@.skip(1)[k - 1] == text@[k]);
    }
}

} // verus!
