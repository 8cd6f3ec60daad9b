//! Plain text: comparing, joining, splitting, and reading a number.

use vstd::prelude::*;

verus! {

/// The text of an optional string.
pub open spec fn text_of(text: Option<&str>) -> Option<Seq<char>> {
    match text {
        Some(text) => Some(text@),
        None => None,
    }
}

/// The text of an optional owned string.
pub open spec fn owned_text_of(text: Option<String>) -> Option<Seq<char>> {
    match text {
        Some(text) => Some(text@),
        None => None,
    }
}

/// Whether `left` and `right` are the same text.
pub(crate) fn same_text(left: &str, right: &str) -> (same: bool)
    ensures
        same == (left@ == right@),
{
    left.to_owned() == right.to_owned()
}

/// `left`, then `separator`, then `right`.
pub(crate) fn joined(left: &str, separator: &str, right: &str) -> (text: String)
    ensures
        text@ == left@ + separator@ + right@,
{
    let mut text = left.to_owned();
    text.append(separator);
    text.append(right);
    text
}

/// An owned copy of an optional string.
pub(crate) fn owned(text: Option<&str>) -> (copy: Option<String>)
    ensures
        owned_text_of(copy) == text_of(text),
{
    match text {
        Some(text) => Some(text.to_owned()),
        None => None,
    }
}

/// What follows the last `mark` in `text`, if there is a `mark`.
pub open spec fn after_last(text: Seq<char>, mark: char) -> Option<Seq<char>> {
    match text.index_of_last(mark) {
        Some(at) => Some(text.skip(at + 1)),
        None => None,
    }
}

/// What follows a mark is what was joined to it, as long as that holds no mark itself.
pub proof fn lemma_after_last_of_join(left: Seq<char>, mark: char, right: Seq<char>)
    requires
        !right.contains(mark),
    ensures
        after_last(left + seq![mark] + right, mark) == Some(right),
{
    let text = left + seq![mark] + right;
    text.index_of_last_ensures(mark);
    let at = left.len() as int;
    assert(text[at] == mark);
    assert forall|i: int| at < i < text.len() implies text[i] != mark by {
        assert(text[i] == right[i - at - 1]);
    }
    assert(text.skip(at + 1) =~= right);
}

/// The text after the last `mark`, if `text` has one.
pub(crate) fn text_after_last(text: &str, mark: char) -> (tail: Option<String>)
    ensures
        owned_text_of(tail) == after_last(text@, mark),
{
    let length: usize = text.unicode_len();
    let mut end: usize = length;
    proof {
        text@.index_of_last_ensures(mark);
    }
    while end > 0
        invariant
            end <= length == text@.len(),
            forall|i: int| end <= i < length ==> text@[i] != mark,
            match text@.index_of_last(mark) {
                Some(at) => 0 <= at < length && text@[at] == mark && forall|i: int|
                    at < i < length ==> text@[i] != mark,
                None => !text@.contains(mark),
            },
        decreases end,
    {
        if text.get_char(end - 1) == mark {
            return Some(text.substring_char(end, length).to_owned());
        }
        end = end - 1;
    }
    None
}

/// What precedes the first `mark` in `text`, or all of it where there is no `mark`.
pub open spec fn before_first(text: Seq<char>, mark: char) -> Seq<char> {
    match text.index_of_first(mark) {
        Some(at) => text.take(at),
        None => text,
    }
}

/// The text before the first `mark`, or all of it where it has none.
pub(crate) fn text_before_first(text: &str, mark: char) -> (head: &str)
    ensures
        head@ == before_first(text@, mark),
        head@.len() <= text@.len(),
{
    proof {
        text@.index_of_first_ensures(mark);
    }
    let length: usize = text.unicode_len();
    let mut at: usize = 0;
    for found in iter: text.chars()
        invariant
            iter.seq() == text@,
            at == iter.index(),
            forall|i: int| 0 <= i < at ==> text@[i] != mark,
            length == text@.len(),
            match text@.index_of_first(mark) {
                Some(first) => 0 <= first < text@.len() && text@[first] == mark && forall|i: int|
                    0 <= i < first ==> text@[i] != mark,
                None => !text@.contains(mark),
            },
    {
        if found == mark {
            return text.substring_char(0, at);
        }
        at = at + 1;
    }
    text
}

/// A decimal digit.
pub open spec fn is_digit(digit: char) -> bool {
    '0' <= digit <= '9'
}

/// The number that a decimal digit stands for.
pub open spec fn digit_value(digit: char) -> int {
    digit as int - '0' as int
}

/// The number that decimal digits stand for.
pub open spec fn decimal(digits: Seq<char>) -> int
    decreases digits.len(),
{
    if digits.len() == 0 {
        0
    } else {
        10 * decimal(digits.drop_last()) + digit_value(digits.last())
    }
}

/// The digits of an unsigned number, which may follow one plus sign.
pub open spec fn unsigned_digits(text: Seq<char>) -> Seq<char> {
    if text.len() > 0 && text[0] == '+' {
        text.skip(1)
    } else {
        text
    }
}

/// The number that `text` writes in decimal, if it writes one and it fits in 64 bits: digits alone,
/// at least one of them, after an optional plus sign.
pub open spec fn decimal_u64(text: Seq<char>) -> Option<u64> {
    let digits = unsigned_digits(text);
    if digits.len() > 0 && (forall|i: int| 0 <= i < digits.len() ==> is_digit(#[trigger] digits[i]))
        && decimal(digits) <= u64::MAX {
        Some(decimal(digits) as u64)
    } else {
        None
    }
}

/// More digits make no smaller number.
proof fn lemma_decimal_grows(digits: Seq<char>, count: int)
    requires
        0 <= count <= digits.len(),
        forall|i: int| 0 <= i < digits.len() ==> is_digit(#[trigger] digits[i]),
    ensures
        0 <= decimal(digits.take(count)) <= decimal(digits),
    decreases digits.len(),
{
    if count == digits.len() {
        assert(digits.take(count) =~= digits);
        if digits.len() > 0 {
            lemma_decimal_grows(digits.drop_last(), digits.len() - 1);
            assert(digits.drop_last().take(digits.len() - 1) =~= digits.drop_last());
        }
    } else {
        lemma_decimal_grows(digits.drop_last(), count);
        assert(digits.drop_last().take(count) =~= digits.take(count));
    }
}

/// Reads an unsigned decimal number of 64 bits.
pub(crate) fn read_u64(text: &str) -> (number: Option<u64>)
    ensures
        number == decimal_u64(text@),
{
    let length: usize = text.unicode_len();
    let start: usize = if length > 0 && text.get_char(0) == '+' {
        1
    } else {
        0
    };
    let ghost digits = unsigned_digits(text@);
    if start == length {
        return None;
    }
    let mut at: usize = start;
    let mut number: u64 = 0;
    proof {
        assert(digits.take(0) =~= Seq::<char>::empty());
    }
    while at < length
        invariant
            start <= at <= length == text@.len(),
            digits.len() == length - start,
            digits == unsigned_digits(text@),
            forall|i: int| 0 <= i < digits.len() ==> digits[i] == text@[i + start],
            forall|i: int| 0 <= i < at - start ==> is_digit(#[trigger] digits[i]),
            number == decimal(digits.take(at - start)),
        decreases length - at,
    {
        let digit = text.get_char(at);
        let ghost taken = digits.take(at - start + 1);
        proof {
            assert(digits[at - start] == digit);
            assert(taken.drop_last() =~= digits.take(at - start));
            assert(taken.last() == digit);
        }
        if !('0' <= digit && digit <= '9') {
            return None;
        }
        let value: u64 = (digit as u64) - ('0' as u64);
        if number > (u64::MAX - value) / 10 {
            proof {
                if forall|i: int| 0 <= i < digits.len() ==> is_digit(#[trigger] digits[i]) {
                    lemma_decimal_grows(digits, at - start + 1);
                }
            }
            return None;
        }
        number = number * 10 + value;
        at = at + 1;
    }
    proof {
        assert(digits.take(length - start) =~= digits);
    }
    Some(number)
}

/// The text of an optional string is its text.
pub proof fn law_text_is_kept(text: &str, owned: String)
    ensures
        text_of(Some(text)) == Some(text@),
        text_of(None) is None,
        owned_text_of(Some(owned)) == Some(owned@),
        owned_text_of(None) is None,
{
}

/// Nothing follows a mark that is not there.
pub proof fn law_after_last_needs_a_mark(text: Seq<char>, mark: char)
    ensures
        after_last(text, mark) is None <==> !text.contains(mark),
{
    text.index_of_last_ensures(mark);
}

/// What precedes the first mark holds none, and is followed by one or is all there is.
pub proof fn law_before_first_stops_at_the_mark(text: Seq<char>, mark: char)
    ensures
        before_first(text, mark).is_prefix_of(text),
        !before_first(text, mark).contains(mark),
        before_first(text, mark).len() < text.len() <==> text.contains(mark),
        text.contains(mark) ==> text[before_first(text, mark).len() as int] == mark,
{
    text.index_of_first_ensures(mark);
    let head = before_first(text, mark);
    if head.contains(mark) {
        let at = choose|at: int| 0 <= at < head.len() && head[at] == mark;
        assert(text[at] == mark);
    }
}

/// Decimal digits count by their place: one more digit makes the number ten times as great and adds
/// the digit.
pub proof fn law_digits_count_by_place(digits: Seq<char>, digit: char)
    ensures
        decimal(Seq::empty()) == 0,
        decimal(digits.push(digit)) == 10 * decimal(digits) + (digit as int - '0' as int),
{
    assert(digits.push(digit).drop_last() =~= digits);
}

/// A text is a number exactly where it is digits alone, at least one, after a plus sign or without
/// one, and the number fits in 64 bits; the plus sign changes nothing.
pub proof fn law_numbers_are_digits(digits: Seq<char>)
    ensures
        digits.len() > 0 && (forall|i: int|
            0 <= i < digits.len() ==> '0' <= #[trigger] digits[i] <= '9') ==> (decimal(digits)
            <= 0xFFFF_FFFF_FFFF_FFFF <==> decimal_u64(digits) is Some),
        digits.len() > 0 && (forall|i: int|
            0 <= i < digits.len() ==> '0' <= #[trigger] digits[i] <= '9') && decimal(digits)
            <= 0xFFFF_FFFF_FFFF_FFFF ==> decimal_u64(digits)->0 == decimal(digits) && decimal_u64(
            seq!['+'] + digits,
        ) == decimal_u64(digits),
        decimal_u64(Seq::empty()) is None,
        decimal_u64(seq!['+']) is None,
        (exists|i: int|
            0 < i < digits.len() && !('0' <= #[trigger] digits[i] <= '9')) ==> decimal_u64(
            digits,
        ) is None,
        digits.len() > 0 && digits[0] != '+' && !('0' <= digits[0] <= '9') ==> decimal_u64(
            digits,
        ) is None,
{
    let signed = seq!['+'] + digits;
    assert(unsigned_digits(signed) =~= digits);
    assert(unsigned_digits(seq!['+']) =~= Seq::<char>::empty());
    if digits.len() > 0 && (forall|i: int|
        0 <= i < digits.len() ==> '0' <= #[trigger] digits[i] <= '9') {
        assert(unsigned_digits(digits) == digits);
        lemma_decimal_grows(digits, 0);
        assert(forall|i: int| 0 <= i < digits.len() ==> is_digit(#[trigger] digits[i]));
    }
    if exists|i: int| 0 < i < digits.len() && !('0' <= #[trigger] digits[i] <= '9') {
        let at = choose|i: int| 0 < i < digits.len() && !('0' <= #[trigger] digits[i] <= '9');
        let rest = unsigned_digits(digits);
        let shift = digits.len() - rest.len();
        assert(rest[at - shift] == digits[at]);
        assert(!is_digit(rest[at - shift]));
    }
    if digits.len() > 0 && digits[0] != '+' && !('0' <= digits[0] <= '9') {
        assert(!is_digit(unsigned_digits(digits)[0]));
    }
}

} // verus!
