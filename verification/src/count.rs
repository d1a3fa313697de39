//! Download counts as the registry prints them: decimal digits, grouped by commas.

use vstd::prelude::*;
use crate::chars::chars_of;

verus! {

/// Why a text is not a download count.
#[derive(Debug, Clone, Copy, PartialEq, Eq, Structural)]
pub enum CountError {
    /// Nothing is left once the separators are taken out.
    Empty,
    /// A character that is not a decimal digit, or a sign with no digit behind it.
    InvalidDigit,
    /// The digits stand for a number above `u64::MAX`.
    Overflow,
}

/// `text` with every comma taken out.
pub open spec fn without_separators(text: Seq<char>) -> Seq<char>
    decreases text.len(),
{
    if text.len() == 0 {
        Seq::empty()
    } else {
        let kept = without_separators(text.drop_last());
        if text.last() == ',' {
            kept
        } else {
            kept.push(text.last())
        }
    }
}

/// Whether `c` is one of the ten decimal digits.
pub open spec fn is_digit(c: char) -> bool {
    48 <= c as u32 <= 57
}

/// The number that the digit `c` stands for.
pub open spec fn digit_value(c: char) -> nat {
    if is_digit(c) {
        (c as u32 - 48) as nat
    } else {
        0
    }
}

/// The number that `digits` stand for in base ten, the first digit weighing most.
pub open spec fn decimal_value(digits: Seq<char>) -> nat
    decreases digits.len(),
{
    if digits.len() == 0 {
        0
    } else {
        decimal_value(digits.drop_last()) * 10 + digit_value(digits.last())
    }
}

/// How many digits stand at the front of `text` before anything else.
pub open spec fn digit_run(text: Seq<char>) -> nat
    decreases text.len(),
{
    if text.len() == 0 || !is_digit(text[0]) {
        0
    } else {
        1 + digit_run(text.drop_first())
    }
}

/// `text` without the plus sign that may lead it.
pub open spec fn unsigned(text: Seq<char>) -> Seq<char> {
    if text.len() > 0 && text[0] == '+' {
        text.drop_first()
    } else {
        text
    }
}

/// The count that `text` stands for: decimal digits, which a single plus sign may lead.
/// Reading from the left, digits that pass `u64::MAX` are reported before a character
/// further right that is no digit.
pub open spec fn count_of(text: Seq<char>) -> Result<u64, CountError> {
    let digits = unsigned(text);
    let run = digits.take(digit_run(digits) as int);
    if text.len() == 0 {
        Err(CountError::Empty)
    } else if digits.len() == 0 {
        Err(CountError::InvalidDigit)
    } else if decimal_value(run) > u64::MAX {
        Err(CountError::Overflow)
    } else if run.len() < digits.len() {
        Err(CountError::InvalidDigit)
    } else {
        Ok(decimal_value(digits) as u64)
    }
}

/// The count that the text of a downloads cell stands for, commas set aside.
pub open spec fn downloads_of(raw: Seq<char>) -> Result<u64, CountError> {
    count_of(without_separators(raw))
}

/// Whether `digits` is the decimal form of `count`: decimal digits alone, at least one,
/// that write `count`. Zeros may lead.
pub open spec fn is_decimal_form(digits: Seq<char>, count: nat) -> bool {
    &&& digits.len() > 0
    &&& forall|i: int| 0 <= i < digits.len() ==> is_digit(digits[i])
    &&& decimal_value(digits) == count
}

/// A text that starts with `k` digits has a digit run of at least `k`.
pub proof fn lemma_digit_run_at_least(text: Seq<char>, k: nat)
    requires
        k <= text.len(),
        forall|j: int| 0 <= j < k ==> is_digit(text[j]),
    ensures
        digit_run(text) >= k,
    decreases k,
{
    if k > 0 {
        let rest = text.drop_first();
        assert forall|j: int| 0 <= j < k - 1 implies is_digit(rest[j]) by {
            assert(rest[j] == text[j + 1]);
        }
        lemma_digit_run_at_least(rest, (k - 1) as nat);
    }
}

/// A text whose first `k` characters are digits, and which ends there or goes on with
/// something else, has a digit run of exactly `k`.
pub proof fn lemma_digit_run_exact(text: Seq<char>, k: nat)
    requires
        k <= text.len(),
        forall|j: int| 0 <= j < k ==> is_digit(text[j]),
        k == text.len() || !is_digit(text[k as int]),
    ensures
        digit_run(text) == k,
    decreases k,
{
    if k > 0 {
        let rest = text.drop_first();
        assert forall|j: int| 0 <= j < k - 1 implies is_digit(rest[j]) by {
            assert(rest[j] == text[j + 1]);
        }
        if k < text.len() {
            assert(rest[k - 1] == text[k as int]);
        }
        lemma_digit_run_exact(rest, (k - 1) as nat);
    }
}

/// The digit run of a text is no longer than the text.
pub proof fn lemma_digit_run_bound(text: Seq<char>)
    ensures
        digit_run(text) <= text.len(),
    decreases text.len(),
{
    if text.len() > 0 && is_digit(text[0]) {
        lemma_digit_run_bound(text.drop_first());
    }
}

/// Reading more digits never makes the number smaller.
pub proof fn lemma_decimal_value_grows(digits: Seq<char>, m: int, n: int)
    requires
        0 <= m <= n <= digits.len(),
    ensures
        decimal_value(digits.take(m)) <= decimal_value(digits.take(n)),
    decreases n - m,
{
    if m < n {
        lemma_decimal_value_grows(digits, m, n - 1);
        assert(digits.take(n).drop_last() =~= digits.take(n - 1));
    }
}

/// The digit run of a text ends before a character that is no digit.
pub proof fn lemma_digit_run_stops(text: Seq<char>, k: int)
    requires
        0 <= k < text.len(),
        !is_digit(text[k]),
    ensures
        digit_run(text) <= k,
    decreases k,
{
    if k > 0 && is_digit(text[0]) {
        let rest = text.drop_first();
        assert(rest[k - 1] == text[k]);
        lemma_digit_run_stops(rest, k - 1);
    }
}

/// What is left of a text without its commas holds no comma and is no longer than the
/// text.
pub proof fn lemma_no_separator_is_left(text: Seq<char>)
    ensures
        without_separators(text).len() <= text.len(),
        forall|i: int|
            0 <= i < without_separators(text).len() ==> #[trigger] without_separators(text)[i]
                != ',',
    decreases text.len(),
{
    if text.len() > 0 {
        lemma_no_separator_is_left(text.drop_last());
    }
}

/// Taking the commas out of a text made of two parts is taking them out of each part.
pub proof fn lemma_without_separators_concat(left: Seq<char>, right: Seq<char>)
    ensures
        without_separators(left + right) == without_separators(left) + without_separators(right),
    decreases right.len(),
{
    if right.len() == 0 {
        assert(left + right =~= left);
        assert(without_separators(left) + without_separators(right) =~= without_separators(left));
    } else {
        let whole = left + right;
        assert(whole.drop_last() =~= left + right.drop_last());
        assert(whole.last() == right.last());
        lemma_without_separators_concat(left, right.drop_last());
        let kept = without_separators(left) + without_separators(right.drop_last());
        if right.last() != ',' {
            assert(kept.push(right.last()) =~= without_separators(left) + without_separators(
                right.drop_last(),
            ).push(right.last()));
        }
    }
}

/// A comma, wherever it stands in the text of a cell, does not change the count that the
/// text stands for, nor whether it stands for one.
pub proof fn lemma_separator_is_set_aside(left: Seq<char>, right: Seq<char>)
    ensures
        downloads_of(left + seq![','] + right) == downloads_of(left + right),
{
    let comma = seq![','];
    assert(comma.drop_last() =~= Seq::<char>::empty());
    assert(without_separators(comma.drop_last()) =~= Seq::<char>::empty());
    assert(comma.last() == ',');
    assert(without_separators(comma) =~= Seq::<char>::empty());
    lemma_without_separators_concat(left, comma);
    lemma_without_separators_concat(left + comma, right);
    lemma_without_separators_concat(left, right);
    assert(without_separators(left) + Seq::<char>::empty() =~= without_separators(left));
}

/// A text of nothing but digits stands for the number that they write, or for none where
/// that number does not fit in 64 bits.
pub proof fn lemma_digits_give_their_value(text: Seq<char>)
    requires
        text.len() > 0,
        forall|i: int| 0 <= i < text.len() ==> is_digit(text[i]),
    ensures
        decimal_value(text) <= u64::MAX ==> count_of(text) == Ok::<u64, CountError>(
            decimal_value(text) as u64,
        ),
        decimal_value(text) > u64::MAX ==> count_of(text) == Err::<u64, CountError>(
            CountError::Overflow,
        ),
{
    assert(is_digit(text[0]));
    lemma_digit_run_exact(text, text.len());
    assert(text.take(text.len() as int) =~= text);
}

/// The text of a cell that, commas set aside, is the decimal form of a count within 64
/// bits stands for that count.
pub proof fn lemma_decimal_form_gives_its_count(raw: Seq<char>, count: nat)
    requires
        is_decimal_form(without_separators(raw), count),
        count <= u64::MAX,
    ensures
        downloads_of(raw) == Ok::<u64, CountError>(count as u64),
{
    lemma_digits_give_their_value(without_separators(raw));
}

/// A text that holds a character which is neither a digit nor a plus sign at the very
/// start stands for no count.
pub proof fn lemma_stray_character_fails(text: Seq<char>, i: int)
    requires
        0 <= i < text.len(),
        !is_digit(text[i]),
        i > 0 || text[0] != '+',
    ensures
        count_of(text) is Err,
{
    let digits = unsigned(text);
    if text[0] == '+' {
        assert(digits[i - 1] == text[i]);
        lemma_digit_run_stops(digits, i - 1);
    } else {
        lemma_digit_run_stops(digits, i);
    }
}

/// Copies `text` without its commas.
pub fn strip_separators(text: &Vec<char>) -> (kept: Vec<char>)
    ensures
        kept@ == without_separators(text@),
{
    let mut kept: Vec<char> = Vec::new();
    let mut i: usize = 0;
    while i < text.len()
        invariant
            i <= text.len(),
            kept@ == without_separators(text@.take(i as int)),
        decreases text.len() - i,
    {
        assert(text@.take(i + 1).drop_last() =~= text@.take(i as int));
        if text[i] != ',' {
            kept.push(text[i]);
        }
        i = i + 1;
    }
    assert(text@.take(i as int) =~= text@);
    kept
}

/// Reads a count from its decimal digits.
pub fn parse_count(text: &Vec<char>) -> (result: Result<u64, CountError>)
    ensures
        result == count_of(text@),
{
    if text.len() == 0 {
        return Err(CountError::Empty);
    }
    let start: usize = if text[0] == '+' {
        1
    } else {
        0
    };
    let ghost digits = unsigned(text@);
    assert(digits =~= text@.subrange(start as int, text.len() as int));
    if start == text.len() {
        return Err(CountError::InvalidDigit);
    }
    let mut value: u64 = 0;
    let mut i: usize = start;
    while i < text.len()
        invariant
            start <= i <= text.len(),
            start < text.len(),
            digits == unsigned(text@),
            digits == text@.subrange(start as int, text.len() as int),
            forall|j: int| 0 <= j < i - start ==> is_digit(digits[j]),
            value == decimal_value(digits.take(i - start)),
        decreases text.len() - i,
    {
        let c = text[i];
        let code: u32 = c as u32;
        let ghost k: int = i - start;
        assert(digits[k] == c);
        if code < 48 || code > 57 {
            proof {
                lemma_digit_run_exact(digits, k as nat);
            }
            return Err(CountError::InvalidDigit);
        }
        let digit: u64 = (code - 48) as u64;
        assert(digits.take(k + 1).drop_last() =~= digits.take(k));
        assert(decimal_value(digits.take(k + 1)) == value * 10 + digit);
        if value > 1844674407370955161 || (value == 1844674407370955161 && digit > 5) {
            proof {
                lemma_digit_run_at_least(digits, (k + 1) as nat);
                lemma_digit_run_bound(digits);
                lemma_decimal_value_grows(digits, k + 1, digit_run(digits) as int);
            }
            return Err(CountError::Overflow);
        }
        value = value * 10 + digit;
        i = i + 1;
    }
    proof {
        lemma_digit_run_exact(digits, digits.len());
        assert(digits.take(digits.len() as int) =~= digits);
    }
    Ok(value)
}

/// Reads the download count of a table cell: the commas that group the digits are set
/// aside, and what is left must be a decimal number that fits in 64 bits.
pub fn parse_downloads(raw: &str) -> (result: Result<u64, CountError>)
    ensures
        result == downloads_of(raw@),
{
    let chars = chars_of(raw);
    let kept = strip_separators(&chars);
    parse_count(&kept)
}

/// The words that name `error`.
pub open spec fn count_error_text(error: CountError) -> Seq<char> {
    match error {
        CountError::Empty => "cannot parse integer from empty string"@,
        CountError::InvalidDigit => "invalid digit found in string"@,
        CountError::Overflow => "number too large to fit in target type"@,
    }
}

impl CountError {
    /// The reason in words.
    pub fn message(&self) -> (text: &'static str)
        ensures
            text@ == count_error_text(*self),
    {
        match self {
            CountError::Empty => "cannot parse integer from empty string",
            CountError::InvalidDigit => "invalid digit found in string",
            CountError::Overflow => "number too large to fit in target type",
        }
    }
}

} // verus!
