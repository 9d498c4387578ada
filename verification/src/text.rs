//! Numbers and messages as text.

use vstd::prelude::*;

verus! {

/// The character of one digit below sixteen, letters in lower case.
pub open spec fn digit_char(digit: nat) -> char {
    seq!['0', '1', '2', '3', '4', '5', '6', '7', '8', '9', 'a', 'b', 'c', 'd', 'e', 'f'][digit as int]
}

/// `n` in base sixteen, without leading zeros.
pub open spec fn hex_digits(n: nat) -> Seq<char>
    decreases n,
{
    if n < 16 {
        seq![digit_char(n)]
    } else {
        hex_digits(n / 16).push(digit_char(n % 16))
    }
}

/// `n` in base ten, without leading zeros.
pub open spec fn decimal_digits(n: nat) -> Seq<char>
    decreases n,
{
    if n < 10 {
        seq![digit_char(n)]
    } else {
        decimal_digits(n / 10).push(digit_char(n % 10))
    }
}

/// A signed number in base ten.
pub open spec fn decimal_text(n: int) -> Seq<char> {
    if n < 0 {
        seq!['-'] + decimal_digits((-n) as nat)
    } else {
        decimal_digits(n as nat)
    }
}

fn digit_text(digit: u8) -> (text: &'static str)
    requires
        digit < 16,
    ensures
        text@ == seq![digit_char(digit as nat)],
{
    proof {
        reveal_strlit("0");
        reveal_strlit("1");
        reveal_strlit("2");
        reveal_strlit("3");
        reveal_strlit("4");
        reveal_strlit("5");
        reveal_strlit("6");
        reveal_strlit("7");
        reveal_strlit("8");
        reveal_strlit("9");
        reveal_strlit("a");
        reveal_strlit("b");
        reveal_strlit("c");
        reveal_strlit("d");
        reveal_strlit("e");
        reveal_strlit("f");
    }
    match digit {
        0 => "0",
        1 => "1",
        2 => "2",
        3 => "3",
        4 => "4",
        5 => "5",
        6 => "6",
        7 => "7",
        8 => "8",
        9 => "9",
        10 => "a",
        11 => "b",
        12 => "c",
        13 => "d",
        14 => "e",
        _ => "f",
    }
}

/// Write `n` in lower-case hexadecimal.
pub fn hex(n: u128) -> (text: String)
    ensures
        text@ == hex_digits(n as nat),
    decreases n,
{
    if n < 16 {
        digit_text(n as u8).to_owned()
    } else {
        let mut text = hex(n / 16);
        text.append(digit_text((n % 16) as u8));
        text
    }
}

fn decimal_magnitude(n: u64) -> (text: String)
    ensures
        text@ == decimal_digits(n as nat),
    decreases n,
{
    if n < 10 {
        digit_text(n as u8).to_owned()
    } else {
        let mut text = decimal_magnitude(n / 10);
        text.append(digit_text((n % 10) as u8));
        text
    }
}

/// Write a signed number in base ten.
pub fn decimal(n: i32) -> (text: String)
    ensures
        text@ == decimal_text(n as int),
{
    let wide: i64 = n as i64;
    if wide < 0 {
        proof {
            reveal_strlit("-");
        }
        let mut text = "-".to_owned();
        let magnitude: u64 = (-wide) as u64;
        let digits = decimal_magnitude(magnitude);
        text.append(digits.as_str());
        assert("-"@ =~= seq!['-']);
        text
    } else {
        decimal_magnitude(wide as u64)
    }
}

/// Whether two texts are the same.
pub fn same_text(left: &str, right: &str) -> (same: bool)
    ensures
        same == (left@ == right@),
{
    left.to_owned() == right.to_owned()
}

/// What some texts are.
pub open spec fn texts(strings: Seq<String>) -> Seq<Seq<char>> {
    strings.map_values(|string: String| string@)
}

/// What a text is, where there is one.
pub open spec fn optional_text(string: Option<String>) -> Option<Seq<char>> {
    match string {
        Some(string) => Some(string@),
        None => None,
    }
}

/// Whether an optional text is the given one.
pub(crate) fn is_text(string: &Option<String>, text: &str) -> (is: bool)
    ensures
        is == (optional_text(*string) == Some(text@)),
{
    match string {
        Some(string) => same_text(string.as_str(), text),
        None => false,
    }
}

/// Copy a list of texts.
pub(crate) fn copy_texts(strings: &Vec<String>) -> (copy: Vec<String>)
    ensures
        texts(copy@) == texts(strings@),
{
    let mut copy: Vec<String> = Vec::new();
    let mut next: usize = 0;
    while next < strings.len()
        invariant
            next <= strings@.len(),
            copy@ == strings@.take(next as int),
        decreases strings@.len() - next,
    {
        copy.push(strings[next].clone());
        next += 1;
        assert(copy@ =~= strings@.take(next as int));
    }
    assert(copy@ =~= strings@);
    copy
}

/// No two numbers share a hexadecimal text.
pub proof fn hex_digits_are_unique(a: nat, b: nat)
    requires
        hex_digits(a) == hex_digits(b),
    ensures
        a == b,
    decreases a,
{
    let left = hex_digits(a);
    let right = hex_digits(b);
    assert(left.last() == digit_char(a % 16));
    assert(right.last() == digit_char(b % 16));
    assert(a % 16 == b % 16);
    if a < 16 {
        hex_digits_are_not_empty(b / 16);
        assert(left.len() == 1);
        assert(b < 16);
    } else {
        hex_digits_are_not_empty(a / 16);
        assert(b >= 16);
        assert(left.drop_last() =~= hex_digits(a / 16));
        assert(right.drop_last() =~= hex_digits(b / 16));
        hex_digits_are_unique(a / 16, b / 16);
    }
}

/// Every number has at least one digit.
pub proof fn hex_digits_are_not_empty(n: nat)
    ensures
        hex_digits(n).len() > 0,
{
}

/// The number that a digit stands for.
pub open spec fn digit_value(digit: char) -> nat {
    if '0' <= digit <= '9' {
        (digit as int - '0' as int) as nat
    } else {
        (10 + (digit as int - 'a' as int)) as nat
    }
}

/// Whether a character is a digit in a base of sixteen at most, letters in
/// lower case.
pub open spec fn is_digit(digit: char, base: nat) -> bool {
    ('0' <= digit <= '9' || 'a' <= digit <= 'f') && digit_value(digit) < base
}

/// The number that a text of digits stands for.
pub open spec fn number_of(text: Seq<char>, base: nat) -> nat
    decreases text.len(),
{
    if text.len() == 0 {
        0
    } else {
        number_of(text.drop_last(), base) * base + digit_value(text.last())
    }
}

/// Whether a text writes a number: with digits of the base only, at least one,
/// and no zero in front of others.
pub open spec fn writes(text: Seq<char>, n: nat, base: nat) -> bool {
    &&& number_of(text, base) == n
    &&& text.len() > 0
    &&& text.len() > 1 ==> text[0] != '0'
    &&& forall|i: int| 0 <= i < text.len() ==> is_digit(#[trigger] text[i], base)
}

proof fn lemma_digit(digit: nat)
    requires
        digit < 16,
    ensures
        digit_value(digit_char(digit)) == digit,
        is_digit(digit_char(digit), 16),
        digit < 10 ==> is_digit(digit_char(digit), 10),
        digit > 0 ==> digit_char(digit) != '0',
{
    assert(digit == 0 || digit == 1 || digit == 2 || digit == 3 || digit == 4 || digit == 5
        || digit == 6 || digit == 7 || digit == 8 || digit == 9 || digit == 10 || digit == 11
        || digit == 12 || digit == 13 || digit == 14 || digit == 15);
}

/// The hexadecimal text of a number writes that number.
pub proof fn hexadecimal_reads_back(n: nat)
    ensures
        writes(hex_digits(n), n, 16),
        n > 0 ==> hex_digits(n)[0] != '0',
    decreases n,
{
    lemma_digit(n % 16);
    let text = hex_digits(n);
    let digit = digit_char(n % 16);
    if n < 16 {
        assert(text.drop_last() =~= Seq::<char>::empty());
        assert(number_of(text.drop_last(), 16) == 0);
        assert(text.last() == digit);
        assert(number_of(text, 16) == n);
    } else {
        let front = hex_digits(n / 16);
        hexadecimal_reads_back(n / 16);
        assert(text.drop_last() =~= front);
        assert(text.last() == digit);
        assert(number_of(text, 16) == n);
        assert forall|i: int| 0 <= i < text.len() implies is_digit(#[trigger] text[i], 16) by {
            if i < front.len() {
                assert(text[i] == front[i]);
            }
        }
        assert(text[0] == front[0]);
    }
}

proof fn lemma_decimal_reads_back(n: nat)
    ensures
        writes(decimal_digits(n), n, 10),
        n > 0 ==> decimal_digits(n)[0] != '0',
    decreases n,
{
    lemma_digit(n % 10);
    let text = decimal_digits(n);
    let digit = digit_char(n % 10);
    if n < 10 {
        assert(text.drop_last() =~= Seq::<char>::empty());
        assert(number_of(text.drop_last(), 10) == 0);
        assert(text.last() == digit);
        assert(number_of(text, 10) == n);
    } else {
        let front = decimal_digits(n / 10);
        lemma_decimal_reads_back(n / 10);
        assert(text.drop_last() =~= front);
        assert(text.last() == digit);
        assert(number_of(text, 10) == n);
        assert forall|i: int| 0 <= i < text.len() implies is_digit(#[trigger] text[i], 10) by {
            if i < front.len() {
                assert(text[i] == front[i]);
            }
        }
        assert(text[0] == front[0]);
    }
}

/// The decimal text of a number writes that number, behind a minus sign where
/// it is negative.
pub proof fn decimal_reads_back(n: int)
    ensures
        n >= 0 ==> writes(decimal_text(n), n as nat, 10),
        n < 0 ==> decimal_text(n)[0] == '-' && writes(
            decimal_text(n).drop_first(),
            (-n) as nat,
            10,
        ),
{
    if n < 0 {
        lemma_decimal_reads_back((-n) as nat);
        assert(decimal_text(n).drop_first() =~= decimal_digits((-n) as nat));
    } else {
        lemma_decimal_reads_back(n as nat);
    }
}

/// Texts are viewed one by one, in order, none left out.
pub proof fn every_text_is_viewed(strings: Seq<String>)
    ensures
        texts(strings).len() == strings.len(),
        forall|i: int| 0 <= i < strings.len() ==> #[trigger] texts(strings)[i] == strings[i]@,
{
}

/// An optional text is viewed as it is.
pub proof fn an_optional_text_is_viewed(string: Option<String>)
    ensures
        optional_text(string) is Some <==> string is Some,
        string matches Some(text) ==> optional_text(string) == Some(text@),
{
}

} // verus!
