//! Character-level text helpers: searching, prefixes and decimal numbers.

use vstd::prelude::*;
use vstd::string::StringExecFns;

verus! {

/// `part` occurs in `text` as a run of consecutive characters.
pub open spec fn has_part(text: Seq<char>, part: Seq<char>) -> bool {
    exists|at: int|
        0 <= at <= text.len() - part.len() && #[trigger] text.subrange(at, at + part.len()) == part
}

/// `text` begins with `prefix`.
pub open spec fn has_prefix(text: Seq<char>, prefix: Seq<char>) -> bool {
    prefix.len() <= text.len() && text.subrange(0, prefix.len() as int) == prefix
}

/// The decimal digit of a value below ten.
pub open spec fn digit(value: nat) -> char {
    (48 + value) as char
}

/// The shortest decimal form of a number: no leading zero, and `0` for zero.
pub open spec fn decimal(value: nat) -> Seq<char>
    decreases value,
{
    if value < 10 {
        seq![digit(value)]
    } else {
        decimal(value / 10).push(digit(value % 10))
    }
}

/// The characters of a string, in order.
fn characters(text: &str) -> (chars: Vec<char>)
    ensures
        chars@ == text@,
{
    let mut chars: Vec<char> = Vec::new();
    for c in it: text.chars()
        invariant
            it.seq() == text@,
            chars@ == text@.take(it.index()),
    {
        chars.push(c);
    }
    chars
}

/// Whether `part` stands in `text` at position `at`.
fn matches_at(text: &Vec<char>, part: &Vec<char>, at: usize) -> (found: bool)
    requires
        at + part@.len() <= text@.len(),
    ensures
        found == (text@.subrange(at as int, at + part@.len()) == part@),
{
    let mut i: usize = 0;
    while i < part.len()
        invariant
            i <= part.len(),
            at + part.len() <= text.len(),
            forall|j: int| 0 <= j < i ==> text@[at + j] == #[trigger] part@[j],
        decreases part@.len() - i,
    {
        if text[at + i] != part[i] {
            assert(text@.subrange(at as int, at + part@.len())[i as int] != part@[i as int]);
            return false;
        }
        i = i + 1;
    }
    assert(text@.subrange(at as int, at + part@.len()) =~= part@);
    true
}

/// Whether `part` occurs anywhere in `text`.
pub fn contains(text: &str, part: &str) -> (found: bool)
    ensures
        found == has_part(text@, part@),
{
    let text_chars = characters(text);
    let part_chars = characters(part);
    if part_chars.len() > text_chars.len() {
        return false;
    }
    let last: usize = text_chars.len() - part_chars.len();
    let mut at: usize = 0;
    loop
        invariant
            text_chars@ == text@,
            part_chars@ == part@,
            last == text@.len() - part@.len(),
            at <= last,
            forall|i: int|
                0 <= i < at ==> #[trigger] text@.subrange(i, i + part@.len()) != part@,
        decreases last - at,
    {
        if matches_at(&text_chars, &part_chars, at) {
            return true;
        }
        if at == last {
            return false;
        }
        at = at + 1;
    }
}

/// Whether `text` begins with `prefix`.
pub fn starts_with(text: &str, prefix: &str) -> (found: bool)
    ensures
        found == has_prefix(text@, prefix@),
{
    let text_chars = characters(text);
    let prefix_chars = characters(prefix);
    prefix_chars.len() <= text_chars.len() && matches_at(&text_chars, &prefix_chars, 0)
}

/// The one-character string of a digit.
fn digit_text(value: u64) -> (text: &'static str)
    requires
        value < 10,
    ensures
        text@ == seq![digit(value as nat)],
{
    proof {
        reveal_strlit("0");
        reveal_strlit("1");
        reveal_strlit("2");
        reveal_strlit("3");
        reveal_strlit("4");
        reveal_strlit("5");
        reveal_strlit("6");
        reveal_strlit("7");
        reveal_strlit("8");
        reveal_strlit("9");
    }
    match value {
        0 => "0",
        1 => "1",
        2 => "2",
        3 => "3",
        4 => "4",
        5 => "5",
        6 => "6",
        7 => "7",
        8 => "8",
        _ => "9",
    }
}

/// A number in its shortest decimal form.
pub fn decimal_text(value: u64) -> (text: String)
    ensures
        text@ == decimal(value as nat),
    decreases value,
{
    if value < 10 {
        String::from_str(digit_text(value))
    } else {
        let mut text = decimal_text(value / 10);
        text.append(digit_text(value % 10));
        text
    }
}

/// Three strings, one after the other.
pub(crate) fn join3(first: &str, second: &str, third: &str) -> (text: String)
    ensures
        text@ == first@ + second@ + third@,
{
    let mut text = String::from_str(first);
    text.append(second);
    text.append(third);
    text
}

/// The number that decimal digits denote.
pub open spec fn denoted(digits: Seq<char>) -> nat
    decreases digits.len(),
{
    if digits.len() == 0 {
        0
    } else {
        denoted(digits.drop_last()) * 10 + (digits.last() as nat - 48) as nat
    }
}

/// A number can be read back from its decimal form, which is made of the
/// digits `0` to `9` and has no leading zero.
pub proof fn law_decimal_reads_back(value: nat)
    ensures
        denoted(decimal(value)) == value,
        decimal(value).len() > 0,
        decimal(value)[0] == '0' ==> value == 0 && decimal(value).len() == 1,
        forall|i: int|
            0 <= i < decimal(value).len() ==> '0' as int <= #[trigger] decimal(value)[i] as int
                <= '9' as int,
    decreases value,
{
    reveal_with_fuel(denoted, 2);
    if value >= 10 {
        law_decimal_reads_back(value / 10);
        assert(decimal(value).drop_last() =~= decimal(value / 10));
        assert(decimal(value)[0] == decimal(value / 10)[0]);
    } else {
        assert(decimal(value).drop_last() =~= Seq::empty());
    }
}

/// A digit behind a number's decimal form makes it ten times as large and adds
/// the digit, and the form of a single digit is that digit.
pub proof fn law_decimal_grows_by_digits(value: nat, last: char)
    requires
        '0' as int <= last as int <= '9' as int,
    ensures
        decimal((last as int - '0' as int) as nat) == seq![last],
        value > 0 ==> decimal((value * 10 + (last as int - '0' as int)) as nat) == decimal(
            value,
        ).push(last),
{
    let d = (last as int - '0' as int) as nat;
    assert(digit(d) == last);
    if value > 0 {
        let longer = (value * 10 + d) as nat;
        assert(longer / 10 == value);
        assert(longer % 10 == d);
    }
}

/// Reading digits: none denote zero, and each one more counts ten times what
/// came before it.
pub proof fn law_digits_denote_numbers(digits: Seq<char>, last: char)
    requires
        '0' as int <= last as int <= '9' as int,
    ensures
        denoted(Seq::empty()) == 0,
        denoted(digits.push(last)) == denoted(digits) * 10 + (last as int - '0' as int),
{
    assert(digits.push(last).drop_last() =~= digits);
}

/// Different numbers have different decimal forms.
pub proof fn law_decimal_tells_numbers_apart(one: nat, other: nat)
    ensures
        decimal(one) == decimal(other) <==> one == other,
{
    law_decimal_reads_back(one);
    law_decimal_reads_back(other);
}

/// A text begins with a prefix exactly when it is the prefix and something
/// after it.
pub proof fn law_prefix_comes_first(text: Seq<char>, prefix: Seq<char>)
    ensures
        has_prefix(text, prefix) <==> exists|rest: Seq<char>| text == #[trigger] (prefix + rest),
        forall|rest: Seq<char>| has_prefix(#[trigger] (prefix + rest), prefix),
{
    assert forall|rest: Seq<char>| has_prefix(#[trigger] (prefix + rest), prefix) by {
        assert((prefix + rest).subrange(0, prefix.len() as int) =~= prefix);
    }
    if has_prefix(text, prefix) {
        let rest = text.skip(prefix.len() as int);
        assert(text =~= text.subrange(0, prefix.len() as int) + rest);
        assert(text == prefix + rest);
    }
}

/// A text has a part exactly when it is something, the part, and something
/// after it. So a part stays one in every longer text.
pub proof fn law_part_stands_in_the_text(text: Seq<char>, part: Seq<char>)
    ensures
        has_part(text, part) <==> exists|before: Seq<char>, after: Seq<char>|
            text == #[trigger] (before + part + after),
        forall|before: Seq<char>, after: Seq<char>|
            has_part(#[trigger] (before + part + after), part),
{
    assert forall|before: Seq<char>, after: Seq<char>|
        has_part(#[trigger] (before + part + after), part) by {
        let whole = before + part + after;
        let at = before.len() as int;
        assert(whole.subrange(at, at + part.len()) =~= part);
    }
    if has_part(text, part) {
        let at = choose|at: int|
            0 <= at <= text.len() - part.len() && #[trigger] text.subrange(at, at + part.len())
                == part;
        let before = text.take(at);
        let after = text.skip(at + part.len());
        assert(text =~= before + text.subrange(at, at + part.len()) + after);
        assert(text == before + part + after);
    }
}

} // verus!
