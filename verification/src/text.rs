//! Small verified helpers on strings and characters.

use vstd::prelude::*;
use vstd::string::StrSliceExecFns;
use vstd::string::StringExecFns;

verus! {

/// `unit` written `count` times in a row.
pub open spec fn repeated(unit: Seq<char>, count: nat) -> Seq<char>
    decreases count,
{
    if count == 0 {
        Seq::empty()
    } else {
        repeated(unit, (count - 1) as nat) + unit
    }
}

/// A string that holds `unit` `count` times in a row.
pub fn repeat(unit: &str, count: usize) -> (text: String)
    ensures
        text@ == repeated(unit@, count as nat),
{
    let mut text = String::new();
    let mut done: usize = 0;
    while done < count
        invariant
            done <= count,
            text@ == repeated(unit@, done as nat),
        decreases count - done,
    {
        text.append(unit);
        done = done + 1;
    }
    text
}

/// The strings of `parts` in a row, with `separator` between neighbours.
pub open spec fn joined(parts: Seq<Seq<char>>, separator: Seq<char>) -> Seq<char>
    decreases parts.len(),
{
    if parts.len() == 0 {
        Seq::empty()
    } else if parts.len() == 1 {
        parts[0]
    } else {
        joined(parts.drop_last(), separator) + separator + parts.last()
    }
}

/// The strings of `parts` in a row, with `separator` between neighbours.
pub fn join(parts: &Vec<String>, separator: &str) -> (text: String)
    ensures
        text@ == joined(strings_model(parts@), separator@),
{
    let ghost values = strings_model(parts@);
    let mut text = String::new();
    let mut i: usize = 0;
    while i < parts.len()
        invariant
            i <= parts.len(),
            values == strings_model(parts@),
            text@ == joined(values.take(i as int), separator@),
        decreases parts.len() - i,
    {
        if i > 0 {
            text.append(separator);
        }
        text.append(parts[i].as_str());
        proof {
            let next = values.take(i + 1);
            assert(next.drop_last() =~= values.take(i as int));
        }
        i = i + 1;
    }
    assert(values.take(i as int) =~= values);
    text
}

/// `a` followed by `b`.
pub fn concat2(a: &str, b: &str) -> (text: String)
    ensures
        text@ == a@ + b@,
{
    let mut text = String::new();
    text.append(a);
    text.append(b);
    text
}

/// `a`, `b` and `c` in a row.
pub fn concat3(a: &str, b: &str, c: &str) -> (text: String)
    ensures
        text@ == a@ + b@ + c@,
{
    let mut text = String::new();
    text.append(a);
    text.append(b);
    text.append(c);
    text
}

/// The values of a sequence of strings.
pub open spec fn strings_model(strings: Seq<String>) -> Seq<Seq<char>> {
    strings.map_values(|s: String| s@)
}

/// Whether one of `strings` equals `wanted`.
pub fn contains_string(strings: &Vec<String>, wanted: &str) -> (found: bool)
    ensures
        found == strings_model(strings@).contains(wanted@),
{
    let ghost values = strings_model(strings@);
    let mut i: usize = 0;
    while i < strings.len()
        invariant
            i <= strings.len(),
            values == strings_model(strings@),
            forall|k: int| 0 <= k < i ==> values[k] != wanted@,
        decreases strings.len() - i,
    {
        if same_text(strings[i].as_str(), wanted) {
            assert(values[i as int] == wanted@);
            return true;
        }
        i = i + 1;
    }
    false
}

/// Whether `a` and `b` hold the same characters.
pub fn same_text(a: &str, b: &str) -> (same: bool)
    ensures
        same == (a@ == b@),
{
    let a_chars = chars_of(a);
    let b_chars = chars_of(b);
    if a_chars.len() != b_chars.len() {
        return false;
    }
    let mut i: usize = 0;
    while i < a_chars.len()
        invariant
            i <= a_chars.len(),
            a_chars.len() == b_chars.len(),
            a_chars@ == a@,
            b_chars@ == b@,
            forall|k: int| 0 <= k < i ==> a_chars@[k] == b_chars@[k],
        decreases a_chars.len() - i,
    {
        if a_chars[i] != b_chars[i] {
            return false;
        }
        i = i + 1;
    }
    assert(a_chars@ =~= b_chars@);
    true
}

/// The characters of `s`, in order.
pub fn chars_of(s: &str) -> (v: Vec<char>)
    ensures
        v@ == s@,
{
    broadcast use vstd::string::group_string_axioms;

    let mut v: Vec<char> = Vec::new();
    for c in it: s.chars()
        invariant
            it.seq() == s@,
            v@ == it.seq().take(it.index()),
    {
        v.push(c);
    }
    v
}

/// Whether `c` is one of the ten decimal digits.
pub open spec fn is_digit(c: char) -> bool {
    '0' as u32 <= c as u32 <= '9' as u32
}

/// The number that a decimal digit stands for.
pub open spec fn digit_value(c: char) -> nat {
    if is_digit(c) {
        (c as u32 - '0' as u32) as nat
    } else {
        0
    }
}

/// Whether every character is a decimal digit.
pub open spec fn all_digits(digits: Seq<char>) -> bool {
    forall|i: int| 0 <= i < digits.len() ==> is_digit(#[trigger] digits[i])
}

/// The number that a row of decimal digits stands for.
pub open spec fn digits_value(digits: Seq<char>) -> nat
    decreases digits.len(),
{
    if digits.len() == 0 {
        0
    } else {
        digits_value(digits.drop_last()) * 10 + digit_value(digits.last())
    }
}

/// What parsing a string as an unsigned 32-bit number gives: the string is an
/// optional `+` and then at least one decimal digit, and the number fits.
pub open spec fn parsed_u32(text: Seq<char>) -> Option<u32> {
    let digits = if text.len() > 0 && text[0] == '+' {
        text.skip(1)
    } else {
        text
    };
    if digits.len() > 0 && all_digits(digits) && digits_value(digits) <= u32::MAX {
        Some(digits_value(digits) as u32)
    } else {
        None
    }
}

/// A longer row of digits stands for a number that is no smaller than what any
/// of its prefixes stands for.
pub proof fn lemma_digits_value_grows(digits: Seq<char>, n: int)
    requires
        0 <= n <= digits.len(),
    ensures
        digits_value(digits.take(n)) <= digits_value(digits),
    decreases digits.len(),
{
    if n == digits.len() {
        assert(digits.take(n) =~= digits);
    } else {
        lemma_digits_value_grows(digits.drop_last(), n);
        assert(digits.drop_last().take(n) =~= digits.take(n));
    }
}

/// Parses `chars[from..to]` as an unsigned 32-bit number.
pub fn parse_u32(chars: &Vec<char>, from: usize, to: usize) -> (number: Option<u32>)
    requires
        from <= to <= chars.len(),
    ensures
        number == parsed_u32(chars@.subrange(from as int, to as int)),
{
    let ghost text = chars@.subrange(from as int, to as int);
    let start = if from < to && chars[from] == '+' {
        from + 1
    } else {
        from
    };
    let ghost digits = chars@.subrange(start as int, to as int);
    if start == to {
        return None;
    }
    let mut value: u64 = 0;
    let mut i: usize = start;
    while i < to
        invariant
            start <= i <= to <= chars.len(),
            digits == chars@.subrange(start as int, to as int),
            text == chars@.subrange(from as int, to as int),
            digits == if text.len() > 0 && text[0] == '+' {
                text.skip(1)
            } else {
                text
            },
            digits.len() > 0,
            all_digits(digits.take(i - start)),
            value == digits_value(digits.take(i - start)),
            value <= u32::MAX,
        decreases to - i,
    {
        let c = chars[i];
        let ghost next = digits.take(i - start + 1);
        assert(next.drop_last() =~= digits.take(i - start));
        assert(next.last() == c);
        let code: u32 = c as u32;
        if code < '0' as u32 || code > '9' as u32 {
            return None;
        }
        let digit: u64 = (code - '0' as u32) as u64;
        value = value * 10 + digit;
        if value > u32::MAX as u64 {
            proof {
                lemma_digits_value_grows(digits, i - start + 1);
            }
            return None;
        }
        i = i + 1;
    }
    assert(digits.take(i - start) =~= digits);
    Some(value as u32)
}

/// The one character that writes a number below ten.
pub open spec fn digit_char(digit: nat) -> char {
    if digit == 0 {
        '0'
    } else if digit == 1 {
        '1'
    } else if digit == 2 {
        '2'
    } else if digit == 3 {
        '3'
    } else if digit == 4 {
        '4'
    } else if digit == 5 {
        '5'
    } else if digit == 6 {
        '6'
    } else if digit == 7 {
        '7'
    } else if digit == 8 {
        '8'
    } else {
        '9'
    }
}

/// A number in decimal, without sign or leading zeros.
pub open spec fn decimal(number: nat) -> Seq<char>
    decreases number,
{
    if number < 10 {
        seq![digit_char(number)]
    } else {
        decimal(number / 10).push(digit_char(number % 10))
    }
}

fn digit_text(digit: u32) -> (text: &'static str)
    requires
        digit < 10,
    ensures
        text@ == seq![digit_char(digit as nat)],
{
    proof {
        reveal_strlit("0");
        reveal_strlit("1");
        reveal_strlit("2");
        reveal_strlit("3");
        reveal_strlit("4");
        reveal_strlit("5");
        reveal_strlit("6");
        reveal_strlit("7");
        reveal_strlit("8");
        reveal_strlit("9");
    }
    let text = if digit == 0 {
        "0"
    } else if digit == 1 {
        "1"
    } else if digit == 2 {
        "2"
    } else if digit == 3 {
        "3"
    } else if digit == 4 {
        "4"
    } else if digit == 5 {
        "5"
    } else if digit == 6 {
        "6"
    } else if digit == 7 {
        "7"
    } else if digit == 8 {
        "8"
    } else {
        "9"
    };
    text
}

/// Writes a number in decimal.
pub fn u32_to_decimal(number: u32) -> (text: String)
    ensures
        text@ == decimal(number as nat),
    decreases number,
{
    if number < 10 {
        digit_text(number).to_string()
    } else {
        let mut text = u32_to_decimal(number / 10);
        text.append(digit_text(number % 10));
        text
    }
}

/// A number written in decimal is a row of digits that stands for the number.
pub proof fn lemma_decimal_digits(number: nat)
    ensures
        decimal(number).len() > 0,
        all_digits(decimal(number)),
        digits_value(decimal(number)) == number,
        decimal(number)[0] != '+',
    decreases number,
{
    let text = decimal(number);
    if number < 10 {
        assert(digits_value(text.drop_last()) == 0);
    } else {
        lemma_decimal_digits(number / 10);
        assert(text.drop_last() =~= decimal(number / 10));
    }
}

/// Parsing the decimal form of a number gives the number back.
pub proof fn lemma_parse_decimal(number: u32)
    ensures
        parsed_u32(decimal(number as nat)) == Some(number),
{
    lemma_decimal_digits(number as nat);
}

/// Whether a character is white space, as Unicode defines it.
pub open spec fn is_whitespace(c: char) -> bool {
    let code = c as u32;
    ||| 0x09 <= code <= 0x0D
    ||| code == 0x20
    ||| code == 0x85
    ||| code == 0xA0
    ||| code == 0x1680
    ||| 0x2000 <= code <= 0x200A
    ||| code == 0x2028
    ||| code == 0x2029
    ||| code == 0x202F
    ||| code == 0x205F
    ||| code == 0x3000
}

/// Whether a character is white space, as Unicode defines it.
pub fn is_whitespace_char(c: char) -> (white: bool)
    ensures
        white == is_whitespace(c),
{
    let code: u32 = c as u32;
    (0x09 <= code && code <= 0x0D) || code == 0x20 || code == 0x85 || code == 0xA0 || code
        == 0x1680 || (0x2000 <= code && code <= 0x200A) || code == 0x2028 || code == 0x2029
        || code == 0x202F || code == 0x205F || code == 0x3000
}

/// Whether every character is white space.
pub open spec fn is_blank(text: Seq<char>) -> bool {
    forall|i: int| 0 <= i < text.len() ==> is_whitespace(#[trigger] text[i])
}

/// `text` without the white space at its end.
pub open spec fn trimmed_end(text: Seq<char>) -> Seq<char>
    decreases text.len(),
{
    if text.len() > 0 && is_whitespace(text.last()) {
        trimmed_end(text.drop_last())
    } else {
        text
    }
}

/// Where `chars[from..to]` ends once the white space at its end is left out.
pub fn trim_end(chars: &Vec<char>, from: usize, to: usize) -> (end: usize)
    requires
        from <= to <= chars.len(),
    ensures
        from <= end <= to,
        chars@.subrange(from as int, end as int) == trimmed_end(
            chars@.subrange(from as int, to as int),
        ),
{
    let mut end: usize = to;
    while end > from && is_whitespace_char(chars[end - 1])
        invariant
            from <= end <= to <= chars.len(),
            trimmed_end(chars@.subrange(from as int, end as int)) == trimmed_end(
                chars@.subrange(from as int, to as int),
            ),
        decreases end,
    {
        assert(chars@.subrange(from as int, end as int).drop_last() =~= chars@.subrange(
            from as int,
            end - 1,
        ));
        end = end - 1;
    }
    end
}

/// Whether `text` begins with `prefix`.
pub open spec fn has_prefix(text: Seq<char>, prefix: Seq<char>) -> bool {
    prefix.len() <= text.len() && text.take(prefix.len() as int) == prefix
}

/// Whether `chars[from..]` begins with `pattern`.
pub fn starts_with_at(chars: &Vec<char>, from: usize, pattern: &Vec<char>) -> (found: bool)
    requires
        from <= chars.len(),
    ensures
        found == has_prefix(chars@.skip(from as int), pattern@),
{
    if pattern.len() > chars.len() - from {
        return false;
    }
    let ghost rest = chars@.skip(from as int);
    let mut i: usize = 0;
    while i < pattern.len()
        invariant
            i <= pattern.len() <= chars.len() - from,
            rest == chars@.skip(from as int),
            forall|k: int| 0 <= k < i ==> rest[k] == pattern@[k],
        decreases pattern.len() - i,
    {
        if chars[from + i] != pattern[i] {
            return false;
        }
        i = i + 1;
    }
    assert(rest.take(pattern.len() as int) =~= pattern@);
    true
}

/// `text` with `replacement` in front of every character and at the end.
pub open spec fn interleaved(text: Seq<char>, replacement: Seq<char>) -> Seq<char>
    decreases text.len(),
{
    if text.len() == 0 {
        replacement
    } else {
        replacement + seq![text[0]] + interleaved(text.skip(1), replacement)
    }
}

/// `text` with every occurrence of `pattern` replaced, found from left to
/// right without overlap. The empty pattern occurs in front of every
/// character and at the end.
pub open spec fn replaced(text: Seq<char>, pattern: Seq<char>, replacement: Seq<char>) -> Seq<char>
    decreases text.len(),
{
    if pattern.len() == 0 {
        interleaved(text, replacement)
    } else if text.len() == 0 {
        text
    } else if has_prefix(text, pattern) {
        replacement + replaced(text.skip(pattern.len() as int), pattern, replacement)
    } else {
        seq![text[0]] + replaced(text.skip(1), pattern, replacement)
    }
}

/// Replaces every occurrence of a pattern.
pub fn replace(text: &str, pattern: &str, replacement: &str) -> (result: String)
    ensures
        result@ == replaced(text@, pattern@, replacement@),
{
    let chars = chars_of(text);
    let wanted = chars_of(pattern);
    let mut result = String::new();
    let mut i: usize = 0;
    assert(chars@.skip(0) =~= chars@);
    if wanted.len() == 0 {
        while i < chars.len()
            invariant
                i <= chars.len(),
                chars@ == text@,
                interleaved(text@, replacement@) == result@ + interleaved(
                    chars@.skip(i as int),
                    replacement@,
                ),
            decreases chars.len() - i,
        {
            let ghost rest = chars@.skip(i as int);
            let ghost before = result@;
            result.append(replacement);
            result.append(text.substring_char(i, i + 1));
            i = i + 1;
            proof {
                assert(rest.skip(1) =~= chars@.skip(i as int));
                assert(result@ + interleaved(chars@.skip(i as int), replacement@) =~= before
                    + interleaved(rest, replacement@));
            }
        }
        result.append(replacement);
        return result;
    }
    // The characters from `copied` up to `i` belong to no occurrence and are
    // still to be copied.
    let mut copied: usize = 0;
    assert(result@ + chars@.subrange(0, 0) =~= result@);
    while i < chars.len()
        invariant
            copied <= i <= chars.len(),
            chars@ == text@,
            wanted@ == pattern@,
            wanted@.len() > 0,
            replaced(text@, pattern@, replacement@) == result@ + chars@.subrange(
                copied as int,
                i as int,
            ) + replaced(chars@.skip(i as int), pattern@, replacement@),
        decreases chars.len() - i,
    {
        let ghost rest = chars@.skip(i as int);
        let ghost before = result@ + chars@.subrange(copied as int, i as int);
        if starts_with_at(&chars, i, &wanted) {
            result.append(text.substring_char(copied, i));
            result.append(replacement);
            i = i + wanted.len();
            copied = i;
            proof {
                assert(rest.skip(wanted@.len() as int) =~= chars@.skip(i as int));
                assert(result@ + chars@.subrange(copied as int, i as int) + replaced(
                    chars@.skip(i as int),
                    pattern@,
                    replacement@,
                ) =~= before + replaced(rest, pattern@, replacement@));
            }
        } else {
            i = i + 1;
            proof {
                assert(rest.skip(1) =~= chars@.skip(i as int));
                assert(result@ + chars@.subrange(copied as int, i as int) + replaced(
                    chars@.skip(i as int),
                    pattern@,
                    replacement@,
                ) =~= before + replaced(rest, pattern@, replacement@));
            }
        }
    }
    result.append(text.substring_char(copied, i));
    result
}

/// Whether every character is the digit zero.
pub open spec fn all_zeros(text: Seq<char>) -> bool {
    forall|i: int| 0 <= i < text.len() ==> #[trigger] text[i] == '0'
}

/// Zeros behind a row of digits that stands for zero still stand for zero.
pub proof fn lemma_zeros_value(digits: Seq<char>, zeros: Seq<char>)
    requires
        all_digits(digits),
        digits_value(digits) == 0,
        all_zeros(zeros),
    ensures
        all_digits(digits + zeros),
        digits_value(digits + zeros) == 0,
    decreases zeros.len(),
{
    if zeros.len() > 0 {
        lemma_zeros_value(digits, zeros.drop_last());
        assert((digits + zeros).drop_last() =~= digits + zeros.drop_last());
    }
}

/// White space at the end of a text is trimmed away whatever stands in front;
/// what is left of the text's end stays.
pub proof fn lemma_trimmed_end_of_concat(front: Seq<char>, text: Seq<char>)
    ensures
        trimmed_end(text).len() > 0 ==> trimmed_end(front + text) == front + trimmed_end(text),
        trimmed_end(text).len() == 0 ==> trimmed_end(front + text) == trimmed_end(front),
    decreases text.len(),
{
    if text.len() > 0 {
        assert((front + text).drop_last() =~= front + text.drop_last());
        if is_whitespace(text.last()) {
            lemma_trimmed_end_of_concat(front, text.drop_last());
        }
    }
}

} // verus!
