//! Text made of characters, digits and joined parts.
use vstd::prelude::*;

verus! {

/// The character of a digit below sixteen; letters are in lower case.
pub open spec fn digit_char(digit: nat) -> char {
    if digit < 10 {
        (48 + digit) as char
    } else {
        (87 + digit) as char
    }
}

/// The character of a digit below sixteen; letters are in upper case.
pub open spec fn upper_digit_char(digit: nat) -> char {
    if digit < 10 {
        (48 + digit) as char
    } else {
        (55 + digit) as char
    }
}

/// `value` in decimal.
pub open spec fn decimal(value: nat) -> Seq<char>
    decreases value,
{
    if value < 10 {
        seq![digit_char(value)]
    } else {
        decimal(value / 10).push(digit_char(value % 10))
    }
}

/// `value` in hexadecimal, without a prefix.
pub open spec fn hexadecimal(value: nat) -> Seq<char>
    decreases value,
{
    if value < 16 {
        seq![digit_char(value)]
    } else {
        hexadecimal(value / 16).push(digit_char(value % 16))
    }
}

/// The text of one digit below sixteen.
fn digit_text(digit: u64) -> (text: &'static str)
    requires
        digit < 16,
    ensures
        text@ == seq![digit_char(digit as nat)],
{
    proof {
        reveal_strlit("0");
        reveal_strlit("1");
        reveal_strlit("2");
        reveal_strlit("3");
        reveal_strlit("4");
        reveal_strlit("5");
        reveal_strlit("6");
        reveal_strlit("7");
        reveal_strlit("8");
        reveal_strlit("9");
        reveal_strlit("a");
        reveal_strlit("b");
        reveal_strlit("c");
        reveal_strlit("d");
        reveal_strlit("e");
        reveal_strlit("f");
    }
    let text: &'static str = match digit {
        0 => "0",
        1 => "1",
        2 => "2",
        3 => "3",
        4 => "4",
        5 => "5",
        6 => "6",
        7 => "7",
        8 => "8",
        9 => "9",
        10 => "a",
        11 => "b",
        12 => "c",
        13 => "d",
        14 => "e",
        _ => "f",
    };
    assert(text@ =~= seq![digit_char(digit as nat)]);
    text
}

/// The text of one digit below sixteen, in upper case.
fn upper_digit_text(digit: u64) -> (text: &'static str)
    requires
        digit < 16,
    ensures
        text@ == seq![upper_digit_char(digit as nat)],
{
    if digit < 10 {
        return digit_text(digit);
    }
    proof {
        reveal_strlit("A");
        reveal_strlit("B");
        reveal_strlit("C");
        reveal_strlit("D");
        reveal_strlit("E");
        reveal_strlit("F");
    }
    let text: &'static str = match digit {
        10 => "A",
        11 => "B",
        12 => "C",
        13 => "D",
        14 => "E",
        _ => "F",
    };
    assert(text@ =~= seq![upper_digit_char(digit as nat)]);
    text
}

/// Appends `value` in decimal.
pub fn push_decimal(out: &mut String, value: u64)
    ensures
        final(out)@ == old(out)@ + decimal(value as nat),
    decreases value,
{
    if value >= 10 {
        push_decimal(out, value / 10);
    }
    out.append(digit_text(value % 10));
    assert(out@ =~= old(out)@ + decimal(value as nat));
}

/// Appends `value` in hexadecimal.
pub fn push_hexadecimal(out: &mut String, value: u64)
    ensures
        final(out)@ == old(out)@ + hexadecimal(value as nat),
    decreases value,
{
    if value >= 16 {
        push_hexadecimal(out, value / 16);
    }
    out.append(digit_text(value % 16));
    assert(out@ =~= old(out)@ + hexadecimal(value as nat));
}

/// The two upper-case hexadecimal digits of a byte.
pub open spec fn byte_hex(byte: u8) -> Seq<char> {
    seq![upper_digit_char((byte / 16) as nat), upper_digit_char((byte % 16) as nat)]
}

/// The bytes as two-digit hexadecimal numbers, separated by commas.
pub open spec fn byte_list(bytes: Seq<u8>) -> Seq<char>
    decreases bytes.len(),
{
    if bytes.len() == 0 {
        Seq::empty()
    } else if bytes.len() == 1 {
        byte_hex(bytes[0])
    } else {
        byte_list(bytes.drop_last()) + seq![',', ' '] + byte_hex(bytes.last())
    }
}

/// Appends the bytes as a bracketed list of two-digit hexadecimal numbers.
pub fn push_byte_list(out: &mut String, bytes: &[u8])
    ensures
        final(out)@ == old(out)@ + seq!['['] + byte_list(bytes@) + seq![']'],
{
    proof {
        reveal_strlit("[");
        reveal_strlit("]");
        reveal_strlit(", ");
    }
    out.append("[");
    assert(out@ =~= old(out)@ + seq!['['] + byte_list(bytes@.subrange(0, 0)));
    let mut i: usize = 0;
    while i < bytes.len()
        invariant
            i <= bytes@.len(),
            out@ == old(out)@ + seq!['['] + byte_list(bytes@.subrange(0, i as int)),
            ", "@ == seq![',', ' '],
        decreases bytes@.len() - i,
    {
        let ghost before = out@;
        if i > 0 {
            out.append(", ");
        }
        out.append(upper_digit_text((bytes[i] / 16) as u64));
        out.append(upper_digit_text((bytes[i] % 16) as u64));
        i = i + 1;
        proof {
            let part = bytes@.subrange(0, i as int);
            assert(part.drop_last() =~= bytes@.subrange(0, i - 1));
            assert(part.last() == bytes@[i - 1]);
            if i == 1 {
                assert(bytes@.subrange(0, 0) =~= Seq::<u8>::empty());
                assert(out@ =~= before + byte_hex(bytes@[0]));
                assert(out@ =~= old(out)@ + seq!['['] + byte_list(part));
            } else {
                assert(out@ =~= before + seq![',', ' '] + byte_hex(bytes@[i - 1]));
                assert(out@ =~= old(out)@ + seq!['['] + byte_list(part));
            }
        }
    }
    assert(bytes@.subrange(0, bytes@.len() as int) =~= bytes@);
    out.append("]");
    assert(out@ =~= old(out)@ + seq!['['] + byte_list(bytes@) + seq![']']);
}

/// Collects the characters of a text.
pub fn characters(text: &str) -> (list: Vec<char>)
    ensures
        list@ == text@,
{
    let mut list: Vec<char> = Vec::new();
    for c in iter: text.chars()
        invariant
            iter.seq() == text@,
            list@ == text@.take(iter.index() as int),
    {
        list.push(c);
        assert(list@ =~= text@.take(iter.index() + 1));
    }
    assert(list@ =~= text@);
    list
}

/// A character with an ASCII capital letter made small.
pub open spec fn ascii_lower(c: char) -> char {
    if 'A' <= c <= 'Z' {
        (c as u32 + 32) as char
    } else {
        c
    }
}

/// A text with its ASCII capital letters made small.
pub open spec fn ascii_lower_text(text: Seq<char>) -> Seq<char> {
    text.map_values(|c: char| ascii_lower(c))
}

/// Returns the code of a character with an ASCII capital letter made small.
fn lower_code(c: char) -> (code: u32)
    ensures
        code == ascii_lower(c) as u32,
{
    let code: u32 = c as u32;
    if 65 <= code && code <= 90 {
        code + 32
    } else {
        code
    }
}

/// Returns whether two texts are equal but for the case of ASCII letters.
pub fn eq_ignore_ascii_case(a: &str, b: &str) -> (same: bool)
    ensures
        same == (ascii_lower_text(a@) == ascii_lower_text(b@)),
{
    let left = characters(a);
    let right = characters(b);
    assert(ascii_lower_text(a@).len() == a@.len() && ascii_lower_text(b@).len() == b@.len());
    if left.len() != right.len() {
        return false;
    }
    let mut i: usize = 0;
    while i < left.len()
        invariant
            left@ == a@,
            right@ == b@,
            i <= left@.len(),
            left@.len() == right@.len(),
            forall|j: int|
                0 <= j < i ==> ascii_lower(#[trigger] left@[j]) == ascii_lower(right@[j]),
        decreases left@.len() - i,
    {
        if lower_code(left[i]) != lower_code(right[i]) {
            assert(ascii_lower_text(left@)[i as int] != ascii_lower_text(right@)[i as int]);
            return false;
        }
        i = i + 1;
    }
    assert(ascii_lower_text(left@) =~= ascii_lower_text(right@));
    true
}

/// Returns whether two texts are equal.
pub fn same_characters(a: &str, b: &str) -> (same: bool)
    ensures
        same == (a@ == b@),
{
    let left = characters(a);
    let right = characters(b);
    if left.len() != right.len() {
        return false;
    }
    let mut i: usize = 0;
    while i < left.len()
        invariant
            left@ == a@,
            right@ == b@,
            i <= left@.len(),
            left@.len() == right@.len(),
            forall|j: int| 0 <= j < i ==> left@[j] == right@[j],
        decreases left@.len() - i,
    {
        if left[i] != right[i] {
            return false;
        }
        i = i + 1;
    }
    assert(left@ =~= right@);
    true
}

/// Whether `needle` stands in `text` at `at`.
pub open spec fn stands_at(text: Seq<char>, needle: Seq<char>, at: int) -> bool {
    0 <= at && at + needle.len() <= text.len() && text.subrange(at, at + needle.len() as int)
        == needle
}

/// Whether `needle` stands somewhere in `text`.
pub open spec fn contains_text(text: Seq<char>, needle: Seq<char>) -> bool {
    exists|at: int| stands_at(text, needle, at)
}

/// Returns whether `needle` stands somewhere in `text`.
pub fn contains(text: &str, needle: &str) -> (found: bool)
    ensures
        found == contains_text(text@, needle@),
{
    let all = characters(text);
    let part = characters(needle);
    if part.len() > all.len() {
        return false;
    }
    let total: usize = all.len();
    let mut at: usize = 0;
    while at <= total - part.len()
        invariant
            all@ == text@,
            part@ == needle@,
            total == all@.len(),
            part@.len() <= all@.len(),
            at <= all@.len() - part@.len() + 1,
            forall|k: int| 0 <= k < at ==> !stands_at(text@, needle@, k),
        decreases all@.len() - part@.len() + 1 - at,
    {
        let mut i: usize = 0;
        while i < part.len() && all[at + i] == part[i]
            invariant
                i <= part@.len(),
                total == all@.len(),
                at + part@.len() <= total,
                forall|k: int| 0 <= k < i ==> all@[at + k] == part@[k],
            decreases part@.len() - i,
        {
            i = i + 1;
        }
        if i == part.len() {
            assert(text@.subrange(at as int, at + needle@.len()) =~= needle@);
            assert(stands_at(text@, needle@, at as int));
            return true;
        }
        assert(text@.subrange(at as int, at + needle@.len())[i as int] != needle@[i as int]);
        at = at + 1;
    }
    false
}

} // verus!
