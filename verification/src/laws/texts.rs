//! Laws of texts: numbers, lists of bytes, names and wide strings.
use vstd::prelude::*;

use crate::dump::{hook_lines, hook_text, thread_lines};
use crate::introspect::{lossy_text, wide_len};
use crate::midhook::HookContext;
use crate::symbols::{base_name, last_dot, name_start};
use crate::text::{ascii_lower, ascii_lower_text, byte_list, decimal, hexadecimal};
use crate::trace::{argument_registers, first_values, value_list};
use crate::transaction::PendingHook;

verus! {

/// The value of a digit, up to 15.
pub open spec fn digit_value(c: char) -> int {
    if c <= '9' {
        c as int - '0' as int
    } else {
        c as int - 'a' as int + 10
    }
}

/// Whether a character is a digit to a base, of the small ones above 9.
pub open spec fn is_digit(c: char, base: int) -> bool {
    ('0' <= c <= '9' || 'a' <= c <= 'f') && digit_value(c) < base
}

/// The number that digits stand for.
pub open spec fn number_of(text: Seq<char>, base: int) -> int
    decreases text.len(),
{
    if text.len() == 0 {
        0
    } else {
        base * number_of(text.drop_last(), base) + digit_value(text.last())
    }
}

/// A number is written with decimal digits that stand for it, without zeros before it.
pub proof fn lemma_decimal_stands_for_its_number(value: nat)
    ensures
        decimal(value).len() > 0,
        forall|i: int| 0 <= i < decimal(value).len() ==> is_digit(#[trigger] decimal(value)[i], 10),
        number_of(decimal(value), 10) == value,
        value > 0 ==> decimal(value)[0] != '0',
        value == 0 ==> decimal(value) == seq!['0'],
    decreases value,
{
    let text = decimal(value);
    reveal_with_fuel(number_of, 2);
    if value >= 10 {
        lemma_decimal_stands_for_its_number(value / 10);
        assert(text.drop_last() =~= decimal(value / 10));
        assert forall|i: int| 0 <= i < text.len() implies is_digit(#[trigger] text[i], 10) by {
            if i < text.len() - 1 {
                assert(text[i] == decimal(value / 10)[i]);
            }
        }
    } else {
        assert(text.drop_last().len() == 0);
    }
}

/// A number is written with hexadecimal digits that stand for it, without zeros before it.
pub proof fn lemma_hexadecimal_stands_for_its_number(value: nat)
    ensures
        hexadecimal(value).len() > 0,
        forall|i: int|
            0 <= i < hexadecimal(value).len() ==> is_digit(#[trigger] hexadecimal(value)[i], 16),
        number_of(hexadecimal(value), 16) == value,
        value > 0 ==> hexadecimal(value)[0] != '0',
        value == 0 ==> hexadecimal(value) == seq!['0'],
    decreases value,
{
    let text = hexadecimal(value);
    reveal_with_fuel(number_of, 2);
    if value >= 16 {
        lemma_hexadecimal_stands_for_its_number(value / 16);
        assert(text.drop_last() =~= hexadecimal(value / 16));
        assert forall|i: int| 0 <= i < text.len() implies is_digit(#[trigger] text[i], 16) by {
            if i < text.len() - 1 {
                assert(text[i] == hexadecimal(value / 16)[i]);
            }
        }
    } else {
        assert(text.drop_last().len() == 0);
    }
}

/// The capital hexadecimal digit of a value.
pub open spec fn is_capital_digit(c: char, value: int) -> bool {
    ||| 0 <= value < 10 && c as int == '0' as int + value
    ||| 10 <= value < 16 && c as int == 'A' as int + (value - 10)
}

/// A list of bytes gives each byte two capital digits, the higher one first, with a comma
/// and a space between two bytes.
pub proof fn lemma_bytes_are_listed_in_order(bytes: Seq<u8>)
    ensures
        bytes.len() == 0 ==> byte_list(bytes).len() == 0,
        bytes.len() > 0 ==> byte_list(bytes).len() == 4 * bytes.len() - 2,
        forall|i: int|
            0 <= i < bytes.len() ==> {
                &&& is_capital_digit(byte_list(bytes)[4 * i], #[trigger] bytes[i] as int / 16)
                &&& is_capital_digit(byte_list(bytes)[4 * i + 1], bytes[i] as int % 16)
                &&& i + 1 < bytes.len() ==> byte_list(bytes)[4 * i + 2] == ',' && byte_list(
                    bytes,
                )[4 * i + 3] == ' '
            },
    decreases bytes.len(),
{
    if bytes.len() > 1 {
        let front = bytes.drop_last();
        lemma_bytes_are_listed_in_order(front);
        let text = byte_list(front);
        assert forall|i: int| 0 <= i < bytes.len() implies {
            &&& is_capital_digit(byte_list(bytes)[4 * i], #[trigger] bytes[i] as int / 16)
            &&& is_capital_digit(byte_list(bytes)[4 * i + 1], bytes[i] as int % 16)
            &&& i + 1 < bytes.len() ==> byte_list(bytes)[4 * i + 2] == ',' && byte_list(
                bytes,
            )[4 * i + 3] == ' '
        } by {
            if i < front.len() {
                assert(front[i] == bytes[i]);
                assert(byte_list(bytes)[4 * i] == text[4 * i]);
                assert(byte_list(bytes)[4 * i + 1] == text[4 * i + 1]);
                if i + 1 < front.len() {
                    assert(byte_list(bytes)[4 * i + 2] == text[4 * i + 2]);
                    assert(byte_list(bytes)[4 * i + 3] == text[4 * i + 3]);
                }
            }
        }
    }
}

/// A list of values goes on with a comma, a space, `0x` and the digits of the next one.
pub proof fn lemma_values_are_listed_in_order(values: Seq<u64>, upto: int)
    requires
        0 < upto < values.len(),
    ensures
        value_list(values, 0).len() == 0,
        value_list(values, 1) == "0x"@ + hexadecimal(values[0] as nat),
        value_list(values, upto + 1) == value_list(values, upto) + ", "@ + ("0x"@ + hexadecimal(
            values[upto] as nat,
        )),
{
}

/// The arguments of a call are taken from the four registers that hold them, in their
/// order, as many as are asked for.
pub proof fn lemma_arguments_come_in_order(context: HookContext, n: usize)
    ensures
        ({
            let values = first_values(argument_registers(context), n);
            &&& values.len() == (if n < 4 {
                n as int
            } else {
                4
            })
            &&& n > 0 ==> values[0] == context.rcx
            &&& n > 1 ==> values[1] == context.rdx
            &&& n > 2 ==> values[2] == context.r8
            &&& n > 3 ==> values[3] == context.r9
        }),
{
}

/// A description lists every hook on a line of its own, with its number, and every thread
/// on one.
pub proof fn lemma_description_has_a_line_for_each(
    hooks: Seq<PendingHook>,
    ids: Seq<u32>,
    handles: Seq<u64>,
    n: int,
)
    requires
        0 <= n,
    ensures
        hook_lines(hooks, 0).len() == 0,
        hook_lines(hooks, n + 1) == hook_lines(hooks, n) + ("  ["@ + decimal(n as nat) + "] "@
            + hook_text(hooks[n]) + "\n"@),
        thread_lines(ids, handles, 0).len() == 0,
        thread_lines(ids, handles, n + 1) == thread_lines(ids, handles, n) + ("  [Thread] TID: "@
            + decimal(ids[n] as nat) + " (Handle: "@ + ("0x"@ + hexadecimal(handles[n] as nat))
            + ")\n"@),
{
}

/// Whether two characters are the same but for the case of an ASCII letter.
pub open spec fn same_letter(a: char, b: char) -> bool {
    ||| a == b
    ||| 'A' <= a <= 'Z' && b as int == a as int + 32
    ||| 'A' <= b <= 'Z' && a as int == b as int + 32
}

/// Texts are the same without regard to case exactly where they are as long as each other
/// and their characters are the same one by one, but for the case of ASCII letters.
pub proof fn lemma_same_text_without_case(a: Seq<char>, b: Seq<char>)
    ensures
        ascii_lower_text(a) == ascii_lower_text(b) <==> a.len() == b.len() && forall|i: int|
            0 <= i < a.len() ==> same_letter(#[trigger] a[i], b[i]),
{
    if ascii_lower_text(a) == ascii_lower_text(b) {
        assert(ascii_lower_text(a).len() == a.len() && ascii_lower_text(b).len() == b.len());
        assert forall|i: int| 0 <= i < a.len() implies same_letter(#[trigger] a[i], b[i]) by {
            assert(ascii_lower_text(a)[i] == ascii_lower(a[i]));
            assert(ascii_lower_text(b)[i] == ascii_lower(b[i]));
        }
    }
    if a.len() == b.len() && forall|i: int|
        0 <= i < a.len() ==> same_letter(#[trigger] a[i], b[i]) {
        assert forall|i: int| 0 <= i < a.len() implies ascii_lower(a[i]) == ascii_lower(b[i]) by {
            assert(same_letter(a[i], b[i]));
        }
        assert(ascii_lower_text(a) =~= ascii_lower_text(b));
    }
}

/// Whether a character parts the directories of a path.
pub open spec fn is_separator(c: char) -> bool {
    c == '\\' || c == '/'
}

/// The name of a module is what stands behind its last separator and before its last dot,
/// or up to the end where there is no dot.
pub proof fn lemma_module_name(directory: Seq<char>, name: Seq<char>, extension: Seq<char>)
    requires
        directory.len() > 0 ==> is_separator(directory.last()),
        forall|i: int| 0 <= i < name.len() ==> !is_separator(#[trigger] name[i]),
        forall|i: int|
            0 <= i < extension.len() ==> !is_separator(#[trigger] extension[i]) && extension[i]
                != '.',
    ensures
        base_name(directory + name + seq!['.'] + extension) == name,
        (forall|i: int| 0 <= i < name.len() ==> #[trigger] name[i] != '.') ==> base_name(
            directory + name,
        ) == name,
{
    let whole = directory + name + seq!['.'] + extension;
    let start = directory.len() as int;
    lemma_name_start(whole, start, whole.len() as int);
    lemma_last_dot(whole, start, start + name.len(), whole.len() as int);
    assert(whole.subrange(start, start + name.len()) =~= name);
    if forall|i: int| 0 <= i < name.len() ==> #[trigger] name[i] != '.' {
        let bare = directory + name;
        lemma_name_start(bare, start, bare.len() as int);
        assert forall|i: int| start <= i < bare.len() implies #[trigger] bare[i] != '.' by {
            assert(bare[i] == name[i - start]);
        }
        lemma_no_dot(bare, start, bare.len() as int);
        assert(bare.subrange(start, bare.len() as int) =~= name);
    }
}

/// The name begins behind the last separator.
proof fn lemma_name_start(path: Seq<char>, start: int, upto: int)
    requires
        0 <= start <= upto <= path.len(),
        start > 0 ==> is_separator(path[start - 1]),
        forall|i: int| start <= i < upto ==> !is_separator(#[trigger] path[i]),
    ensures
        name_start(path, upto) == start,
    decreases upto,
{
    if upto > start {
        assert(!is_separator(path[upto - 1]));
        lemma_name_start(path, start, upto - 1);
    }
}

/// The last dot is found.
proof fn lemma_last_dot(path: Seq<char>, from: int, dot: int, upto: int)
    requires
        0 <= from <= dot < upto <= path.len(),
        path[dot] == '.',
        forall|i: int| dot < i < upto ==> #[trigger] path[i] != '.',
    ensures
        last_dot(path, from, upto) == Some(dot),
    decreases upto,
{
    if upto - 1 > dot {
        assert(path[upto - 1] != '.');
        lemma_last_dot(path, from, dot, upto - 1);
    }
}

/// No dot is found where there is none.
proof fn lemma_no_dot(path: Seq<char>, from: int, upto: int)
    requires
        0 <= from <= upto <= path.len(),
        forall|i: int| from <= i < upto ==> #[trigger] path[i] != '.',
    ensures
        last_dot(path, from, upto) is None,
    decreases upto,
{
    if upto > from {
        assert(path[upto - 1] != '.');
        lemma_no_dot(path, from, upto - 1);
    }
}

/// The 16-bit units of a character.
pub open spec fn units_of(c: char) -> Seq<u16> {
    let code = c as u32 as int;
    if code < 0x10000 {
        seq![code as u16]
    } else {
        seq![
            (0xD800 + (code - 0x10000) / 0x400) as u16,
            (0xDC00 + (code - 0x10000) % 0x400) as u16,
        ]
    }
}

/// The 16-bit units of a text.
pub open spec fn wide(text: Seq<char>) -> Seq<u16>
    decreases text.len(),
{
    if text.len() == 0 {
        Seq::empty()
    } else {
        units_of(text[0]) + wide(text.drop_first())
    }
}

/// One unit is the character itself and no half of a pair; two are the halves of a pair.
proof fn lemma_units(c: char)
    ensures
        units_of(c).len() == 1 ==> units_of(c)[0] as char == c && !(0xD800 <= units_of(c)[0]
            < 0xE000),
        units_of(c).len() == 2 ==> {
            &&& 0xD800 <= units_of(c)[0] < 0xDC00
            &&& 0xDC00 <= units_of(c)[1] < 0xE000
            &&& (0x10000 + (units_of(c)[0] - 0xD800) * 0x400 + (units_of(c)[1] - 0xDC00)) as char
                == c
        },
        units_of(c).len() == 1 || units_of(c).len() == 2,
{
    let code = c as u32 as int;
    assert(code <= 0x10FFFF && !(0xD800 <= code <= 0xDFFF));
    if code >= 0x10000 {
        assert((code - 0x10000) / 0x400 * 0x400 + (code - 0x10000) % 0x400 == code - 0x10000);
    }
}

/// A wide text is read back as the text that it was made of.
pub proof fn lemma_wide_text_is_read_back(text: Seq<char>)
    ensures
        lossy_text(wide(text), 0) == text,
{
    lemma_read_back_from(Seq::empty(), text);
    assert(Seq::<u16>::empty() + wide(text) =~= wide(text));
}

/// The same behind other units.
proof fn lemma_read_back_from(before: Seq<u16>, text: Seq<char>)
    ensures
        lossy_text(before + wide(text), before.len() as int) == text,
    decreases text.len(),
{
    let units = before + wide(text);
    let at = before.len() as int;
    if text.len() == 0 {
        assert(units.len() == at);
        assert(lossy_text(units, at) =~= text);
    } else {
        let c = text[0];
        let own = units_of(c);
        let rest = text.drop_first();
        assert(units =~= (before + own) + wide(rest));
        lemma_read_back_from(before + own, rest);
        assert(units[at] == own[0]);
        lemma_units(c);
        if own.len() == 1 {
            assert(lossy_text(units, at) == seq![c] + lossy_text(units, at + 1));
        } else {
            assert(units[at + 1] == own[1]);
            assert(lossy_text(units, at) == seq![c] + lossy_text(units, at + 2));
        }
        assert(seq![c] + rest =~= text);
    }
}

/// A wide string in a buffer ends before its first zero, or with the buffer.
pub proof fn lemma_wide_string_ends_at_its_zero(buffer: Seq<u16>, len: int)
    requires
        0 <= len <= buffer.len(),
        forall|i: int| 0 <= i < len ==> #[trigger] buffer[i] != 0,
        len < buffer.len() ==> buffer[len] == 0,
    ensures
        wide_len(buffer, 0) == len,
{
    lemma_wide_len_from(buffer, 0, len);
}

/// The same from any unit before.
proof fn lemma_wide_len_from(buffer: Seq<u16>, at: int, len: int)
    requires
        0 <= at <= len <= buffer.len(),
        forall|i: int| 0 <= i < len ==> #[trigger] buffer[i] != 0,
        len < buffer.len() ==> buffer[len] == 0,
    ensures
        wide_len(buffer, at) == len,
    decreases len - at,
{
    if at < len {
        assert(buffer[at] != 0);
        lemma_wide_len_from(buffer, at + 1, len);
    }
}

} // verus!
