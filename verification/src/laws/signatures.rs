//! Laws of byte signatures: what a written signature stands for.
use vstd::prelude::*;

use crate::scan::{
    first_bad_mask, first_invalid, hex_digit, is_space, next_boundary, parses_to, token_byte,
    token_fixed, token_value, tokens, tokens_from, Pattern, PatternError,
};

verus! {

/// Whether a character parts the tokens of a signature: a space of any width, a tab, or
/// the end of a line or a paragraph.
pub open spec fn blank(c: char) -> bool {
    ||| c == ' ' || c == '\u{A0}' || c == '\u{1680}' || c == '\u{202F}' || c == '\u{205F}' || c
        == '\u{3000}'
    ||| '\u{2000}' <= c <= '\u{200A}'
    ||| '\t' <= c <= '\r'
    ||| c == '\u{85}' || c == '\u{2028}' || c == '\u{2029}'
}

/// Tokens with gaps before, between and behind them, from the `n`-th on.
pub open spec fn written_from(list: Seq<Seq<char>>, gaps: Seq<Seq<char>>, n: int) -> Seq<char>
    decreases list.len() - n,
{
    if n >= list.len() {
        gaps[n]
    } else {
        gaps[n] + list[n] + written_from(list, gaps, n + 1)
    }
}

/// Whether tokens and gaps make up a text: tokens hold no blank and are not empty, gaps
/// are blank, and those between two tokens are not empty.
pub open spec fn spaced(list: Seq<Seq<char>>, gaps: Seq<Seq<char>>) -> bool {
    &&& gaps.len() == list.len() + 1
    &&& forall|n: int| 0 < n < list.len() ==> (#[trigger] gaps[n]).len() > 0
    &&& forall|n: int| 0 <= n < list.len() ==> (#[trigger] list[n]).len() > 0
    &&& forall|n: int, i: int|
        0 <= n < gaps.len() && 0 <= i < gaps[n].len() ==> blank(#[trigger] gaps[n][i])
    &&& forall|n: int, i: int|
        0 <= n < list.len() && 0 <= i < list[n].len() ==> !blank(#[trigger] list[n][i])
}

/// Whether `c` is the hexadecimal digit of this value, small or capital.
pub open spec fn is_digit(c: char, value: int) -> bool {
    ||| 0 <= value < 10 && c as int == '0' as int + value
    ||| 10 <= value < 16 && c as int == 'a' as int + (value - 10)
    ||| 10 <= value < 16 && c as int == 'A' as int + (value - 10)
}

/// Whether a token is written for a byte, or for a wildcard.
pub open spec fn written_for(token: Seq<char>, item: Option<u8>) -> bool {
    match item {
        None => 1 <= token.len() <= 2 && forall|i: int| 0 <= i < token.len() ==> token[i] == '?',
        Some(byte) => {
            ||| token.len() == 1 && is_digit(token[0], byte as int)
            ||| token.len() == 2 && is_digit(token[0], byte as int / 16) && is_digit(
                token[1],
                byte as int % 16,
            )
        },
    }
}

/// White space is what is blank.
proof fn lemma_blank(c: char)
    ensures
        is_space(c) <==> blank(c),
{
}

/// A run of characters of one kind ends where the first of the other kind stands.
proof fn lemma_run_ends(text: Seq<char>, at: int, end: int, space: bool)
    requires
        0 <= at <= end <= text.len(),
        forall|i: int| at <= i < end ==> is_space(#[trigger] text[i]) != space,
        end < text.len() ==> is_space(text[end]) == space,
    ensures
        next_boundary(text, at, space) == end,
    decreases end - at,
{
    if at < end {
        assert(is_space(text[at]) != space);
        lemma_run_ends(text, at + 1, end, space);
    }
}

/// The first character behind a token, if there is one, is a blank.
proof fn lemma_behind(list: Seq<Seq<char>>, gaps: Seq<Seq<char>>, n: int)
    requires
        spaced(list, gaps),
        0 < n <= list.len(),
    ensures
        written_from(list, gaps, n).len() > 0 ==> blank(written_from(list, gaps, n)[0]),
{
    let text = written_from(list, gaps, n);
    if text.len() > 0 {
        assert(gaps[n].len() > 0);
        assert(text[0] == gaps[n][0]);
    }
}

/// The tokens of a text that is written from tokens are those tokens.
proof fn lemma_tokens_from(
    text: Seq<char>,
    at: int,
    list: Seq<Seq<char>>,
    gaps: Seq<Seq<char>>,
    n: int,
)
    requires
        spaced(list, gaps),
        0 <= n <= list.len(),
        0 <= at <= text.len(),
        text.subrange(at, text.len() as int) == written_from(list, gaps, n),
    ensures
        tokens_from(text, at) == list.subrange(n, list.len() as int),
    decreases list.len() - n,
{
    let rest = text.subrange(at, text.len() as int);
    let gap = gaps[n];
    assert(forall|i: int| 0 <= i < rest.len() ==> #[trigger] rest[i] == text[at + i]);
    let start = at + gap.len();
    assert forall|i: int| at <= i < start implies is_space(#[trigger] text[i]) != false by {
        assert(rest[i - at] == gap[i - at]);
        assert(blank(gap[i - at]));
        lemma_blank(gap[i - at]);
    }
    if n == list.len() {
        lemma_run_ends(text, at, start, false);
        assert(tokens_from(text, at) =~= Seq::empty());
        assert(list.subrange(n, n) =~= Seq::empty());
    } else {
        let token = list[n];
        let behind = written_from(list, gaps, n + 1);
        let end = start + token.len();
        assert(rest == gap + token + behind);
        assert(end + behind.len() == text.len());
        assert forall|i: int| start <= i < end implies is_space(#[trigger] text[i]) != true by {
            assert(rest[i - at] == token[i - start]);
            assert(!blank(token[i - start]));
            lemma_blank(token[i - start]);
        }
        assert(is_space(text[start]) == false);
        lemma_run_ends(text, at, start, false);
        assert(text.subrange(end, text.len() as int) =~= behind) by {
            assert forall|i: int| 0 <= i < behind.len() implies text[end + i]
                == #[trigger] behind[i] by {
                assert(rest[end - at + i] == behind[i]);
            }
        }
        lemma_behind(list, gaps, n + 1);
        if end < text.len() {
            assert(text[end] == behind[0]);
            lemma_blank(behind[0]);
        }
        lemma_run_ends(text, start, end, true);
        lemma_tokens_from(text, end, list, gaps, n + 1);
        assert(text.subrange(start, end) =~= token) by {
            assert forall|i: int| 0 <= i < token.len() implies text[start + i]
                == #[trigger] token[i] by {
                assert(rest[gap.len() + i] == token[i]);
            }
        }
        assert(seq![token] + list.subrange(n + 1, list.len() as int) =~= list.subrange(
            n,
            list.len() as int,
        ));
    }
}

/// The tokens of a signature are what stands between the blanks, in their order and all of
/// them.
pub proof fn lemma_tokens_stand_between_blanks(list: Seq<Seq<char>>, gaps: Seq<Seq<char>>)
    requires
        spaced(list, gaps),
    ensures
        tokens(written_from(list, gaps, 0)) == list,
{
    let text = written_from(list, gaps, 0);
    assert(text.subrange(0, text.len() as int) =~= text);
    lemma_tokens_from(text, 0, list, gaps, 0);
    assert(list.subrange(0, list.len() as int) =~= list);
}

/// A hexadecimal digit has the value that it is the digit of.
proof fn lemma_digit(c: char)
    ensures
        forall|value: int| #[trigger]
            is_digit(c, value) ==> hex_digit(c) is Some && hex_digit(c)->0 == value,
        hex_digit(c) matches Some(found) ==> is_digit(c, found as int),
{
}

/// What a token stands for is what it is written for.
proof fn lemma_token(token: Seq<char>, item: Option<u8>)
    ensures
        token_value(token) == Some(item) <==> written_for(token, item),
{
    assert(seq!['?'].len() == 1 && seq!['?', '?'].len() == 2);
    if token.len() >= 1 {
        lemma_digit(token[0]);
    }
    if token.len() == 2 {
        lemma_digit(token[1]);
        assert(token[0] == '?' && token[1] == '?' ==> token =~= seq!['?', '?']);
    }
    if token.len() == 1 {
        assert(token[0] == '?' ==> token =~= seq!['?']);
    }
    match item {
        None => {},
        Some(byte) => {
            let (high, low) = (byte as int / 16, byte as int % 16);
            if token.len() == 1 {
                assert(is_digit(token[0], byte as int) ==> hex_digit(token[0]) == Some(byte));
            }
            if token.len() == 2 {
                assert(is_digit(token[0], high) ==> hex_digit(token[0]) is Some);
                assert(is_digit(token[1], low) ==> hex_digit(token[1]) is Some);
                if hex_digit(token[0]) is Some && hex_digit(token[1]) is Some {
                    let (a, b) = (hex_digit(token[0])->0, hex_digit(token[1])->0);
                    assert(is_digit(token[0], a as int) && is_digit(token[1], b as int));
                    assert((a * 16 + b) / 16 == a && (a * 16 + b) % 16 == b);
                }
            }
        },
    }
}

/// The first token that stands for nothing is found there.
proof fn lemma_first_invalid_at(list: Seq<Seq<char>>, at: int, bad: int)
    requires
        0 <= at <= bad <= list.len(),
        forall|i: int| at <= i < bad ==> token_value(#[trigger] list[i]) is Some,
        bad < list.len() ==> token_value(list[bad]) is None,
    ensures
        first_invalid(list, at) == bad,
    decreases bad - at,
{
    if at < bad {
        assert(token_value(list[at]) is Some);
        lemma_first_invalid_at(list, at + 1, bad);
    }
}

/// A signature that is written for bytes and wildcards is parsed to them, one for one:
/// with digits small or capital, with one digit or two, and with any blanks around.
pub proof fn lemma_signature_means_its_bytes(
    items: Seq<Option<u8>>,
    list: Seq<Seq<char>>,
    gaps: Seq<Seq<char>>,
    result: Result<Pattern, PatternError>,
)
    requires
        items.len() > 0,
        list.len() == items.len(),
        spaced(list, gaps),
        forall|i: int| 0 <= i < items.len() ==> written_for(#[trigger] list[i], items[i]),
        parses_to(written_from(list, gaps, 0), result),
    ensures
        result matches Ok(pattern) && {
            &&& pattern.bytes@.len() == items.len()
            &&& pattern.mask@.len() == items.len()
            &&& forall|i: int|
                0 <= i < items.len() ==> #[trigger] pattern.mask@[i] == (items[i] is Some)
            &&& forall|i: int|
                0 <= i < items.len() && items[i] is Some ==> Some(#[trigger] pattern.bytes@[i])
                    == items[i]
        },
{
    lemma_tokens_stand_between_blanks(list, gaps);
    assert forall|i: int| 0 <= i < list.len() implies token_value(#[trigger] list[i]) == Some(
        items[i],
    ) by {
        lemma_token(list[i], items[i]);
    }
    lemma_first_invalid_at(list, 0, list.len() as int);
    let pattern = result->Ok_0;
    assert forall|i: int| 0 <= i < items.len() implies #[trigger] pattern.mask@[i] == (items[i]
        is Some) by {
        assert(token_value(list[i]) == Some(items[i]));
        assert(pattern.mask@[i] == token_fixed(list[i]));
    }
    assert forall|i: int| 0 <= i < items.len() && items[i] is Some implies Some(
        #[trigger] pattern.bytes@[i],
    ) == items[i] by {
        assert(token_value(list[i]) == Some(items[i]));
        assert(pattern.bytes@[i] == token_byte(list[i]));
    }
}

/// A signature with a token that is written for nothing is refused with the first such
/// token.
pub proof fn lemma_signature_is_refused_at_its_first_bad_token(
    list: Seq<Seq<char>>,
    gaps: Seq<Seq<char>>,
    bad: int,
    result: Result<Pattern, PatternError>,
)
    requires
        spaced(list, gaps),
        0 <= bad < list.len(),
        forall|i: int|
            0 <= i < bad ==> exists|item: Option<u8>| written_for(#[trigger] list[i], item),
        forall|item: Option<u8>| !written_for(list[bad], item),
        parses_to(written_from(list, gaps, 0), result),
    ensures
        result matches Err(PatternError::InvalidToken(token)) && token@ == list[bad],
{
    lemma_tokens_stand_between_blanks(list, gaps);
    assert forall|i: int| 0 <= i < bad implies token_value(#[trigger] list[i]) is Some by {
        let item = choose|item: Option<u8>| written_for(list[i], item);
        lemma_token(list[i], item);
    }
    assert(token_value(list[bad]) is None) by {
        if token_value(list[bad]) is Some {
            lemma_token(list[bad], token_value(list[bad])->0);
        }
    }
    lemma_first_invalid_at(list, 0, bad);
}

/// A signature of blanks alone is refused as empty.
pub proof fn lemma_blank_signature_is_empty(
    text: Seq<char>,
    result: Result<Pattern, PatternError>,
)
    requires
        forall|i: int| 0 <= i < text.len() ==> blank(#[trigger] text[i]),
        parses_to(text, result),
    ensures
        result matches Err(PatternError::Empty),
{
    let list = Seq::<Seq<char>>::empty();
    let gaps = seq![text];
    lemma_tokens_stand_between_blanks(list, gaps);
}

/// The mask of a signature is refused at its first character that is none of the three
/// known ones, and accepted where there is none.
pub proof fn lemma_mask_is_refused_at_its_first_bad_character(mask: Seq<char>, bad: int)
    requires
        0 <= bad <= mask.len(),
        forall|i: int|
            0 <= i < bad ==> #[trigger] mask[i] == 'x' || mask[i] == 'X' || mask[i] == '?',
        bad < mask.len() ==> mask[bad] != 'x' && mask[bad] != 'X' && mask[bad] != '?',
    ensures
        first_bad_mask(mask, 0) == bad,
{
    lemma_first_bad_from(mask, 0, bad);
}

/// The same from any character before.
proof fn lemma_first_bad_from(mask: Seq<char>, at: int, bad: int)
    requires
        0 <= at <= bad <= mask.len(),
        forall|i: int|
            0 <= i < bad ==> #[trigger] mask[i] == 'x' || mask[i] == 'X' || mask[i] == '?',
        bad < mask.len() ==> mask[bad] != 'x' && mask[bad] != 'X' && mask[bad] != '?',
    ensures
        first_bad_mask(mask, at) == bad,
    decreases bad - at,
{
    if at < bad {
        assert(mask[at] == 'x' || mask[at] == 'X' || mask[at] == '?');
        lemma_first_bad_from(mask, at + 1, bad);
    }
}

} // verus!
