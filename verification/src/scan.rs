//! Byte signatures and scanning for them.
use vstd::prelude::*;

use crate::arch::Arch;
use crate::bytes::copy_range;
use crate::memory::{region_at, MemoryMap, MemoryRegion, PAGE_EXECUTABLE};
use crate::pe::{parse_module_image, parsed};
use crate::text::{characters, decimal, push_decimal};

verus! {

/// Why a byte signature could not be parsed.
#[derive(Debug, Clone, PartialEq, Eq)]
pub enum PatternError {
    /// The signature contains no bytes at all.
    Empty,
    /// A token is neither a wildcard nor a hexadecimal byte of one or two digits.
    InvalidToken(String),
    /// A mask character is neither a match (`x`, `X`) nor a wildcard (`?`).
    InvalidMaskChar(char),
    /// The mask is not as long as the byte string.
    MaskLengthMismatch { bytes: usize, mask: usize },
}

/// A parsed byte signature: bytes that must match, and wildcards.
#[derive(Clone, Debug, PartialEq, Eq)]
pub struct Pattern {
    /// The byte values; the value at a wildcard is unused.
    pub bytes: Vec<u8>,
    /// Whether the byte at a position must match.
    pub mask: Vec<bool>,
}

/// Whether a character is white space.
pub open spec fn is_space(c: char) -> bool {
    let code = c as u32;
    ||| 0x09 <= code <= 0x0D
    ||| code == 0x20
    ||| code == 0x85
    ||| code == 0xA0
    ||| code == 0x1680
    ||| 0x2000 <= code <= 0x200A
    ||| code == 0x2028
    ||| code == 0x2029
    ||| code == 0x202F
    ||| code == 0x205F
    ||| code == 0x3000
}

/// Returns whether a character is white space.
pub fn is_whitespace(c: char) -> (space: bool)
    ensures
        space == is_space(c),
{
    let code: u32 = c as u32;
    (0x09 <= code && code <= 0x0D) || code == 0x20 || code == 0x85 || code == 0xA0 || code == 0x1680
        || (0x2000 <= code && code <= 0x200A) || code == 0x2028 || code == 0x2029 || code == 0x202F
        || code == 0x205F || code == 0x3000
}

/// The first position from `at` on whose character is white space, or is not,
/// as `space` asks; the end of the text if there is none.
pub open spec fn next_boundary(text: Seq<char>, at: int, space: bool) -> int
    decreases text.len() - at,
{
    if at < 0 || at >= text.len() || is_space(text[at]) == space {
        at
    } else {
        next_boundary(text, at + 1, space)
    }
}

/// A boundary lies between the position it is looked for from and the end.
pub proof fn lemma_next_boundary(text: Seq<char>, at: int, space: bool)
    requires
        0 <= at <= text.len(),
    ensures
        at <= next_boundary(text, at, space) <= text.len(),
        next_boundary(text, at, space) < text.len() ==> is_space(
            text[next_boundary(text, at, space)],
        ) == space,
    decreases text.len() - at,
{
    if at < text.len() && is_space(text[at]) != space {
        lemma_next_boundary(text, at + 1, space);
    }
}

/// The tokens of `text` from `at` on: the longest runs of characters that are
/// not white space.
pub open spec fn tokens_from(text: Seq<char>, at: int) -> Seq<Seq<char>>
    decreases text.len() - at,
{
    let start = next_boundary(text, at, false);
    if at < 0 || start >= text.len() {
        Seq::empty()
    } else {
        let end = next_boundary(text, start, true);
        proof {
            lemma_next_boundary(text, at, false);
            lemma_next_boundary(text, start + 1, true);
        }
        seq![text.subrange(start, end)] + tokens_from(text, end)
    }
}

/// The tokens of a signature.
pub open spec fn tokens(text: Seq<char>) -> Seq<Seq<char>> {
    tokens_from(text, 0)
}

/// The value of a hexadecimal digit.
pub open spec fn hex_digit(c: char) -> Option<u8> {
    if '0' <= c <= '9' {
        Some((c as u32 - 48) as u8)
    } else if 'a' <= c <= 'f' {
        Some((c as u32 - 87) as u8)
    } else if 'A' <= c <= 'F' {
        Some((c as u32 - 55) as u8)
    } else {
        None
    }
}

/// Returns the value of a hexadecimal digit.
pub fn hex_digit_value(c: char) -> (value: Option<u8>)
    ensures
        value == hex_digit(c),
        value matches Some(v) ==> v < 16,
{
    let code: u32 = c as u32;
    if 48 <= code && code <= 57 {
        Some((code - 48) as u8)
    } else if 97 <= code && code <= 102 {
        Some((code - 87) as u8)
    } else if 65 <= code && code <= 70 {
        Some((code - 55) as u8)
    } else {
        None
    }
}

/// What a token stands for: a wildcard (`Some(None)`), a byte, or nothing.
pub open spec fn token_value(token: Seq<char>) -> Option<Option<u8>> {
    if token == seq!['?'] || token == seq!['?', '?'] {
        Some(None)
    } else if token.len() == 1 && hex_digit(token[0]) is Some {
        Some(Some(hex_digit(token[0])->0))
    } else if token.len() == 2 && hex_digit(token[0]) is Some && hex_digit(token[1]) is Some {
        Some(Some((hex_digit(token[0])->0 * 16 + hex_digit(token[1])->0) as u8))
    } else {
        None
    }
}

/// The position of the first token that stands for nothing, or the number of
/// tokens.
pub open spec fn first_invalid(list: Seq<Seq<char>>, at: int) -> int
    decreases list.len() - at,
{
    if at < 0 || at >= list.len() || token_value(list[at]) is None {
        at
    } else {
        first_invalid(list, at + 1)
    }
}

/// The byte of a token, 0 for a wildcard.
pub open spec fn token_byte(token: Seq<char>) -> u8 {
    match token_value(token) {
        Some(Some(byte)) => byte,
        _ => 0,
    }
}

/// Whether a token must match.
pub open spec fn token_fixed(token: Seq<char>) -> bool {
    token_value(token) matches Some(Some(_))
}

/// Whether `result` is what parsing the signature `text` gives.
pub open spec fn parses_to(text: Seq<char>, result: Result<Pattern, PatternError>) -> bool {
    let list = tokens(text);
    let bad = first_invalid(list, 0);
    if bad < list.len() {
        result matches Err(PatternError::InvalidToken(token)) && token@ == list[bad]
    } else if list.len() == 0 {
        result matches Err(PatternError::Empty)
    } else {
        result matches Ok(pattern) && pattern.bytes@ == list.map_values(
            |token: Seq<char>| token_byte(token),
        ) && pattern.mask@ == list.map_values(|token: Seq<char>| token_fixed(token))
    }
}

/// Whether a mask character is one of the three that are known.
pub open spec fn mask_char(c: char) -> bool {
    c == 'x' || c == 'X' || c == '?'
}

/// The position of the first unknown mask character, or the length of the mask.
pub open spec fn first_bad_mask(mask: Seq<char>, at: int) -> int
    decreases mask.len() - at,
{
    if at < 0 || at >= mask.len() || !mask_char(mask[at]) {
        at
    } else {
        first_bad_mask(mask, at + 1)
    }
}

impl PatternError {
    /// The text of the error.
    pub open spec fn text(self) -> Seq<char> {
        match self {
            PatternError::Empty => "signature is empty"@,
            PatternError::InvalidToken(token) => "invalid signature token '"@ + token@
                + "' (expected a hex byte or '?')"@,
            PatternError::InvalidMaskChar(c) => "invalid mask character '"@ + seq![c]
                + "' (expected 'x' or '?')"@,
            PatternError::MaskLengthMismatch { bytes, mask } => "mask length ("@ + decimal(
                mask as nat,
            ) + ") does not match pattern length ("@ + decimal(bytes as nat) + ")"@,
        }
    }

    /// Returns the text of the error.
    pub fn to_string(&self) -> (text: String)
        ensures
            text@ == self.text(),
    {
        match self {
            PatternError::Empty => "signature is empty".to_owned(),
            PatternError::InvalidToken(token) => {
                let mut text: String = "invalid signature token '".to_owned();
                text.append(token.as_str());
                text.append("' (expected a hex byte or '?')");
                text
            },
            PatternError::InvalidMaskChar(c) => {
                let mut text: String = "invalid mask character '".to_owned();
                let mut one: [u8; 4] = [0u8; 4];
                text.append(encode_char(*c, &mut one));
                text.append("' (expected 'x' or '?')");
                text
            },
            PatternError::MaskLengthMismatch { bytes, mask } => {
                let mut text: String = "mask length (".to_owned();
                push_decimal(&mut text, *mask as u64);
                text.append(") does not match pattern length (");
                push_decimal(&mut text, *bytes as u64);
                text.append(")");
                text
            },
        }
    }
}

/// Writes a character as text with `char::encode_utf8`.
///
/// Claimed of it: the text that it gives back is that one character.
#[verifier::external_body]
fn encode_char(c: char, buffer: &mut [u8; 4]) -> (text: &str)
    ensures
        text@ == seq![c],
{
    c.encode_utf8(buffer)
}

/// Returns the first position from `at` on whose character is white space, or is
/// not, as `space` asks.
fn find_boundary(list: &Vec<char>, at: usize, space: bool) -> (found: usize)
    requires
        at <= list@.len(),
    ensures
        found == next_boundary(list@, at as int, space),
        at <= found <= list@.len(),
        found < list@.len() ==> is_space(list@[found as int]) == space,
{
    let mut i: usize = at;
    while i < list.len() && is_whitespace(list[i]) != space
        invariant
            at <= i <= list@.len(),
            next_boundary(list@, i as int, space) == next_boundary(list@, at as int, space),
        decreases list@.len() - i,
    {
        i = i + 1;
    }
    proof {
        lemma_next_boundary(list@, i as int, space);
    }
    i
}

/// Returns what the token `list[start..end]` stands for.
fn read_token(list: &Vec<char>, start: usize, end: usize) -> (value: Option<Option<u8>>)
    requires
        start < end <= list@.len(),
    ensures
        value == token_value(list@.subrange(start as int, end as int)),
{
    let ghost token = list@.subrange(start as int, end as int);
    let len: usize = end - start;
    assert(seq!['?'].len() == 1 && seq!['?', '?'].len() == 2);
    if len > 2 {
        return None;
    }
    let first = list[start];
    if len == 1 {
        if first == '?' {
            assert(token =~= seq!['?']);
            return Some(None);
        }
        assert(token != seq!['?']);
        assert(token != seq!['?', '?']) by {
            assert(seq!['?', '?'].len() == 2);
        }
        return match hex_digit_value(first) {
            Some(value) => Some(Some(value)),
            None => None,
        };
    }
    let second = list[start + 1];
    if first == '?' && second == '?' {
        assert(token =~= seq!['?', '?']);
        return Some(None);
    }
    proof {
        assert(token[0] == first && token[1] == second);
        assert(token != seq!['?', '?']);
        assert(token != seq!['?']) by {
            assert(seq!['?'].len() == 1);
        }
    }
    match (hex_digit_value(first), hex_digit_value(second)) {
        (Some(high), Some(low)) => Some(Some(high * 16 + low)),
        _ => None,
    }
}

/// Returns the position of the first unknown mask character.
fn find_bad_mask(mask: &Vec<char>) -> (bad: usize)
    ensures
        bad == first_bad_mask(mask@, 0),
        bad <= mask@.len(),
        forall|i: int| 0 <= i < bad ==> mask_char(#[trigger] mask@[i]),
        bad < mask@.len() ==> !mask_char(mask@[bad as int]),
{
    let mut i: usize = 0;
    while i < mask.len() && (mask[i] == 'x' || mask[i] == 'X' || mask[i] == '?')
        invariant
            i <= mask@.len(),
            first_bad_mask(mask@, i as int) == first_bad_mask(mask@, 0),
            forall|j: int| 0 <= j < i ==> mask_char(#[trigger] mask@[j]),
        decreases mask@.len() - i,
    {
        i = i + 1;
    }
    i
}

/// Tokens before an invalid one do not move it.
proof fn lemma_first_invalid(list: Seq<Seq<char>>, from: int, at: int)
    requires
        0 <= from <= at <= list.len(),
        forall|i: int| from <= i < at ==> token_value(#[trigger] list[i]) is Some,
    ensures
        first_invalid(list, from) == first_invalid(list, at),
    decreases at - from,
{
    if from < at {
        assert(token_value(list[from]) is Some);
        lemma_first_invalid(list, from + 1, at);
    }
}

impl Pattern {
    /// The number of bytes and wildcards.
    pub open spec fn spec_len(self) -> nat {
        self.bytes@.len()
    }

    /// Whether every byte has its mask flag.
    pub open spec fn wf(self) -> bool {
        self.bytes@.len() == self.mask@.len()
    }

    /// Parses a signature in the style of IDA and x64dbg.
    ///
    /// Tokens are separated by white space. A token is a hexadecimal byte of one
    /// or two digits, or a wildcard (`?` or `??`).
    pub fn parse(signature: &str) -> (result: Result<Pattern, PatternError>)
        ensures
            parses_to(signature@, result),
            result matches Ok(pattern) ==> pattern.wf() && pattern.spec_len() > 0,
    {
        let list = characters(signature);
        let mut bytes: Vec<u8> = Vec::new();
        let mut mask: Vec<bool> = Vec::new();
        let mut at: usize = 0;
        let ghost all = tokens(signature@);
        let ghost mut done: Seq<Seq<char>> = Seq::empty();
        assert(all =~= done + tokens_from(list@, 0));
        while at < list.len()
            invariant
                at <= list@.len(),
                list@ == signature@,
                all == tokens(signature@),
                all == done + tokens_from(list@, at as int),
                forall|i: int| 0 <= i < done.len() ==> token_value(#[trigger] done[i]) is Some,
                bytes@ == done.map_values(|token: Seq<char>| token_byte(token)),
                mask@ == done.map_values(|token: Seq<char>| token_fixed(token)),
            decreases list@.len() - at,
        {
            let start = find_boundary(&list, at, false);
            if start == list.len() {
                proof {
                    assert(tokens_from(list@, at as int) =~= Seq::empty());
                    assert(tokens_from(list@, list@.len() as int) =~= Seq::empty()) by {
                        lemma_next_boundary(list@, list@.len() as int, false);
                    }
                }
                at = start;
            } else {
                let end = find_boundary(&list, start, true);
                proof {
                    lemma_next_boundary(list@, start + 1, true);
                }
                assert(end > start);
                let ghost token = list@.subrange(start as int, end as int);
                let ghost rest = tokens_from(list@, end as int);
                assert(tokens_from(list@, at as int) =~= seq![token] + rest);
                proof {
                    assert(all =~= done.push(token) + rest);
                    assert(all[done.len() as int] == token);
                }
                match read_token(&list, start, end) {
                    None => {
                        proof {
                            assert forall|i: int| 0 <= i < done.len() implies token_value(
                                #[trigger] all[i],
                            ) is Some by {
                                assert(all[i] == done[i]);
                            }
                            lemma_first_invalid(all, 0, done.len() as int);
                        }
                        let text = signature.substring_char(start, end).to_owned();
                        return Err(PatternError::InvalidToken(text));
                    },
                    Some(None) => {
                        bytes.push(0);
                        mask.push(false);
                    },
                    Some(Some(value)) => {
                        bytes.push(value);
                        mask.push(true);
                    },
                }
                proof {
                    let before = done;
                    done = done.push(token);
                    assert(bytes@ =~= done.map_values(|token: Seq<char>| token_byte(token)));
                    assert(mask@ =~= done.map_values(|token: Seq<char>| token_fixed(token)));
                }
                at = end;
            }
        }
        proof {
            lemma_next_boundary(list@, at as int, false);
            assert(tokens_from(list@, at as int) =~= Seq::empty());
            assert(all =~= done);
            lemma_first_invalid(all, 0, all.len() as int);
        }
        if bytes.len() == 0 {
            return Err(PatternError::Empty);
        }
        Ok(Pattern { bytes, mask })
    }

    /// Builds a pattern from bytes and a mask with one character for each byte:
    /// `x` or `X` for a byte that must match, `?` for a wildcard.
    pub fn from_code_style(pattern: &[u8], mask: &str) -> (result: Result<Pattern, PatternError>)
        ensures
            pattern@.len() == 0 ==> result == Err::<Pattern, PatternError>(PatternError::Empty),
            pattern@.len() > 0 && pattern@.len() != mask@.len() ==> result == Err::<
                Pattern,
                PatternError,
            >(
                PatternError::MaskLengthMismatch {
                    bytes: pattern@.len() as usize,
                    mask: mask@.len() as usize,
                },
            ),
            pattern@.len() > 0 && pattern@.len() == mask@.len() ==> {
                let bad = first_bad_mask(mask@, 0);
                if bad < mask@.len() {
                    result == Err::<Pattern, PatternError>(
                        PatternError::InvalidMaskChar(mask@[bad]),
                    )
                } else {
                    result matches Ok(built) && built.bytes@ == pattern@ && built.mask@
                        == mask@.map_values(|c: char| c != '?')
                }
            },
            result matches Ok(built) ==> built.wf() && built.spec_len() > 0,
    {
        if pattern.len() == 0 {
            return Err(PatternError::Empty);
        }
        let flags = characters(mask);
        if pattern.len() != flags.len() {
            return Err(
                PatternError::MaskLengthMismatch { bytes: pattern.len(), mask: flags.len() },
            );
        }
        let bad = find_bad_mask(&flags);
        if bad < flags.len() {
            return Err(PatternError::InvalidMaskChar(flags[bad]));
        }
        let mut fixed: Vec<bool> = Vec::new();
        let mut i: usize = 0;
        while i < flags.len()
            invariant
                i <= flags@.len(),
                fixed@ == flags@.take(i as int).map_values(|c: char| c != '?'),
            decreases flags@.len() - i,
        {
            fixed.push(flags[i] != '?');
            i = i + 1;
            assert(fixed@ =~= flags@.take(i as int).map_values(|c: char| c != '?'));
        }
        assert(flags@.take(flags@.len() as int) =~= flags@);
        let bytes = copy_range(pattern, 0, pattern.len());
        assert(bytes@ =~= pattern@);
        Ok(Pattern { bytes, mask: fixed })
    }

    /// Returns the number of bytes and wildcards.
    pub fn len(&self) -> (len: usize)
        ensures
            len == self.spec_len(),
    {
        self.bytes.len()
    }

    /// Returns whether the signature has no bytes.
    pub fn is_empty(&self) -> (empty: bool)
        ensures
            empty == (self.spec_len() == 0),
    {
        self.bytes.len() == 0
    }

    /// Returns whether the signature matches `haystack` at `offset`.
    pub fn matches_at(&self, haystack: &[u8], offset: usize) -> (matches: bool)
        requires
            self.wf(),
            offset + self.spec_len() <= haystack@.len(),
        ensures
            matches == occurs(haystack@, *self, offset as int),
    {
        let size: usize = haystack.len();
        let mut j: usize = 0;
        while j < self.bytes.len()
            invariant
                j <= self.spec_len(),
                size == haystack@.len(),
                self.wf(),
                offset + self.spec_len() <= haystack@.len(),
                forall|k: int|
                    0 <= k < j && self.mask@[k] ==> haystack@[offset + k] == #[trigger] self.bytes@[k],
            decreases self.spec_len() - j,
        {
            if self.mask[j] && haystack[offset + j] != self.bytes[j] {
                return false;
            }
            j = j + 1;
        }
        true
    }
}

/// Whether `pattern` occurs in `haystack` at `offset`.
pub open spec fn occurs(haystack: Seq<u8>, pattern: Pattern, offset: int) -> bool {
    &&& 0 <= offset
    &&& offset + pattern.spec_len() <= haystack.len()
    &&& forall|k: int|
        0 <= k < pattern.spec_len() && pattern.mask@[k] ==> haystack[offset + k]
            == #[trigger] pattern.bytes@[k]
}

/// The offsets below `upto` at which `pattern` occurs, in ascending order.
pub open spec fn occurrences_upto(haystack: Seq<u8>, pattern: Pattern, upto: int) -> Seq<int>
    decreases upto,
{
    if upto <= 0 {
        Seq::empty()
    } else {
        let before = occurrences_upto(haystack, pattern, upto - 1);
        if occurs(haystack, pattern, upto - 1) {
            before.push(upto - 1)
        } else {
            before
        }
    }
}

/// The offsets at which `pattern` occurs in `haystack`, in ascending order; none
/// for an empty pattern.
pub open spec fn occurrences(haystack: Seq<u8>, pattern: Pattern) -> Seq<int> {
    if pattern.spec_len() == 0 {
        Seq::empty()
    } else {
        occurrences_upto(haystack, pattern, haystack.len() as int)
    }
}

/// Offsets at which the pattern no longer fits add nothing.
proof fn lemma_occurrences_fit(haystack: Seq<u8>, pattern: Pattern, upto: int)
    requires
        pattern.spec_len() > 0,
        upto >= 0,
        upto + pattern.spec_len() > haystack.len(),
        upto <= haystack.len(),
    ensures
        occurrences_upto(haystack, pattern, upto) == occurrences_upto(
            haystack,
            pattern,
            haystack.len() as int,
        ),
    decreases haystack.len() - upto,
{
    if upto < haystack.len() {
        lemma_occurrences_fit(haystack, pattern, upto + 1);
        assert(!occurs(haystack, pattern, upto));
    }
}

/// Every listed offset is one at which the pattern occurs, every such offset is
/// listed, and the list ascends.
pub proof fn lemma_occurrences_exact(haystack: Seq<u8>, pattern: Pattern, upto: int)
    ensures
        ({
            let list = occurrences_upto(haystack, pattern, upto);
            &&& forall|i: int|
                0 <= i < list.len() ==> 0 <= (#[trigger] list[i]) < upto && occurs(
                    haystack,
                    pattern,
                    list[i],
                )
            &&& forall|i: int, j: int| 0 <= i < j < list.len() ==> list[i] < list[j]
            &&& forall|offset: int|
                0 <= offset < upto && #[trigger] occurs(haystack, pattern, offset)
                    ==> list.contains(offset)
        }),
    decreases upto,
{
    if upto > 0 {
        lemma_occurrences_exact(haystack, pattern, upto - 1);
        let before = occurrences_upto(haystack, pattern, upto - 1);
        let list = occurrences_upto(haystack, pattern, upto);
        assert forall|offset: int|
            0 <= offset < upto && #[trigger] occurs(
                haystack,
                pattern,
                offset,
            ) implies list.contains(offset) by {
            if offset < upto - 1 {
                assert(before.contains(offset));
                let i = choose|i: int| 0 <= i < before.len() && before[i] == offset;
                assert(list[i] == offset);
            } else {
                assert(list[list.len() - 1] == offset);
            }
        }
    }
}

/// Returns the offset of the first occurrence of `pattern` in `haystack`.
pub fn scan(haystack: &[u8], pattern: &Pattern) -> (found: Option<usize>)
    requires
        pattern.wf(),
    ensures
        match found {
            Some(offset) => {
                &&& pattern.spec_len() > 0
                &&& occurs(haystack@, *pattern, offset as int)
                &&& forall|i: int| 0 <= i < offset ==> !occurs(haystack@, *pattern, i)
                &&& occurrences(haystack@, *pattern).len() > 0
                &&& occurrences(haystack@, *pattern)[0] == offset
            },
            None => {
                &&& occurrences(haystack@, *pattern).len() == 0
                &&& pattern.spec_len() > 0 ==> forall|i: int| !occurs(haystack@, *pattern, i)
            },
        },
{
    let plen: usize = pattern.len();
    if plen == 0 {
        return None;
    }
    if haystack.len() < plen {
        proof {
            lemma_occurrences_fit(haystack@, *pattern, 0);
        }
        return None;
    }
    let last: usize = haystack.len() - plen;
    let mut i: usize = 0;
    while i <= last
        invariant
            pattern.wf(),
            plen == pattern.spec_len(),
            plen > 0,
            last == haystack@.len() - plen,
            last < usize::MAX,
            i <= last + 1,
            forall|j: int| 0 <= j < i ==> !occurs(haystack@, *pattern, j),
            occurrences_upto(haystack@, *pattern, i as int).len() == 0,
        decreases last + 1 - i,
    {
        if pattern.matches_at(haystack, i) {
            proof {
                lemma_occurrences_exact(haystack@, *pattern, haystack@.len() as int);
                let list = occurrences(haystack@, *pattern);
                assert(list.contains(i as int));
                let k = choose|k: int| 0 <= k < list.len() && list[k] == i;
                assert(k == 0 || list[0] < list[k]);
                assert(occurs(haystack@, *pattern, list[0]));
            }
            return Some(i);
        }
        i = i + 1;
    }
    proof {
        lemma_occurrences_fit(haystack@, *pattern, i as int);
        lemma_occurrences_exact(haystack@, *pattern, haystack@.len() as int);
    }
    None
}

/// Returns the offsets of every occurrence of `pattern` in `haystack`, in
/// ascending order; occurrences may overlap.
pub fn scan_all(haystack: &[u8], pattern: &Pattern) -> (offsets: Vec<usize>)
    requires
        pattern.wf(),
    ensures
        offsets@.map_values(|offset: usize| offset as int) == occurrences(haystack@, *pattern),
{
    let plen: usize = pattern.len();
    let mut offsets: Vec<usize> = Vec::new();
    if plen == 0 {
        assert(offsets@.map_values(|offset: usize| offset as int) =~= occurrences(
            haystack@,
            *pattern,
        ));
        return offsets;
    }
    if haystack.len() < plen {
        proof {
            lemma_occurrences_fit(haystack@, *pattern, 0);
            assert(offsets@.map_values(|offset: usize| offset as int) =~= occurrences(
                haystack@,
                *pattern,
            ));
        }
        return offsets;
    }
    let last: usize = haystack.len() - plen;
    let mut i: usize = 0;
    assert(offsets@.map_values(|offset: usize| offset as int) =~= occurrences_upto(
        haystack@,
        *pattern,
        0,
    ));
    while i <= last
        invariant
            pattern.wf(),
            plen == pattern.spec_len(),
            plen > 0,
            last == haystack@.len() - plen,
            last < usize::MAX,
            i <= last + 1,
            offsets@.map_values(|offset: usize| offset as int) == occurrences_upto(
                haystack@,
                *pattern,
                i as int,
            ),
        decreases last + 1 - i,
    {
        let ghost before = offsets@;
        if pattern.matches_at(haystack, i) {
            offsets.push(i);
        }
        i = i + 1;
        proof {
            if occurs(haystack@, *pattern, i - 1) {
                assert(offsets@.map_values(|offset: usize| offset as int) =~= before.map_values(
                    |offset: usize| offset as int,
                ).push(i - 1));
            }
        }
    }
    proof {
        lemma_occurrences_fit(haystack@, *pattern, i as int);
    }
    offsets
}

/// The first offset that a scan for all occurrences gives is the one that a scan
/// for the first gives, and the one is empty exactly when the other is.
pub proof fn lemma_scan_is_first_of_all(haystack: Seq<u8>, pattern: Pattern)
    requires
        pattern.wf(),
        pattern.spec_len() > 0,
    ensures
        ({
            let list = occurrences(haystack, pattern);
            &&& list.len() == 0 <==> forall|i: int| !occurs(haystack, pattern, i)
            &&& list.len() > 0 ==> occurs(haystack, pattern, list[0]) && forall|i: int|
                0 <= i < list[0] ==> !occurs(haystack, pattern, i)
        }),
{
    let list = occurrences(haystack, pattern);
    lemma_occurrences_exact(haystack, pattern, haystack.len() as int);
    if list.len() == 0 {
        assert forall|i: int| !occurs(haystack, pattern, i) by {
            if occurs(haystack, pattern, i) {
                assert(list.contains(i));
            }
        }
    } else {
        assert(occurs(haystack, pattern, list[0]));
        assert forall|i: int| 0 <= i < list[0] implies !occurs(haystack, pattern, i) by {
            if occurs(haystack, pattern, i) {
                assert(list.contains(i));
                let k = choose|k: int| 0 <= k < list.len() && list[k] == i;
                assert(k == 0 || list[0] < list[k]);
            }
        }
    }
}

/// The captured bytes of `region` between the addresses `from` and `to`.
pub open spec fn region_window(region: MemoryRegion, from: int, to: int) -> Seq<u8> {
    let len = region.bytes@.len() as int;
    let start = from - region.base;
    let end = to - region.base;
    if start >= len {
        Seq::empty()
    } else if end <= len {
        region.bytes@.subrange(start, end)
    } else {
        region.bytes@.subrange(start, len)
    }
}

/// Whether a region is scanned: it is committed, neither guarded nor
/// inaccessible, and executable where that is asked for.
pub open spec fn scanned(region: MemoryRegion, executable_only: bool) -> bool {
    region.accessible() && (!executable_only || region.protect & PAGE_EXECUTABLE != 0)
}

/// The addresses between `cursor` and `end` at which `pattern` occurs, region by
/// region. An occurrence lies within one region; the walk ends at the first
/// address that no query answers.
pub open spec fn matches_between(
    arch: Arch,
    regions: Seq<MemoryRegion>,
    cursor: int,
    end: int,
    pattern: Pattern,
    executable_only: bool,
) -> Seq<int>
    decreases
            if cursor < end {
                end - cursor
            } else {
                0
            },
{
    if cursor >= end {
        Seq::empty()
    } else {
        match region_at(regions, cursor) {
            Some(region) => if region.base + region.size < arch.address_limit() && region.base
                + region.size > cursor {
                let region_end = region.base + region.size;
                let stop = if region_end < end {
                    region_end
                } else {
                    end
                };
                let here = if scanned(region, executable_only) {
                    occurrences(region_window(region, cursor, stop), pattern).map_values(
                        |offset: int| cursor + offset,
                    )
                } else {
                    Seq::empty()
                };
                here + matches_between(arch, regions, region_end, end, pattern, executable_only)
            } else {
                Seq::empty()
            },
            None => Seq::empty(),
        }
    }
}

/// The addresses in the `len` bytes at `start` at which `pattern` occurs.
pub open spec fn committed_matches(
    arch: Arch,
    regions: Seq<MemoryRegion>,
    start: int,
    len: int,
    pattern: Pattern,
    executable_only: bool,
) -> Seq<int> {
    if pattern.spec_len() == 0 || len < pattern.spec_len() || start + len >= arch.address_limit() {
        Seq::empty()
    } else {
        matches_between(arch, regions, start, start + len, pattern, executable_only)
    }
}

/// Whether `found` lists `expected`, or only its first address where that is
/// asked for.
pub open spec fn lists(found: Seq<u64>, expected: Seq<int>, first_only: bool) -> bool {
    if first_only && expected.len() > 0 {
        found.len() == 1 && found[0] == expected[0]
    } else {
        found.map_values(|address: u64| address as int) == expected
    }
}

/// Scans the regions in the `len` bytes at `start` for `pattern`.
///
/// Only accessible regions are read, and with `executable_only` only executable
/// ones. With `first_only` the scan ends at the first match.
pub fn scan_committed(
    arch: Arch,
    map: &MemoryMap,
    start: u64,
    len: u64,
    pattern: &Pattern,
    executable_only: bool,
    first_only: bool,
) -> (found: Vec<u64>)
    requires
        pattern.wf(),
    ensures
        lists(
            found@,
            committed_matches(
                arch,
                map@,
                start as int,
                len as int,
                *pattern,
                executable_only,
            ),
            first_only,
        ),
{
    let mut found: Vec<u64> = Vec::new();
    let plen: usize = pattern.len();
    assert(found@.map_values(|address: u64| address as int) =~= Seq::<int>::empty());
    if plen == 0 || len < plen as u64 {
        return found;
    }
    let end: u64 = match arch.checked_offset(start, len) {
        Some(end) => end,
        None => {
            return found;
        },
    };
    let ghost expected = matches_between(
        arch,
        map@,
        start as int,
        end as int,
        *pattern,
        executable_only,
    );
    let mut cursor: u64 = start;
    assert(found@.map_values(|address: u64| address as int) + expected =~= expected);
    while cursor < end
        invariant
            pattern.wf(),
            expected == committed_matches(
                arch,
                map@,
                start as int,
                len as int,
                *pattern,
                executable_only,
            ),
            expected == found@.map_values(|address: u64| address as int) + matches_between(
                arch,
                map@,
                cursor as int,
                end as int,
                *pattern,
                executable_only,
            ),
            first_only ==> found@.len() == 0,
            end < arch.address_limit(),
        decreases
                if cursor < end {
                    end - cursor
                } else {
                    0
                },
    {
        let index = match map.query(cursor) {
            Some(index) => index,
            None => {
                assert(expected =~= found@.map_values(|address: u64| address as int));
                return found;
            },
        };
        let region = &map.regions[index];
        let region_end: u64 = match arch.checked_offset(region.base, region.size) {
            Some(region_end) => region_end,
            None => {
                assert(expected =~= found@.map_values(|address: u64| address as int));
                return found;
            },
        };
        let stop: u64 = if region_end < end {
            region_end
        } else {
            end
        };
        let ghost before = found@;
        if region.is_accessible() && (!executable_only || region.protect & PAGE_EXECUTABLE != 0) {
            let window = window_of(region, cursor, stop);
            let ghost offsets = occurrences(window@, *pattern);
            let ghost here = offsets.map_values(|offset: int| cursor + offset);
            proof {
                lemma_occurrences_exact(window@, *pattern, window@.len() as int);
            }
            if first_only {
                match scan(&window, pattern) {
                    Some(offset) => {
                        proof {
                            assert(expected =~= here + matches_between(
                                arch,
                                map@,
                                region_end as int,
                                end as int,
                                *pattern,
                                executable_only,
                            ));
                            assert(expected[0] == here[0]);
                        }
                        found.push(cursor + offset as u64);
                        return found;
                    },
                    None => {
                        assert(here =~= Seq::<int>::empty());
                    },
                }
            } else {
                let list = scan_all(&window, pattern);
                let mut i: usize = 0;
                proof {
                    assert(list@.len() == offsets.len());
                    assert(found@.map_values(|address: u64| address as int) =~= before.map_values(
                        |address: u64| address as int,
                    ) + here.take(0));
                }
                while i < list.len()
                    invariant
                        i <= list@.len(),
                        list@.len() == offsets.len(),
                        offsets == occurrences(window@, *pattern),
                        list@.map_values(|offset: usize| offset as int) == offsets,
                        here == offsets.map_values(|offset: int| cursor + offset),
                        found@.map_values(|address: u64| address as int) == before.map_values(
                            |address: u64| address as int,
                        ) + here.take(i as int),
                        cursor + window@.len() <= u64::MAX,
                        forall|k: int|
                            0 <= k < offsets.len() ==> 0 <= (#[trigger] offsets[k]) < window@.len(),
                    decreases list@.len() - i,
                {
                    assert(offsets[i as int] == list@.map_values(
                        |offset: usize| offset as int,
                    )[i as int]);
                    let ghost partial = found@;
                    found.push(cursor + list[i] as u64);
                    i = i + 1;
                    assert(here.take(i as int) =~= here.take(i - 1).push(here[i - 1]));
                    assert(found@.map_values(|address: u64| address as int)
                        =~= partial.map_values(|address: u64| address as int).push(here[i - 1]));
                    assert(found@.map_values(|address: u64| address as int) =~= before.map_values(
                        |address: u64| address as int,
                    ) + here.take(i as int));
                }
                assert(here.take(i as int) =~= here);
            }
            assert(found@.map_values(|address: u64| address as int) =~= before.map_values(
                |address: u64| address as int,
            ) + here);
            assert(expected =~= found@.map_values(|address: u64| address as int) + matches_between(
                arch,
                map@,
                region_end as int,
                end as int,
                *pattern,
                executable_only,
            ));
        } else {
            assert(expected =~= found@.map_values(|address: u64| address as int) + matches_between(
                arch,
                map@,
                region_end as int,
                end as int,
                *pattern,
                executable_only,
            ));
        }
        cursor = region_end;
    }
    assert(expected =~= found@.map_values(|address: u64| address as int));
    found
}

/// Copies the captured bytes of a region between two addresses.
fn window_of(region: &MemoryRegion, from: u64, to: u64) -> (window: Vec<u8>)
    requires
        region.base <= from <= to,
    ensures
        window@ == region_window(*region, from as int, to as int),
        window@.len() <= to - from,
{
    let available: u64 = region.bytes.len() as u64;
    let start: u64 = from - region.base;
    let end: u64 = to - region.base;
    if start >= available {
        return Vec::new();
    }
    if end <= available {
        copy_range(&region.bytes, start as usize, end as usize)
    } else {
        copy_range(&region.bytes, start as usize, region.bytes.len())
    }
}

/// Scans the `len` bytes at `start` for the first occurrence of `pattern`, in
/// accessible regions only.
pub fn scan_range(arch: Arch, map: &MemoryMap, start: u64, len: u64, pattern: &Pattern) -> (found:
    Option<u64>)
    requires
        pattern.wf(),
    ensures
        ({
            let all = committed_matches(arch, map@, start as int, len as int, *pattern, false);
            match found {
                Some(address) => start != 0 && all.len() > 0 && address == all[0],
                None => start == 0 || all.len() == 0,
            }
        }),
{
    if start == 0 {
        return None;
    }
    let found = scan_committed(arch, map, start, len, pattern, false, true);
    if found.len() == 0 {
        proof {
            let all = committed_matches(arch, map@, start as int, len as int, *pattern, false);
            if all.len() == 0 {
            } else {
                assert(found@.len() == 1);
            }
        }
        None
    } else {
        proof {
            let all = committed_matches(arch, map@, start as int, len as int, *pattern, false);
            if all.len() == 0 {
                assert(found@.map_values(|address: u64| address as int).len() == found@.len());
            }
        }
        Some(found[0])
    }
}

/// Scans the `len` bytes at `start` for every occurrence of `pattern`, in
/// accessible regions only.
pub fn scan_range_all(arch: Arch, map: &MemoryMap, start: u64, len: u64, pattern: &Pattern) -> (
found: Vec<u64>)
    requires
        pattern.wf(),
    ensures
        start == 0 ==> found@.len() == 0,
        start != 0 ==> found@.map_values(|address: u64| address as int) == committed_matches(
            arch,
            map@,
            start as int,
            len as int,
            *pattern,
            false,
        ),
{
    if start == 0 {
        return Vec::new();
    }
    scan_committed(arch, map, start, len, pattern, false, false)
}

/// The first match of a signature in the executable regions of the module that is
/// mapped at `base`.
pub open spec fn module_match(
    arch: Arch,
    regions: Seq<MemoryRegion>,
    mapped: Seq<u8>,
    base: u64,
    pattern: Pattern,
) -> Option<u64> {
    match parsed(arch, mapped, base) {
        Ok(image) => {
            let all = committed_matches(
                arch,
                regions,
                base as int,
                image.size as int,
                pattern,
                true,
            );
            if all.len() > 0 {
                Some(all[0] as u64)
            } else {
                None
            }
        },
        Err(_) => None,
    }
}

/// Resolves a signature in the module that is mapped at `base`: the first match
/// in the executable regions of the image. `mapped` holds the module's bytes, as
/// far as its headers at least.
pub fn scan_module(arch: Arch, map: &MemoryMap, mapped: &[u8], base: u64, pattern: &Pattern) -> (
found: Option<u64>)
    requires
        pattern.wf(),
    ensures
        found == module_match(arch, map@, mapped@, base, *pattern),
{
    match parse_module_image(arch, mapped, base) {
        Ok(image) => {
            let found = scan_committed(arch, map, base, image.size, pattern, true, true);
            let ghost all = committed_matches(
                arch,
                map@,
                base as int,
                image.size as int,
                *pattern,
                true,
            );
            if found.len() == 0 {
                assert(all.len() == 0 || found@.len() == 1);
                None
            } else {
                assert(all.len() > 0) by {
                    assert(found@.map_values(|address: u64| address as int).len() == found@.len());
                }
                Some(found[0])
            }
        },
        Err(_) => None,
    }
}

/// Resolves a signature in the module that is mapped at `base`: every match in
/// the executable regions of the image.
pub fn scan_module_all(arch: Arch, map: &MemoryMap, mapped: &[u8], base: u64, pattern: &Pattern) -> (
found: Vec<u64>)
    requires
        pattern.wf(),
    ensures
        match parsed(arch, mapped@, base) {
            Ok(image) => found@.map_values(|address: u64| address as int) == committed_matches(
                arch,
                map@,
                base as int,
                image.size as int,
                *pattern,
                true,
            ),
            Err(_) => found@.len() == 0,
        },
{
    match parse_module_image(arch, mapped, base) {
        Ok(image) => scan_committed(arch, map, base, image.size, pattern, true, false),
        Err(_) => Vec::new(),
    }
}

/// A module that was found by its name.
#[derive(Clone, Copy, Debug)]
pub struct FoundModule<'a> {
    /// The address at which the module is mapped.
    pub base: u64,
    /// The bytes of the module, as far as its headers at least.
    pub mapped: &'a [u8],
}

/// Resolves a signature in a module that was looked up by its name, as
/// [`scan_module`] does. In a module that was not found there is no match.
pub fn scan_module_by_name(
    arch: Arch,
    map: &MemoryMap,
    module: Option<FoundModule<'_>>,
    pattern: &Pattern,
) -> (found: Option<u64>)
    requires
        pattern.wf(),
    ensures
        found == (match module {
            Some(image) => module_match(arch, map@, image.mapped@, image.base, *pattern),
            None => None,
        }),
{
    match module {
        Some(image) => scan_module(arch, map, image.mapped, image.base, pattern),
        None => None,
    }
}

} // verus!
