//! The lexical structure of the expression language, as functions on
//! character sequences.
//!
//! Tokens are separated by optional whitespace. The punctuation characters
//! `,`, `=`, `+`, `(` and `)` are tokens by themselves. A number is the
//! longest run of ASCII digits; a word is a letter or an underscore followed
//! by the longest run of letters, digits and underscores. The word `where` is
//! a keyword, every other word an identifier.

use crate::tokenizer::{LexError, TokenView};
use vstd::prelude::*;

verus! {

/// The classes of characters that the lexer scans in runs.
#[derive(Debug, Clone, Copy, PartialEq, Eq)]
pub enum CharClass {
    /// Space, tab, carriage return and newline.
    Whitespace,
    /// The ASCII digits.
    Digit,
    /// An ASCII letter or an underscore.
    IdentifierStart,
    /// An ASCII letter, an ASCII digit or an underscore.
    IdentifierPart,
}

impl CharClass {
    /// Whether `c` belongs to the class.
    pub open spec fn contains(self, c: char) -> bool {
        match self {
            CharClass::Whitespace => c == ' ' || c == '\t' || c == '\r' || c == '\n',
            CharClass::Digit => '0' <= c <= '9',
            CharClass::IdentifierStart => 'a' <= c <= 'z' || 'A' <= c <= 'Z' || c == '_',
            CharClass::IdentifierPart => {
                'a' <= c <= 'z' || 'A' <= c <= 'Z' || c == '_' || '0' <= c <= '9'
            },
        }
    }

    /// Tests whether `c` belongs to the class.
    pub fn has(self, c: char) -> (member: bool)
        ensures
            member == self.contains(c),
    {
        match self {
            CharClass::Whitespace => c == ' ' || c == '\t' || c == '\r' || c == '\n',
            CharClass::Digit => '0' <= c && c <= '9',
            CharClass::IdentifierStart => {
                ('a' <= c && c <= 'z') || ('A' <= c && c <= 'Z') || c == '_'
            },
            CharClass::IdentifierPart => {
                ('a' <= c && c <= 'z') || ('A' <= c && c <= 'Z') || c == '_'
                    || ('0' <= c && c <= '9')
            },
        }
    }
}

/// The end of the longest run of characters of `class` that starts at `from`:
/// the first position at or after `from` that is past the input or holds a
/// character outside the class.
pub open spec fn run_end(input: Seq<char>, from: int, class: CharClass) -> int
    decreases input.len() - from,
{
    if 0 <= from < input.len() && class.contains(input[from]) {
        run_end(input, from + 1, class)
    } else {
        from
    }
}

/// A run ends within the input, holds only characters of its class, and is
/// followed by the end of the input or by a character outside the class.
pub proof fn lemma_run_end(input: Seq<char>, from: int, class: CharClass)
    requires
        0 <= from <= input.len(),
    ensures
        from <= run_end(input, from, class) <= input.len(),
        forall|at: int| from <= at < run_end(input, from, class) ==> class.contains(input[at]),
        char_at(input, run_end(input, from, class)) matches Some(c) ==> !class.contains(c),
    decreases input.len() - from,
{
    if from < input.len() && class.contains(input[from]) {
        lemma_run_end(input, from + 1, class);
    }
}

/// The value of the ASCII digit `c`.
pub open spec fn digit_value(c: char) -> int {
    c as int - '0' as int
}

/// The number that a sequence of ASCII digits denotes in base ten; the empty
/// sequence denotes zero.
pub open spec fn decimal_value(digits: Seq<char>) -> int
    decreases digits.len(),
{
    if digits.len() == 0 {
        0
    } else {
        decimal_value(digits.drop_last()) * 10 + digit_value(digits.last())
    }
}

/// The integer `n` brought into the range of `i32` by two's-complement
/// wraparound: the one value of that range that differs from `n` by a
/// multiple of 2^32.
pub open spec fn wrap_i32(n: int) -> i32 {
    let low = n % 0x1_0000_0000;
    if low > i32::MAX {
        (low - 0x1_0000_0000) as i32
    } else {
        low as i32
    }
}

/// A number within the range of `i32` is not changed by the wraparound.
pub proof fn lemma_wrap_in_range(n: int)
    requires
        i32::MIN <= n <= i32::MAX,
    ensures
        wrap_i32(n) == n,
{
    lemma_wrap_unique(n, 0, n);
}

/// A value in the range of `i32` that differs from `n` by a multiple of 2^32
/// is `wrap_i32(n)`.
proof fn lemma_wrap_unique(n: int, k: int, r: int)
    requires
        r == n + k * 0x1_0000_0000,
        i32::MIN <= r <= i32::MAX,
    ensures
        wrap_i32(n) == r,
{
    if r >= 0 {
        vstd::arithmetic::div_mod::lemma_mod_multiples_vanish(k, n, 0x1_0000_0000);
        vstd::arithmetic::div_mod::lemma_small_mod(r as nat, 0x1_0000_0000);
    } else {
        vstd::arithmetic::div_mod::lemma_mod_multiples_vanish(k + 1, n, 0x1_0000_0000);
        vstd::arithmetic::div_mod::lemma_small_mod((r + 0x1_0000_0000) as nat, 0x1_0000_0000);
    }
}

/// `wrap_i32(n)` differs from `n` by a multiple of 2^32.
proof fn lemma_wrap_congruent(n: int) -> (k: int)
    ensures
        wrap_i32(n) == n + k * 0x1_0000_0000,
{
    vstd::arithmetic::div_mod::lemma_fundamental_div_mod(n, 0x1_0000_0000);
    vstd::arithmetic::div_mod::lemma_mod_bound(n, 0x1_0000_0000);
    if n % 0x1_0000_0000 > i32::MAX {
        -(n / 0x1_0000_0000) - 1
    } else {
        -(n / 0x1_0000_0000)
    }
}

/// Appending a digit to a wrapped number: multiplying by ten and adding the
/// digit, both with wraparound, gives the wrapped value of the longer number.
pub proof fn lemma_wrap_push_digit(value: int, digit: i32)
    requires
        0 <= digit <= 9,
    ensures
        vstd::wrapping::i32_specs::wrapping_add(
            vstd::wrapping::i32_specs::wrapping_mul(wrap_i32(value), 10),
            digit,
        ) == wrap_i32(value * 10 + digit),
{
    let k1 = lemma_wrap_congruent(value);
    let head = wrap_i32(value);
    let k2 = lemma_wrap_congruent(head * 10);
    let scaled = vstd::wrapping::i32_specs::wrapping_mul(head, 10);
    assert(scaled == wrap_i32(head * 10));
    let sum = vstd::wrapping::i32_specs::wrapping_add(scaled, digit);
    if scaled + digit > i32::MAX {
        lemma_wrap_unique(value * 10 + digit, 10 * k1 + k2 - 1, sum as int);
    } else {
        lemma_wrap_unique(value * 10 + digit, 10 * k1 + k2, sum as int);
    }
}

/// The spelling of the keyword that introduces a binding clause.
pub open spec fn where_keyword() -> Seq<char> {
    seq!['w', 'h', 'e', 'r', 'e']
}

/// The token that a scanned word stands for: the `Where` token for the
/// keyword, an identifier with that spelling for any other word.
pub open spec fn word_token(word: Seq<char>) -> TokenView {
    if word == where_keyword() {
        TokenView::Where
    } else {
        TokenView::Identifier(word)
    }
}

/// The character at `at`, or `None` where `at` is past the input.
pub open spec fn char_at(input: Seq<char>, at: int) -> Option<char> {
    if 0 <= at < input.len() {
        Some(input[at])
    } else {
        None
    }
}

/// One step of the lexer on `input` with the cursor at `from`: what the step
/// yields, and where the cursor stands after it.
///
/// Whitespace before the token is skipped. At the end of the input the step
/// yields nothing. A punctuation character is a token by itself; a digit
/// begins the longest run of digits, a letter or underscore the longest word.
/// Any other character is an error: it is not consumed, and the cursor stays
/// at it.
pub open spec fn scan(input: Seq<char>, from: int) -> (Option<Result<TokenView, LexError>>, int) {
    let start = run_end(input, from, CharClass::Whitespace);
    match char_at(input, start) {
        None => (None, start),
        Some(c) => if c == ',' {
            (Some(Ok(TokenView::Comma)), start + 1)
        } else if c == '=' {
            (Some(Ok(TokenView::Equals)), start + 1)
        } else if c == '+' {
            (Some(Ok(TokenView::Plus)), start + 1)
        } else if c == '(' {
            (Some(Ok(TokenView::LeftParenthesis)), start + 1)
        } else if c == ')' {
            (Some(Ok(TokenView::RightParenthesis)), start + 1)
        } else if CharClass::Digit.contains(c) {
            let end = run_end(input, start, CharClass::Digit);
            (
                Some(Ok(TokenView::Number(wrap_i32(decimal_value(input.subrange(start, end)))))),
                end,
            )
        } else if CharClass::IdentifierStart.contains(c) {
            let end = run_end(input, start + 1, CharClass::IdentifierPart);
            (Some(Ok(word_token(input.subrange(start, end)))), end)
        } else {
            (
                Some(Err(LexError::UnexpectedCharacter { character: c, position: start as usize })),
                start,
            )
        },
    }
}

/// A step that yields a token moves the cursor forward, and no step moves it
/// past the end of the input.
pub proof fn lemma_scan_advances(input: Seq<char>, from: int)
    requires
        0 <= from <= input.len(),
    ensures
        from <= scan(input, from).1 <= input.len(),
        scan(input, from).0 matches Some(Ok(_)) ==> from < scan(input, from).1,
{
    lemma_run_end(input, from, CharClass::Whitespace);
    let start = run_end(input, from, CharClass::Whitespace);
    if start < input.len() {
        lemma_run_end(input, start + 1, CharClass::Digit);
        lemma_run_end(input, start + 1, CharClass::IdentifierPart);
    }
}

/// A lexical error is final. The step after one that failed fails in the same
/// way and leaves the cursor at the same character: no token follows an
/// error.
pub proof fn lemma_error_is_final(input: Seq<char>, from: int)
    requires
        0 <= from <= input.len(),
        scan(input, from).0 matches Some(Err(_)),
    ensures
        scan(input, scan(input, from).1) == scan(input, from),
        lex_from(input, from) is Err,
        lex_from(input, scan(input, from).1) == lex_from(input, from),
{
    lemma_run_end(input, from, CharClass::Whitespace);
}

/// Whitespace yields no token: a step from `from` is the step from the end of
/// the whitespace that begins at `from`, and so are the tokens that follow.
pub proof fn lemma_leading_whitespace_is_skipped(input: Seq<char>, from: int)
    requires
        0 <= from <= input.len(),
    ensures
        scan(input, from) == scan(input, run_end(input, from, CharClass::Whitespace)),
        lex_from(input, from) == lex_from(input, run_end(input, from, CharClass::Whitespace)),
{
    lemma_run_end(input, from, CharClass::Whitespace);
}

/// The whole token sequence of `input` from the cursor `from` on: the tokens
/// that the steps of [`scan`] yield up to the end of the input, or the first
/// error among them.
pub open spec fn lex_from(input: Seq<char>, from: int) -> Result<Seq<TokenView>, LexError>
    decreases input.len() - from,
    via lex_from_decreases
{
    match scan(input, from) {
        (None, _) => Ok(Seq::empty()),
        (Some(Err(error)), _) => Err(error),
        (Some(Ok(token)), next) => match lex_from(input, next) {
            Ok(rest) => Ok(seq![token] + rest),
            Err(error) => Err(error),
        },
    }
}

#[via_fn]
proof fn lex_from_decreases(input: Seq<char>, from: int) {
    if 0 <= from <= input.len() {
        lemma_scan_advances(input, from);
    }
}

} // verus!
