//! The token model and the lexer.

use crate::lexical::{
    char_at, decimal_value, lemma_scan_advances, lemma_wrap_push_digit, lex_from, run_end, scan,
    where_keyword, word_token, wrap_i32, CharClass,
};
use vstd::prelude::*;

verus! {

/// A lexical unit of the expression language.
#[derive(Debug, PartialEq, Eq)]
pub enum Token {
    Number(i32),
    Comma,
    Equals,
    Plus,
    LeftParenthesis,
    RightParenthesis,
    Identifier(String),
    Where,
}

/// The mathematical value of a [`Token`]: the same variants, with an
/// identifier's spelling as a sequence of characters.
pub enum TokenView {
    Number(i32),
    Comma,
    Equals,
    Plus,
    LeftParenthesis,
    RightParenthesis,
    Identifier(Seq<char>),
    Where,
}

impl View for Token {
    type V = TokenView;

    open spec fn view(&self) -> TokenView {
        match self {
            Token::Number(n) => TokenView::Number(*n),
            Token::Comma => TokenView::Comma,
            Token::Equals => TokenView::Equals,
            Token::Plus => TokenView::Plus,
            Token::LeftParenthesis => TokenView::LeftParenthesis,
            Token::RightParenthesis => TokenView::RightParenthesis,
            Token::Identifier(name) => TokenView::Identifier(name@),
            Token::Where => TokenView::Where,
        }
    }
}

impl Clone for Token {
    fn clone(&self) -> (copy: Token)
        ensures
            copy@ == self@,
    {
        match self {
            Token::Number(n) => Token::Number(*n),
            Token::Comma => Token::Comma,
            Token::Equals => Token::Equals,
            Token::Plus => Token::Plus,
            Token::LeftParenthesis => Token::LeftParenthesis,
            Token::RightParenthesis => Token::RightParenthesis,
            Token::Identifier(name) => Token::Identifier(name.clone()),
            Token::Where => Token::Where,
        }
    }
}

impl DeepView for Token {
    type V = TokenView;

    open spec fn deep_view(&self) -> TokenView {
        self@
    }
}

/// A lexical error. It ends the token stream: the character at which it was
/// found is not consumed, so no token follows it.
#[derive(Debug, Clone, Copy, PartialEq, Eq)]
pub enum LexError {
    /// The character `character` at `position` cannot begin any token.
    UnexpectedCharacter { character: char, position: usize },
    /// An identifier was asked for at `position`, where `found` stands
    /// (`None` at the end of the input) and cannot begin one.
    ExpectedIdentifierStart { found: Option<char>, position: usize },
}

/// The mathematical value of what one step yields.
pub open spec fn item_view(item: Option<Result<Token, LexError>>) -> Option<
    Result<TokenView, LexError>,
> {
    match item {
        None => None,
        Some(Ok(token)) => Some(Ok(token@)),
        Some(Err(error)) => Some(Err(error)),
    }
}

/// The mathematical value of a collected token sequence or its error.
pub open spec fn tokens_view(result: Result<Vec<Token>, LexError>) -> Result<
    Seq<TokenView>,
    LexError,
> {
    match result {
        Ok(tokens) => Ok(tokens.deep_view()),
        Err(error) => Err(error),
    }
}

/// Assumed of the standard library's `String::push`, and not proved here:
/// after the call the string is what it was before, with `ch` appended at its
/// end.
pub assume_specification[ String::push ](text: &mut String, ch: char)
    ensures
        final(text)@ == old(text)@.push(ch),
;

/// A lexer over a slice of characters: a cursor that yields one token per step.
pub struct TokenStream<'a> {
    input: &'a [char],
    index: usize,
}

impl<'a> TokenStream<'a> {
    #[verifier::type_invariant]
    spec fn in_bounds(&self) -> bool {
        self.index <= self.input@.len()
    }

    /// The characters that the stream scans.
    pub closed spec fn source(&self) -> Seq<char> {
        self.input@
    }

    /// The position of the next character to scan.
    pub closed spec fn cursor(&self) -> int {
        self.index as int
    }

    /// A stream at the beginning of `input`.
    pub fn new(input: &'a [char]) -> (stream: Self)
        ensures
            stream.source() == input@,
            stream.cursor() == 0,
    {
        TokenStream { input, index: 0 }
    }

    /// Scans the longest run of digits at the cursor and yields its value as a
    /// `Number` token, reduced into `i32` by wraparound. A run of no digits
    /// consumes nothing and yields zero. This step never fails.
    pub fn parse_number(&mut self) -> (result: Result<Token, LexError>)
        ensures
            final(self).source() == old(self).source(),
            old(self).cursor() <= final(self).cursor() <= old(self).source().len(),
            final(self).cursor() == run_end(
                old(self).source(),
                old(self).cursor(),
                CharClass::Digit,
            ),
            result matches Ok(token) && token@ == TokenView::Number(
                wrap_i32(
                    decimal_value(
                        old(self).source().subrange(old(self).cursor(), final(self).cursor()),
                    ),
                ),
            ),
    {
        proof {
            use_type_invariant(&*self);
        }
        let ghost start = self.index as int;
        let ghost source = self.input@;
        let mut number: i32 = 0;
        while self.index < self.input.len() && CharClass::Digit.has(self.input[self.index])
            invariant
                self.input@ == source,
                0 <= start <= self.index <= source.len(),
                run_end(source, start, CharClass::Digit) == run_end(
                    source,
                    self.index as int,
                    CharClass::Digit,
                ),
                number == wrap_i32(decimal_value(source.subrange(start, self.index as int))),
            decreases source.len() - self.index,
        {
            let c = self.input[self.index];
            let digit: i32 = (c as u32 - '0' as u32) as i32;
            proof {
                let longer = source.subrange(start, self.index + 1);
                assert(longer.drop_last() == source.subrange(start, self.index as int));
                assert(longer.last() == c);
                lemma_wrap_push_digit(decimal_value(longer.drop_last()), digit);
            }
            number = number.wrapping_mul(10).wrapping_add(digit);
            self.index += 1;
        }
        Ok(Token::Number(number))
    }

    /// Scans a word at the cursor: a character of the class `IdentifierStart`
    /// followed by the longest run of the class `IdentifierPart`. The word
    /// `where` yields the `Where` token, any other word an identifier. Where
    /// no word begins at the cursor the step fails and consumes nothing.
    pub fn parse_identifier(&mut self) -> (result: Result<Token, LexError>)
        ensures
            final(self).source() == old(self).source(),
            old(self).cursor() <= final(self).cursor() <= old(self).source().len(),
            match result {
                Ok(token) => {
                    &&& char_at(old(self).source(), old(self).cursor()) matches Some(c)
                    &&& CharClass::IdentifierStart.contains(c)
                    &&& final(self).cursor() == run_end(
                        old(self).source(),
                        old(self).cursor() + 1,
                        CharClass::IdentifierPart,
                    )
                    &&& token@ == word_token(
                        old(self).source().subrange(old(self).cursor(), final(self).cursor()),
                    )
                },
                Err(error) => {
                    &&& !(char_at(old(self).source(), old(self).cursor()) matches Some(c)
                        && CharClass::IdentifierStart.contains(c))
                    &&& error == (LexError::ExpectedIdentifierStart {
                        found: char_at(old(self).source(), old(self).cursor()),
                        position: old(self).cursor() as usize,
                    })
                    &&& final(self).cursor() == old(self).cursor()
                },
            },
    {
        proof {
            use_type_invariant(&*self);
        }
        let start = self.index;
        let ghost source = self.input@;
        let mut identifier = String::new();
        if self.index < self.input.len() {
            let c = self.input[self.index];
            if CharClass::IdentifierStart.has(c) {
                identifier.push(c);
                self.index += 1;
            } else {
                return Err(LexError::ExpectedIdentifierStart { found: Some(c), position: start });
            }
        } else {
            return Err(LexError::ExpectedIdentifierStart { found: None, position: start });
        }
        assert(identifier@ == source.subrange(start as int, self.index as int));
        while self.index < self.input.len() && CharClass::IdentifierPart.has(self.input[self.index])
            invariant
                self.input@ == source,
                start < self.index <= source.len(),
                run_end(source, start + 1, CharClass::IdentifierPart) == run_end(
                    source,
                    self.index as int,
                    CharClass::IdentifierPart,
                ),
                identifier@ == source.subrange(start as int, self.index as int),
            decreases source.len() - self.index,
        {
            identifier.push(self.input[self.index]);
            self.index += 1;
            assert(identifier@ == source.subrange(start as int, self.index as int));
        }
        if is_where_keyword(&identifier) {
            Ok(Token::Where)
        } else {
            Ok(Token::Identifier(identifier))
        }
    }

    /// Yields the next token, or the error that ends the stream, or `None` at
    /// the end of the input: one step of [`scan`]. A character that cannot
    /// begin a token is not consumed: the cursor stays at it, and every later
    /// step yields the same error.
    pub fn next(&mut self) -> (item: Option<Result<Token, LexError>>)
        ensures
            final(self).source() == old(self).source(),
            old(self).cursor() <= final(self).cursor() <= old(self).source().len(),
            (item_view(item), final(self).cursor()) == scan(old(self).source(), old(self).cursor()),
    {
        proof {
            use_type_invariant(&*self);
        }
        let ghost from = self.index as int;
        let ghost source = self.input@;
        while self.index < self.input.len() && CharClass::Whitespace.has(self.input[self.index])
            invariant
                self.input@ == source,
                0 <= from <= self.index <= source.len(),
                run_end(source, from, CharClass::Whitespace) == run_end(
                    source,
                    self.index as int,
                    CharClass::Whitespace,
                ),
            decreases source.len() - self.index,
        {
            self.index += 1;
        }
        if self.index >= self.input.len() {
            return None;
        }
        let c = self.input[self.index];
        if c == ',' {
            self.index += 1;
            Some(Ok(Token::Comma))
        } else if c == '=' {
            self.index += 1;
            Some(Ok(Token::Equals))
        } else if c == '+' {
            self.index += 1;
            Some(Ok(Token::Plus))
        } else if c == '(' {
            self.index += 1;
            Some(Ok(Token::LeftParenthesis))
        } else if c == ')' {
            self.index += 1;
            Some(Ok(Token::RightParenthesis))
        } else if CharClass::Digit.has(c) {
            Some(self.parse_number())
        } else if CharClass::IdentifierStart.has(c) {
            Some(self.parse_identifier())
        } else {
            Some(Err(LexError::UnexpectedCharacter { character: c, position: self.index }))
        }
    }

    /// Runs the stream to its end and gathers the tokens in order, or returns
    /// the error that ended it.
    pub fn collect(self) -> (result: Result<Vec<Token>, LexError>)
        ensures
            tokens_view(result) == lex_from(self.source(), self.cursor()),
    {
        proof {
            use_type_invariant(&self);
        }
        let ghost source = self.input@;
        let ghost start = self.index as int;
        let mut stream = self;
        let mut tokens: Vec<Token> = Vec::new();
        loop
            invariant
                source == self.source(),
                start == self.cursor(),
                stream.input@ == source,
                0 <= stream.index <= source.len(),
                lex_from(source, start) == match lex_from(source, stream.index as int) {
                    Ok(rest) => Ok::<Seq<TokenView>, LexError>(tokens.deep_view() + rest),
                    Err(error) => Err(error),
                },
            decreases source.len() - stream.index,
        {
            proof {
                lemma_scan_advances(source, stream.index as int);
            }
            let ghost before = tokens.deep_view();
            match stream.next() {
                None => {
                    assert(tokens.deep_view() + Seq::<TokenView>::empty() == tokens.deep_view());
                    return Ok(tokens);
                },
                Some(Err(error)) => {
                    return Err(error);
                },
                Some(Ok(token)) => {
                    tokens.push(token);
                    assert(tokens.deep_view() == before.push(token@));
                    let ghost longer = before.push(token@);
                    assert forall|rest: Seq<TokenView>|
                        before + (seq![token@] + rest) == #[trigger] (longer + rest) by {
                        assert(before + (seq![token@] + rest) =~= longer + rest);
                    }
                },
            }
        }
    }

    /// The position of the next character to scan.
    pub fn position(&self) -> (position: usize)
        ensures
            position == self.cursor(),
    {
        self.index
    }
}

/// A token stream at the beginning of `input`.
pub fn tokenize<'a>(input: &'a [char]) -> (stream: TokenStream<'a>)
    ensures
        stream.source() == input@,
        stream.cursor() == 0,
{
    TokenStream::new(input)
}

/// Tests whether `word` is the keyword `where`.
fn is_where_keyword(word: &String) -> (is_keyword: bool)
    ensures
        is_keyword == (word@ == where_keyword()),
{
    proof {
        reveal_strlit("where");
        assert("where"@ == where_keyword());
    }
    let keyword = String::from_str("where");
    *word == keyword
}

} // verus!
