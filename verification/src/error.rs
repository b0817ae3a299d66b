//! The structured error of the parser.

use crate::tokenizer::{Token, TokenView};
use vstd::prelude::*;

verus! {

/// A grammar rule, as it labels the context of a parse error.
#[derive(Debug, Clone, Copy, PartialEq, Eq)]
pub enum Rule {
    /// An integer literal.
    Number,
    /// A variable reference.
    Identifier,
    /// A primary expression: a number or an identifier.
    Primary,
    /// The trailing clause `+ expr`.
    Addition,
    /// The trailing clause `, where name = expr`.
    WhereClause,
    /// A whole expression: a primary with an optional trailing clause.
    Expression,
}

impl Rule {
    /// The text of the rule's label.
    pub open spec fn label_text(self) -> Seq<char> {
        match self {
            Rule::Number => "parsing number"@,
            Rule::Identifier => "parsing identifier"@,
            Rule::Primary => "parsing primary expression"@,
            Rule::Addition => "parsing addition"@,
            Rule::WhereClause => "parsing where clause"@,
            Rule::Expression => "parsing expression"@,
        }
    }

    /// A human-readable label for the rule.
    pub fn label(self) -> (text: &'static str)
        ensures
            text@ == self.label_text(),
    {
        match self {
            Rule::Number => "parsing number",
            Rule::Identifier => "parsing identifier",
            Rule::Primary => "parsing primary expression",
            Rule::Addition => "parsing addition",
            Rule::WhereClause => "parsing where clause",
            Rule::Expression => "parsing expression",
        }
    }
}

/// What the grammar requires at a position.
#[derive(Debug, Clone, Copy, PartialEq, Eq)]
pub enum Expected {
    Number,
    Identifier,
    /// Either of the two primary expressions.
    NumberOrIdentifier,
    Plus,
    Comma,
    Where,
    Equals,
}

impl Expected {
    /// Whether `token` is of the expected category.
    pub open spec fn admits(self, token: TokenView) -> bool {
        match self {
            Expected::Number => token is Number,
            Expected::Identifier => token is Identifier,
            Expected::NumberOrIdentifier => token is Number || token is Identifier,
            Expected::Plus => token is Plus,
            Expected::Comma => token is Comma,
            Expected::Where => token is Where,
            Expected::Equals => token is Equals,
        }
    }

    /// Tests whether `token` is of the expected category.
    pub fn accepts(self, token: &Token) -> (accepted: bool)
        ensures
            accepted == self.admits(token@),
    {
        match self {
            Expected::Number => matches!(token, Token::Number(_)),
            Expected::Identifier => matches!(token, Token::Identifier(_)),
            Expected::NumberOrIdentifier => {
                matches!(token, Token::Number(_) | Token::Identifier(_))
            },
            Expected::Plus => matches!(token, Token::Plus),
            Expected::Comma => matches!(token, Token::Comma),
            Expected::Where => matches!(token, Token::Where),
            Expected::Equals => matches!(token, Token::Equals),
        }
    }

    /// The text that names the category.
    pub open spec fn description_text(self) -> Seq<char> {
        match self {
            Expected::Number => "number"@,
            Expected::Identifier => "identifier"@,
            Expected::NumberOrIdentifier => "number or identifier"@,
            Expected::Plus => "'+'"@,
            Expected::Comma => "','"@,
            Expected::Where => "'where'"@,
            Expected::Equals => "'='"@,
        }
    }

    /// A human-readable name for the category.
    pub fn description(self) -> (text: &'static str)
        ensures
            text@ == self.description_text(),
    {
        match self {
            Expected::Number => "number",
            Expected::Identifier => "identifier",
            Expected::NumberOrIdentifier => "number or identifier",
            Expected::Plus => "'+'",
            Expected::Comma => "','",
            Expected::Where => "'where'",
            Expected::Equals => "'='",
        }
    }
}

/// A failure to parse: a required token is absent or of the wrong category.
#[derive(Debug, PartialEq, Eq)]
pub struct ParseError {
    /// What the grammar required.
    pub expected: Expected,
    /// The token that stands there instead; `None` at the end of the input.
    pub found: Option<Token>,
    /// The index of that token in the token sequence.
    pub position: usize,
    /// The rules that were being parsed, innermost first.
    pub context: Vec<Rule>,
    /// Where this is the last of several alternatives that all failed at one
    /// decision point: the failure of the alternative tried before it.
    pub earlier: Option<Box<ParseError>>,
}

/// The mathematical value of a [`ParseError`].
pub struct ParseErrorView {
    pub expected: Expected,
    pub found: Option<TokenView>,
    pub position: int,
    pub context: Seq<Rule>,
    pub earlier: Option<Box<ParseErrorView>>,
}

impl View for ParseError {
    type V = ParseErrorView;

    open spec fn view(&self) -> ParseErrorView
        decreases self,
    {
        ParseErrorView {
            expected: self.expected,
            found: match self.found {
                Some(token) => Some(token@),
                None => None,
            },
            position: self.position as int,
            context: self.context@,
            earlier: match self.earlier {
                Some(error) => Some(Box::new((*error).view())),
                None => None,
            },
        }
    }
}

impl ParseErrorView {
    /// The error as it leaves the enclosing rule `rule`: the same failure,
    /// with the rule's label added as the outermost context.
    pub open spec fn within(self, rule: Rule) -> ParseErrorView {
        ParseErrorView { context: self.context.push(rule), ..self }
    }

    /// The failure of a decision point whose alternatives all failed, of
    /// which this is the last: it carries the context of this failure, names
    /// as `expected` what any of the alternatives would have accepted, and
    /// refers to the failure `earlier` of the alternative tried before.
    pub open spec fn after(self, earlier: ParseErrorView, expected: Expected) -> ParseErrorView {
        ParseErrorView { expected, earlier: Some(Box::new(earlier)), ..self }
    }
}

impl ParseError {
    /// Combines this failure with the failure `earlier` of the alternative
    /// that was tried before it at the same decision point, where `expected`
    /// names what either would have accepted.
    pub fn after(self, earlier: ParseError, expected: Expected) -> (error: ParseError)
        ensures
            error@ == self@.after(earlier@, expected),
    {
        ParseError {
            expected,
            found: self.found,
            position: self.position,
            context: self.context,
            earlier: Some(Box::new(earlier)),
        }
    }

    /// Adds the label of the enclosing rule `rule` as the outermost context.
    pub fn within(self, rule: Rule) -> (error: ParseError)
        ensures
            error@ == self@.within(rule),
    {
        let mut error = self;
        error.context.push(rule);
        error
    }
}

} // verus!
