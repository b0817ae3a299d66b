//! The syntax tree and the recursive-descent parser.

use crate::error::{Expected, ParseError, ParseErrorView, Rule};
use crate::grammar::{
    addition_at, expect_at, expression_at, following_at, identifier_at, mismatch, name_at,
    number_at, parse, primary_at, where_clause_at,
};
use crate::tokenizer::{Token, TokenView};
use vstd::prelude::*;

verus! {

/// A syntax tree of the expression language.
#[derive(Debug, PartialEq, Eq)]
pub enum Expression {
    /// An integer literal.
    Number(i32),
    /// A reference to a variable.
    Identifier(String),
    /// The sum of two expressions.
    Add(Box<Expression>, Box<Expression>),
    /// An expression together with a binding: the body, the bound name and
    /// the bound value.
    Where(Box<Expression>, String, Box<Expression>),
}

/// The mathematical value of an [`Expression`]: the same tree, with names as
/// sequences of characters.
pub enum ExpressionView {
    Number(i32),
    Identifier(Seq<char>),
    Add(Box<ExpressionView>, Box<ExpressionView>),
    Where(Box<ExpressionView>, Seq<char>, Box<ExpressionView>),
}

impl View for Expression {
    type V = ExpressionView;

    open spec fn view(&self) -> ExpressionView
        decreases self,
    {
        match self {
            Expression::Number(n) => ExpressionView::Number(*n),
            Expression::Identifier(name) => ExpressionView::Identifier(name@),
            Expression::Add(left, right) => ExpressionView::Add(
                Box::new((**left).view()),
                Box::new((**right).view()),
            ),
            Expression::Where(body, name, value) => ExpressionView::Where(
                Box::new((**body).view()),
                name@,
                Box::new((**value).view()),
            ),
        }
    }
}

/// A trailing clause that was parsed after a base expression and waits to be
/// attached to it.
#[derive(Debug, PartialEq, Eq)]
pub enum FollowingExpression {
    /// `+ expr`: the right-hand operand.
    Add(Expression),
    /// `, where name = expr`: the bound name and the bound value.
    Where(String, Expression),
}

/// The mathematical value of a [`FollowingExpression`].
pub enum FollowingView {
    Add(ExpressionView),
    Where(Seq<char>, ExpressionView),
}

impl View for FollowingExpression {
    type V = FollowingView;

    open spec fn view(&self) -> FollowingView {
        match self {
            FollowingExpression::Add(right) => FollowingView::Add(right@),
            FollowingExpression::Where(name, value) => FollowingView::Where(name@, value@),
        }
    }
}

/// The tree in which the clause `following` is the outer node and `base` its
/// first operand.
pub open spec fn attach(following: FollowingView, base: ExpressionView) -> ExpressionView {
    match following {
        FollowingView::Add(right) => ExpressionView::Add(Box::new(base), Box::new(right)),
        FollowingView::Where(name, value) => ExpressionView::Where(
            Box::new(base),
            name,
            Box::new(value),
        ),
    }
}

impl FollowingExpression {
    /// Makes the clause the outer node of a tree, with `expression` as its
    /// first operand.
    pub fn attach_expression(self, expression: Expression) -> (tree: Expression)
        ensures
            tree@ == attach(self@, expression@),
    {
        match self {
            FollowingExpression::Add(right) => Expression::Add(
                Box::new(expression),
                Box::new(right),
            ),
            FollowingExpression::Where(name, value) => Expression::Where(
                Box::new(expression),
                name,
                Box::new(value),
            ),
        }
    }
}

/// The mathematical value of what a rule returns with the cursor at `cursor`
/// afterwards: the value built and that position, or the error.
pub open spec fn outcome<T: View>(result: Result<T, ParseError>, cursor: int) -> Result<
    (T::V, int),
    ParseErrorView,
> {
    match result {
        Ok(value) => Ok((value@, cursor)),
        Err(error) => Err(error@),
    }
}

/// The mathematical value of the result of a parse.
pub open spec fn tree_view(result: Result<Expression, ParseError>) -> Result<
    ExpressionView,
    ParseErrorView,
> {
    match result {
        Ok(tree) => Ok(tree@),
        Err(error) => Err(error@),
    }
}

/// A cursor over a token sequence, with one method for each rule of the
/// grammar.
///
/// A rule that succeeds leaves the cursor after the tokens that it consumed.
/// A rule that fails leaves the cursor where it was when the rule was
/// entered, however many tokens it had consumed by then.
pub struct Parser<'a> {
    input: &'a [Token],
    index: usize,
}

impl<'a> Parser<'a> {
    #[verifier::type_invariant]
    spec fn in_bounds(&self) -> bool {
        self.index <= self.input@.len()
    }

    /// The token sequence that the parser reads.
    pub closed spec fn tokens(&self) -> Seq<TokenView> {
        self.input.deep_view()
    }

    /// The position of the next token to read.
    pub closed spec fn cursor(&self) -> int {
        self.index as int
    }

    /// A parser at the first token of `input`.
    pub fn new(input: &'a [Token]) -> (parser: Self)
        ensures
            parser.tokens() == input.deep_view(),
            parser.cursor() == 0,
    {
        Parser { input, index: 0 }
    }

    /// The position of the next token to read.
    pub fn position(&self) -> (position: usize)
        ensures
            position == self.cursor(),
    {
        self.index
    }

    /// The failure of `rule` at the cursor, where it requires `expected`.
    fn mismatch(&self, expected: Expected, rule: Rule) -> (error: ParseError)
        ensures
            error@ == mismatch(self.tokens(), self.cursor(), expected, rule),
    {
        proof {
            use_type_invariant(self);
        }
        let found = if self.index < self.input.len() {
            Some(self.input[self.index].clone())
        } else {
            None
        };
        let mut context = Vec::new();
        context.push(rule);
        ParseError { expected, found, position: self.index, context, earlier: None }
    }

    /// Consumes the token at the cursor if it is of the category `expected`.
    fn expect(&mut self, expected: Expected, rule: Rule) -> (result: Result<(), ParseError>)
        ensures
            final(self).tokens() == old(self).tokens(),
            outcome(result, final(self).cursor()) == expect_at(
                old(self).tokens(),
                old(self).cursor(),
                expected,
                rule,
            ),
            result is Err ==> final(self).cursor() == old(self).cursor(),
            old(self).cursor() <= final(self).cursor() <= old(self).tokens().len(),
    {
        proof {
            use_type_invariant(&*self);
        }
        if self.index < self.input.len() && expected.accepts(&self.input[self.index]) {
            self.index += 1;
            Ok(())
        } else {
            Err(self.mismatch(expected, rule))
        }
    }

    /// Consumes the identifier at the cursor and returns its spelling.
    fn expect_name(&mut self, rule: Rule) -> (result: Result<String, ParseError>)
        ensures
            final(self).tokens() == old(self).tokens(),
            outcome(result, final(self).cursor()) == name_at(
                old(self).tokens(),
                old(self).cursor(),
                rule,
            ),
            result is Err ==> final(self).cursor() == old(self).cursor(),
            old(self).cursor() <= final(self).cursor() <= old(self).tokens().len(),
    {
        proof {
            use_type_invariant(&*self);
        }
        if self.index < self.input.len() {
            if let Token::Identifier(name) = &self.input[self.index] {
                self.index += 1;
                return Ok(name.clone());
            }
        }
        Err(self.mismatch(Expected::Identifier, rule))
    }

    /// The rule `NUMBER`: consumes a number token and returns the literal.
    pub fn parse_expression_number(&mut self) -> (result: Result<Expression, ParseError>)
        ensures
            final(self).tokens() == old(self).tokens(),
            outcome(result, final(self).cursor()) == number_at(
                old(self).tokens(),
                old(self).cursor(),
            ),
            result is Err ==> final(self).cursor() == old(self).cursor(),
            old(self).cursor() <= final(self).cursor() <= old(self).tokens().len(),
    {
        proof {
            use_type_invariant(&*self);
        }
        if self.index < self.input.len() {
            if let Token::Number(value) = &self.input[self.index] {
                self.index += 1;
                return Ok(Expression::Number(*value));
            }
        }
        Err(self.mismatch(Expected::Number, Rule::Number))
    }

    /// The rule `IDENTIFIER`: consumes an identifier token and returns the
    /// variable that it names.
    pub fn parse_expression_identifier(&mut self) -> (result: Result<Expression, ParseError>)
        ensures
            final(self).tokens() == old(self).tokens(),
            outcome(result, final(self).cursor()) == identifier_at(
                old(self).tokens(),
                old(self).cursor(),
            ),
            result is Err ==> final(self).cursor() == old(self).cursor(),
            old(self).cursor() <= final(self).cursor() <= old(self).tokens().len(),
    {
        match self.expect_name(Rule::Identifier) {
            Ok(name) => Ok(Expression::Identifier(name)),
            Err(error) => Err(error),
        }
    }

    /// The rule `primary`: a number, or else an identifier, both tried at the
    /// same position.
    pub fn parse_primary(&mut self) -> (result: Result<Expression, ParseError>)
        ensures
            final(self).tokens() == old(self).tokens(),
            outcome(result, final(self).cursor()) == primary_at(
                old(self).tokens(),
                old(self).cursor(),
            ),
            result is Err ==> final(self).cursor() == old(self).cursor(),
            old(self).cursor() <= final(self).cursor() <= old(self).tokens().len(),
    {
        match self.parse_expression_number() {
            Ok(number) => Ok(number),
            Err(first) => match self.parse_expression_identifier() {
                Ok(identifier) => Ok(identifier),
                Err(last) => Err(
                    last.after(first, Expected::NumberOrIdentifier).within(Rule::Primary),
                ),
            },
        }
    }

    /// The rule `expression`: a primary, then the trailing clause that
    /// follows it, if one does.
    pub fn parse_expression(&mut self) -> (result: Result<Expression, ParseError>)
        ensures
            final(self).tokens() == old(self).tokens(),
            outcome(result, final(self).cursor()) == expression_at(
                old(self).tokens(),
                old(self).cursor(),
            ),
            result is Err ==> final(self).cursor() == old(self).cursor(),
            old(self).cursor() <= final(self).cursor() <= old(self).tokens().len(),
        decreases old(self).tokens().len() - old(self).cursor(), 0int,
    {
        match self.parse_primary() {
            Ok(base) => self.parse_following_expression(base),
            Err(error) => Err(error.within(Rule::Expression)),
        }
    }

    /// The optional rule `following` after `base_expression`: an addition, or
    /// else a where clause, attached to the base as the outer node. Where
    /// neither matches, the cursor stays where it was and the base is
    /// returned as it is. This never fails.
    pub fn parse_following_expression(&mut self, base_expression: Expression) -> (result: Result<
        Expression,
        ParseError,
    >)
        ensures
            final(self).tokens() == old(self).tokens(),
            result matches Ok(tree) && (tree@, final(self).cursor()) == following_at(
                old(self).tokens(),
                old(self).cursor(),
                base_expression@,
            ),
            old(self).cursor() <= final(self).cursor() <= old(self).tokens().len(),
        decreases old(self).tokens().len() - old(self).cursor(), 2int,
    {
        match self.parse_addition() {
            Ok(clause) => Ok(clause.attach_expression(base_expression)),
            Err(_) => match self.parse_where_clause() {
                Ok(clause) => Ok(clause.attach_expression(base_expression)),
                Err(_) => Ok(base_expression),
            },
        }
    }

    /// The rule `addition`: a plus sign and the right-hand operand. On
    /// failure the cursor is back where the rule was entered.
    pub fn parse_addition(&mut self) -> (result: Result<FollowingExpression, ParseError>)
        ensures
            final(self).tokens() == old(self).tokens(),
            outcome(result, final(self).cursor()) == addition_at(
                old(self).tokens(),
                old(self).cursor(),
            ),
            result is Err ==> final(self).cursor() == old(self).cursor(),
            old(self).cursor() <= final(self).cursor() <= old(self).tokens().len(),
        decreases old(self).tokens().len() - old(self).cursor(), 1int,
    {
        proof {
            use_type_invariant(&*self);
        }
        let checkpoint = self.index;
        match self.expect(Expected::Plus, Rule::Addition) {
            Ok(()) => match self.parse_expression() {
                Ok(right) => Ok(FollowingExpression::Add(right)),
                Err(error) => {
                    self.index = checkpoint;
                    Err(error.within(Rule::Addition))
                },
            },
            Err(error) => Err(error),
        }
    }

    /// The rule `where_clause`: a comma, the keyword, the bound name, an
    /// equals sign and the bound value. On failure the cursor is back where
    /// the rule was entered.
    pub fn parse_where_clause(&mut self) -> (result: Result<FollowingExpression, ParseError>)
        ensures
            final(self).tokens() == old(self).tokens(),
            outcome(result, final(self).cursor()) == where_clause_at(
                old(self).tokens(),
                old(self).cursor(),
            ),
            result is Err ==> final(self).cursor() == old(self).cursor(),
            old(self).cursor() <= final(self).cursor() <= old(self).tokens().len(),
        decreases old(self).tokens().len() - old(self).cursor(), 1int,
    {
        proof {
            use_type_invariant(&*self);
        }
        let checkpoint = self.index;
        let result = self.where_clause_tokens();
        if result.is_err() {
            self.index = checkpoint;
        }
        result
    }

    /// The tokens of a where clause in order, without the restoring of the
    /// cursor: a failure leaves the cursor after the tokens that matched.
    fn where_clause_tokens(&mut self) -> (result: Result<FollowingExpression, ParseError>)
        ensures
            final(self).tokens() == old(self).tokens(),
            outcome(result, final(self).cursor()) == where_clause_at(
                old(self).tokens(),
                old(self).cursor(),
            ),
            old(self).cursor() <= final(self).cursor() <= old(self).tokens().len(),
        decreases old(self).tokens().len() - old(self).cursor(), 0int,
    {
        self.expect(Expected::Comma, Rule::WhereClause)?;
        self.expect(Expected::Where, Rule::WhereClause)?;
        let name = self.expect_name(Rule::WhereClause)?;
        self.expect(Expected::Equals, Rule::WhereClause)?;
        match self.parse_expression() {
            Ok(value) => Ok(FollowingExpression::Where(name, value)),
            Err(error) => Err(error.within(Rule::WhereClause)),
        }
    }
}

/// Parses `tokens` as one expression, from the first token on. Tokens after
/// the expression are not read.
pub fn parse_expression(tokens: &[Token]) -> (result: Result<Expression, ParseError>)
    ensures
        tree_view(result) == parse(tokens.deep_view()),
{
    Parser::new(tokens).parse_expression()
}

/// Parsing is repeatable. Two parses of the same token sequence, or of two
/// token sequences with the same value, give the same tree or the same
/// error.
pub proof fn lemma_reparse_equal(
    first_tokens: &[Token],
    second_tokens: &[Token],
    first: Result<Expression, ParseError>,
    second: Result<Expression, ParseError>,
)
    requires
        first_tokens.deep_view() == second_tokens.deep_view(),
        tree_view(first) == parse(first_tokens.deep_view()),
        tree_view(second) == parse(second_tokens.deep_view()),
    ensures
        tree_view(first) == tree_view(second),
        first matches Ok(tree) ==> second matches Ok(again) && tree@ == again@,
        first matches Err(error) ==> second matches Err(again) && error@ == again@,
{
}

} // verus!
