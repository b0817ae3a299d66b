//! The grammar of the expression language, as functions on token sequences.
//!
//! ```text
//! expression   := primary following?
//! primary      := NUMBER | IDENTIFIER
//! following    := addition | where_clause
//! addition     := PLUS expression
//! where_clause := COMMA WHERE IDENTIFIER EQUALS expression
//! ```
//!
//! Each rule is a function of the token sequence and the position at which the
//! rule is tried. It gives what the rule builds together with the position
//! after the tokens that it consumed, or the error with which it fails.
//! Alternatives are tried in order, each from the position at which the
//! decision point was entered.

use crate::error::{Expected, ParseErrorView, Rule};
use crate::parser::{attach, ExpressionView, FollowingView};
use crate::tokenizer::TokenView;
use vstd::prelude::*;

verus! {

/// The token at `at`, or `None` where `at` is past the end of the input.
pub open spec fn token_at(tokens: Seq<TokenView>, at: int) -> Option<TokenView> {
    if 0 <= at < tokens.len() {
        Some(tokens[at])
    } else {
        None
    }
}

/// The failure of `rule` at `at`, where it requires `expected` and the token
/// there, if any, is of another category.
pub open spec fn mismatch(
    tokens: Seq<TokenView>,
    at: int,
    expected: Expected,
    rule: Rule,
) -> ParseErrorView {
    ParseErrorView {
        expected,
        found: token_at(tokens, at),
        position: at,
        context: seq![rule],
        earlier: None,
    }
}

/// Requires a token of the category `expected` at `at`, on behalf of `rule`,
/// and consumes it.
pub open spec fn expect_at(
    tokens: Seq<TokenView>,
    at: int,
    expected: Expected,
    rule: Rule,
) -> Result<((), int), ParseErrorView> {
    match token_at(tokens, at) {
        Some(token) if expected.admits(token) => Ok(((), at + 1)),
        _ => Err(mismatch(tokens, at, expected, rule)),
    }
}

/// Requires an identifier at `at`, on behalf of `rule`, and consumes it:
/// gives its spelling.
pub open spec fn name_at(tokens: Seq<TokenView>, at: int, rule: Rule) -> Result<
    (Seq<char>, int),
    ParseErrorView,
> {
    match token_at(tokens, at) {
        Some(TokenView::Identifier(name)) => Ok((name, at + 1)),
        _ => Err(mismatch(tokens, at, Expected::Identifier, rule)),
    }
}

/// The rule `NUMBER`: the literal of the number token at `at`.
pub open spec fn number_at(tokens: Seq<TokenView>, at: int) -> Result<
    (ExpressionView, int),
    ParseErrorView,
> {
    match token_at(tokens, at) {
        Some(TokenView::Number(value)) => Ok((ExpressionView::Number(value), at + 1)),
        _ => Err(mismatch(tokens, at, Expected::Number, Rule::Number)),
    }
}

/// The rule `IDENTIFIER`: the variable that the identifier token at `at`
/// names.
pub open spec fn identifier_at(tokens: Seq<TokenView>, at: int) -> Result<
    (ExpressionView, int),
    ParseErrorView,
> {
    match name_at(tokens, at, Rule::Identifier) {
        Ok((name, next)) => Ok((ExpressionView::Identifier(name), next)),
        Err(error) => Err(error),
    }
}

/// The rule `primary`: a number, or else an identifier. Where both fail, the
/// error is that of the identifier, names both categories as expected, refers
/// to the failure of the number, and carries the label of this rule.
pub open spec fn primary_at(tokens: Seq<TokenView>, at: int) -> Result<
    (ExpressionView, int),
    ParseErrorView,
> {
    match number_at(tokens, at) {
        Ok(parsed) => Ok(parsed),
        Err(first) => match identifier_at(tokens, at) {
            Ok(parsed) => Ok(parsed),
            Err(last) => Err(
                last.after(first, Expected::NumberOrIdentifier).within(Rule::Primary),
            ),
        },
    }
}

/// The rule `expression`: a primary, then the trailing clause that follows
/// it, if one does. It fails only where the primary fails.
pub open spec fn expression_at(tokens: Seq<TokenView>, at: int) -> Result<
    (ExpressionView, int),
    ParseErrorView,
>
    decreases tokens.len() - at, 0int,
{
    match primary_at(tokens, at) {
        Ok((base, next)) => Ok(following_at(tokens, next, base)),
        Err(error) => Err(error.within(Rule::Expression)),
    }
}

/// The rule `addition`: a plus sign and the right-hand operand.
pub open spec fn addition_at(tokens: Seq<TokenView>, at: int) -> Result<
    (FollowingView, int),
    ParseErrorView,
>
    decreases tokens.len() - at, 0int,
{
    match expect_at(tokens, at, Expected::Plus, Rule::Addition) {
        Ok((_, operand)) => match expression_at(tokens, operand) {
            Ok((right, end)) => Ok((FollowingView::Add(right), end)),
            Err(error) => Err(error.within(Rule::Addition)),
        },
        Err(error) => Err(error),
    }
}

/// The rule `where_clause`: a comma, the keyword, the bound name, an equals
/// sign and the bound value.
pub open spec fn where_clause_at(tokens: Seq<TokenView>, at: int) -> Result<
    (FollowingView, int),
    ParseErrorView,
>
    decreases tokens.len() - at, 0int,
{
    match expect_at(tokens, at, Expected::Comma, Rule::WhereClause) {
        Ok(_) => match expect_at(tokens, at + 1, Expected::Where, Rule::WhereClause) {
            Ok(_) => match name_at(tokens, at + 2, Rule::WhereClause) {
                Ok((name, _)) => match expect_at(
                    tokens,
                    at + 3,
                    Expected::Equals,
                    Rule::WhereClause,
                ) {
                    Ok(_) => match expression_at(tokens, at + 4) {
                        Ok((value, end)) => Ok((FollowingView::Where(name, value), end)),
                        Err(error) => Err(error.within(Rule::WhereClause)),
                    },
                    Err(error) => Err(error),
                },
                Err(error) => Err(error),
            },
            Err(error) => Err(error),
        },
        Err(error) => Err(error),
    }
}

/// The optional rule `following` after the expression `base`: an addition,
/// or else a where clause, attached to `base` as the outer node. Where
/// neither matches, this is no error: the result is `base`, at the position
/// `at` itself.
pub open spec fn following_at(tokens: Seq<TokenView>, at: int, base: ExpressionView) -> (
    ExpressionView,
    int,
)
    decreases tokens.len() - at, 1int,
{
    match addition_at(tokens, at) {
        Ok((clause, end)) => (attach(clause, base), end),
        Err(_) => match where_clause_at(tokens, at) {
            Ok((clause, end)) => (attach(clause, base), end),
            Err(_) => (base, at),
        },
    }
}

/// The tree of a whole token sequence: that of the rule `expression` at the
/// first token. Tokens after the expression are not read.
pub open spec fn parse(tokens: Seq<TokenView>) -> Result<ExpressionView, ParseErrorView> {
    match expression_at(tokens, 0) {
        Ok((tree, _)) => Ok(tree),
        Err(error) => Err(error),
    }
}

/// The tokens that spell `tree`: its leaves and the tokens of its clauses, in
/// the order of the input.
pub open spec fn spelling(tree: ExpressionView) -> Seq<TokenView>
    decreases tree,
{
    match tree {
        ExpressionView::Number(value) => seq![TokenView::Number(value)],
        ExpressionView::Identifier(name) => seq![TokenView::Identifier(name)],
        ExpressionView::Add(left, right) => spelling(*left) + seq![TokenView::Plus] + spelling(
            *right,
        ),
        ExpressionView::Where(body, name, value) => spelling(*body) + seq![
            TokenView::Comma,
            TokenView::Where,
            TokenView::Identifier(name),
            TokenView::Equals,
        ] + spelling(*value),
    }
}

/// Whether `tree` is a number or an identifier.
pub open spec fn is_primary(tree: ExpressionView) -> bool {
    tree is Number || tree is Identifier
}

/// Whether `tree` has a shape that the grammar derives: the first operand of
/// every clause is a primary, and the operand after it is again such a tree.
pub open spec fn derivable(tree: ExpressionView) -> bool
    decreases tree,
{
    match tree {
        ExpressionView::Number(_) => true,
        ExpressionView::Identifier(_) => true,
        ExpressionView::Add(left, right) => is_primary(*left) && derivable(*right),
        ExpressionView::Where(body, _, value) => is_primary(*body) && derivable(*value),
    }
}

/// Whether a primary expression begins at `at`: a number or an identifier
/// stands there.
pub open spec fn starts_primary(tokens: Seq<TokenView>, at: int) -> bool {
    token_at(tokens, at) matches Some(token) && (token is Number || token is Identifier)
}

/// A trailing clause that fails is no failure of the expression. Where a
/// primary expression `base` stands at `at` and neither an addition nor a
/// where clause can be parsed after it, however far either got, the
/// expression at `at` is `base`, and it ends right after the primary.
pub proof fn lemma_failed_following_falls_back(
    tokens: Seq<TokenView>,
    at: int,
    base: ExpressionView,
)
    requires
        primary_at(tokens, at) == Ok::<_, ParseErrorView>((base, at + 1)),
        addition_at(tokens, at + 1) is Err,
        where_clause_at(tokens, at + 1) is Err,
    ensures
        following_at(tokens, at + 1, base) == (base, at + 1),
        expression_at(tokens, at) == Ok::<_, ParseErrorView>((base, at + 1)),
        at == 0 ==> parse(tokens) == Ok::<_, ParseErrorView>(base),
{
}

/// An expression fails only where no base expression can be parsed at all:
/// it succeeds exactly where a number or an identifier stands at `at`.
/// Where it fails, the error is found at `at`, names both as expected, and
/// its outermost context is the rule `expression`.
pub proof fn lemma_expression_fails_only_without_primary(tokens: Seq<TokenView>, at: int)
    ensures
        expression_at(tokens, at) is Ok <==> starts_primary(tokens, at),
        expression_at(tokens, at) matches Err(error) ==> {
            &&& error.expected == Expected::NumberOrIdentifier
            &&& error.found == token_at(tokens, at)
            &&& error.position == at
            &&& error.context == seq![Rule::Identifier, Rule::Primary, Rule::Expression]
            &&& error.earlier == Some(
                Box::new(mismatch(tokens, at, Expected::Number, Rule::Number)),
            )
        },
        at == 0 ==> (parse(tokens) is Ok <==> starts_primary(tokens, 0)),
{
}

/// A rule that succeeds consumes at least one token and ends within the
/// input; the optional trailing clause may consume none.
pub proof fn lemma_rules_end_in_bounds(tokens: Seq<TokenView>, at: int)
    ensures
        expression_at(tokens, at) matches Ok((_, end)) ==> 0 <= at < end <= tokens.len(),
        addition_at(tokens, at) matches Ok((_, end)) ==> 0 <= at < end <= tokens.len(),
        where_clause_at(tokens, at) matches Ok((_, end)) ==> 0 <= at < end <= tokens.len(),
        forall|base: ExpressionView|
            0 <= at <= tokens.len() ==> at <= (#[trigger] following_at(tokens, at, base)).1
                <= tokens.len(),
    decreases tokens.len() - at,
{
    if 0 <= at < tokens.len() {
        lemma_rules_end_in_bounds(tokens, at + 1);
        if at + 4 <= tokens.len() {
            lemma_rules_end_in_bounds(tokens, at + 4);
        }
    }
}

/// What the parser builds is what the input says. The tree of an expression
/// has a shape that the grammar derives, and the tokens that the expression
/// consumed are the spelling of that tree.
pub proof fn lemma_tree_spells_consumed_tokens(tokens: Seq<TokenView>, at: int)
    ensures
        expression_at(tokens, at) matches Ok((tree, end)) ==> {
            &&& 0 <= at < end <= tokens.len()
            &&& derivable(tree)
            &&& tokens.subrange(at, end) == spelling(tree)
        },
    decreases tokens.len() - at,
{
    if let Ok((tree, end)) = expression_at(tokens, at) {
        lemma_rules_end_in_bounds(tokens, at);
        let base = primary_at(tokens, at)->Ok_0.0;
        assert(tokens.subrange(at, at + 1) == spelling(base));
        if let Ok((clause, _)) = addition_at(tokens, at + 1) {
            lemma_tree_spells_consumed_tokens(tokens, at + 2);
            assert(tokens.subrange(at, end) == tokens.subrange(at, at + 1) + seq![
                TokenView::Plus,
            ] + tokens.subrange(at + 2, end));
        } else if let Ok((clause, _)) = where_clause_at(tokens, at + 1) {
            lemma_tree_spells_consumed_tokens(tokens, at + 5);
            let name = clause->Where_0;
            assert(tokens.subrange(at, end) == tokens.subrange(at, at + 1) + seq![
                TokenView::Comma,
                TokenView::Where,
                TokenView::Identifier(name),
                TokenView::Equals,
            ] + tokens.subrange(at + 5, end));
        }
    }
}

/// Every tree that the grammar derives is the parse of its own spelling:
/// where the tokens from `at` to the end of the input spell `tree`, the
/// expression at `at` is `tree` and consumes them all.
pub proof fn lemma_spelling_parses_to_tree(tokens: Seq<TokenView>, at: int, tree: ExpressionView)
    requires
        derivable(tree),
        0 <= at <= tokens.len(),
        tokens.subrange(at, tokens.len() as int) == spelling(tree),
    ensures
        expression_at(tokens, at) == Ok::<_, ParseErrorView>((tree, tokens.len() as int)),
        at == 0 ==> parse(tokens) == Ok::<_, ParseErrorView>(tree),
    decreases tree,
{
    let rest = tokens.subrange(at, tokens.len() as int);
    assert forall|i: int| 0 <= i < rest.len() implies rest[i] == tokens[at + i] by {}
    match tree {
        ExpressionView::Number(_) => {
            assert(rest.len() == 1);
            assert(tokens[at] == rest[0]);
        },
        ExpressionView::Identifier(_) => {
            assert(rest.len() == 1);
            assert(tokens[at] == rest[0]);
        },
        ExpressionView::Add(left, right) => {
            let operand = spelling(*right);
            assert(spelling(*left).len() == 1);
            assert(tokens[at] == rest[0] && rest[0] == spelling(*left)[0]);
            assert(tokens[at + 1] == rest[1] && rest[1] == TokenView::Plus);
            assert(tokens.subrange(at + 2, tokens.len() as int) == operand) by {
                assert forall|i: int| 0 <= i < operand.len() implies tokens[at + 2 + i]
                    == operand[i] by {
                    assert(rest[2 + i] == operand[i]);
                }
            }
            lemma_spelling_parses_to_tree(tokens, at + 2, *right);
        },
        ExpressionView::Where(body, name, value) => {
            let bound = spelling(*value);
            assert(spelling(*body).len() == 1);
            assert(tokens[at] == rest[0] && rest[0] == spelling(*body)[0]);
            assert(tokens[at + 1] == rest[1] && rest[1] == TokenView::Comma);
            assert(tokens[at + 2] == rest[2] && rest[2] == TokenView::Where);
            assert(tokens[at + 3] == rest[3] && rest[3] == TokenView::Identifier(name));
            assert(tokens[at + 4] == rest[4] && rest[4] == TokenView::Equals);
            assert(tokens.subrange(at + 5, tokens.len() as int) == bound) by {
                assert forall|i: int| 0 <= i < bound.len() implies tokens[at + 5 + i]
                    == bound[i] by {
                    assert(rest[5 + i] == bound[i]);
                }
            }
            lemma_spelling_parses_to_tree(tokens, at + 5, *value);
        },
    }
}

} // verus!
