//! The grammar of expressions over tokens: operands, prefix operators,
//! parentheses, and infix operators with their precedence.
//!
//! From loosest to tightest the infix operators are `&&` and `||`; the
//! comparisons `==`, `!=`, `<`, `<=`, `>` and `>=`; `+` and `-`; `*` and `/`;
//! and `^`. Operators of one level group from the left, but for `^`, which
//! groups from the right. The prefix operators `-` and `!` bind tighter than
//! any infix operator.

use crate::lexer::{ParseError, ParseErrorKind, Symbol, Token};
use vstd::prelude::*;

verus! {

/// The infix operators.
#[derive(Clone, Copy, Debug, PartialEq, Eq, Structural)]
pub enum Operator {
    Add,
    Subtract,
    Multiply,
    Divide,
    Power,
    Equal,
    NotEqual,
    Less,
    LessEqual,
    Greater,
    GreaterEqual,
    And,
    Or,
}

/// The syntax tree of an expression. Each leaf holds the index of its token,
/// and each operator node the index of the operator's token.
#[derive(Debug)]
pub enum Syntax {
    /// A real literal.
    Number(usize),
    /// A string literal.
    Text(usize),
    /// A variable.
    Name(usize),
    /// The prefix operator `-`.
    Negate(usize, Box<Syntax>),
    /// The prefix operator `!`.
    Invert(usize, Box<Syntax>),
    /// An infix operator between its operands.
    Infix(Operator, usize, Box<Syntax>, Box<Syntax>),
}

impl Syntax {
    /// Whether every node of the tree holds the index of a token of its
    /// kind: a leaf that of its literal or name, an operator node that of
    /// some token.
    pub open spec fn within(self, tokens: Seq<Token>) -> bool
        decreases self,
    {
        match self {
            Syntax::Number(at) => at < tokens.len() && tokens[at as int].symbol == Symbol::Number,
            Syntax::Text(at) => at < tokens.len() && tokens[at as int].symbol == Symbol::Text,
            Syntax::Name(at) => at < tokens.len() && tokens[at as int].symbol == Symbol::Name,
            Syntax::Negate(at, operand) => at < tokens.len() && operand.within(tokens),
            Syntax::Invert(at, operand) => at < tokens.len() && operand.within(tokens),
            Syntax::Infix(_, at, lhs, rhs) => at < tokens.len() && lhs.within(tokens)
                && rhs.within(tokens),
        }
    }
}

/// The infix operator that a token spells, if it spells one.
pub open spec fn infix_of(symbol: Symbol) -> Option<Operator> {
    match symbol {
        Symbol::Plus => Some(Operator::Add),
        Symbol::Minus => Some(Operator::Subtract),
        Symbol::Star => Some(Operator::Multiply),
        Symbol::Slash => Some(Operator::Divide),
        Symbol::Caret => Some(Operator::Power),
        Symbol::EqualEqual => Some(Operator::Equal),
        Symbol::BangEqual => Some(Operator::NotEqual),
        Symbol::Less => Some(Operator::Less),
        Symbol::LessEqual => Some(Operator::LessEqual),
        Symbol::Greater => Some(Operator::Greater),
        Symbol::GreaterEqual => Some(Operator::GreaterEqual),
        Symbol::AndAnd => Some(Operator::And),
        Symbol::OrOr => Some(Operator::Or),
        _ => None,
    }
}

impl Operator {
    /// How tightly the operator binds: the higher, the tighter.
    pub open spec fn level(self) -> nat {
        match self {
            Operator::And | Operator::Or => 1,
            Operator::Equal
            | Operator::NotEqual
            | Operator::Less
            | Operator::LessEqual
            | Operator::Greater
            | Operator::GreaterEqual => 2,
            Operator::Add | Operator::Subtract => 3,
            Operator::Multiply | Operator::Divide => 4,
            Operator::Power => 5,
        }
    }

    /// The loosest level that the right operand's own operators may have:
    /// the operator's own level where it groups from the right, and the next
    /// tighter level where it groups from the left.
    pub open spec fn right_floor(self) -> nat {
        match self {
            Operator::Power => 5,
            _ => self.level() + 1,
        }
    }

    /// Computes `level`.
    pub fn binding_level(self) -> (out: usize)
        ensures
            out == self.level(),
    {
        match self {
            Operator::And | Operator::Or => 1,
            Operator::Equal
            | Operator::NotEqual
            | Operator::Less
            | Operator::LessEqual
            | Operator::Greater
            | Operator::GreaterEqual => 2,
            Operator::Add | Operator::Subtract => 3,
            Operator::Multiply | Operator::Divide => 4,
            Operator::Power => 5,
        }
    }

    /// Computes `right_floor`.
    pub fn binding_right_floor(self) -> (out: usize)
        ensures
            out == self.right_floor(),
    {
        match self {
            Operator::Power => 5,
            _ => self.binding_level() + 1,
        }
    }
}

/// An error at a token, or at the end of the text where the tokens are over.
pub open spec fn error_at(tokens: Seq<Token>, position: int, end: usize) -> ParseError {
    if 0 <= position < tokens.len() {
        ParseError { kind: ParseErrorKind::UnexpectedToken, position: tokens[position].start }
    } else {
        ParseError { kind: ParseErrorKind::UnexpectedEnd, position: end }
    }
}

/// The operand that starts at token `position`, and the position after it:
/// a literal, a name, a prefix operator with its operand, or an expression in
/// parentheses.
pub open spec fn primary_at(tokens: Seq<Token>, position: int, end: usize) -> Result<
    (Syntax, int),
    ParseError,
>
    decreases tokens.len() - position, 0nat,
{
    if 0 <= position < tokens.len() {
        let at = position as usize;
        match tokens[position].symbol {
            Symbol::Number => Ok((Syntax::Number(at), position + 1)),
            Symbol::Text => Ok((Syntax::Text(at), position + 1)),
            Symbol::Name => Ok((Syntax::Name(at), position + 1)),
            Symbol::Minus => match primary_at(tokens, position + 1, end) {
                Ok((operand, next)) => Ok((Syntax::Negate(at, Box::new(operand)), next)),
                Err(error) => Err(error),
            },
            Symbol::Bang => match primary_at(tokens, position + 1, end) {
                Ok((operand, next)) => Ok((Syntax::Invert(at, Box::new(operand)), next)),
                Err(error) => Err(error),
            },
            Symbol::Open => match expression_at(tokens, position + 1, 0, end) {
                Ok((inner, next)) => {
                    if 0 <= next < tokens.len() && tokens[next].symbol == Symbol::Close {
                        Ok((inner, next + 1))
                    } else {
                        Err(error_at(tokens, next, end))
                    }
                },
                Err(error) => Err(error),
            },
            _ => Err(error_at(tokens, position, end)),
        }
    } else {
        Err(error_at(tokens, position, end))
    }
}

/// The expression that starts at token `position` and whose infix operators
/// are of level `floor` at least, and the position after it.
pub open spec fn expression_at(tokens: Seq<Token>, position: int, floor: nat, end: usize) -> Result<
    (Syntax, int),
    ParseError,
>
    decreases tokens.len() - position, 2nat,
{
    if 0 <= position <= tokens.len() {
        match primary_at(tokens, position, end) {
            Ok((lhs, next)) => {
                if position <= next <= tokens.len() {
                    infix_at(tokens, lhs, next, floor, end)
                } else {
                    Err(error_at(tokens, position, end))
                }
            },
            Err(error) => Err(error),
        }
    } else {
        Err(error_at(tokens, position, end))
    }
}

/// The expression that `lhs` grows into by the infix operators of level
/// `floor` at least that follow it from token `position` on, and the position
/// after it.
pub open spec fn infix_at(
    tokens: Seq<Token>,
    lhs: Syntax,
    position: int,
    floor: nat,
    end: usize,
) -> Result<(Syntax, int), ParseError>
    decreases tokens.len() - position, 1nat,
{
    if 0 <= position < tokens.len() {
        match infix_of(tokens[position].symbol) {
            Some(operator) => {
                if operator.level() >= floor {
                    match expression_at(tokens, position + 1, operator.right_floor(), end) {
                        Ok((rhs, next)) => {
                            if position < next <= tokens.len() {
                                infix_at(
                                    tokens,
                                    Syntax::Infix(
                                        operator,
                                        position as usize,
                                        Box::new(lhs),
                                        Box::new(rhs),
                                    ),
                                    next,
                                    floor,
                                    end,
                                )
                            } else {
                                Err(error_at(tokens, position, end))
                            }
                        },
                        Err(error) => Err(error),
                    }
                } else {
                    Ok((lhs, position))
                }
            },
            None => Ok((lhs, position)),
        }
    } else {
        Ok((lhs, position))
    }
}

/// The syntax tree that the tokens spell from first to last, where `end` is
/// the length of the text.
pub open spec fn syntax_of(tokens: Seq<Token>, end: usize) -> Result<Syntax, ParseError> {
    match expression_at(tokens, 0, 0, end) {
        Ok((syntax, next)) => {
            if next == tokens.len() {
                Ok(syntax)
            } else {
                Err(error_at(tokens, next, end))
            }
        },
        Err(error) => Err(error),
    }
}

/// An operand that the grammar reads holds indices of the tokens that it
/// was read from, and ends after its first token, within the tokens.
pub proof fn lemma_primary_within(tokens: Seq<Token>, position: int, end: usize)
    requires
        0 <= position <= tokens.len(),
        tokens.len() <= usize::MAX,
    ensures
        primary_at(tokens, position, end) matches Ok((syntax, next)) ==> syntax.within(tokens)
            && position < next <= tokens.len(),
    decreases tokens.len() - position, 0nat,
{
    if position < tokens.len() {
        match tokens[position].symbol {
            Symbol::Minus | Symbol::Bang => {
                lemma_primary_within(tokens, position + 1, end);
            },
            Symbol::Open => {
                lemma_expression_within(tokens, position + 1, 0, end);
            },
            _ => {},
        }
    }
}

/// An expression that the grammar reads holds indices of the tokens that it
/// was read from, and ends after its first token, within the tokens.
pub proof fn lemma_expression_within(tokens: Seq<Token>, position: int, floor: nat, end: usize)
    requires
        0 <= position <= tokens.len(),
        tokens.len() <= usize::MAX,
    ensures
        expression_at(tokens, position, floor, end) matches Ok((syntax, next)) ==> syntax.within(
            tokens,
        ) && position < next <= tokens.len(),
    decreases tokens.len() - position, 2nat,
{
    lemma_primary_within(tokens, position, end);
    match primary_at(tokens, position, end) {
        Ok((lhs, next)) => {
            lemma_infix_within(tokens, lhs, next, floor, end);
        },
        Err(_) => {},
    }
}

/// An expression that the grammar grows by infix operators holds indices of
/// the tokens that it was read from, and ends within the tokens.
pub proof fn lemma_infix_within(
    tokens: Seq<Token>,
    lhs: Syntax,
    position: int,
    floor: nat,
    end: usize,
)
    requires
        0 <= position <= tokens.len(),
        tokens.len() <= usize::MAX,
        lhs.within(tokens),
    ensures
        infix_at(tokens, lhs, position, floor, end) matches Ok((syntax, next)) ==> syntax.within(
            tokens,
        ) && position <= next <= tokens.len(),
    decreases tokens.len() - position, 1nat,
{
    if position < tokens.len() {
        match infix_of(tokens[position].symbol) {
            Some(operator) => {
                if operator.level() >= floor {
                    lemma_expression_within(tokens, position + 1, operator.right_floor(), end);
                    match expression_at(tokens, position + 1, operator.right_floor(), end) {
                        Ok((rhs, next)) => {
                            let grown = Syntax::Infix(
                                operator,
                                position as usize,
                                Box::new(lhs),
                                Box::new(rhs),
                            );
                            lemma_infix_within(tokens, grown, next, floor, end);
                        },
                        Err(_) => {},
                    }
                }
            },
            None => {},
        }
    }
}

/// The syntax tree that tokens spell holds indices of those tokens.
pub proof fn lemma_syntax_within(tokens: Seq<Token>, end: usize)
    requires
        tokens.len() <= usize::MAX,
    ensures
        syntax_of(tokens, end) matches Ok(syntax) ==> syntax.within(tokens),
{
    lemma_expression_within(tokens, 0, 0, end);
}

/// Whether a token is a literal or a name.
pub open spec fn is_leaf(symbol: Symbol) -> bool {
    symbol == Symbol::Number || symbol == Symbol::Text || symbol == Symbol::Name
}

/// The leaf that the literal or name at token `at` spells.
pub open spec fn leaf_at(tokens: Seq<Token>, at: usize) -> Syntax {
    match tokens[at as int].symbol {
        Symbol::Number => Syntax::Number(at),
        Symbol::Text => Syntax::Text(at),
        _ => Syntax::Name(at),
    }
}

/// Precedence and grouping: of two infix operators between three leaves, the
/// second takes the middle leaf where it binds tighter than the first, or as
/// tightly and the first groups from the right; else the first takes it.
pub proof fn lemma_precedence(tokens: Seq<Token>, end: usize, first: Operator, second: Operator)
    requires
        tokens.len() == 5,
        is_leaf(tokens[0].symbol),
        is_leaf(tokens[2].symbol),
        is_leaf(tokens[4].symbol),
        infix_of(tokens[1].symbol) == Some(first),
        infix_of(tokens[3].symbol) == Some(second),
    ensures
        syntax_of(tokens, end) == Ok::<Syntax, ParseError>(
            if second.level() >= first.right_floor() {
                Syntax::Infix(
                    first,
                    1,
                    Box::new(leaf_at(tokens, 0)),
                    Box::new(
                        Syntax::Infix(
                            second,
                            3,
                            Box::new(leaf_at(tokens, 2)),
                            Box::new(leaf_at(tokens, 4)),
                        ),
                    ),
                )
            } else {
                Syntax::Infix(
                    second,
                    3,
                    Box::new(
                        Syntax::Infix(
                            first,
                            1,
                            Box::new(leaf_at(tokens, 0)),
                            Box::new(leaf_at(tokens, 2)),
                        ),
                    ),
                    Box::new(leaf_at(tokens, 4)),
                )
            },
        ),
{
    let a = leaf_at(tokens, 0);
    let b = leaf_at(tokens, 2);
    let c = leaf_at(tokens, 4);
    assert(primary_at(tokens, 0, end) == Ok::<(Syntax, int), ParseError>((a, 1)));
    assert(primary_at(tokens, 2, end) == Ok::<(Syntax, int), ParseError>((b, 3)));
    assert(primary_at(tokens, 4, end) == Ok::<(Syntax, int), ParseError>((c, 5)));
    assert(infix_at(tokens, c, 5, second.right_floor(), end) == Ok::<(Syntax, int), ParseError>(
        (c, 5),
    ));
    let tight = Syntax::Infix(second, 3, Box::new(b), Box::new(c));
    let loose = Syntax::Infix(first, 1, Box::new(a), Box::new(b));
    assert(expression_at(tokens, 4, second.right_floor(), end) == Ok::<(Syntax, int), ParseError>(
        (c, 5),
    ));
    if second.level() >= first.right_floor() {
        assert(infix_at(tokens, tight, 5, first.right_floor(), end) == Ok::<
            (Syntax, int),
            ParseError,
        >((tight, 5)));
        assert(infix_at(tokens, b, 3, first.right_floor(), end) == Ok::<
            (Syntax, int),
            ParseError,
        >((tight, 5)));
        assert(expression_at(tokens, 2, first.right_floor(), end) == Ok::<
            (Syntax, int),
            ParseError,
        >((tight, 5)));
        let whole = Syntax::Infix(first, 1, Box::new(a), Box::new(tight));
        assert(infix_at(tokens, whole, 5, 0, end) == Ok::<(Syntax, int), ParseError>((whole, 5)));
        assert(infix_at(tokens, a, 1, 0, end) == Ok::<(Syntax, int), ParseError>((whole, 5)));
    } else {
        assert(infix_at(tokens, b, 3, first.right_floor(), end) == Ok::<
            (Syntax, int),
            ParseError,
        >((b, 3)));
        assert(expression_at(tokens, 2, first.right_floor(), end) == Ok::<
            (Syntax, int),
            ParseError,
        >((b, 3)));
        let whole = Syntax::Infix(second, 3, Box::new(loose), Box::new(c));
        assert(infix_at(tokens, whole, 5, 0, end) == Ok::<(Syntax, int), ParseError>((whole, 5)));
        assert(infix_at(tokens, loose, 3, 0, end) == Ok::<(Syntax, int), ParseError>(
            (Syntax::Infix(second, 3, Box::new(loose), Box::new(c)), 5),
        ));
        assert(infix_at(tokens, a, 1, 0, end) == Ok::<(Syntax, int), ParseError>(
            (Syntax::Infix(second, 3, Box::new(loose), Box::new(c)), 5),
        ));
    }
    assert(expression_at(tokens, 0, 0, end) == infix_at(tokens, a, 1, 0, end));
}

/// Parentheses group before any operator: an infix operator after an
/// expression in parentheses takes that expression whole as its left
/// operand, however loosely the operator within binds.
pub proof fn lemma_parentheses(tokens: Seq<Token>, end: usize, inner: Operator, outer: Operator)
    requires
        tokens.len() == 7,
        tokens[0].symbol == Symbol::Open,
        is_leaf(tokens[1].symbol),
        infix_of(tokens[2].symbol) == Some(inner),
        is_leaf(tokens[3].symbol),
        tokens[4].symbol == Symbol::Close,
        infix_of(tokens[5].symbol) == Some(outer),
        is_leaf(tokens[6].symbol),
    ensures
        syntax_of(tokens, end) == Ok::<Syntax, ParseError>(
            Syntax::Infix(
                outer,
                5,
                Box::new(
                    Syntax::Infix(
                        inner,
                        2,
                        Box::new(leaf_at(tokens, 1)),
                        Box::new(leaf_at(tokens, 3)),
                    ),
                ),
                Box::new(leaf_at(tokens, 6)),
            ),
        ),
{
    let a = leaf_at(tokens, 1);
    let b = leaf_at(tokens, 3);
    let c = leaf_at(tokens, 6);
    let group = Syntax::Infix(inner, 2, Box::new(a), Box::new(b));
    let whole = Syntax::Infix(outer, 5, Box::new(group), Box::new(c));
    assert(primary_at(tokens, 1, end) == Ok::<(Syntax, int), ParseError>((a, 2)));
    assert(primary_at(tokens, 3, end) == Ok::<(Syntax, int), ParseError>((b, 4)));
    assert(primary_at(tokens, 6, end) == Ok::<(Syntax, int), ParseError>((c, 7)));
    assert(infix_of(tokens[4].symbol) is None);
    assert(infix_at(tokens, b, 4, inner.right_floor(), end) == Ok::<(Syntax, int), ParseError>(
        (b, 4),
    ));
    assert(expression_at(tokens, 3, inner.right_floor(), end) == Ok::<(Syntax, int), ParseError>(
        (b, 4),
    ));
    assert(infix_at(tokens, group, 4, 0, end) == Ok::<(Syntax, int), ParseError>((group, 4)));
    assert(infix_at(tokens, a, 2, 0, end) == Ok::<(Syntax, int), ParseError>((group, 4)));
    assert(expression_at(tokens, 1, 0, end) == Ok::<(Syntax, int), ParseError>((group, 4)));
    assert(primary_at(tokens, 0, end) == Ok::<(Syntax, int), ParseError>((group, 5)));
    assert(infix_at(tokens, c, 7, outer.right_floor(), end) == Ok::<(Syntax, int), ParseError>(
        (c, 7),
    ));
    assert(expression_at(tokens, 6, outer.right_floor(), end) == Ok::<(Syntax, int), ParseError>(
        (c, 7),
    ));
    assert(infix_at(tokens, whole, 7, 0, end) == Ok::<(Syntax, int), ParseError>((whole, 7)));
    assert(infix_at(tokens, group, 5, 0, end) == Ok::<(Syntax, int), ParseError>((whole, 7)));
    assert(expression_at(tokens, 0, 0, end) == Ok::<(Syntax, int), ParseError>((whole, 7)));
}

/// A prefix operator binds tighter than any infix operator: it takes the
/// operand that follows it, and the infix operator after that takes both.
pub proof fn lemma_prefix_binds_tightest(tokens: Seq<Token>, end: usize, operator: Operator)
    requires
        tokens.len() == 4,
        tokens[0].symbol == Symbol::Minus || tokens[0].symbol == Symbol::Bang,
        is_leaf(tokens[1].symbol),
        infix_of(tokens[2].symbol) == Some(operator),
        is_leaf(tokens[3].symbol),
    ensures
        syntax_of(tokens, end) == Ok::<Syntax, ParseError>(
            Syntax::Infix(
                operator,
                2,
                Box::new(
                    if tokens[0].symbol == Symbol::Minus {
                        Syntax::Negate(0, Box::new(leaf_at(tokens, 1)))
                    } else {
                        Syntax::Invert(0, Box::new(leaf_at(tokens, 1)))
                    },
                ),
                Box::new(leaf_at(tokens, 3)),
            ),
        ),
{
    let a = leaf_at(tokens, 1);
    let b = leaf_at(tokens, 3);
    let prefixed = if tokens[0].symbol == Symbol::Minus {
        Syntax::Negate(0, Box::new(a))
    } else {
        Syntax::Invert(0, Box::new(a))
    };
    let whole = Syntax::Infix(operator, 2, Box::new(prefixed), Box::new(b));
    assert(primary_at(tokens, 1, end) == Ok::<(Syntax, int), ParseError>((a, 2)));
    assert(primary_at(tokens, 0, end) == Ok::<(Syntax, int), ParseError>((prefixed, 2)));
    assert(primary_at(tokens, 3, end) == Ok::<(Syntax, int), ParseError>((b, 4)));
    assert(infix_at(tokens, b, 4, operator.right_floor(), end) == Ok::<
        (Syntax, int),
        ParseError,
    >((b, 4)));
    assert(expression_at(tokens, 3, operator.right_floor(), end) == Ok::<
        (Syntax, int),
        ParseError,
    >((b, 4)));
    assert(infix_at(tokens, whole, 4, 0, end) == Ok::<(Syntax, int), ParseError>((whole, 4)));
    assert(infix_at(tokens, prefixed, 2, 0, end) == Ok::<(Syntax, int), ParseError>((whole, 4)));
    assert(expression_at(tokens, 0, 0, end) == Ok::<(Syntax, int), ParseError>((whole, 4)));
}

/// Whether the outcome of a parsing step that started at token `position`
/// is what the grammar gives, and ends within the tokens and no earlier than
/// `least`.
pub open spec fn agrees(
    out: Result<(Syntax, usize), ParseError>,
    grammar: Result<(Syntax, int), ParseError>,
    least: int,
    tokens: Seq<Token>,
) -> bool {
    match out {
        Ok((syntax, next)) => grammar == Ok::<(Syntax, int), ParseError>((syntax, next as int))
            && least <= next <= tokens.len() && syntax.within(tokens),
        Err(error) => grammar == Err::<(Syntax, int), ParseError>(error),
    }
}

fn infix_operator(symbol: Symbol) -> (out: Option<Operator>)
    ensures
        out == infix_of(symbol),
{
    match symbol {
        Symbol::Plus => Some(Operator::Add),
        Symbol::Minus => Some(Operator::Subtract),
        Symbol::Star => Some(Operator::Multiply),
        Symbol::Slash => Some(Operator::Divide),
        Symbol::Caret => Some(Operator::Power),
        Symbol::EqualEqual => Some(Operator::Equal),
        Symbol::BangEqual => Some(Operator::NotEqual),
        Symbol::Less => Some(Operator::Less),
        Symbol::LessEqual => Some(Operator::LessEqual),
        Symbol::Greater => Some(Operator::Greater),
        Symbol::GreaterEqual => Some(Operator::GreaterEqual),
        Symbol::AndAnd => Some(Operator::And),
        Symbol::OrOr => Some(Operator::Or),
        _ => None,
    }
}

fn token_error(tokens: &[Token], position: usize, end: usize) -> (out: ParseError)
    ensures
        out == error_at(tokens@, position as int, end),
{
    if position < tokens.len() {
        ParseError { kind: ParseErrorKind::UnexpectedToken, position: tokens[position].start }
    } else {
        ParseError { kind: ParseErrorKind::UnexpectedEnd, position: end }
    }
}

/// Parses the operand that starts at token `position`.
fn parse_primary(tokens: &[Token], position: usize, end: usize) -> (out: Result<
    (Syntax, usize),
    ParseError,
>)
    requires
        position <= tokens@.len(),
    ensures
        agrees(out, primary_at(tokens@, position as int, end), position + 1, tokens@),
    decreases tokens@.len() - position, 0nat,
{
    if position >= tokens.len() {
        return Err(token_error(tokens, position, end));
    }
    match tokens[position].symbol {
        Symbol::Number => Ok((Syntax::Number(position), position + 1)),
        Symbol::Text => Ok((Syntax::Text(position), position + 1)),
        Symbol::Name => Ok((Syntax::Name(position), position + 1)),
        Symbol::Minus => match parse_primary(tokens, position + 1, end) {
            Ok((operand, next)) => Ok((Syntax::Negate(position, Box::new(operand)), next)),
            Err(error) => Err(error),
        },
        Symbol::Bang => match parse_primary(tokens, position + 1, end) {
            Ok((operand, next)) => Ok((Syntax::Invert(position, Box::new(operand)), next)),
            Err(error) => Err(error),
        },
        Symbol::Open => match parse_expression(tokens, position + 1, 0, end) {
            Ok((inner, next)) => {
                if next < tokens.len() && tokens[next].symbol == Symbol::Close {
                    Ok((inner, next + 1))
                } else {
                    Err(token_error(tokens, next, end))
                }
            },
            Err(error) => Err(error),
        },
        _ => Err(token_error(tokens, position, end)),
    }
}

/// Parses the expression that starts at token `position` and whose infix
/// operators are of level `floor` at least.
fn parse_expression(tokens: &[Token], position: usize, floor: usize, end: usize) -> (out: Result<
    (Syntax, usize),
    ParseError,
>)
    requires
        position <= tokens@.len(),
    ensures
        agrees(
            out,
            expression_at(tokens@, position as int, floor as nat, end),
            position + 1,
            tokens@,
        ),
    decreases tokens@.len() - position, 2nat,
{
    match parse_primary(tokens, position, end) {
        Ok((lhs, next)) => parse_infix(tokens, lhs, next, floor, end),
        Err(error) => Err(error),
    }
}

/// Grows `lhs` by the infix operators of level `floor` at least that follow
/// it from token `position` on.
fn parse_infix(tokens: &[Token], lhs: Syntax, position: usize, floor: usize, end: usize) -> (out:
    Result<(Syntax, usize), ParseError>)
    requires
        position <= tokens@.len(),
        lhs.within(tokens@),
    ensures
        agrees(
            out,
            infix_at(tokens@, lhs, position as int, floor as nat, end),
            position as int,
            tokens@,
        ),
    decreases tokens@.len() - position, 1nat,
{
    if position >= tokens.len() {
        return Ok((lhs, position));
    }
    match infix_operator(tokens[position].symbol) {
        Some(operator) => {
            if operator.binding_level() >= floor {
                match parse_expression(tokens, position + 1, operator.binding_right_floor(), end) {
                    Ok((rhs, next)) => parse_infix(
                        tokens,
                        Syntax::Infix(operator, position, Box::new(lhs), Box::new(rhs)),
                        next,
                        floor,
                        end,
                    ),
                    Err(error) => Err(error),
                }
            } else {
                Ok((lhs, position))
            }
        },
        None => Ok((lhs, position)),
    }
}

/// Parses the tokens of a text of `end` characters, from first to last,
/// into the syntax tree that they spell.
pub fn parse_syntax(tokens: &[Token], end: usize) -> (out: Result<Syntax, ParseError>)
    ensures
        out == syntax_of(tokens@, end),
        out matches Ok(syntax) ==> syntax.within(tokens@),
{
    match parse_expression(tokens, 0, 0, end) {
        Ok((syntax, next)) => {
            if next == tokens.len() {
                Ok(syntax)
            } else {
                Err(token_error(tokens, next, end))
            }
        },
        Err(error) => Err(error),
    }
}

} // verus!
