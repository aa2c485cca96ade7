//! The lexical structure of expression text: numbers, names, quoted strings,
//! operators and parentheses, separated by optional white space.

use vstd::prelude::*;

verus! {

/// Why a text is no expression.
#[derive(Clone, Copy, Debug, PartialEq, Eq, Structural)]
pub enum ParseErrorKind {
    /// A character that starts no token.
    UnexpectedCharacter,
    /// A quoted string without its closing quote.
    UnterminatedString,
    /// A token where the grammar has no place for it.
    UnexpectedToken,
    /// The text ends where the grammar asks for more.
    UnexpectedEnd,
    /// An operator applied to operands of kinds that it does not take.
    MismatchedOperands,
    /// A number that the numeric type does not read.
    InvalidLiteral,
}

/// Why a text is no expression, and the character position at which that
/// shows: the start of the offending token or character, or the length of
/// the text where it ends too early.
#[derive(Clone, Copy, Debug, PartialEq, Eq, Structural)]
pub struct ParseError {
    pub kind: ParseErrorKind,
    pub position: usize,
}

/// The kinds of token.
#[derive(Clone, Copy, Debug, PartialEq, Eq, Structural)]
pub enum Symbol {
    /// A real literal, such as `2`, `0.5` or `1.5e-3`.
    Number,
    /// A string literal; the token's range is the text between the quotes.
    Text,
    /// The name of a variable.
    Name,
    Plus,
    Minus,
    Star,
    Slash,
    Caret,
    EqualEqual,
    BangEqual,
    Less,
    LessEqual,
    Greater,
    GreaterEqual,
    AndAnd,
    OrOr,
    Bang,
    Open,
    Close,
}

/// A token: its kind and the range of characters `start..end` that spell it.
#[derive(Clone, Copy, Debug, PartialEq, Eq, Structural)]
pub struct Token {
    pub symbol: Symbol,
    pub start: usize,
    pub end: usize,
}

/// Whether a character is white space between tokens.
pub open spec fn is_space(c: char) -> bool {
    c == ' ' || c == '\t' || c == '\n' || c == '\r'
}

/// Whether a character is a decimal digit.
pub open spec fn is_digit(c: char) -> bool {
    '0' <= c <= '9'
}

/// Whether a character can start a name.
pub open spec fn is_name_start(c: char) -> bool {
    'a' <= c <= 'z' || 'A' <= c <= 'Z' || c == '_'
}

/// Whether a character can continue a name.
pub open spec fn is_name_part(c: char) -> bool {
    is_name_start(c) || is_digit(c)
}

/// The end of the longest run of digits that starts at `position`.
pub open spec fn digits_end(text: Seq<char>, position: int) -> int
    decreases text.len() - position,
{
    if 0 <= position < text.len() && is_digit(text[position]) {
        digits_end(text, position + 1)
    } else {
        position
    }
}

/// The end of the longest run of name characters that starts at `position`.
pub open spec fn name_end(text: Seq<char>, position: int) -> int
    decreases text.len() - position,
{
    if 0 <= position < text.len() && is_name_part(text[position]) {
        name_end(text, position + 1)
    } else {
        position
    }
}

/// The position of the first quote at or after `position`, or the length of
/// the text where there is none.
pub open spec fn quote_position(text: Seq<char>, position: int) -> int
    decreases text.len() - position,
{
    if 0 <= position < text.len() && text[position] != '"' {
        quote_position(text, position + 1)
    } else {
        position
    }
}

/// The end of the longest run of white space that starts at `position`.
pub open spec fn space_end(text: Seq<char>, position: int) -> int
    decreases text.len() - position,
{
    if 0 <= position < text.len() && is_space(text[position]) {
        space_end(text, position + 1)
    } else {
        position
    }
}

/// The end of the number that starts with the digit at `position`: digits,
/// then optionally a point and digits, then optionally an exponent, which is
/// `e` or `E`, an optional sign and at least one digit.
pub open spec fn number_end(text: Seq<char>, position: int) -> int {
    let whole = digits_end(text, position);
    let fraction = if whole < text.len() && text[whole] == '.' {
        digits_end(text, whole + 1)
    } else {
        whole
    };
    if fraction < text.len() && (text[fraction] == 'e' || text[fraction] == 'E') {
        let signed = if fraction + 1 < text.len() && (text[fraction + 1] == '+' || text[fraction
            + 1] == '-') {
            fraction + 2
        } else {
            fraction + 1
        };
        if digits_end(text, signed) > signed {
            digits_end(text, signed)
        } else {
            fraction
        }
    } else {
        fraction
    }
}

/// The token that starts at `position`, which holds no white space, and the
/// position after it.
pub open spec fn token_at(text: Seq<char>, position: int) -> Result<(Token, int), ParseError> {
    let c = text[position];
    let next = if position + 1 < text.len() {
        Some(text[position + 1])
    } else {
        None
    };
    let start = position as usize;
    let one = |symbol: Symbol|
        Ok::<(Token, int), ParseError>(
            (Token { symbol, start, end: (position + 1) as usize }, position + 1),
        );
    let two = |symbol: Symbol|
        Ok::<(Token, int), ParseError>(
            (Token { symbol, start, end: (position + 2) as usize }, position + 2),
        );
    let unexpected = Err::<(Token, int), ParseError>(
        ParseError { kind: ParseErrorKind::UnexpectedCharacter, position: start },
    );
    if is_digit(c) {
        let end = number_end(text, position);
        Ok((Token { symbol: Symbol::Number, start, end: end as usize }, end))
    } else if is_name_start(c) {
        let end = name_end(text, position);
        Ok((Token { symbol: Symbol::Name, start, end: end as usize }, end))
    } else if c == '"' {
        let end = quote_position(text, position + 1);
        if end < text.len() {
            Ok(
                (
                    Token {
                        symbol: Symbol::Text,
                        start: (position + 1) as usize,
                        end: end as usize,
                    },
                    end + 1,
                ),
            )
        } else {
            Err(ParseError { kind: ParseErrorKind::UnterminatedString, position: start })
        }
    } else if c == '+' {
        one(Symbol::Plus)
    } else if c == '-' {
        one(Symbol::Minus)
    } else if c == '*' {
        one(Symbol::Star)
    } else if c == '/' {
        one(Symbol::Slash)
    } else if c == '^' {
        one(Symbol::Caret)
    } else if c == '(' {
        one(Symbol::Open)
    } else if c == ')' {
        one(Symbol::Close)
    } else if c == '=' {
        if next == Some('=') {
            two(Symbol::EqualEqual)
        } else {
            unexpected
        }
    } else if c == '!' {
        if next == Some('=') {
            two(Symbol::BangEqual)
        } else {
            one(Symbol::Bang)
        }
    } else if c == '<' {
        if next == Some('=') {
            two(Symbol::LessEqual)
        } else {
            one(Symbol::Less)
        }
    } else if c == '>' {
        if next == Some('=') {
            two(Symbol::GreaterEqual)
        } else {
            one(Symbol::Greater)
        }
    } else if c == '&' {
        if next == Some('&') {
            two(Symbol::AndAnd)
        } else {
            unexpected
        }
    } else if c == '|' {
        if next == Some('|') {
            two(Symbol::OrOr)
        } else {
            unexpected
        }
    } else {
        unexpected
    }
}

/// The tokens of the text from `position` on, appended to those `before`.
pub open spec fn tokens_from(text: Seq<char>, position: int, before: Seq<Token>) -> Result<
    Seq<Token>,
    ParseError,
>
    decreases text.len() - position,
{
    let start = space_end(text, position);
    if 0 <= position <= start < text.len() {
        match token_at(text, start) {
            Ok((token, next)) => {
                if start < next <= text.len() {
                    tokens_from(text, next, before.push(token))
                } else {
                    Ok(before)
                }
            },
            Err(error) => Err(error),
        }
    } else {
        Ok(before)
    }
}

/// The tokens of a text.
pub open spec fn tokens_of(text: Seq<char>) -> Result<Seq<Token>, ParseError> {
    tokens_from(text, 0, Seq::empty())
}

/// A text has no more tokens than characters.
pub proof fn lemma_tokens_within(text: Seq<char>, position: int, before: Seq<Token>)
    requires
        0 <= position <= text.len(),
        before.len() <= position,
    ensures
        tokens_from(text, position, before) matches Ok(tokens) ==> tokens.len() <= text.len(),
    decreases text.len() - position,
{
    lemma_run_bounds(text, position);
    let start = space_end(text, position);
    if start < text.len() {
        match token_at(text, start) {
            Ok((token, next)) => {
                if start < next <= text.len() {
                    lemma_tokens_within(text, next, before.push(token));
                }
            },
            Err(_) => {},
        }
    }
}

/// The view of the outcome of tokenizing.
pub open spec fn tokens_view(out: Result<Vec<Token>, ParseError>) -> Result<
    Seq<Token>,
    ParseError,
> {
    match out {
        Ok(tokens) => Ok(tokens@),
        Err(error) => Err(error),
    }
}

/// The characters of a text.
pub fn chars_of(input: &str) -> (out: Vec<char>)
    ensures
        out@ == input@,
{
    broadcast use vstd::string::axiom_spec_iter;

    let mut out: Vec<char> = Vec::new();
    for c in it: input.chars()
        invariant
            it.seq() == input@,
            out@ == it.seq().take(it.index()),
    {
        out.push(c);
        assert(it.seq().take(it.index() + 1) =~= it.seq().take(it.index()).push(c));
    }
    assert(input@.take(input@.len() as int) =~= input@);
    out
}

fn digit(c: char) -> (out: bool)
    ensures
        out == is_digit(c),
{
    '0' <= c && c <= '9'
}

fn name_start(c: char) -> (out: bool)
    ensures
        out == is_name_start(c),
{
    ('a' <= c && c <= 'z') || ('A' <= c && c <= 'Z') || c == '_'
}

fn space(c: char) -> (out: bool)
    ensures
        out == is_space(c),
{
    c == ' ' || c == '\t' || c == '\n' || c == '\r'
}

/// Every run ends between its start and the end of the text.
pub proof fn lemma_run_bounds(text: Seq<char>, position: int)
    requires
        0 <= position <= text.len(),
    ensures
        position <= digits_end(text, position) <= text.len(),
        position <= name_end(text, position) <= text.len(),
        position <= quote_position(text, position) <= text.len(),
        position <= space_end(text, position) <= text.len(),
    decreases text.len() - position,
{
    if position < text.len() {
        lemma_run_bounds(text, position + 1);
    }
}

fn scan_digits(text: &[char], position: usize) -> (out: usize)
    requires
        position <= text@.len(),
    ensures
        out == digits_end(text@, position as int),
        position <= out <= text@.len(),
{
    let mut end = position;
    while end < text.len() && digit(text[end])
        invariant
            position <= end <= text@.len(),
            digits_end(text@, end as int) == digits_end(text@, position as int),
        decreases text@.len() - end,
    {
        end += 1;
    }
    end
}

fn scan_name(text: &[char], position: usize) -> (out: usize)
    requires
        position <= text@.len(),
    ensures
        out == name_end(text@, position as int),
        position <= out <= text@.len(),
{
    let mut end = position;
    while end < text.len() && (name_start(text[end]) || digit(text[end]))
        invariant
            position <= end <= text@.len(),
            name_end(text@, end as int) == name_end(text@, position as int),
        decreases text@.len() - end,
    {
        end += 1;
    }
    end
}

fn scan_quote(text: &[char], position: usize) -> (out: usize)
    requires
        position <= text@.len(),
    ensures
        out == quote_position(text@, position as int),
        position <= out <= text@.len(),
{
    let mut end = position;
    while end < text.len() && text[end] != '"'
        invariant
            position <= end <= text@.len(),
            quote_position(text@, end as int) == quote_position(text@, position as int),
        decreases text@.len() - end,
    {
        end += 1;
    }
    end
}

fn scan_space(text: &[char], position: usize) -> (out: usize)
    requires
        position <= text@.len(),
    ensures
        out == space_end(text@, position as int),
        position <= out <= text@.len(),
{
    let mut end = position;
    while end < text.len() && space(text[end])
        invariant
            position <= end <= text@.len(),
            space_end(text@, end as int) == space_end(text@, position as int),
        decreases text@.len() - end,
    {
        end += 1;
    }
    end
}

fn scan_number(text: &[char], position: usize) -> (out: usize)
    requires
        position < text@.len(),
    ensures
        out == number_end(text@, position as int),
        digits_end(text@, position as int) <= out <= text@.len(),
{
    let whole = scan_digits(text, position);
    let fraction = if whole < text.len() && text[whole] == '.' {
        scan_digits(text, whole + 1)
    } else {
        whole
    };
    if fraction < text.len() && (text[fraction] == 'e' || text[fraction] == 'E') {
        let signed = if fraction + 1 < text.len() && (text[fraction + 1] == '+' || text[fraction
            + 1] == '-') {
            fraction + 2
        } else {
            fraction + 1
        };
        if signed <= text.len() {
            let exponent = scan_digits(text, signed);
            if exponent > signed {
                return exponent;
            }
        }
        fraction
    } else {
        fraction
    }
}

/// Reads the token that starts at `position`.
fn scan_token(text: &[char], position: usize) -> (out: Result<(Token, usize), ParseError>)
    requires
        position < text@.len(),
    ensures
        match out {
            Ok((token, next)) => token_at(text@, position as int) == Ok::<
                (Token, int),
                ParseError,
            >((token, next as int)) && position < next <= text@.len() && token.start
                <= token.end <= text@.len(),
            Err(error) => token_at(text@, position as int) == Err::<(Token, int), ParseError>(
                error,
            ),
        },
{
    let c = text[position];
    let followed_by_equal = position + 1 < text.len() && text[position + 1] == '=';
    let unexpected = Err(
        ParseError { kind: ParseErrorKind::UnexpectedCharacter, position },
    );
    if digit(c) {
        let end = scan_number(text, position);
        proof {
            lemma_run_bounds(text@, position + 1);
        }
        Ok((Token { symbol: Symbol::Number, start: position, end }, end))
    } else if name_start(c) {
        let end = scan_name(text, position);
        proof {
            lemma_run_bounds(text@, position + 1);
        }
        Ok((Token { symbol: Symbol::Name, start: position, end }, end))
    } else if c == '"' {
        let end = scan_quote(text, position + 1);
        if end < text.len() {
            Ok((Token { symbol: Symbol::Text, start: position + 1, end }, end + 1))
        } else {
            Err(ParseError { kind: ParseErrorKind::UnterminatedString, position })
        }
    } else if c == '+' {
        Ok((Token { symbol: Symbol::Plus, start: position, end: position + 1 }, position + 1))
    } else if c == '-' {
        Ok((Token { symbol: Symbol::Minus, start: position, end: position + 1 }, position + 1))
    } else if c == '*' {
        Ok((Token { symbol: Symbol::Star, start: position, end: position + 1 }, position + 1))
    } else if c == '/' {
        Ok((Token { symbol: Symbol::Slash, start: position, end: position + 1 }, position + 1))
    } else if c == '^' {
        Ok((Token { symbol: Symbol::Caret, start: position, end: position + 1 }, position + 1))
    } else if c == '(' {
        Ok((Token { symbol: Symbol::Open, start: position, end: position + 1 }, position + 1))
    } else if c == ')' {
        Ok((Token { symbol: Symbol::Close, start: position, end: position + 1 }, position + 1))
    } else if c == '=' {
        if followed_by_equal {
            Ok(
                (
                    Token { symbol: Symbol::EqualEqual, start: position, end: position + 2 },
                    position + 2,
                ),
            )
        } else {
            unexpected
        }
    } else if c == '!' {
        if followed_by_equal {
            Ok(
                (
                    Token { symbol: Symbol::BangEqual, start: position, end: position + 2 },
                    position + 2,
                ),
            )
        } else {
            Ok((Token { symbol: Symbol::Bang, start: position, end: position + 1 }, position + 1))
        }
    } else if c == '<' {
        if followed_by_equal {
            Ok(
                (
                    Token { symbol: Symbol::LessEqual, start: position, end: position + 2 },
                    position + 2,
                ),
            )
        } else {
            Ok((Token { symbol: Symbol::Less, start: position, end: position + 1 }, position + 1))
        }
    } else if c == '>' {
        if followed_by_equal {
            Ok(
                (
                    Token { symbol: Symbol::GreaterEqual, start: position, end: position + 2 },
                    position + 2,
                ),
            )
        } else {
            Ok(
                (
                    Token { symbol: Symbol::Greater, start: position, end: position + 1 },
                    position + 1,
                ),
            )
        }
    } else if c == '&' {
        if position + 1 < text.len() && text[position + 1] == '&' {
            Ok(
                (
                    Token { symbol: Symbol::AndAnd, start: position, end: position + 2 },
                    position + 2,
                ),
            )
        } else {
            unexpected
        }
    } else if c == '|' {
        if position + 1 < text.len() && text[position + 1] == '|' {
            Ok((Token { symbol: Symbol::OrOr, start: position, end: position + 2 }, position + 2))
        } else {
            unexpected
        }
    } else {
        unexpected
    }
}

/// Splits a text into its tokens.
pub fn tokenize(text: &[char]) -> (out: Result<Vec<Token>, ParseError>)
    ensures
        tokens_view(out) == tokens_of(text@),
        out matches Ok(tokens) ==> forall|i: int|
            0 <= i < tokens@.len() ==> (#[trigger] tokens@[i]).start <= tokens@[i].end
                <= text@.len(),
{
    let mut tokens: Vec<Token> = Vec::new();
    let mut position: usize = 0;
    loop
        invariant
            position <= text@.len(),
            tokens_from(text@, position as int, tokens@) == tokens_of(text@),
            forall|i: int|
                0 <= i < tokens@.len() ==> (#[trigger] tokens@[i]).start <= tokens@[i].end
                    <= text@.len(),
        decreases text@.len() - position,
    {
        let start = scan_space(text, position);
        if start >= text.len() {
            return Ok(tokens);
        }
        match scan_token(text, start) {
            Ok((token, next)) => {
                tokens.push(token);
                position = next;
            },
            Err(error) => {
                return Err(error);
            },
        }
    }
}

} // verus!
