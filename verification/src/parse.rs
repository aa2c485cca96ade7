//! Parsing expression text into typed trees.

use crate::expression::{BindingId, Expression};
use crate::lexer::{
    chars_of, lemma_tokens_within, tokenize, tokens_of, ParseError, ParseErrorKind, Symbol, Token,
};
use crate::numeric::FloatExt;
use crate::syntax::{lemma_syntax_within, parse_syntax, syntax_of, Operator, Syntax};
use crate::typing::{
    build_tree, check_kind, is_text, kind_of, lemma_bool_bound, lemma_leaf_kinds,
    lemma_real_bound, names_bound_by, tree_bound_by, tree_of, Kind, Lexeme,
};
use vstd::prelude::*;
use vstd::string::StrSliceExecFns;

verus! {

/// What the grammar makes of a text: its tokens, the syntax tree that they
/// spell, and the kind of that tree.
pub struct Analysis {
    pub tokens: Seq<Token>,
    pub syntax: Syntax,
    pub kind: Kind,
}

/// The characters of the text that spell a token.
pub open spec fn token_text(text: Seq<char>, token: Token) -> Seq<char> {
    text.subrange(token.start as int, token.end as int)
}

/// What the grammar makes of a text, or why the text is no expression: the
/// first character that starts no token, else the first token that the
/// grammar has no place for, else the first operator that does not take its
/// operands.
pub open spec fn grammar_of(text: Seq<char>) -> Result<Analysis, ParseError> {
    match tokens_of(text) {
        Ok(tokens) => match syntax_of(tokens, text.len() as usize) {
            Ok(syntax) => match kind_of(syntax, tokens) {
                Ok(kind) => Ok(Analysis { tokens, syntax, kind }),
                Err(error) => Err(error),
            },
            Err(error) => Err(error),
        },
        Err(error) => Err(error),
    }
}

/// Whether the numeric type may read `out` from the text of a real literal.
pub open spec fn reads<Real: FloatExt>(text: Seq<char>, out: Option<Real>) -> bool {
    exists|slice: &str| slice@ == text && call_ensures(Real::parse_literal, (slice,), out)
}

/// Whether `error` is that of a number which the numeric type did not read,
/// while it read every number before it.
pub open spec fn unread_number<Real: FloatExt>(
    text: Seq<char>,
    tokens: Seq<Token>,
    error: ParseError,
) -> bool {
    exists|at: int|
        {
            &&& 0 <= at < tokens.len()
            &&& (#[trigger] tokens[at]).symbol == Symbol::Number
            &&& reads::<Real>(token_text(text, tokens[at]), None)
            &&& error == ParseError {
                kind: ParseErrorKind::InvalidLiteral,
                position: tokens[at].start,
            }
            &&& forall|before: int|
                0 <= before < at && (#[trigger] tokens[before]).symbol == Symbol::Number
                    ==> exists|value: Real|
                    reads::<Real>(token_text(text, tokens[before]), Some(value))
        }
}

/// Whether a text is an expression that mentions a variable of the given
/// name.
pub open spec fn mentions(text: Seq<char>, name: Seq<char>) -> bool {
    grammar_of(text) matches Ok(analysis) && exists|at: int|
        0 <= at < analysis.tokens.len() && (#[trigger] analysis.tokens[at]).symbol == Symbol::Name
            && token_text(text, analysis.tokens[at]) == name
}

/// Whether the binding map may give `id` for the variable `name`.
pub open spec fn binds<F: Fn(&str) -> BindingId>(
    binding_map: F,
    name: Seq<char>,
    id: BindingId,
) -> bool {
    exists|slice: &str| slice@ == name && call_ensures(binding_map, (slice,), id)
}

/// Whether `lexeme` is what the token at `at` stands for: the value that the
/// numeric type reads from a number, a binding that the binding map may give
/// for a name, the text of a quoted string.
pub open spec fn resolves_at<Real: FloatExt, F: Fn(&str) -> BindingId>(
    binding_map: F,
    text: Seq<char>,
    token: Token,
    lexeme: Lexeme<Real>,
) -> bool {
    match token.symbol {
        Symbol::Number => lexeme is Value && reads::<Real>(
            token_text(text, token),
            Some(lexeme->Value_0),
        ),
        Symbol::Name => lexeme is Id && binds(binding_map, token_text(text, token), lexeme->Id_0),
        Symbol::Text => lexeme is Text && lexeme->Text_0@ == token_text(text, token),
        _ => true,
    }
}

/// Whether `lexemes` holds, token by token, what the tokens stand for.
pub open spec fn resolves<Real: FloatExt, F: Fn(&str) -> BindingId>(
    binding_map: F,
    text: Seq<char>,
    tokens: Seq<Token>,
    lexemes: Seq<Lexeme<Real>>,
) -> bool {
    &&& lexemes.len() == tokens.len()
    &&& forall|at: int|
        0 <= at < tokens.len() ==> resolves_at(
            binding_map,
            text,
            tokens[at],
            #[trigger] lexemes[at],
        )
}

/// The binding-resolution law: a tree parsed with a binding map that gives
/// every name one of `columns` columns binds none but those columns, so it
/// can be evaluated over any `columns` columns of one length.
pub proof fn lemma_parsed_bindings<Real: FloatExt, F: Fn(&str) -> BindingId>(
    binding_map: F,
    text: Seq<char>,
    lexemes: Seq<Lexeme<Real>>,
    columns: nat,
)
    requires
        text.len() <= usize::MAX,
        grammar_of(text) is Ok,
        resolves(binding_map, text, grammar_of(text)->Ok_0.tokens, lexemes),
        forall|name: Seq<char>, id: BindingId|
            #[trigger] binds(binding_map, name, id) ==> id < columns,
    ensures
        tree_bound_by(
            tree_of(grammar_of(text)->Ok_0.syntax, grammar_of(text)->Ok_0.kind, lexemes),
            columns,
            columns,
        ),
{
    let analysis = grammar_of(text)->Ok_0;
    let tokens = analysis.tokens;
    let syntax = analysis.syntax;
    lemma_tokens_within(text, 0, Seq::empty());
    lemma_syntax_within(tokens, text.len() as usize);
    assert forall|at: int|
        0 <= at < tokens.len() && (#[trigger] tokens[at]).symbol
            == Symbol::Name implies lexemes[at]->Id_0 < columns by {
        assert(resolves_at(binding_map, text, tokens[at], lexemes[at]));
        assert(binds(binding_map, token_text(text, tokens[at]), lexemes[at]->Id_0));
    }
    assert(names_bound_by(tokens, lexemes, columns));
    lemma_leaf_kinds(syntax, tokens);
    match analysis.kind {
        Kind::Boolean => {
            lemma_bool_bound(syntax, tokens, lexemes, columns, columns);
        },
        Kind::Text => {},
        _ => {
            lemma_real_bound(syntax, tokens, lexemes, columns);
        },
    }
}

/// The kind that an infix operator asks of a name among its operands: a
/// string where an equality compares with a quoted string, a boolean for
/// logic, a real everywhere else.
pub open spec fn operand_context(operator: Operator, lhs: Syntax, rhs: Syntax) -> Kind {
    match operator {
        Operator::And | Operator::Or => Kind::Boolean,
        Operator::Equal | Operator::NotEqual => if lhs is Text || rhs is Text {
            Kind::Text
        } else {
            Kind::Real
        },
        _ => Kind::Real,
    }
}

/// The names of the variables of kind `wanted` in a syntax tree that stands
/// where kind `context` is asked for, one for each occurrence, in the order
/// of the text.
pub open spec fn names_in(
    syntax: Syntax,
    text: Seq<char>,
    tokens: Seq<Token>,
    wanted: Kind,
    context: Kind,
) -> Seq<Seq<char>>
    decreases syntax,
{
    match syntax {
        Syntax::Name(at) => if context == wanted {
            seq![token_text(text, tokens[at as int])]
        } else {
            Seq::empty()
        },
        Syntax::Number(_) => Seq::empty(),
        Syntax::Text(_) => Seq::empty(),
        Syntax::Negate(_, operand) => names_in(*operand, text, tokens, wanted, Kind::Real),
        Syntax::Invert(_, operand) => names_in(*operand, text, tokens, wanted, Kind::Boolean),
        Syntax::Infix(operator, _, lhs, rhs) => names_in(
            *lhs,
            text,
            tokens,
            wanted,
            operand_context(operator, *lhs, *rhs),
        ) + names_in(*rhs, text, tokens, wanted, operand_context(operator, *lhs, *rhs)),
    }
}

/// The names with one more, unless it is among them already.
pub open spec fn with_name(names: Seq<Seq<char>>, name: Seq<char>) -> Seq<Seq<char>> {
    if names.contains(name) {
        names
    } else {
        names.push(name)
    }
}

/// The names `before` with those of `names` that are new, each once, in the
/// order of their first occurrence.
pub open spec fn gathered(before: Seq<Seq<char>>, names: Seq<Seq<char>>) -> Seq<Seq<char>>
    decreases names.len(),
{
    if names.len() == 0 {
        before
    } else {
        gathered(with_name(before, names[0]), names.drop_first())
    }
}

/// The names of the variables of kind `wanted` that a text mentions, each
/// once, in the order of their first occurrence; or why the text is no
/// expression. The numbers of the text are not read.
pub open spec fn variable_names(text: Seq<char>, wanted: Kind) -> Result<
    Seq<Seq<char>>,
    ParseError,
> {
    match grammar_of(text) {
        Ok(analysis) => Ok(
            gathered(
                Seq::empty(),
                names_in(analysis.syntax, text, analysis.tokens, wanted, Kind::Real),
            ),
        ),
        Err(error) => Err(error),
    }
}

/// The texts of a sequence of strings.
pub open spec fn texts_of(names: Seq<String>) -> Seq<Seq<char>> {
    names.map_values(|name: String| name@)
}

/// The view of the outcome of listing names.
pub open spec fn names_view(out: Result<Vec<String>, ParseError>) -> Result<
    Seq<Seq<char>>,
    ParseError,
> {
    match out {
        Ok(names) => Ok(texts_of(names@)),
        Err(error) => Err(error),
    }
}

/// Gathering the names of two runs, one after the other, is gathering
/// those of both.
pub proof fn lemma_gathered_concat(
    before: Seq<Seq<char>>,
    first: Seq<Seq<char>>,
    second: Seq<Seq<char>>,
)
    ensures
        gathered(before, first + second) == gathered(gathered(before, first), second),
    decreases first.len(),
{
    if first.len() == 0 {
        assert(first + second =~= second);
    } else {
        assert((first + second).drop_first() =~= first.drop_first() + second);
        lemma_gathered_concat(with_name(before, first[0]), first.drop_first(), second);
    }
}

/// Gathered names hold each name once, and hold a name exactly where it
/// was among those before or among those gathered.
pub proof fn lemma_gathered_names(before: Seq<Seq<char>>, names: Seq<Seq<char>>)
    requires
        before.no_duplicates(),
    ensures
        gathered(before, names).no_duplicates(),
        forall|name: Seq<char>|
            gathered(before, names).contains(name) <==> before.contains(name) || names.contains(
                name,
            ),
    decreases names.len(),
{
    if names.len() > 0 {
        let next = with_name(before, names[0]);
        assert(next.no_duplicates());
        lemma_gathered_names(next, names.drop_first());
        assert forall|name: Seq<char>|
            gathered(before, names).contains(name) <==> before.contains(name) || names.contains(
                name,
            ) by {
            if names.contains(name) {
                let k = choose|k: int| 0 <= k < names.len() && names[k] == name;
                if k > 0 {
                    assert(names.drop_first()[k - 1] == name);
                } else {
                    if before.contains(name) {
                    } else {
                        assert(next[before.len() as int] == name);
                    }
                }
            }
            if before.contains(name) {
                let k = choose|k: int| 0 <= k < before.len() && before[k] == name;
                assert(next[k] == name);
            }
            if next.contains(name) && !before.contains(name) {
                let k = choose|k: int| 0 <= k < next.len() && next[k] == name;
                assert(k == before.len());
                assert(names[0] == name);
            }
            if names.drop_first().contains(name) {
                let k = choose|k: int|
                    0 <= k < names.drop_first().len() && names.drop_first()[k] == name;
                assert(names[k + 1] == name);
            }
        }
    }
}

/// Reads the numbers of a text. Every other token is marked only.
fn read_numbers<Real: FloatExt>(input: &str, tokens: &[Token]) -> (out: Result<
    Vec<Lexeme<Real>>,
    ParseError,
>)
    requires
        forall|at: int|
            0 <= at < tokens@.len() ==> (#[trigger] tokens@[at]).start <= tokens@[at].end
                <= input@.len(),
    ensures
        match out {
            Ok(lexemes) => {
                &&& lexemes@.len() == tokens@.len()
                &&& forall|at: int|
                    0 <= at < tokens@.len() ==> if tokens@[at].symbol == Symbol::Number {
                        (#[trigger] lexemes@[at]) is Value && reads::<Real>(
                            token_text(input@, tokens@[at]),
                            Some(lexemes@[at]->Value_0),
                        )
                    } else {
                        lexemes@[at] is Mark
                    }
            },
            Err(error) => unread_number::<Real>(input@, tokens@, error),
        },
{
    let mut lexemes: Vec<Lexeme<Real>> = Vec::new();
    let mut at: usize = 0;
    while at < tokens.len()
        invariant
            at <= tokens@.len(),
            forall|at: int|
                0 <= at < tokens@.len() ==> (#[trigger] tokens@[at]).start <= tokens@[at].end
                    <= input@.len(),
            lexemes@.len() == at,
            forall|i: int|
                0 <= i < at ==> if tokens@[i].symbol == Symbol::Number {
                    (#[trigger] lexemes@[i]) is Value && reads::<Real>(
                        token_text(input@, tokens@[i]),
                        Some(lexemes@[i]->Value_0),
                    )
                } else {
                    lexemes@[i] is Mark
                },
        decreases tokens@.len() - at,
    {
        let token = tokens[at];
        if token.symbol == Symbol::Number {
            match Real::parse_literal(input.substring_char(token.start, token.end)) {
                Some(value) => {
                    lexemes.push(Lexeme::Value(value));
                },
                None => {
                    proof {
                        assert(reads::<Real>(token_text(input@, tokens@[at as int]), None));
                        assert forall|before: int|
                            0 <= before < at && (#[trigger] tokens@[before]).symbol
                                == Symbol::Number implies exists|value: Real|
                            reads::<Real>(token_text(input@, tokens@[before]), Some(value)) by {
                            assert(reads::<Real>(
                                token_text(input@, tokens@[before]),
                                Some(lexemes@[before]->Value_0),
                            ));
                        }
                    }
                    return Err(
                        ParseError { kind: ParseErrorKind::InvalidLiteral, position: token.start },
                    );
                },
            }
        } else {
            lexemes.push(Lexeme::Mark);
        }
        at += 1;
    }
    Ok(lexemes)
}

/// Binds the names of a text, in the order of their tokens, and takes the
/// text of its quoted strings.
fn bind_names<Real: FloatExt, F: Fn(&str) -> BindingId>(
    input: &str,
    tokens: &[Token],
    binding_map: &F,
    lexemes: &mut Vec<Lexeme<Real>>,
)
    requires
        forall|at: int|
            0 <= at < tokens@.len() ==> (#[trigger] tokens@[at]).start <= tokens@[at].end
                <= input@.len(),
        forall|at: int, slice: &str|
            0 <= at < tokens@.len() && (#[trigger] tokens@[at]).symbol == Symbol::Name && slice@
                == token_text(input@, tokens@[at]) ==> #[trigger] call_requires(
                *binding_map,
                (slice,),
            ),
        old(lexemes)@.len() == tokens@.len(),
        forall|at: int|
            0 <= at < tokens@.len() ==> if tokens@[at].symbol == Symbol::Number {
                (#[trigger] old(lexemes)@[at]) is Value && reads::<Real>(
                    token_text(input@, tokens@[at]),
                    Some(old(lexemes)@[at]->Value_0),
                )
            } else {
                old(lexemes)@[at] is Mark
            },
    ensures
        resolves(*binding_map, input@, tokens@, final(lexemes)@),
{
    let mut at: usize = 0;
    while at < tokens.len()
        invariant
            at <= tokens@.len(),
            forall|at: int|
                0 <= at < tokens@.len() ==> (#[trigger] tokens@[at]).start <= tokens@[at].end
                    <= input@.len(),
            forall|at: int, slice: &str|
                0 <= at < tokens@.len() && (#[trigger] tokens@[at]).symbol == Symbol::Name
                    && slice@ == token_text(input@, tokens@[at]) ==> #[trigger] call_requires(
                    *binding_map,
                    (slice,),
                ),
            lexemes@.len() == tokens@.len(),
            forall|i: int|
                0 <= i < at ==> resolves_at(
                    *binding_map,
                    input@,
                    tokens@[i],
                    #[trigger] lexemes@[i],
                ),
            forall|i: int|
                at <= i < tokens@.len() ==> if tokens@[i].symbol == Symbol::Number {
                    (#[trigger] lexemes@[i]) is Value && reads::<Real>(
                        token_text(input@, tokens@[i]),
                        Some(lexemes@[i]->Value_0),
                    )
                } else {
                    lexemes@[i] is Mark
                },
        decreases tokens@.len() - at,
    {
        let token = tokens[at];
        match token.symbol {
            Symbol::Name => {
                let name = input.substring_char(token.start, token.end);
                let binding = binding_map(name);
                lexemes.set(at, Lexeme::Id(binding));
                assert(binds(*binding_map, token_text(input@, token), binding));
            },
            Symbol::Text => {
                let text = input.substring_char(token.start, token.end).to_owned();
                lexemes.set(at, Lexeme::Text(text));
            },
            _ => {},
        }
        at += 1;
    }
}

/// Tests whether a name is among those listed.
fn has_name(names: &Vec<String>, name: &String) -> (out: bool)
    ensures
        out == texts_of(names@).contains(name@),
{
    let mut i: usize = 0;
    while i < names.len()
        invariant
            i <= names@.len(),
            forall|j: int| 0 <= j < i ==> texts_of(names@)[j] != name@,
        decreases names@.len() - i,
    {
        if names[i] == *name {
            assert(texts_of(names@)[i as int] == name@);
            return true;
        }
        i += 1;
    }
    false
}

/// Lists the names of the variables of kind `wanted` in a syntax tree, each
/// once, after those listed already.
fn collect_names(
    syntax: &Syntax,
    input: &str,
    tokens: &[Token],
    wanted: Kind,
    context: Kind,
    names: &mut Vec<String>,
)
    requires
        syntax.within(tokens@),
        forall|at: int|
            0 <= at < tokens@.len() ==> (#[trigger] tokens@[at]).start <= tokens@[at].end
                <= input@.len(),
    ensures
        texts_of(final(names)@) == gathered(
            texts_of(old(names)@),
            names_in(*syntax, input@, tokens@, wanted, context),
        ),
    decreases syntax,
{
    match syntax {
        Syntax::Name(at) => {
            if context == wanted {
                let token = tokens[*at];
                let name = input.substring_char(token.start, token.end).to_owned();
                let ghost found = seq![name@];
                assert(found.drop_first() =~= Seq::<Seq<char>>::empty());
                if !has_name(names, &name) {
                    names.push(name);
                    assert(texts_of(names@) =~= texts_of(old(names)@).push(name@));
                }
                assert(texts_of(names@) == gathered(
                    with_name(texts_of(old(names)@), found[0]),
                    found.drop_first(),
                ));
            }
        },
        Syntax::Number(_) => {},
        Syntax::Text(_) => {},
        Syntax::Negate(_, operand) => {
            collect_names(operand, input, tokens, wanted, Kind::Real, names);
        },
        Syntax::Invert(_, operand) => {
            collect_names(operand, input, tokens, wanted, Kind::Boolean, names);
        },
        Syntax::Infix(operator, _, lhs, rhs) => {
            let context = match operator {
                Operator::And | Operator::Or => Kind::Boolean,
                Operator::Equal | Operator::NotEqual => if is_text(lhs) || is_text(rhs) {
                    Kind::Text
                } else {
                    Kind::Real
                },
                _ => Kind::Real,
            };
            collect_names(lhs, input, tokens, wanted, context, names);
            collect_names(rhs, input, tokens, wanted, context, names);
            proof {
                lemma_gathered_concat(
                    texts_of(old(names)@),
                    names_in(**lhs, input@, tokens@, wanted, context),
                    names_in(**rhs, input@, tokens@, wanted, context),
                );
            }
        },
    }
}

/// Lists the names of the variables of kind `wanted` that a text mentions.
fn parse_variable_names(input: &str, wanted: Kind) -> (out: Result<Vec<String>, ParseError>)
    ensures
        names_view(out) == variable_names(input@, wanted),
        out matches Ok(names) ==> texts_of(names@).no_duplicates(),
{
    let text = chars_of(input);
    let tokens = match tokenize(text.as_slice()) {
        Ok(tokens) => tokens,
        Err(error) => {
            return Err(error);
        },
    };
    let syntax = match parse_syntax(tokens.as_slice(), text.len()) {
        Ok(syntax) => syntax,
        Err(error) => {
            return Err(error);
        },
    };
    match check_kind(&syntax, tokens.as_slice()) {
        Ok(_) => {},
        Err(error) => {
            return Err(error);
        },
    }
    let mut names: Vec<String> = Vec::new();
    assert(texts_of(names@) =~= Seq::<Seq<char>>::empty());
    collect_names(&syntax, input, tokens.as_slice(), wanted, Kind::Real, &mut names);
    proof {
        lemma_gathered_names(
            Seq::empty(),
            names_in(syntax, input@, tokens@, wanted, Kind::Real),
        );
    }
    Ok(names)
}

/// The names that the empty binding map binds: none.
pub open spec fn no_names() -> Set<Seq<char>> {
    Set::empty()
}

/// Pass to `Expression::parse` if the expression has no variables.
///
/// The empty binding map binds no name, so it is never to be called:
/// parsing accepts it only for a text that mentions no variable.
pub fn empty_binding_map(_var_name: &str) -> BindingId
    requires
        no_names().contains(_var_name@),
{
    unreached()
}

impl<Real: FloatExt> Expression<Real> {
    /// The names of the real variables that `input` mentions, each once, in
    /// the order of their first occurrence. A name is a real variable
    /// wherever it is not compared with a quoted string.
    pub fn parse_real_variable_names(input: &str) -> (out: Result<Vec<String>, ParseError>)
        ensures
            names_view(out) == variable_names(input@, Kind::Real),
            out matches Ok(names) ==> texts_of(names@).no_duplicates(),
    {
        parse_variable_names(input, Kind::Real)
    }

    /// The names of the string variables that `input` mentions, each once,
    /// in the order of their first occurrence. A name is a string variable
    /// where it is compared with a quoted string.
    pub fn parse_string_variable_names(input: &str) -> (out: Result<Vec<String>, ParseError>)
        ensures
            names_view(out) == variable_names(input@, Kind::Text),
            out matches Ok(names) ==> texts_of(names@).no_duplicates(),
    {
        parse_variable_names(input, Kind::Text)
    }

    /// Parse the expression from `input`.
    ///
    /// `binding_map` determines which variable name maps to each data
    /// binding. It is asked once for each occurrence of a name, in the order
    /// of the text, and only where the text is an expression. The names are
    /// replaced by [`BindingId`]s in the [`Expression`] syntax tree. This
    /// allows the [`Expression`] to be efficiently reused with many
    /// different data bindings.
    pub fn parse<F: Fn(&str) -> BindingId>(input: &str, binding_map: F) -> (out: Result<
        Self,
        ParseError,
    >)
        requires
            forall|name: &str| mentions(input@, name@) ==> call_requires(binding_map, (name,)),
        ensures
            match out {
                Ok(tree) => grammar_of(input@) matches Ok(analysis) && exists|
                    lexemes: Seq<Lexeme<Real>>,
                |
                    #[trigger] resolves(binding_map, input@, analysis.tokens, lexemes) && tree
                        == tree_of(analysis.syntax, analysis.kind, lexemes),
                Err(error) => match grammar_of(input@) {
                    Ok(analysis) => unread_number::<Real>(input@, analysis.tokens, error),
                    Err(grammar_error) => error == grammar_error,
                },
            },
    {
        let text = chars_of(input);
        let tokens = match tokenize(text.as_slice()) {
            Ok(tokens) => tokens,
            Err(error) => {
                return Err(error);
            },
        };
        let syntax = match parse_syntax(tokens.as_slice(), text.len()) {
            Ok(syntax) => syntax,
            Err(error) => {
                return Err(error);
            },
        };
        let kind = match check_kind(&syntax, tokens.as_slice()) {
            Ok(kind) => kind,
            Err(error) => {
                return Err(error);
            },
        };
        let mut lexemes = match read_numbers::<Real>(input, tokens.as_slice()) {
            Ok(lexemes) => lexemes,
            Err(error) => {
                return Err(error);
            },
        };
        assert forall|at: int, slice: &str|
            0 <= at < tokens@.len() && (#[trigger] tokens@[at]).symbol == Symbol::Name && slice@
                == token_text(input@, tokens@[at]) implies #[trigger] call_requires(
            binding_map,
            (slice,),
        ) by {
            assert(mentions(input@, slice@));
        }
        bind_names(input, tokens.as_slice(), &binding_map, &mut lexemes);
        Ok(build_tree(&syntax, kind, lexemes.as_slice(), Ghost(tokens@)))
    }
}

} // verus!
