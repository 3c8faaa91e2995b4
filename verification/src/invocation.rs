//! The invocation grammar
//! `<identifier> in <integer> (".." | "..=") <integer> { <tokens> }`
//! and the request that it describes.

use vstd::prelude::*;
use vstd::string::*;
use crate::decimal::{parse_u16, read_u16};
use crate::splice::{is_ident_at, is_punct_at};
use crate::syntax::{
    accepts_identifier, identifier_verdict, integer_digits, integer_literal_digits, text_view,
};
use crate::token::{
    clone_stream, flatten_invisible, flattened, lemma_group_view, Delimiter, Spacing, Token,
    TokenView,
};

verus! {

/// What the parser was looking for where it gave up.
#[derive(Clone, Copy, Debug, PartialEq, Eq, Structural)]
pub enum Expected {
    /// The bound variable: an identifier that is not a keyword.
    Identifier,
    /// The keyword `in`.
    InKeyword,
    /// An integer literal whose value fits in 16 bits.
    IntegerLiteral,
    /// `..` or `..=`.
    RangeOperator,
    /// The body in braces.
    BracedBody,
    /// Nothing more after the last token of the grammar.
    EndOfInput,
    /// The word `each`.
    EachKeyword,
    /// The character `=`.
    EqualsSign,
    /// A string literal.
    StringLiteral,
}

/// Tokens that do not follow their grammar: the position of the first
/// offending token (the number of tokens when the input ends too early) and
/// what was expected there.
#[derive(Clone, Copy, Debug, PartialEq, Eq, Structural)]
pub struct SyntaxError {
    pub at: usize,
    pub expected: Expected,
}

/// One use of the macro, as parsed.
#[derive(Debug, PartialEq, Eq)]
pub struct Invocation<L> {
    /// The bound variable: the placeholder's name.
    pub var: String,
    /// Where the bound variable was written.
    pub var_loc: L,
    pub range_start: u16,
    pub range_end: u16,
    /// Whether the range was written with `..=`.
    pub is_inclusive: bool,
    /// The tokens between the braces.
    pub body: Vec<Token<L>>,
}

/// The mathematical value of an [`Invocation`].
pub struct InvocationView<L> {
    pub var: Seq<char>,
    pub var_loc: L,
    pub range_start: int,
    pub range_end: int,
    pub is_inclusive: bool,
    pub body: Seq<TokenView<L>>,
}

impl<L> DeepView for Invocation<L> {
    type V = InvocationView<L>;

    open spec fn deep_view(&self) -> InvocationView<L> {
        InvocationView {
            var: self.var@,
            var_loc: self.var_loc,
            range_start: self.range_start as int,
            range_end: self.range_end as int,
            is_inclusive: self.is_inclusive,
            body: self.body.deep_view(),
        }
    }
}

/// The words that name what was expected.
pub open spec fn expected_text(expected: Expected) -> Seq<char> {
    match expected {
        Expected::Identifier => "expected identifier"@,
        Expected::InKeyword => "expected `in`"@,
        Expected::IntegerLiteral => "expected integer literal"@,
        Expected::RangeOperator => "expected `..` or `..=`"@,
        Expected::BracedBody => "expected curly braces"@,
        Expected::EndOfInput => "unexpected token"@,
        Expected::EachKeyword => "expected `each`"@,
        Expected::EqualsSign => "expected `=`"@,
        Expected::StringLiteral => "expected string literal"@,
    }
}

impl SyntaxError {
    /// The diagnostic's text.
    pub fn message(&self) -> (text: String)
        ensures
            text@ == expected_text(self.expected),
    {
        match self.expected {
            Expected::Identifier => String::from_str("expected identifier"),
            Expected::InKeyword => String::from_str("expected `in`"),
            Expected::IntegerLiteral => String::from_str("expected integer literal"),
            Expected::RangeOperator => String::from_str("expected `..` or `..=`"),
            Expected::BracedBody => String::from_str("expected curly braces"),
            Expected::EndOfInput => String::from_str("unexpected token"),
            Expected::EachKeyword => String::from_str("expected `each`"),
            Expected::EqualsSign => String::from_str("expected `=`"),
            Expected::StringLiteral => String::from_str("expected string literal"),
        }
    }
}

/// Whether the token at `i` is the punctuation character `ch`, glued to what
/// follows it.
pub open spec fn is_joint_at<L>(s: Seq<TokenView<L>>, i: int, ch: char) -> bool {
    &&& 0 <= i < s.len()
    &&& s[i] is Punct
    &&& s[i]->Punct_0 == ch
    &&& s[i]->Punct_1 == Spacing::Joint
}

/// Whether the token at `i` is the punctuation character `ch`.
pub open spec fn is_char_at<L>(s: Seq<TokenView<L>>, i: int, ch: char) -> bool {
    &&& 0 <= i < s.len()
    &&& s[i] is Punct
    &&& s[i]->Punct_0 == ch
}

/// How many tokens the range operator at `i` takes: three for `..=`, two for
/// `..`, none where neither stands. All characters of an operator but its
/// last are glued to the next.
pub open spec fn operator_width<L>(s: Seq<TokenView<L>>, i: int) -> int {
    if is_joint_at(s, i, '.') && is_joint_at(s, i + 1, '.') && is_char_at(s, i + 2, '=') {
        3
    } else if is_joint_at(s, i, '.') && is_char_at(s, i + 1, '.') {
        2
    } else {
        0
    }
}

/// The 16-bit number written by the literal at `i`, given the digits that
/// were read from its text: nothing where no literal stands at `i`, where it
/// is no integer literal, or where the number does not fit.
pub open spec fn literal_value<L>(s: Seq<TokenView<L>>, i: int, digits: Option<Seq<char>>) -> Option<
    u16,
> {
    if 0 <= i < s.len() && s[i] is Literal && digits is Some {
        read_u16(digits->Some_0)
    } else {
        None
    }
}

/// Whether the token at `i` is a group in braces.
pub open spec fn is_braced_at<L>(s: Seq<TokenView<L>>, i: int) -> bool {
    &&& 0 <= i < s.len()
    &&& s[i] is Group
    &&& s[i]->Group_0 == Delimiter::Brace
}

/// The grammar, given what the syntax-tree parser said of the three tokens
/// that it judges: whether it takes the first token's text as an identifier,
/// and the digits it read from the two literals. The tokens are checked in
/// order and the first one that does not fit is reported.
pub open spec fn parse_spec<L>(
    s: Seq<TokenView<L>>,
    var_ok: bool,
    start: Option<Seq<char>>,
    end: Option<Seq<char>>,
) -> Result<InvocationView<L>, SyntaxError> {
    let width = operator_width(s, 3);
    let p = 3 + width;
    if !(0 < s.len() && s[0] is Ident && var_ok) {
        Err(SyntaxError { at: 0, expected: Expected::Identifier })
    } else if !(1 < s.len() && s[1] is Ident && s[1]->Ident_0 == "in"@) {
        Err(SyntaxError { at: 1, expected: Expected::InKeyword })
    } else if literal_value(s, 2, start) is None {
        Err(SyntaxError { at: 2, expected: Expected::IntegerLiteral })
    } else if width == 0 {
        Err(SyntaxError { at: 3, expected: Expected::RangeOperator })
    } else if literal_value(s, p, end) is None {
        Err(SyntaxError { at: p as usize, expected: Expected::IntegerLiteral })
    } else if !is_braced_at(s, p + 1) {
        Err(SyntaxError { at: (p + 1) as usize, expected: Expected::BracedBody })
    } else if p + 2 < s.len() {
        Err(SyntaxError { at: (p + 2) as usize, expected: Expected::EndOfInput })
    } else {
        Ok(
            InvocationView {
                var: s[0]->Ident_0,
                var_loc: s[0]->Ident_1,
                range_start: literal_value(s, 2, start)->Some_0 as int,
                range_end: literal_value(s, p, end)->Some_0 as int,
                is_inclusive: width == 3,
                body: s[p + 1]->Group_1,
            },
        )
    }
}

/// The digits that the syntax-tree parser reads from the token at `i`, where
/// a literal stands there.
pub open spec fn digits_at<L>(s: Seq<TokenView<L>>, i: int) -> Option<Seq<char>> {
    if 0 <= i < s.len() && s[i] is Literal {
        integer_literal_digits(s[i]->Literal_0)
    } else {
        None
    }
}

/// What the grammar gives on the tokens `s`, taken as they are.
pub open spec fn grammar<L>(s: Seq<TokenView<L>>) -> Result<InvocationView<L>, SyntaxError> {
    parse_spec(
        s,
        0 < s.len() && s[0] is Ident && identifier_verdict(s[0]->Ident_0),
        digits_at(s, 2),
        digits_at(s, 3 + operator_width(s, 3)),
    )
}

/// What parsing the tokens `s` as an invocation gives: the grammar on `s`
/// with groups without visible brackets seen through. Positions in errors
/// count the tokens so seen.
pub open spec fn parsed<L>(s: Seq<TokenView<L>>) -> Result<InvocationView<L>, SyntaxError> {
    grammar(flattened(s))
}

/// Whether `r` is the result `expected`, by value.
pub open spec fn result_is<L>(
    r: Result<Invocation<L>, SyntaxError>,
    expected: Result<InvocationView<L>, SyntaxError>,
) -> bool {
    match r {
        Ok(invocation) => expected == Ok::<InvocationView<L>, SyntaxError>(
            invocation.deep_view(),
        ),
        Err(error) => expected == Err::<InvocationView<L>, SyntaxError>(error),
    }
}

/// The tokens of a well-formed invocation, written out: the bound variable,
/// `in`, the start, `..` or `..=`, the end, and the body in braces.
pub open spec fn written<L>(
    var: TokenView<L>,
    keyword: TokenView<L>,
    start: TokenView<L>,
    dots: Seq<TokenView<L>>,
    end: TokenView<L>,
    body: Seq<TokenView<L>>,
) -> Seq<TokenView<L>> {
    seq![var, keyword, start] + dots + seq![end, TokenView::Group(Delimiter::Brace, body)]
}

/// Whether `dots` is the range operator `..` (two tokens) or `..=` (three):
/// dots glued to what follows, but for the operator's last character.
pub open spec fn is_range_operator<L>(dots: Seq<TokenView<L>>, inclusive: bool) -> bool {
    &&& dots.len() == if inclusive {
        3int
    } else {
        2int
    }
    &&& is_joint_at(dots, 0, '.')
    &&& is_char_at(dots, 1, '.')
    &&& inclusive ==> is_joint_at(dots, 1, '.') && is_char_at(dots, 2, '=')
}

/// The grammar accepts every well-formed invocation and gives back its
/// parts: an identifier that the syntax-tree parser takes as one, the word
/// `in`, two literals from which it reads digits for numbers below 65536,
/// separated by a range operator, and a body in braces.
pub proof fn lemma_grammar_accepts_written<L>(
    var: TokenView<L>,
    keyword: TokenView<L>,
    start: TokenView<L>,
    dots: Seq<TokenView<L>>,
    end: TokenView<L>,
    body: Seq<TokenView<L>>,
    inclusive: bool,
    start_digits: Seq<char>,
    end_digits: Seq<char>,
)
    requires
        var is Ident,
        keyword is Ident,
        keyword->Ident_0 == "in"@,
        start is Literal,
        end is Literal,
        is_range_operator(dots, inclusive),
        read_u16(start_digits) is Some,
        read_u16(end_digits) is Some,
    ensures
        parse_spec(
            written(var, keyword, start, dots, end, body),
            true,
            Some(start_digits),
            Some(end_digits),
        ) == Ok::<InvocationView<L>, SyntaxError>(
            InvocationView {
                var: var->Ident_0,
                var_loc: var->Ident_1,
                range_start: read_u16(start_digits)->Some_0 as int,
                range_end: read_u16(end_digits)->Some_0 as int,
                is_inclusive: inclusive,
                body,
            },
        ),
{
    let s = written(var, keyword, start, dots, end, body);
    assert(s[3] == dots[0]);
    assert(s[4] == dots[1]);
    if inclusive {
        assert(s[5] == dots[2]);
        assert(operator_width(s, 3) == 3);
        assert(s[6] == end);
        assert(s[7] == TokenView::Group(Delimiter::Brace, body));
    } else {
        assert(s[5] == end);
        assert(!is_char_at(s, 5, '='));
        assert(operator_width(s, 3) == 2);
        assert(s[6] == TokenView::Group(Delimiter::Brace, body));
    }
}

fn is_joint_punct_at<L>(input: &Vec<Token<L>>, i: usize, ch: char) -> (r: bool)
    ensures
        r == is_joint_at(input.deep_view(), i as int, ch),
{
    if i >= input.len() {
        return false;
    }
    match &input[i] {
        Token::Punct(c, Spacing::Joint, _) => *c == ch,
        _ => false,
    }
}

/// How many tokens the range operator at `i` takes, none where there is no
/// range operator.
pub fn range_operator_width<L>(input: &Vec<Token<L>>, i: usize) -> (width: usize)
    ensures
        width == operator_width(input.deep_view(), i as int),
{
    if i >= input.len() || input.len() - i < 2 || !is_joint_punct_at(input, i, '.') {
        0
    } else if is_joint_punct_at(input, i + 1, '.') && is_punct_at(input, i + 2, '=') {
        3
    } else if is_punct_at(input, i + 1, '.') {
        2
    } else {
        0
    }
}

fn read_literal<L>(input: &Vec<Token<L>>, i: usize, digits: &Option<String>) -> (r: Option<u16>)
    ensures
        r == literal_value(input.deep_view(), i as int, text_view(*digits)),
{
    if i >= input.len() {
        return None;
    }
    match (&input[i], digits) {
        (Token::Literal(_, _), Some(d)) => parse_u16(d.as_str()),
        _ => None,
    }
}

/// Parses an invocation from its tokens, taken as they are, and from what
/// the syntax-tree parser said of three of them: `var_ok`, whether it takes the first token's text as
/// an identifier; `start` and `end`, the digits it read from the range's two
/// literals.
pub fn parse_with<L: Copy>(
    input: &Vec<Token<L>>,
    var_ok: bool,
    start: Option<String>,
    end: Option<String>,
) -> (r: Result<Invocation<L>, SyntaxError>)
    ensures
        result_is(r, parse_spec(input.deep_view(), var_ok, text_view(start), text_view(end))),
{
    let len: usize = input.len();
    if len == 0 || !var_ok {
        return Err(SyntaxError { at: 0, expected: Expected::Identifier });
    }
    let (var, var_loc) = match &input[0] {
        Token::Ident(text, loc) => (text.clone(), *loc),
        _ => {
            return Err(SyntaxError { at: 0, expected: Expected::Identifier });
        },
    };
    let keyword = String::from_str("in");
    if !is_ident_at(input, 1, &keyword) {
        return Err(SyntaxError { at: 1, expected: Expected::InKeyword });
    }
    let range_start: u16 = match read_literal(input, 2, &start) {
        Some(value) => value,
        None => {
            return Err(SyntaxError { at: 2, expected: Expected::IntegerLiteral });
        },
    };
    let width: usize = range_operator_width(input, 3);
    if width == 0 {
        return Err(SyntaxError { at: 3, expected: Expected::RangeOperator });
    }
    let p: usize = 3 + width;
    let range_end: u16 = match read_literal(input, p, &end) {
        Some(value) => value,
        None => {
            return Err(SyntaxError { at: p, expected: Expected::IntegerLiteral });
        },
    };
    if p + 1 >= len {
        return Err(SyntaxError { at: p + 1, expected: Expected::BracedBody });
    }
    let body = match &input[p + 1] {
        Token::Group(Delimiter::Brace, inner) => {
            proof {
                lemma_group_view(Delimiter::Brace, *inner);
            }
            clone_stream(inner)
        },
        _ => {
            return Err(SyntaxError { at: p + 1, expected: Expected::BracedBody });
        },
    };
    if p + 2 < len {
        return Err(SyntaxError { at: p + 2, expected: Expected::EndOfInput });
    }
    Ok(Invocation { var, var_loc, range_start, range_end, is_inclusive: width == 3, body })
}

fn literal_digits<L>(input: &Vec<Token<L>>, i: usize) -> (digits: Option<String>)
    ensures
        text_view(digits) == digits_at(input.deep_view(), i as int),
{
    if i >= input.len() {
        return None;
    }
    match &input[i] {
        Token::Literal(text, _) => integer_digits(text.as_str()),
        _ => None,
    }
}

/// Parses the tokens of an invocation,
/// `<identifier> in <integer> (".." | "..=") <integer> { <tokens> }`. Groups
/// without visible brackets around parts of the invocation are seen through;
/// the body is taken as it is.
pub fn parse<L: Copy>(input: &Vec<Token<L>>) -> (r: Result<Invocation<L>, SyntaxError>)
    ensures
        result_is(r, parsed(input.deep_view())),
{
    let flat = flatten_invisible(input);
    let var_ok = flat.len() > 0 && match &flat[0] {
        Token::Ident(text, _) => accepts_identifier(text.as_str()),
        _ => false,
    };
    let start = literal_digits(&flat, 2);
    let width: usize = range_operator_width(&flat, 3);
    let end = literal_digits(&flat, 3 + width);
    parse_with(&flat, var_ok, start, end)
}

} // verus!
