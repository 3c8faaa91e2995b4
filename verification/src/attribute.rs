//! Attributes as the derives read them, and the grammar `<key> = "<text>"`
//! of what stands between an attribute's parentheses.

use vstd::prelude::*;
use vstd::string::*;
use crate::invocation::{is_char_at, Expected, SyntaxError};
use crate::splice::{is_ident_at, is_punct_at};
use crate::syntax::{
    accepts_identifier, identifier_verdict, string_literal_value, string_value, text_view,
};
use crate::token::{flatten_invisible, flattened, Token, TokenView};

verus! {

/// What follows an attribute's name.
#[derive(Debug, PartialEq, Eq)]
pub enum Meta<L> {
    /// Nothing: `#[name]`.
    Path,
    /// Delimited tokens: `#[name(tokens)]`.
    List(Vec<Token<L>>),
    /// A value: `#[name = value]`; `true` where the value is a string
    /// literal.
    NameValue(bool),
}

/// One attribute: its name, where its path is a single identifier, and what
/// follows the name.
#[derive(Debug, PartialEq, Eq)]
pub struct Attribute<L> {
    pub name: Option<String>,
    pub meta: Meta<L>,
}

/// The mathematical value of a [`Meta`].
pub enum MetaView<L> {
    Path,
    List(Seq<TokenView<L>>),
    NameValue(bool),
}

/// The mathematical value of an [`Attribute`].
pub struct AttributeView<L> {
    pub name: Option<Seq<char>>,
    pub meta: MetaView<L>,
}

impl<L> DeepView for Meta<L> {
    type V = MetaView<L>;

    open spec fn deep_view(&self) -> MetaView<L> {
        match self {
            Meta::Path => MetaView::Path,
            Meta::List(tokens) => MetaView::List(tokens.deep_view()),
            Meta::NameValue(is_string) => MetaView::NameValue(*is_string),
        }
    }
}

impl<L> DeepView for Attribute<L> {
    type V = AttributeView<L>;

    open spec fn deep_view(&self) -> AttributeView<L> {
        AttributeView { name: text_view(self.name), meta: self.meta.deep_view() }
    }
}

/// Whether the attribute's path is the single identifier `name`.
pub open spec fn is_named<L>(attribute: AttributeView<L>, name: Seq<char>) -> bool {
    attribute.name == Some(name)
}

/// The characters of a text, or the error in its place.
pub open spec fn result_text(r: Result<String, SyntaxError>) -> Result<Seq<char>, SyntaxError> {
    match r {
        Ok(text) => Ok(text@),
        Err(error) => Err(error),
    }
}

/// The part `= "<text>"` of the grammar, after a key at position 0: the
/// string that the literal denotes, given what the syntax-tree parser read
/// from the literal.
pub open spec fn assignment_spec<L>(s: Seq<TokenView<L>>, value: Option<Seq<char>>) -> Result<
    Seq<char>,
    SyntaxError,
> {
    if !is_char_at(s, 1, '=') {
        Err(SyntaxError { at: 1, expected: Expected::EqualsSign })
    } else if !(2 < s.len() && s[2] is Literal && value is Some) {
        Err(SyntaxError { at: 2, expected: Expected::StringLiteral })
    } else if 3 < s.len() {
        Err(SyntaxError { at: 3, expected: Expected::EndOfInput })
    } else {
        Ok(value->Some_0)
    }
}

/// The grammar `<identifier> = "<text>"`, given whether the syntax-tree
/// parser takes the first token's text as an identifier and what it read
/// from the literal: the text, or the first token that does not fit.
pub open spec fn bound_attr_spec<L>(
    s: Seq<TokenView<L>>,
    key_ok: bool,
    value: Option<Seq<char>>,
) -> Result<Seq<char>, SyntaxError> {
    if !(0 < s.len() && s[0] is Ident && key_ok) {
        Err(SyntaxError { at: 0, expected: Expected::Identifier })
    } else {
        assignment_spec(s, value)
    }
}

/// The grammar `each = "<text>"`: as [`bound_attr_spec`], with the key held
/// to the word `each`.
pub open spec fn each_attr_spec<L>(
    s: Seq<TokenView<L>>,
    key_ok: bool,
    value: Option<Seq<char>>,
) -> Result<Seq<char>, SyntaxError> {
    if !(0 < s.len() && s[0] is Ident && key_ok) {
        Err(SyntaxError { at: 0, expected: Expected::Identifier })
    } else if s[0]->Ident_0 != "each"@ {
        Err(SyntaxError { at: 0, expected: Expected::EachKeyword })
    } else {
        assignment_spec(s, value)
    }
}

/// What the syntax-tree parser says of the first token, where it is an
/// identifier.
pub open spec fn key_verdict<L>(s: Seq<TokenView<L>>) -> bool {
    0 < s.len() && s[0] is Ident && identifier_verdict(s[0]->Ident_0)
}

/// What the syntax-tree parser reads from the third token, where it is a
/// literal.
pub open spec fn value_verdict<L>(s: Seq<TokenView<L>>) -> Option<Seq<char>> {
    if 2 < s.len() && s[2] is Literal {
        string_literal_value(s[2]->Literal_0)
    } else {
        None
    }
}

/// What parsing `s` as `<identifier> = "<text>"` gives, groups without
/// visible brackets seen through.
pub open spec fn bound_attr<L>(s: Seq<TokenView<L>>) -> Result<Seq<char>, SyntaxError> {
    let flat = flattened(s);
    bound_attr_spec(flat, key_verdict(flat), value_verdict(flat))
}

/// What parsing `s` as `each = "<text>"` gives, groups without visible
/// brackets seen through.
pub open spec fn each_attr<L>(s: Seq<TokenView<L>>) -> Result<Seq<char>, SyntaxError> {
    let flat = flattened(s);
    each_attr_spec(flat, key_verdict(flat), value_verdict(flat))
}

fn is_any_ident_at<L>(input: &Vec<Token<L>>, i: usize) -> (r: bool)
    ensures
        r == (i < input.len() && input.deep_view()[i as int] is Ident),
{
    if i >= input.len() {
        return false;
    }
    match &input[i] {
        Token::Ident(_, _) => true,
        _ => false,
    }
}

fn is_literal_at<L>(input: &Vec<Token<L>>, i: usize) -> (r: bool)
    ensures
        r == (i < input.len() && input.deep_view()[i as int] is Literal),
{
    if i >= input.len() {
        return false;
    }
    match &input[i] {
        Token::Literal(_, _) => true,
        _ => false,
    }
}

fn parse_assignment<L>(input: &Vec<Token<L>>, value: Option<String>) -> (r: Result<
    String,
    SyntaxError,
>)
    ensures
        result_text(r) == assignment_spec(input.deep_view(), text_view(value)),
{
    if !is_punct_at(input, 1, '=') {
        return Err(SyntaxError { at: 1, expected: Expected::EqualsSign });
    }
    if !is_literal_at(input, 2) {
        return Err(SyntaxError { at: 2, expected: Expected::StringLiteral });
    }
    match value {
        None => Err(SyntaxError { at: 2, expected: Expected::StringLiteral }),
        Some(text) => {
            if input.len() > 3 {
                Err(SyntaxError { at: 3, expected: Expected::EndOfInput })
            } else {
                Ok(text)
            }
        },
    }
}

/// Parses `<identifier> = "<text>"` from its tokens, taken as they are, and
/// from what the syntax-tree parser said of two of them: `key_ok`, whether it takes the
/// first token's text as an identifier; `value`, the string it read from the
/// literal.
pub fn parse_bound_with<L>(input: &Vec<Token<L>>, key_ok: bool, value: Option<String>) -> (r:
    Result<String, SyntaxError>)
    ensures
        result_text(r) == bound_attr_spec(input.deep_view(), key_ok, text_view(value)),
{
    if !is_any_ident_at(input, 0) || !key_ok {
        return Err(SyntaxError { at: 0, expected: Expected::Identifier });
    }
    parse_assignment(input, value)
}

/// Parses `each = "<text>"` from its tokens and from what the syntax-tree
/// parser said of two of them, as [`parse_bound_with`].
pub fn parse_each_with<L>(input: &Vec<Token<L>>, key_ok: bool, value: Option<String>) -> (r:
    Result<String, SyntaxError>)
    ensures
        result_text(r) == each_attr_spec(input.deep_view(), key_ok, text_view(value)),
{
    if !is_any_ident_at(input, 0) || !key_ok {
        return Err(SyntaxError { at: 0, expected: Expected::Identifier });
    }
    let each = String::from_str("each");
    if !is_ident_at(input, 0, &each) {
        return Err(SyntaxError { at: 0, expected: Expected::EachKeyword });
    }
    parse_assignment(input, value)
}

fn key_accepted<L>(input: &Vec<Token<L>>) -> (ok: bool)
    ensures
        ok == key_verdict(input.deep_view()),
{
    input.len() > 0 && match &input[0] {
        Token::Ident(text, _) => accepts_identifier(text.as_str()),
        _ => false,
    }
}

fn value_read<L>(input: &Vec<Token<L>>) -> (value: Option<String>)
    ensures
        text_view(value) == value_verdict(input.deep_view()),
{
    if input.len() <= 2 {
        return None;
    }
    match &input[2] {
        Token::Literal(text, _) => string_value(text.as_str()),
        _ => None,
    }
}

/// Parses the tokens `<identifier> = "<text>"` and gives the text.
pub fn parse_bound_attr<L: Copy>(input: &Vec<Token<L>>) -> (r: Result<String, SyntaxError>)
    ensures
        result_text(r) == bound_attr(input.deep_view()),
{
    let flat = flatten_invisible(input);
    let key_ok = key_accepted(&flat);
    let value = value_read(&flat);
    parse_bound_with(&flat, key_ok, value)
}

/// Parses the tokens `each = "<text>"` and gives the text.
pub fn parse_each_attr<L: Copy>(input: &Vec<Token<L>>) -> (r: Result<String, SyntaxError>)
    ensures
        result_text(r) == each_attr(input.deep_view()),
{
    let flat = flatten_invisible(input);
    let key_ok = key_accepted(&flat);
    let value = value_read(&flat);
    parse_each_with(&flat, key_ok, value)
}

} // verus!
