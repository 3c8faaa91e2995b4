//! What the syntax-tree parser says of the text of a single token.

use vstd::prelude::*;

verus! {

/// Whether the syntax-tree parser takes the text of an identifier token as an
/// identifier, that is, not as a keyword.
pub uninterp spec fn identifier_verdict(text: Seq<char>) -> bool;

/// The base-ten digits that the syntax-tree parser reads from the text of a
/// literal token, if it takes the text as an integer literal.
pub uninterp spec fn integer_literal_digits(text: Seq<char>) -> Option<Seq<char>>;

/// The string that the syntax-tree parser reads from the text of a literal
/// token, escapes resolved, if it takes the text as a string literal.
pub uninterp spec fn string_literal_value(text: Seq<char>) -> Option<Seq<char>>;

/// The characters of an optional text.
pub open spec fn text_view(text: Option<String>) -> Option<Seq<char>> {
    match text {
        Some(t) => Some(t@),
        None => None,
    }
}

/// `syn::parse_str::<syn::Ident>`: whether `text`, lexed and parsed on its
/// own, is an identifier. Nothing is claimed beyond giving that answer its
/// name.
#[verifier::external_body]
pub(crate) fn accepts_identifier(text: &str) -> (ok: bool)
    ensures
        ok == identifier_verdict(text@),
{
    syn::parse_str::<syn::Ident>(text).is_ok()
}

/// `syn::parse_str::<syn::LitInt>` followed by `syn::LitInt::base10_digits`:
/// the base-ten digits of `text` where it parses as an integer literal on its
/// own, nothing where it does not. Nothing is claimed beyond giving that
/// answer its name.
#[verifier::external_body]
pub(crate) fn integer_digits(text: &str) -> (digits: Option<String>)
    ensures
        text_view(digits) == integer_literal_digits(text@),
{
    match syn::parse_str::<syn::LitInt>(text) {
        Ok(literal) => Some(literal.base10_digits().to_string()),
        Err(_) => None,
    }
}

/// `syn::parse_str::<syn::LitStr>` followed by `syn::LitStr::value`: the
/// string that `text` denotes where it parses as a string literal on its own,
/// nothing where it does not. Nothing is claimed beyond giving that answer
/// its name.
#[verifier::external_body]
pub(crate) fn string_value(text: &str) -> (value: Option<String>)
    ensures
        text_view(value) == string_literal_value(text@),
{
    match syn::parse_str::<syn::LitStr>(text) {
        Ok(literal) => Some(literal.value()),
        Err(_) => None,
    }
}

} // verus!
