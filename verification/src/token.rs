//! Tokens and token streams as plain values.

use vstd::prelude::*;

verus! {

/// How a group of tokens is bracketed.
#[derive(Clone, Copy, Debug, PartialEq, Eq, Structural)]
pub enum Delimiter {
    /// `( ... )`
    Parenthesis,
    /// `{ ... }`
    Brace,
    /// `[ ... ]`
    Bracket,
    /// A group without visible brackets.
    Invisible,
}

/// Whether a punctuation character is glued to the punctuation that follows it.
#[derive(Clone, Copy, Debug, PartialEq, Eq, Structural)]
pub enum Spacing {
    /// Followed by something that is not part of the same operator.
    Alone,
    /// Immediately followed by another punctuation character.
    Joint,
}

/// One lexical unit. `L` is the caller's notion of a source location; the
/// engine copies locations and never looks inside them.
#[derive(Debug, PartialEq, Eq)]
pub enum Token<L> {
    /// An identifier or keyword, by its text.
    Ident(String, L),
    /// A literal, by its source text.
    Literal(String, L),
    /// A single punctuation character.
    Punct(char, Spacing, L),
    /// A delimited group and the tokens inside it.
    Group(Delimiter, Vec<Token<L>>),
}

/// The mathematical value of a [`Token`].
pub enum TokenView<L> {
    Ident(Seq<char>, L),
    Literal(Seq<char>, L),
    Punct(char, Spacing, L),
    Group(Delimiter, Seq<TokenView<L>>),
}

/// The value of a token: its text, or, for a group, the values of the tokens
/// inside it.
pub open spec fn token_view<L>(token: Token<L>) -> TokenView<L>
    decreases token,
{
    match token {
        Token::Ident(text, loc) => TokenView::Ident(text@, loc),
        Token::Literal(text, loc) => TokenView::Literal(text@, loc),
        Token::Punct(ch, spacing, loc) => TokenView::Punct(ch, spacing, loc),
        Token::Group(delimiter, inner) => TokenView::Group(
            delimiter,
            Seq::new(
                inner@.len(),
                |i: int|
                    if 0 <= i < inner@.len() {
                        token_view(inner@[i])
                    } else {
                        arbitrary()
                    },
            ),
        ),
    }
}

impl<L> DeepView for Token<L> {
    type V = TokenView<L>;

    open spec fn deep_view(&self) -> TokenView<L> {
        token_view(*self)
    }
}

/// The value of a group is its delimiter around the values of its tokens.
pub proof fn lemma_group_view<L>(delimiter: Delimiter, inner: Vec<Token<L>>)
    ensures
        Token::Group(delimiter, inner).deep_view() == TokenView::Group(
            delimiter,
            inner.deep_view(),
        ),
{
    let direct = Token::Group(delimiter, inner).deep_view();
    assert(direct->Group_1 =~= inner.deep_view());
}

/// Copies a token together with everything nested in it.
pub fn clone_token<L: Copy>(token: &Token<L>) -> (copy: Token<L>)
    ensures
        copy.deep_view() == token.deep_view(),
    decreases token,
{
    match token {
        Token::Ident(text, loc) => Token::Ident(text.clone(), *loc),
        Token::Literal(text, loc) => Token::Literal(text.clone(), *loc),
        Token::Punct(ch, spacing, loc) => Token::Punct(*ch, *spacing, *loc),
        Token::Group(delimiter, inner) => {
            let inner_copy = clone_stream(inner);
            proof {
                lemma_group_view(*delimiter, *inner);
                lemma_group_view(*delimiter, inner_copy);
            }
            Token::Group(*delimiter, inner_copy)
        },
    }
}

impl<L: Copy> Clone for Token<L> {
    /// A copy of the token with everything nested in it.
    fn clone(&self) -> (copy: Self)
        ensures
            copy.deep_view() == self.deep_view(),
    {
        clone_token(self)
    }
}

/// Copies a token stream together with everything nested in it.
pub fn clone_stream<L: Copy>(stream: &Vec<Token<L>>) -> (copy: Vec<Token<L>>)
    ensures
        copy.deep_view() == stream.deep_view(),
    decreases stream,
{
    let mut copy: Vec<Token<L>> = Vec::new();
    let mut i: usize = 0;
    while i < stream.len()
        invariant
            0 <= i <= stream.len(),
            copy.deep_view() == stream.deep_view().take(i as int),
        decreases stream.len() - i,
    {
        let token = clone_token(&stream[i]);
        let ghost before = copy.deep_view();
        copy.push(token);
        proof {
            assert(copy.deep_view() =~= before.push(token.deep_view()));
            assert(stream.deep_view().take(i + 1) =~= stream.deep_view().take(i as int).push(
                stream[i as int].deep_view(),
            ));
        }
        i = i + 1;
    }
    proof {
        assert(stream.deep_view().take(i as int) =~= stream.deep_view());
    }
    copy
}

/// What the parser of a grammar sees of one token: a group without visible
/// brackets is seen through, anything else is one token.
pub open spec fn flatten_token<L>(t: TokenView<L>) -> Seq<TokenView<L>>
    decreases t, 0nat,
{
    match t {
        TokenView::Group(Delimiter::Invisible, inner) => flatten_from(inner, 0),
        _ => seq![t],
    }
}

/// What the parser of a grammar sees of the tokens of `s` from position `i`
/// on.
pub open spec fn flatten_from<L>(s: Seq<TokenView<L>>, i: int) -> Seq<TokenView<L>>
    decreases s, s.len() - i,
{
    if i < 0 || i >= s.len() {
        Seq::empty()
    } else {
        flatten_token(s[i]) + flatten_from(s, i + 1)
    }
}

/// The stream `s` as the parser of a grammar sees it: every group without
/// visible brackets replaced by its contents, at this level and inside such
/// groups. Groups with brackets stay whole, whatever they hold.
pub open spec fn flattened<L>(s: Seq<TokenView<L>>) -> Seq<TokenView<L>> {
    flatten_from(s, 0)
}

/// Replaces every group without visible brackets by its contents.
pub fn flatten_invisible<L: Copy>(input: &Vec<Token<L>>) -> (out: Vec<Token<L>>)
    ensures
        out.deep_view() == flattened(input.deep_view()),
    decreases input,
{
    let ghost src = input.deep_view();
    let mut out: Vec<Token<L>> = Vec::new();
    let mut i: usize = 0;
    while i < input.len()
        invariant
            src == input.deep_view(),
            0 <= i <= input.len(),
            flattened(src) == out.deep_view() + flatten_from(src, i as int),
        decreases input.len() - i,
    {
        let ghost before = out.deep_view();
        let ghost rest = flatten_from(src, i as int);
        let ghost tail = flatten_from(src, i + 1);
        match &input[i] {
            Token::Group(Delimiter::Invisible, inner) => {
                let mut piece = flatten_invisible(inner);
                let ghost piece_view = piece.deep_view();
                proof {
                    lemma_group_view(Delimiter::Invisible, *inner);
                    assert(flatten_token(src[i as int]) == piece_view);
                }
                out.append(&mut piece);
                proof {
                    assert(out.deep_view() =~= before + piece_view);
                    assert(before + rest =~= (before + piece_view) + tail);
                }
            },
            _ => {
                let token = clone_token(&input[i]);
                out.push(token);
                proof {
                    assert(flatten_token(src[i as int]) == seq![token.deep_view()]) by {
                        match input[i as int] {
                            Token::Group(delimiter, inner) => {
                                lemma_group_view(delimiter, inner);
                            },
                            _ => {},
                        }
                    }
                    assert(out.deep_view() =~= before.push(token.deep_view()));
                    assert(before + rest =~= before.push(token.deep_view()) + tail);
                }
            },
        }
        i = i + 1;
    }
    proof {
        assert(out.deep_view() + Seq::<TokenView<L>>::empty() =~= out.deep_view());
    }
    out
}

/// A stream without a group without visible brackets at its own level is
/// seen as it is.
pub proof fn lemma_flatten_from_visible<L>(s: Seq<TokenView<L>>, i: int)
    requires
        0 <= i <= s.len(),
        forall|j: int|
            i <= j < s.len() ==> !((#[trigger] s[j]) is Group && s[j]->Group_0
                == Delimiter::Invisible),
    ensures
        flatten_from(s, i) == s.skip(i),
    decreases s.len() - i,
{
    if i < s.len() {
        lemma_flatten_from_visible(s, i + 1);
        assert(flatten_token(s[i]) == seq![s[i]]);
        assert(seq![s[i]] + s.skip(i + 1) =~= s.skip(i));
    } else {
        assert(s.skip(i) =~= Seq::<TokenView<L>>::empty());
    }
}

} // verus!
