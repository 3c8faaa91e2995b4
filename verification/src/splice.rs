//! The identifier-splice rewriter: one concrete value substituted for the
//! placeholder throughout a token stream.

use vstd::prelude::*;
use crate::decimal::{decimal, decimal_string};
use crate::token::{clone_token, lemma_group_view, Delimiter, Token, TokenView};

verus! {

/// Whether the three tokens starting at `i` read `<identifier> ~ <placeholder>`.
pub open spec fn is_splice_at<L>(s: Seq<TokenView<L>>, i: int, name: Seq<char>) -> bool {
    &&& 0 <= i
    &&& i + 2 < s.len()
    &&& s[i] is Ident
    &&& s[i + 1] is Punct
    &&& s[i + 1]->Punct_0 == '~'
    &&& s[i + 2] is Ident
    &&& s[i + 2]->Ident_0 == name
}

/// The identifier that a splice produces: the text of `head` followed by the
/// decimal text of `n`, at the location of `head`.
pub open spec fn fused<L>(head: TokenView<L>, n: nat) -> TokenView<L> {
    TokenView::Ident(head->Ident_0 + decimal(n), head->Ident_1)
}

/// What becomes of one token that is not the start of a splice: the
/// placeholder turns into the literal `n`, a group keeps its delimiter around
/// its rewritten contents, anything else stays as it is.
pub open spec fn rewrite_token<L>(t: TokenView<L>, name: Seq<char>, n: nat) -> TokenView<L>
    decreases t, 0nat,
{
    match t {
        TokenView::Ident(text, loc) => if text == name {
            TokenView::Literal(decimal(n), loc)
        } else {
            t
        },
        TokenView::Group(delimiter, inner) => TokenView::Group(
            delimiter,
            rewrite_from(inner, 0, name, n),
        ),
        _ => t,
    }
}

/// The rewriting of the tokens of `s` from position `i` on, scanned left to
/// right: a splice consumes three tokens and yields one identifier, any other
/// token yields one token.
pub open spec fn rewrite_from<L>(s: Seq<TokenView<L>>, i: int, name: Seq<char>, n: nat) -> Seq<
    TokenView<L>,
>
    decreases s, s.len() - i,
{
    if i < 0 || i >= s.len() {
        Seq::empty()
    } else if is_splice_at(s, i, name) {
        seq![fused(s[i], n)] + rewrite_from(s, i + 3, name, n)
    } else {
        seq![rewrite_token(s[i], name, n)] + rewrite_from(s, i + 1, name, n)
    }
}

/// The stream `s` with the value `n` substituted for the placeholder `name`.
pub open spec fn rewrite<L>(s: Seq<TokenView<L>>, name: Seq<char>, n: nat) -> Seq<TokenView<L>> {
    rewrite_from(s, 0, name, n)
}

/// Whether the token `t` is the identifier `name` or holds it at any depth.
pub open spec fn token_mentions<L>(t: TokenView<L>, name: Seq<char>) -> bool
    decreases t, 0nat,
{
    match t {
        TokenView::Ident(text, _) => text == name,
        TokenView::Group(_, inner) => mentions_from(inner, 0, name),
        _ => false,
    }
}

/// Whether the identifier `name` occurs in `s` at position `i` or later, at
/// any depth.
pub open spec fn mentions_from<L>(s: Seq<TokenView<L>>, i: int, name: Seq<char>) -> bool
    decreases s, s.len() - i,
{
    if i < 0 || i >= s.len() {
        false
    } else {
        token_mentions(s[i], name) || mentions_from(s, i + 1, name)
    }
}

/// Whether the identifier `name` occurs anywhere in `s`, at any depth.
pub open spec fn mentions<L>(s: Seq<TokenView<L>>, name: Seq<char>) -> bool {
    mentions_from(s, 0, name)
}

/// The stream `s` wrapped in one group per delimiter of `delimiters`, the
/// first of them outermost.
pub open spec fn nest<L>(delimiters: Seq<Delimiter>, s: Seq<TokenView<L>>) -> Seq<TokenView<L>>
    decreases delimiters.len(),
{
    if delimiters.len() == 0 {
        s
    } else {
        seq![TokenView::Group(delimiters[0], nest(delimiters.drop_first(), s))]
    }
}

/// From any position on, rewriting leaves the tokens as they are when the
/// placeholder occurs in none of them.
pub proof fn lemma_rewrite_from_passthrough<L>(
    s: Seq<TokenView<L>>,
    i: int,
    name: Seq<char>,
    n: nat,
)
    requires
        0 <= i <= s.len(),
        !mentions_from(s, i, name),
    ensures
        rewrite_from(s, i, name, n) == s.skip(i),
    decreases s, s.len() - i,
{
    if i < s.len() {
        assert(!token_mentions(s[i], name));
        if i + 2 < s.len() {
            assert(!mentions_from(s, i + 1, name));
            assert(!mentions_from(s, i + 2, name));
            assert(!token_mentions(s[i + 2], name));
        }
        assert(!is_splice_at(s, i, name));
        match s[i] {
            TokenView::Group(delimiter, inner) => {
                lemma_rewrite_from_passthrough(inner, 0, name, n);
                assert(inner.skip(0) =~= inner);
            },
            _ => {},
        }
        assert(rewrite_token(s[i], name, n) == s[i]);
        lemma_rewrite_from_passthrough(s, i + 1, name, n);
        assert(seq![s[i]] + s.skip(i + 1) =~= s.skip(i));
    } else {
        assert(s.skip(i) =~= Seq::<TokenView<L>>::empty());
    }
}

/// Rewriting a stream in which the placeholder occurs nowhere, at no depth,
/// gives the stream back token for token, whatever the value. (Without the
/// placeholder there is no splice either: a splice ends in the placeholder.)
pub proof fn lemma_rewrite_passthrough<L>(s: Seq<TokenView<L>>, name: Seq<char>, n: nat)
    requires
        !mentions(s, name),
    ensures
        rewrite(s, name, n) == s,
{
    lemma_rewrite_from_passthrough(s, 0, name, n);
    assert(s.skip(0) =~= s);
}

/// Rewriting a stream that consists of one group rewrites the group's
/// contents and keeps its delimiter.
pub proof fn lemma_rewrite_group<L>(
    delimiter: Delimiter,
    inner: Seq<TokenView<L>>,
    name: Seq<char>,
    n: nat,
)
    ensures
        rewrite(seq![TokenView::Group(delimiter, inner)], name, n) == seq![
            TokenView::Group(delimiter, rewrite(inner, name, n)),
        ],
{
    let s = seq![TokenView::Group(delimiter, inner)];
    assert(!is_splice_at(s, 0, name));
    assert(rewrite_token(s[0], name, n) == TokenView::Group(delimiter, rewrite(inner, name, n)));
    assert(rewrite_from(s, 1, name, n) == Seq::<TokenView<L>>::empty());
    assert(rewrite_from(s, 0, name, n) =~= seq![rewrite_token(s[0], name, n)]);
}

/// Rewriting reaches through any number of nested groups: a stream wrapped
/// in groups, however deep, rewrites to the rewritten stream wrapped in the
/// same groups, each with its delimiter.
pub proof fn lemma_rewrite_nested<L>(
    delimiters: Seq<Delimiter>,
    s: Seq<TokenView<L>>,
    name: Seq<char>,
    n: nat,
)
    ensures
        rewrite(nest(delimiters, s), name, n) == nest(delimiters, rewrite(s, name, n)),
    decreases delimiters.len(),
{
    if delimiters.len() > 0 {
        lemma_rewrite_nested(delimiters.drop_first(), s, name, n);
        lemma_rewrite_group(delimiters[0], nest(delimiters.drop_first(), s), name, n);
    }
}

/// A bare placeholder rewrites to the literal that writes the value in
/// decimal, at the placeholder's location.
pub proof fn lemma_rewrite_placeholder<L>(name: Seq<char>, loc: L, n: nat)
    ensures
        rewrite(seq![TokenView::Ident(name, loc)], name, n) == seq![
            TokenView::Literal(decimal(n), loc),
        ],
{
    let s = seq![TokenView::Ident(name, loc)];
    assert(!is_splice_at(s, 0, name));
    assert(rewrite_token(s[0], name, n) == TokenView::Literal(decimal(n), loc));
    assert(rewrite_from(s, 1, name, n) == Seq::<TokenView<L>>::empty());
    assert(rewrite_from(s, 0, name, n) =~= seq![rewrite_token(s[0], name, n)]);
}

/// `<identifier> ~ <placeholder>` rewrites to the single identifier whose
/// text is the identifier's followed by the value in decimal, at the
/// identifier's location.
pub proof fn lemma_rewrite_splice<L>(
    head: Seq<char>,
    head_loc: L,
    tilde: TokenView<L>,
    name: Seq<char>,
    name_loc: L,
    n: nat,
)
    requires
        tilde is Punct,
        tilde->Punct_0 == '~',
    ensures
        rewrite(
            seq![TokenView::Ident(head, head_loc), tilde, TokenView::Ident(name, name_loc)],
            name,
            n,
        ) == seq![TokenView::Ident(head + decimal(n), head_loc)],
{
    let s = seq![TokenView::Ident(head, head_loc), tilde, TokenView::Ident(name, name_loc)];
    assert(is_splice_at(s, 0, name));
    assert(rewrite_from(s, 3, name, n) == Seq::<TokenView<L>>::empty());
    assert(rewrite_from(s, 0, name, n) =~= seq![fused(s[0], n)]);
}

/// Whether the token at `i` is the punctuation character `ch`.
pub fn is_punct_at<L>(input: &Vec<Token<L>>, i: usize, ch: char) -> (r: bool)
    ensures
        r == (i < input.len() && input.deep_view()[i as int] is Punct
            && input.deep_view()[i as int]->Punct_0 == ch),
{
    if i >= input.len() {
        return false;
    }
    match &input[i] {
        Token::Punct(c, _, _) => *c == ch,
        _ => false,
    }
}

/// Whether the token at `i` is an identifier with the text `name`.
pub fn is_ident_at<L>(input: &Vec<Token<L>>, i: usize, name: &String) -> (r: bool)
    ensures
        r == (i < input.len() && input.deep_view()[i as int] is Ident
            && input.deep_view()[i as int]->Ident_0 == name@),
{
    if i >= input.len() {
        return false;
    }
    match &input[i] {
        Token::Ident(text, _) => *text == *name,
        _ => false,
    }
}

/// Substitutes `n` for the placeholder `name` throughout `input`, nested
/// groups included: `<identifier> ~ <placeholder>` becomes one identifier, a
/// bare placeholder becomes the literal `n`.
pub fn find_and_replace_n<L: Copy>(input: &Vec<Token<L>>, name: &String, n: u32) -> (out: Vec<
    Token<L>,
>)
    ensures
        out.deep_view() == rewrite(input.deep_view(), name@, n as nat),
    decreases input,
{
    let ghost src = input.deep_view();
    let mut out: Vec<Token<L>> = Vec::new();
    let mut i: usize = 0;
    while i < input.len()
        invariant
            src == input.deep_view(),
            0 <= i <= input.len(),
            rewrite(src, name@, n as nat) == out.deep_view() + rewrite_from(
                src,
                i as int,
                name@,
                n as nat,
            ),
        decreases input.len() - i,
    {
        let ghost before = out.deep_view();
        let ghost rest = rewrite_from(src, i as int, name@, n as nat);
        match &input[i] {
            Token::Group(delimiter, inner) => {
                let rewritten = find_and_replace_n(inner, name, n);
                proof {
                    lemma_group_view(*delimiter, *inner);
                    lemma_group_view(*delimiter, rewritten);
                }
                let token = Token::Group(*delimiter, rewritten);
                out.push(token);
                proof {
                    let tail = rewrite_from(src, i + 1, name@, n as nat);
                    assert(!is_splice_at(src, i as int, name@));
                    assert(rewrite_token(src[i as int], name@, n as nat) == token.deep_view());
                    assert(out.deep_view() =~= before.push(token.deep_view()));
                    assert(before + rest =~= before.push(token.deep_view()) + tail);
                }
                i = i + 1;
            },
            Token::Ident(text, loc) => {
                if input.len() - i > 2 && is_punct_at(input, i + 1, '~') && is_ident_at(
                    input,
                    i + 2,
                    name,
                ) {
                    let mut combined = text.clone();
                    let digits = decimal_string(n);
                    combined.append(digits.as_str());
                    let token = Token::Ident(combined, *loc);
                    out.push(token);
                    proof {
                        let tail = rewrite_from(src, i + 3, name@, n as nat);
                        assert(is_splice_at(src, i as int, name@));
                        assert(out.deep_view() =~= before.push(token.deep_view()));
                        assert(before + rest =~= before.push(token.deep_view()) + tail);
                    }
                    i = i + 3;
                } else if *text == *name {
                    let token = Token::Literal(decimal_string(n), *loc);
                    out.push(token);
                    proof {
                        let tail = rewrite_from(src, i + 1, name@, n as nat);
                        assert(!is_splice_at(src, i as int, name@));
                        assert(rewrite_token(src[i as int], name@, n as nat) == token.deep_view());
                        assert(out.deep_view() =~= before.push(token.deep_view()));
                        assert(before + rest =~= before.push(token.deep_view()) + tail);
                    }
                    i = i + 1;
                } else {
                    let token = clone_token(&input[i]);
                    out.push(token);
                    proof {
                        let tail = rewrite_from(src, i + 1, name@, n as nat);
                        assert(!is_splice_at(src, i as int, name@));
                        assert(rewrite_token(src[i as int], name@, n as nat) == token.deep_view());
                        assert(out.deep_view() =~= before.push(token.deep_view()));
                        assert(before + rest =~= before.push(token.deep_view()) + tail);
                    }
                    i = i + 1;
                }
            },
            _ => {
                let token = clone_token(&input[i]);
                out.push(token);
                proof {
                    let tail = rewrite_from(src, i + 1, name@, n as nat);
                    assert(!is_splice_at(src, i as int, name@));
                    assert(rewrite_token(src[i as int], name@, n as nat) == token.deep_view());
                    assert(out.deep_view() =~= before.push(token.deep_view()));
                    assert(before + rest =~= before.push(token.deep_view()) + tail);
                }
                i = i + 1;
            },
        }
    }
    proof {
        assert(out.deep_view() + Seq::<TokenView<L>>::empty() =~= out.deep_view());
    }
    out
}

} // verus!
