//! The repetition-block expander: every `#( ... )*` marker replaced by one
//! rewritten copy of its contents per value of the range.

use vstd::prelude::*;
use crate::splice::{find_and_replace_n, is_punct_at, rewrite};
use crate::token::{clone_token, lemma_group_view, Delimiter, Token, TokenView};

verus! {

/// Whether the three tokens starting at `i` read `#`, a parenthesised group, `*`.
pub open spec fn is_marker_at<L>(s: Seq<TokenView<L>>, i: int) -> bool {
    &&& 0 <= i
    &&& i + 2 < s.len()
    &&& s[i] is Punct
    &&& s[i]->Punct_0 == '#'
    &&& s[i + 1] is Group
    &&& s[i + 1]->Group_0 == Delimiter::Parenthesis
    &&& s[i + 2] is Punct
    &&& s[i + 2]->Punct_0 == '*'
}

/// The rewritten copies of `body` for the values `lo`, `lo + 1`, ... up to
/// but not including `hi`, one after the other in that order. Empty when
/// `lo >= hi`.
pub open spec fn copies<L>(body: Seq<TokenView<L>>, name: Seq<char>, lo: int, hi: int) -> Seq<
    TokenView<L>,
>
    decreases hi - lo,
{
    if lo >= hi {
        Seq::empty()
    } else {
        copies(body, name, lo, hi - 1) + rewrite(body, name, (hi - 1) as nat)
    }
}

/// What becomes of one token that is not the start of a marker: a group
/// keeps its delimiter around its expanded contents, anything else stays.
pub open spec fn expand_token<L>(t: TokenView<L>, name: Seq<char>, lo: int, hi: int) -> TokenView<
    L,
>
    decreases t, 0nat,
{
    match t {
        TokenView::Group(delimiter, inner) => TokenView::Group(
            delimiter,
            expand_from(inner, 0, name, lo, hi),
        ),
        _ => t,
    }
}

/// The expansion of the tokens of `s` from position `i` on, scanned left to
/// right: a marker consumes three tokens and yields the copies of its
/// contents, any other token yields one token.
pub open spec fn expand_from<L>(
    s: Seq<TokenView<L>>,
    i: int,
    name: Seq<char>,
    lo: int,
    hi: int,
) -> Seq<TokenView<L>>
    decreases s, s.len() - i,
{
    if i < 0 || i >= s.len() {
        Seq::empty()
    } else if is_marker_at(s, i) {
        copies(s[i + 1]->Group_1, name, lo, hi) + expand_from(s, i + 3, name, lo, hi)
    } else {
        seq![expand_token(s[i], name, lo, hi)] + expand_from(s, i + 1, name, lo, hi)
    }
}

/// The stream `s` with every marker expanded over the values `lo..hi`.
pub open spec fn expand<L>(s: Seq<TokenView<L>>, name: Seq<char>, lo: int, hi: int) -> Seq<
    TokenView<L>,
> {
    expand_from(s, 0, name, lo, hi)
}

/// Whether the scan meets a marker inside the token `t`.
pub open spec fn token_has_marker<L>(t: TokenView<L>) -> bool
    decreases t, 0nat,
{
    match t {
        TokenView::Group(_, inner) => has_marker_from(inner, 0),
        _ => false,
    }
}

/// Whether the scan of `s` from position `i` on meets a marker, at this
/// level or inside a group that is not itself the body of a marker.
pub open spec fn has_marker_from<L>(s: Seq<TokenView<L>>, i: int) -> bool
    decreases s, s.len() - i,
{
    if i < 0 || i >= s.len() {
        false
    } else if is_marker_at(s, i) {
        true
    } else {
        token_has_marker(s[i]) || has_marker_from(s, i + 1)
    }
}

/// Whether `s` holds a marker anywhere the scan looks.
pub open spec fn has_marker<L>(s: Seq<TokenView<L>>) -> bool {
    has_marker_from(s, 0)
}

/// Whether a marker stands anywhere in `s`: at some position of `s` itself
/// or anywhere in a group of `s`, at any depth.
pub open spec fn marker_anywhere<L>(s: Seq<TokenView<L>>) -> bool
    decreases s,
{
    exists|i: int|
        0 <= i < s.len() && (#[trigger] is_marker_at(s, i) || (s[i] is Group && marker_anywhere(
            s[i]->Group_1,
        )))
}

/// The scan from `i` on reports a marker exactly when one stands at or after
/// `i`, at this level or anywhere in a group.
pub proof fn lemma_scan_finds_markers<L>(s: Seq<TokenView<L>>, i: int)
    requires
        0 <= i,
    ensures
        has_marker_from(s, i) <==> exists|j: int|
            i <= j < s.len() && (#[trigger] is_marker_at(s, j) || (s[j] is Group
                && marker_anywhere(s[j]->Group_1))),
    decreases s, s.len() - i,
{
    if i < s.len() {
        lemma_scan_finds_markers(s, i + 1);
        match s[i] {
            TokenView::Group(delimiter, inner) => {
                lemma_scan_finds_markers(inner, 0);
                assert(token_has_marker(s[i]) == marker_anywhere(inner));
            },
            _ => {
                assert(!token_has_marker(s[i]));
            },
        }
        let here = is_marker_at(s, i) || (s[i] is Group && marker_anywhere(s[i]->Group_1));
        if has_marker_from(s, i) {
            if !here {
                let j = choose|j: int|
                    i + 1 <= j < s.len() && (#[trigger] is_marker_at(s, j) || (s[j] is Group
                        && marker_anywhere(s[j]->Group_1)));
                assert(i <= j < s.len() && (is_marker_at(s, j) || (s[j] is Group
                    && marker_anywhere(s[j]->Group_1))));
            } else {
                assert(i <= i < s.len() && (is_marker_at(s, i) || (s[i] is Group
                    && marker_anywhere(s[i]->Group_1))));
            }
        }
    }
}

/// The scan reports a marker exactly when the stream holds one anywhere, at
/// any depth.
pub proof fn lemma_has_marker_iff_anywhere<L>(s: Seq<TokenView<L>>)
    ensures
        has_marker(s) == marker_anywhere(s),
{
    lemma_scan_finds_markers(s, 0);
}

/// The pieces of a whole repetition: one rewritten copy of `body` for each
/// value from `lo` up to but not including `hi`, in increasing order.
pub open spec fn pieces<L>(body: Seq<TokenView<L>>, name: Seq<char>, lo: int, hi: int) -> Seq<
    Seq<TokenView<L>>,
> {
    Seq::new(
        if hi > lo {
            (hi - lo) as nat
        } else {
            0nat
        },
        |k: int| rewrite(body, name, (lo + k) as nat),
    )
}

/// Whether no marker is met before position `i`: none starts at an earlier
/// position and none lies inside an earlier group.
pub open spec fn marker_free_before<L>(s: Seq<TokenView<L>>, i: int) -> bool {
    forall|j: int|
        0 <= j < i && j < s.len() ==> !(#[trigger] is_marker_at(s, j)) && !token_has_marker(s[j])
}

/// The copies of a body are its pieces joined: as many rewritten copies as
/// the range has values, in increasing order of the value.
pub proof fn lemma_copies_are_pieces<L>(
    body: Seq<TokenView<L>>,
    name: Seq<char>,
    lo: int,
    hi: int,
)
    ensures
        copies(body, name, lo, hi) == pieces(body, name, lo, hi).flatten(),
    decreases hi - lo,
{
    let all = pieces(body, name, lo, hi);
    all.lemma_flatten_and_flatten_alt_are_equivalent();
    if lo < hi {
        let fewer = pieces(body, name, lo, hi - 1);
        lemma_copies_are_pieces(body, name, lo, hi - 1);
        fewer.lemma_flatten_and_flatten_alt_are_equivalent();
        assert(all.drop_last() =~= fewer);
        assert(all.last() == rewrite(body, name, (hi - 1) as nat));
    }
}

/// Over an empty range there are no copies.
pub proof fn lemma_copies_of_empty_range<L>(
    body: Seq<TokenView<L>>,
    name: Seq<char>,
    lo: int,
    hi: int,
)
    requires
        lo >= hi,
    ensures
        copies(body, name, lo, hi) == Seq::<TokenView<L>>::empty(),
{
}

/// From any position on, expansion leaves the tokens as they are when the
/// scan meets no marker.
pub proof fn lemma_expand_from_passthrough<L>(
    s: Seq<TokenView<L>>,
    i: int,
    name: Seq<char>,
    lo: int,
    hi: int,
)
    requires
        0 <= i <= s.len(),
        !has_marker_from(s, i),
    ensures
        expand_from(s, i, name, lo, hi) == s.skip(i),
    decreases s, s.len() - i,
{
    if i < s.len() {
        assert(!is_marker_at(s, i));
        assert(!token_has_marker(s[i]));
        match s[i] {
            TokenView::Group(delimiter, inner) => {
                lemma_expand_from_passthrough(inner, 0, name, lo, hi);
                assert(inner.skip(0) =~= inner);
            },
            _ => {},
        }
        assert(expand_token(s[i], name, lo, hi) == s[i]);
        lemma_expand_from_passthrough(s, i + 1, name, lo, hi);
        assert(seq![s[i]] + s.skip(i + 1) =~= s.skip(i));
    } else {
        assert(s.skip(i) =~= Seq::<TokenView<L>>::empty());
    }
}

/// A stream without a marker expands to itself, token for token.
pub proof fn lemma_expand_passthrough<L>(s: Seq<TokenView<L>>, name: Seq<char>, lo: int, hi: int)
    requires
        !has_marker(s),
    ensures
        expand(s, name, lo, hi) == s,
{
    lemma_expand_from_passthrough(s, 0, name, lo, hi);
    assert(s.skip(0) =~= s);
}

/// Up to the first marker the scan copies: from a position `j` at or before
/// a marker at `i`, with no marker met in between, the expansion is the
/// tokens from `j` to `i` followed by the expansion from `i` on, and a marker
/// is reported.
pub proof fn lemma_expand_up_to_marker<L>(
    s: Seq<TokenView<L>>,
    j: int,
    i: int,
    name: Seq<char>,
    lo: int,
    hi: int,
)
    requires
        0 <= j <= i,
        is_marker_at(s, i),
        marker_free_before(s, i),
    ensures
        expand_from(s, j, name, lo, hi) == s.subrange(j, i) + expand_from(s, i, name, lo, hi),
        has_marker_from(s, j),
    decreases i - j,
{
    if j < i {
        assert(!is_marker_at(s, j));
        assert(!token_has_marker(s[j]));
        match s[j] {
            TokenView::Group(delimiter, inner) => {
                lemma_expand_from_passthrough(inner, 0, name, lo, hi);
                assert(inner.skip(0) =~= inner);
            },
            _ => {},
        }
        assert(expand_token(s[j], name, lo, hi) == s[j]);
        lemma_expand_up_to_marker(s, j + 1, i, name, lo, hi);
        assert(seq![s[j]] + (s.subrange(j + 1, i) + expand_from(s, i, name, lo, hi)) =~= s.subrange(
            j,
            i,
        ) + expand_from(s, i, name, lo, hi));
    } else {
        assert(s.subrange(j, i) + expand_from(s, i, name, lo, hi) =~= expand_from(
            s,
            i,
            name,
            lo,
            hi,
        ));
    }
}

/// Where a stream holds exactly one marker, its expansion is the tokens
/// before the marker, once and unchanged, then the copies of the marker's
/// contents, then the tokens after the marker, once and unchanged. The three
/// tokens of the marker itself are gone.
pub proof fn lemma_expand_single_marker<L>(
    s: Seq<TokenView<L>>,
    i: int,
    name: Seq<char>,
    lo: int,
    hi: int,
)
    requires
        is_marker_at(s, i),
        marker_free_before(s, i),
        !has_marker_from(s, i + 3),
    ensures
        has_marker(s),
        expand(s, name, lo, hi) == s.take(i) + copies(s[i + 1]->Group_1, name, lo, hi) + s.skip(
            i + 3,
        ),
{
    lemma_expand_up_to_marker(s, 0, i, name, lo, hi);
    lemma_expand_from_passthrough(s, i + 3, name, lo, hi);
    let body = copies(s[i + 1]->Group_1, name, lo, hi);
    assert(s.subrange(0, i) =~= s.take(i));
    assert(s.take(i) + (body + s.skip(i + 3)) =~= s.take(i) + body + s.skip(i + 3));
}

/// Whether the token at `i` is a group in parentheses.
pub fn is_paren_group_at<L>(input: &Vec<Token<L>>, i: usize) -> (r: bool)
    ensures
        r == (i < input.len() && input.deep_view()[i as int] is Group
            && input.deep_view()[i as int]->Group_0 == Delimiter::Parenthesis),
{
    if i >= input.len() {
        return false;
    }
    match &input[i] {
        Token::Group(Delimiter::Parenthesis, _) => true,
        _ => false,
    }
}

/// Appends to `out` one rewritten copy of `body` for each value of
/// `start..end`, in increasing order.
pub fn append_copies<L: Copy>(
    out: &mut Vec<Token<L>>,
    body: &Vec<Token<L>>,
    name: &String,
    start: u32,
    end: u32,
)
    ensures
        final(out).deep_view() == old(out).deep_view() + copies(
            body.deep_view(),
            name@,
            start as int,
            end as int,
        ),
{
    let ghost before = out.deep_view();
    proof {
        assert(before + Seq::<TokenView<L>>::empty() =~= before);
    }
    let mut n: u32 = start;
    while n < end
        invariant
            start <= n,
            n <= end || n == start,
            out.deep_view() == before + copies(body.deep_view(), name@, start as int, n as int),
        decreases end - n,
    {
        let mut piece = find_and_replace_n(body, name, n);
        let ghost so_far = out.deep_view();
        let ghost piece_view = piece.deep_view();
        out.append(&mut piece);
        proof {
            assert(out.deep_view() =~= so_far + piece_view);
            let done = copies(body.deep_view(), name@, start as int, n as int);
            assert(copies(body.deep_view(), name@, start as int, n + 1) == done + piece_view);
            assert((before + done) + piece_view =~= before + (done + piece_view));
        }
        n = n + 1;
    }
}

/// Expands every `#( ... )*` marker of `input`, nested groups included, over
/// the values `start..end`, and says whether it met one.
pub fn find_and_replace_repetition<L: Copy>(
    input: &Vec<Token<L>>,
    name: &String,
    start: u32,
    end: u32,
) -> (r: (Vec<Token<L>>, bool))
    ensures
        r.0.deep_view() == expand(input.deep_view(), name@, start as int, end as int),
        r.1 == has_marker(input.deep_view()),
    decreases input,
{
    let ghost src = input.deep_view();
    let ghost lo = start as int;
    let ghost hi = end as int;
    let mut out: Vec<Token<L>> = Vec::new();
    let mut found = false;
    let mut i: usize = 0;
    while i < input.len()
        invariant
            src == input.deep_view(),
            lo == start as int,
            hi == end as int,
            0 <= i <= input.len(),
            expand(src, name@, lo, hi) == out.deep_view() + expand_from(
                src,
                i as int,
                name@,
                lo,
                hi,
            ),
            has_marker(src) == (found || has_marker_from(src, i as int)),
        decreases input.len() - i,
    {
        let ghost before = out.deep_view();
        let ghost rest = expand_from(src, i as int, name@, lo, hi);
        if input.len() - i > 2 && is_punct_at(input, i, '#') && is_paren_group_at(input, i + 1)
            && is_punct_at(input, i + 2, '*') {
            match &input[i + 1] {
                Token::Group(delimiter, inner) => {
                    proof {
                        lemma_group_view(*delimiter, *inner);
                    }
                    append_copies(&mut out, inner, name, start, end);
                    proof {
                        let tail = expand_from(src, i + 3, name@, lo, hi);
                        let body = copies(inner.deep_view(), name@, lo, hi);
                        assert(is_marker_at(src, i as int));
                        assert(src[i + 1]->Group_1 == inner.deep_view());
                        assert(before + rest =~= (before + body) + tail);
                    }
                },
                _ => {},
            }
            found = true;
            i = i + 3;
        } else {
            proof {
                assert(!is_marker_at(src, i as int));
            }
            match &input[i] {
                Token::Group(delimiter, inner) => {
                    let (expanded, inner_found) = find_and_replace_repetition(
                        inner,
                        name,
                        start,
                        end,
                    );
                    proof {
                        lemma_group_view(*delimiter, *inner);
                        lemma_group_view(*delimiter, expanded);
                    }
                    let token = Token::Group(*delimiter, expanded);
                    out.push(token);
                    proof {
                        let tail = expand_from(src, i + 1, name@, lo, hi);
                        assert(expand_token(src[i as int], name@, lo, hi) == token.deep_view());
                        assert(token_has_marker(src[i as int]) == inner_found);
                        assert(out.deep_view() =~= before.push(token.deep_view()));
                        assert(before + rest =~= before.push(token.deep_view()) + tail);
                    }
                    found = found || inner_found;
                },
                _ => {
                    let token = clone_token(&input[i]);
                    out.push(token);
                    proof {
                        let tail = expand_from(src, i + 1, name@, lo, hi);
                        assert(expand_token(src[i as int], name@, lo, hi) == token.deep_view());
                        assert(!token_has_marker(src[i as int]));
                        assert(out.deep_view() =~= before.push(token.deep_view()));
                        assert(before + rest =~= before.push(token.deep_view()) + tail);
                    }
                },
            }
            i = i + 1;
        }
    }
    proof {
        assert(out.deep_view() + Seq::<TokenView<L>>::empty() =~= out.deep_view());
    }
    (out, found)
}

} // verus!
