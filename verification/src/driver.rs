//! The macro driver: from an invocation to its expansion.

use vstd::prelude::*;
use crate::invocation::{parse, parsed, Invocation, InvocationView, SyntaxError};
use crate::repeat::{
    append_copies, copies, expand, find_and_replace_repetition, has_marker, has_marker_from,
    is_marker_at, lemma_copies_are_pieces, lemma_expand_single_marker,
    lemma_has_marker_iff_anywhere, marker_anywhere, marker_free_before, pieces,
};
use crate::splice::rewrite;
use crate::token::{Token, TokenView};

verus! {

/// The first value past the range: the written end for `..`, one more for `..=`.
pub open spec fn effective_end<L>(invocation: InvocationView<L>) -> int {
    if invocation.is_inclusive {
        invocation.range_end + 1
    } else {
        invocation.range_end
    }
}

/// What an invocation expands to. A body that holds a repetition marker has
/// its markers expanded and nothing else repeated; a body without one is
/// repeated whole, once per value of the range in increasing order.
pub open spec fn expansion<L>(invocation: InvocationView<L>) -> Seq<TokenView<L>> {
    let lo = invocation.range_start;
    let hi = effective_end(invocation);
    if has_marker(invocation.body) {
        expand(invocation.body, invocation.var, lo, hi)
    } else {
        copies(invocation.body, invocation.var, lo, hi)
    }
}

/// How many values the range of an invocation has.
pub open spec fn range_len<L>(invocation: InvocationView<L>) -> int {
    let span = effective_end(invocation) - invocation.range_start;
    if span > 0 {
        span
    } else {
        0
    }
}

/// A body without a marker is repeated whole: the expansion is the
/// concatenation of one rewritten copy of the body per value of the range,
/// in increasing order of the value. From `a` to `b` with `a <= b` these are
/// `b - a` copies for `a..b` and `b - a + 1` copies for `a..=b`.
pub proof fn lemma_whole_body_repetition<L>(invocation: InvocationView<L>)
    requires
        !has_marker(invocation.body),
    ensures
        expansion(invocation) == pieces(
            invocation.body,
            invocation.var,
            invocation.range_start,
            effective_end(invocation),
        ).flatten(),
        pieces(
            invocation.body,
            invocation.var,
            invocation.range_start,
            effective_end(invocation),
        ).len() == range_len(invocation),
        forall|k: int|
            0 <= k < range_len(invocation) ==> (#[trigger] pieces(
                invocation.body,
                invocation.var,
                invocation.range_start,
                effective_end(invocation),
            )[k]) == rewrite(
                invocation.body,
                invocation.var,
                (invocation.range_start + k) as nat,
            ),
        invocation.range_start <= invocation.range_end ==> range_len(invocation) == (
        if invocation.is_inclusive {
            invocation.range_end - invocation.range_start + 1
        } else {
            invocation.range_end - invocation.range_start
        }),
{
    lemma_copies_are_pieces(
        invocation.body,
        invocation.var,
        invocation.range_start,
        effective_end(invocation),
    );
}

/// Over a range without values, a body without a marker expands to nothing.
pub proof fn lemma_empty_range<L>(invocation: InvocationView<L>)
    requires
        !has_marker(invocation.body),
        invocation.range_start >= effective_end(invocation),
    ensures
        expansion(invocation) == Seq::<TokenView<L>>::empty(),
{
}

/// The two modes exclude each other, and the marker decides: a body that
/// holds a marker anywhere, at any depth, expands by its markers alone; a
/// body that holds none is repeated whole.
pub proof fn lemma_modes_are_exclusive<L>(invocation: InvocationView<L>)
    ensures
        marker_anywhere(invocation.body) ==> expansion(invocation) == expand(
            invocation.body,
            invocation.var,
            invocation.range_start,
            effective_end(invocation),
        ),
        !marker_anywhere(invocation.body) ==> expansion(invocation) == copies(
            invocation.body,
            invocation.var,
            invocation.range_start,
            effective_end(invocation),
        ),
{
    lemma_has_marker_iff_anywhere(invocation.body);
}

/// A body with a marker is never repeated whole. Where the marker at `i` is
/// the only one, the expansion is the tokens before it, once, the copies of
/// its contents, and the tokens after it, once.
pub proof fn lemma_marker_excludes_whole_body<L>(invocation: InvocationView<L>, i: int)
    requires
        is_marker_at(invocation.body, i),
        marker_free_before(invocation.body, i),
        !has_marker_from(invocation.body, i + 3),
    ensures
        expansion(invocation) == invocation.body.take(i) + copies(
            invocation.body[i + 1]->Group_1,
            invocation.var,
            invocation.range_start,
            effective_end(invocation),
        ) + invocation.body.skip(i + 3),
{
    lemma_expand_single_marker(
        invocation.body,
        i,
        invocation.var,
        invocation.range_start,
        effective_end(invocation),
    );
}

/// Expands a parsed invocation.
pub fn expand_invocation<L: Copy>(invocation: &Invocation<L>) -> (out: Vec<Token<L>>)
    ensures
        out.deep_view() == expansion(invocation.deep_view()),
{
    let start: u32 = invocation.range_start as u32;
    let end: u32 = if invocation.is_inclusive {
        invocation.range_end as u32 + 1
    } else {
        invocation.range_end as u32
    };
    let (expanded, found) = find_and_replace_repetition(
        &invocation.body,
        &invocation.var,
        start,
        end,
    );
    if found {
        return expanded;
    }
    let mut out: Vec<Token<L>> = Vec::new();
    append_copies(&mut out, &invocation.body, &invocation.var, start, end);
    proof {
        let all = copies(invocation.body.deep_view(), invocation.var@, start as int, end as int);
        assert(Seq::<TokenView<L>>::empty() + all =~= all);
    }
    out
}

/// Parses the tokens of an invocation and expands it: the expansion where the
/// tokens follow the grammar, the parser's error where they do not.
pub fn seq<L: Copy>(input: &Vec<Token<L>>) -> (r: Result<Vec<Token<L>>, SyntaxError>)
    ensures
        match parsed(input.deep_view()) {
            Ok(invocation) => r is Ok && r->Ok_0.deep_view() == expansion(invocation),
            Err(error) => r == Err::<Vec<Token<L>>, SyntaxError>(error),
        },
{
    match parse(input) {
        Ok(invocation) => Ok(expand_invocation(&invocation)),
        Err(error) => Err(error),
    }
}

} // verus!
