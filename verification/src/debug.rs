//! The decisions behind a derived `Debug`: which format a field is shown
//! with, and which type parameters must themselves be `Debug`.

use vstd::prelude::*;
use vstd::string::*;
use crate::attribute::{
    bound_attr, is_named, parse_bound_attr, Attribute, AttributeView, Meta, MetaView,
};
use crate::invocation::SyntaxError;
use crate::shape::{
    get_ident, lemma_arguments_view, lemma_path_view, single_ident, Argument, ArgumentView,
    Arguments, ArgumentsView, DataShape, DataView, FieldView, Param, ParamView,
    TypeShape, TypeView,
};

verus! {

/// What is wrong with a field's `#[debug = ...]` attributes.
#[derive(Clone, Copy, Debug, PartialEq, Eq, Structural)]
pub enum Problem {
    /// A second `#[debug = ...]` on the same field.
    Duplicate,
    /// A value that is not a string literal.
    NotStringLiteral,
}

/// A refused `#[debug = ...]`: the position of the attribute among the
/// field's attributes, and why it is refused.
#[derive(Clone, Copy, Debug, PartialEq, Eq, Structural)]
pub struct DebugAttrError {
    pub at: usize,
    pub problem: Problem,
}

/// Whether the attribute is `#[debug = <value>]`.
pub open spec fn is_debug_value<L>(attribute: AttributeView<L>) -> bool {
    attribute.meta is NameValue && is_named(attribute, "debug"@)
}

/// The scan for a field's format from position `i` on, when `found` is the
/// position of the format seen so far: every `#[debug = <value>]` after the
/// first is refused, and so is one whose value is not a string literal.
pub open spec fn format_scan<L>(
    attrs: Seq<AttributeView<L>>,
    i: int,
    found: Option<usize>,
) -> Result<Option<usize>, DebugAttrError>
    decreases attrs.len() - i,
{
    if i < 0 || i >= attrs.len() {
        Ok(found)
    } else if !is_debug_value(attrs[i]) {
        format_scan(attrs, i + 1, found)
    } else if found is Some {
        Err(DebugAttrError { at: i as usize, problem: Problem::Duplicate })
    } else if attrs[i].meta != MetaView::<L>::NameValue(true) {
        Err(DebugAttrError { at: i as usize, problem: Problem::NotStringLiteral })
    } else {
        format_scan(attrs, i + 1, Some(i as usize))
    }
}

/// The format of a field with the attributes `attrs`.
pub open spec fn format_of<L>(attrs: Seq<AttributeView<L>>) -> Result<
    Option<usize>,
    DebugAttrError,
> {
    format_scan(attrs, 0, None)
}

/// Where the scan accepts, the field has at most one `#[debug = ...]`: any
/// such attribute from `i` on is the one reported, its value is a string
/// literal, and no format was seen before it; where there is none from `i`
/// on, the scan reports what it started with.
pub proof fn lemma_format_scan_unique<L>(
    attrs: Seq<AttributeView<L>>,
    i: int,
    found: Option<usize>,
)
    requires
        0 <= i,
        attrs.len() <= usize::MAX,
        format_scan(attrs, i, found) is Ok,
    ensures
        forall|j: int|
            i <= j < attrs.len() && is_debug_value(#[trigger] attrs[j]) ==> found is None
                && format_scan(attrs, i, found) == Ok::<Option<usize>, DebugAttrError>(
                Some(j as usize),
            ) && attrs[j].meta == MetaView::<L>::NameValue(true),
        (forall|j: int| i <= j < attrs.len() ==> !is_debug_value(#[trigger] attrs[j]))
            ==> format_scan(attrs, i, found) == Ok::<Option<usize>, DebugAttrError>(found),
    decreases attrs.len() - i,
{
    if i < attrs.len() {
        if !is_debug_value(attrs[i]) {
            lemma_format_scan_unique(attrs, i + 1, found);
        } else {
            lemma_format_scan_unique(attrs, i + 1, Some(i as usize));
        }
    }
}

/// The position of the attribute that gives a field its format: the field's
/// only `#[debug = "..."]`, nothing where it has none. A second one is
/// refused, and so is a value that is not a string literal, whichever comes
/// first.
pub fn get_debug_attribute<L>(attrs: &Vec<Attribute<L>>) -> (r: Result<
    Option<usize>,
    DebugAttrError,
>)
    ensures
        r == format_of(attrs.deep_view()),
{
    let debug = String::from_str("debug");
    let mut found: Option<usize> = None;
    let mut i: usize = 0;
    while i < attrs.len()
        invariant
            0 <= i <= attrs.len(),
            debug@ == "debug"@,
            format_of(attrs.deep_view()) == format_scan(attrs.deep_view(), i as int, found),
        decreases attrs.len() - i,
    {
        let attribute = &attrs[i];
        assert(attrs.deep_view()[i as int] == attribute.deep_view());
        match (&attribute.name, &attribute.meta) {
            (Some(name), Meta::NameValue(is_string)) => {
                if *name == debug {
                    if found.is_some() {
                        return Err(DebugAttrError { at: i, problem: Problem::Duplicate });
                    }
                    if !*is_string {
                        return Err(DebugAttrError { at: i, problem: Problem::NotStringLiteral });
                    }
                    found = Some(i);
                }
            },
            _ => {},
        }
        i = i + 1;
    }
    Ok(found)
}

/// The identifier of a generic argument, where the argument is a type that
/// consists of a single identifier.
pub open spec fn argument_ident(argument: ArgumentView) -> Option<Seq<char>> {
    match argument {
        ArgumentView::Type(ty) => single_ident(ty),
        ArgumentView::Other => None,
    }
}

/// The identifiers of the arguments from position `i` on that are single
/// identifiers, in order.
pub open spec fn idents_from(arguments: Seq<ArgumentView>, i: int) -> Seq<Seq<char>>
    decreases arguments.len() - i,
{
    if i < 0 || i >= arguments.len() {
        Seq::empty()
    } else if argument_ident(arguments[i]) is Some {
        seq![argument_ident(arguments[i])->Some_0] + idents_from(arguments, i + 1)
    } else {
        idents_from(arguments, i + 1)
    }
}

/// The arguments in angle brackets of the last segment of `ty`, where `ty`
/// is a path that ends so.
pub open spec fn last_arguments(ty: TypeView) -> Option<Seq<ArgumentView>> {
    match ty {
        TypeView::Path { leading_colon, segments } => if segments.len() > 0 {
            match segments.last().arguments {
                ArgumentsView::AngleBracketed(arguments) => Some(arguments),
                _ => None,
            }
        } else {
            None
        },
        TypeView::Other => None,
    }
}

/// The identifier of the last segment of `ty`, where `ty` is a path.
pub open spec fn last_ident(ty: TypeView) -> Option<Seq<char>> {
    match ty {
        TypeView::Path { leading_colon, segments } => if segments.len() > 0 {
            Some(segments.last().ident)
        } else {
            None
        },
        TypeView::Other => None,
    }
}

/// The type parameters that a field of type `ty` only names inside
/// `PhantomData<..>`: the arguments of a path ending in `PhantomData<..>`
/// that are single identifiers.
pub open spec fn phantom_params(ty: TypeView) -> Seq<Seq<char>> {
    if last_ident(ty) == Some("PhantomData"@) && last_arguments(ty) is Some {
        idents_from(last_arguments(ty)->Some_0, 0)
    } else {
        Seq::empty()
    }
}

/// The characters of each text.
pub open spec fn texts(v: Seq<String>) -> Seq<Seq<char>> {
    v.map_values(|t: String| t@)
}

fn last_segment_arguments(ty: &TypeShape) -> (r: Option<&Vec<Argument>>)
    ensures
        match r {
            Some(arguments) => last_arguments(ty.deep_view()) == Some(arguments.deep_view()),
            None => last_arguments(ty.deep_view()) is None,
        },
{
    match ty {
        TypeShape::Path { leading_colon, segments } => {
            proof {
                lemma_path_view(*leading_colon, *segments);
            }
            if segments.len() == 0 {
                return None;
            }
            match &segments[segments.len() - 1].arguments {
                Arguments::AngleBracketed(arguments) => {
                    proof {
                        lemma_arguments_view(*arguments);
                    }
                    Some(arguments)
                },
                _ => None,
            }
        },
        TypeShape::Other => None,
    }
}

fn last_segment_ident(ty: &TypeShape) -> (r: Option<&String>)
    ensures
        match r {
            Some(ident) => last_ident(ty.deep_view()) == Some(ident@),
            None => last_ident(ty.deep_view()) is None,
        },
{
    match ty {
        TypeShape::Path { leading_colon, segments } => {
            proof {
                lemma_path_view(*leading_colon, *segments);
            }
            if segments.len() == 0 {
                return None;
            }
            Some(&segments[segments.len() - 1].ident)
        },
        TypeShape::Other => None,
    }
}

/// The type parameters named inside the `PhantomData<..>` that `ty` is, none
/// where `ty` is anything else.
pub fn extract_phantom_type_params(ty: &TypeShape) -> (r: Vec<String>)
    ensures
        texts(r@) == phantom_params(ty.deep_view()),
{
    let mut out: Vec<String> = Vec::new();
    let phantom = String::from_str("PhantomData");
    let is_phantom = match last_segment_ident(ty) {
        Some(ident) => *ident == phantom,
        None => false,
    };
    if !is_phantom {
        assert(texts(out@) =~= Seq::<Seq<char>>::empty());
        return out;
    }
    let arguments = match last_segment_arguments(ty) {
        Some(arguments) => arguments,
        None => {
            assert(texts(out@) =~= Seq::<Seq<char>>::empty());
            return out;
        },
    };
    let ghost shapes = arguments.deep_view();
    let mut i: usize = 0;
    assert(texts(out@) + idents_from(shapes, 0) =~= idents_from(shapes, 0));
    while i < arguments.len()
        invariant
            0 <= i <= arguments.len(),
            shapes == arguments.deep_view(),
            idents_from(shapes, 0) == texts(out@) + idents_from(shapes, i as int),
        decreases arguments.len() - i,
    {
        let ghost before = texts(out@);
        let ghost rest = idents_from(shapes, i as int);
        let ghost tail = idents_from(shapes, i + 1);
        assert(shapes[i as int] == arguments[i as int].deep_view());
        match &arguments[i] {
            Argument::Type(inner) => {
                match get_ident(inner) {
                    Some(ident) => {
                        let copy = ident.clone();
                        out.push(copy);
                        proof {
                            assert(texts(out@) =~= before.push(ident@));
                            assert(before + rest =~= before.push(ident@) + tail);
                        }
                    },
                    None => {},
                }
            },
            Argument::Other => {},
        }
        i = i + 1;
    }
    proof {
        assert(texts(out@) + Seq::<Seq<char>>::empty() =~= texts(out@));
    }
    out
}

/// The pair that a field of type `ty` adds to the associated types: where
/// `ty` is a path whose last segment has arguments in angle brackets, the
/// last of which is a path, the identifiers of that path's first and last
/// segment.
pub open spec fn associated_pair(ty: TypeView) -> Option<(Seq<char>, Seq<char>)> {
    if last_arguments(ty) is Some && last_arguments(ty)->Some_0.len() > 0 {
        match last_arguments(ty)->Some_0.last() {
            ArgumentView::Type(TypeView::Path { leading_colon, segments }) => if segments.len()
                > 0 {
                Some((segments.first().ident, segments.last().ident))
            } else {
                None
            },
            _ => None,
        }
    } else {
        None
    }
}

/// The characters of an optional pair of texts.
pub open spec fn pair_text(pair: Option<(String, String)>) -> Option<(Seq<char>, Seq<char>)> {
    match pair {
        Some((key, value)) => Some((key@, value@)),
        None => None,
    }
}

/// The type parameter and the associated type that the last generic
/// argument of `ty` names, as in `Vec<T::Value>`.
pub fn get_associated_types(ty: &TypeShape) -> (r: Option<(String, String)>)
    ensures
        pair_text(r) == associated_pair(ty.deep_view()),
{
    let arguments = match last_segment_arguments(ty) {
        Some(arguments) => arguments,
        None => {
            return None;
        },
    };
    if arguments.len() == 0 {
        return None;
    }
    assert(arguments.deep_view().last() == arguments[arguments.len() - 1].deep_view());
    match &arguments[arguments.len() - 1] {
        Argument::Type(TypeShape::Path { leading_colon, segments }) => {
            proof {
                lemma_path_view(*leading_colon, *segments);
            }
            if segments.len() == 0 {
                return None;
            }
            Some((segments[0].ident.clone(), segments[segments.len() - 1].ident.clone()))
        },
        _ => None,
    }
}

/// The characters of each pair of texts.
pub open spec fn pair_texts(v: Seq<(String, String)>) -> Seq<(Seq<char>, Seq<char>)> {
    v.map_values(|p: (String, String)| (p.0@, p.1@))
}

/// The value of the last pair from position 0 up to but not including `n`
/// whose key is `key`.
pub open spec fn last_value(pairs: Seq<(Seq<char>, Seq<char>)>, n: int, key: Seq<char>) -> Option<
    Seq<char>,
>
    decreases n,
{
    if n <= 0 || n > pairs.len() {
        None
    } else if pairs[n - 1].0 == key {
        Some(pairs[n - 1].1)
    } else {
        last_value(pairs, n - 1, key)
    }
}

/// The bound that the derived impl puts on a generic parameter.
#[derive(Debug, PartialEq, Eq)]
pub enum Bound {
    /// None.
    Absent,
    /// `T: Debug`.
    OnParam,
    /// `T::Name: Debug`, for the given name.
    OnAssociated(String),
}

/// The mathematical value of a [`Bound`].
pub enum BoundView {
    Absent,
    OnParam,
    OnAssociated(Seq<char>),
}

impl DeepView for Bound {
    type V = BoundView;

    open spec fn deep_view(&self) -> BoundView {
        match self {
            Bound::Absent => BoundView::Absent,
            Bound::OnParam => BoundView::OnParam,
            Bound::OnAssociated(name) => BoundView::OnAssociated(name@),
        }
    }
}

/// The bound on the parameter `ident`: none for a parameter that is not a
/// type or that fields only name inside `PhantomData`; on the associated
/// type where a field names one of this parameter, the last such field
/// deciding; on the parameter itself otherwise.
pub open spec fn bound_spec(
    is_type: bool,
    ident: Seq<char>,
    phantom_only: Seq<Seq<char>>,
    associated: Seq<(Seq<char>, Seq<char>)>,
) -> BoundView {
    if !is_type || phantom_only.contains(ident) {
        BoundView::Absent
    } else {
        match last_value(associated, associated.len() as int, ident) {
            Some(name) => BoundView::OnAssociated(name),
            None => BoundView::OnParam,
        }
    }
}

/// Whether `name` is one of `names`.
pub fn contains_name(names: &Vec<String>, name: &String) -> (r: bool)
    ensures
        r == texts(names@).contains(name@),
{
    let mut i: usize = 0;
    while i < names.len()
        invariant
            0 <= i <= names.len(),
            forall|j: int| 0 <= j < i ==> (#[trigger] texts(names@)[j]) != name@,
        decreases names.len() - i,
    {
        if names[i] == *name {
            assert(texts(names@)[i as int] == name@);
            return true;
        }
        i = i + 1;
    }
    false
}

/// The bound that the derived impl puts on the generic parameter `ident`,
/// given the parameters that fields only name inside `PhantomData` and the
/// associated types that fields name, in the order of the fields.
pub fn generate_debug_bounds(
    is_type: bool,
    ident: &String,
    phantom_only: &Vec<String>,
    associated: &Vec<(String, String)>,
) -> (r: Bound)
    ensures
        r.deep_view() == bound_spec(
            is_type,
            ident@,
            texts(phantom_only@),
            pair_texts(associated@),
        ),
{
    if !is_type || contains_name(phantom_only, ident) {
        return Bound::Absent;
    }
    let ghost pairs = pair_texts(associated@);
    let mut n: usize = associated.len();
    while n > 0
        invariant
            0 <= n <= associated.len(),
            is_type,
            pairs == pair_texts(associated@),
            !texts(phantom_only@).contains(ident@),
            last_value(pairs, pairs.len() as int, ident@) == last_value(pairs, n as int, ident@),
        decreases n,
    {
        assert(pairs[n - 1] == (associated@[n - 1].0@, associated@[n - 1].1@));
        if associated[n - 1].0 == *ident {
            let name = associated[n - 1].1.clone();
            assert(last_value(pairs, n as int, ident@) == Some(name@));
            return Bound::OnAssociated(name);
        }
        n = n - 1;
    }
    Bound::OnParam
}

/// The bound on the parameter `ident` when some parameters have bounds
/// written by hand: none for those, the generated one for the others.
pub open spec fn auto_bound_spec(
    is_type: bool,
    ident: Seq<char>,
    manually_bounded: Seq<Seq<char>>,
    phantom_only: Seq<Seq<char>>,
    associated: Seq<(Seq<char>, Seq<char>)>,
) -> BoundView {
    if is_type && manually_bounded.contains(ident) {
        BoundView::Absent
    } else {
        bound_spec(is_type, ident, phantom_only, associated)
    }
}

/// The bound that the derived impl generates for the generic parameter
/// `ident`, given the parameters that have a bound written by hand.
pub fn auto_bound(
    is_type: bool,
    ident: &String,
    manually_bounded: &Vec<String>,
    phantom_only: &Vec<String>,
    associated: &Vec<(String, String)>,
) -> (r: Bound)
    ensures
        r.deep_view() == auto_bound_spec(
            is_type,
            ident@,
            texts(manually_bounded@),
            texts(phantom_only@),
            pair_texts(associated@),
        ),
{
    if is_type && contains_name(manually_bounded, ident) {
        return Bound::Absent;
    }
    generate_debug_bounds(is_type, ident, phantom_only, associated)
}

/// One predicate of a `where` clause.
#[derive(Debug, PartialEq, Eq)]
pub enum Predicate {
    /// `<type>: <bounds>`, by the bounded type.
    Type(TypeShape),
    /// A predicate on a lifetime.
    Other,
}

/// The mathematical value of a [`Predicate`].
pub enum PredicateView {
    Type(TypeView),
    Other,
}

impl DeepView for Predicate {
    type V = PredicateView;

    open spec fn deep_view(&self) -> PredicateView {
        match self {
            Predicate::Type(ty) => PredicateView::Type(ty.deep_view()),
            Predicate::Other => PredicateView::Other,
        }
    }
}

/// The type parameter that a predicate bounds: the identifier of the first
/// segment of the bounded type, where that is a path.
pub open spec fn bounded_param(predicate: PredicateView) -> Option<Seq<char>> {
    match predicate {
        PredicateView::Type(TypeView::Path { leading_colon, segments }) => if segments.len() > 0 {
            Some(segments.first().ident)
        } else {
            None
        },
        _ => None,
    }
}

/// The type parameters bounded by the predicates from position `i` on.
pub open spec fn bounded_from(predicates: Seq<PredicateView>, i: int) -> Seq<Seq<char>>
    decreases predicates.len() - i,
{
    if i < 0 || i >= predicates.len() {
        Seq::empty()
    } else if bounded_param(predicates[i]) is Some {
        seq![bounded_param(predicates[i])->Some_0] + bounded_from(predicates, i + 1)
    } else {
        bounded_from(predicates, i + 1)
    }
}

/// The type parameters that the predicates of a hand-written `where` clause
/// bound, in the order of the predicates.
pub fn extract_type_params_from_manual_bounds(predicates: &Vec<Predicate>) -> (r: Vec<String>)
    ensures
        texts(r@) == bounded_from(predicates.deep_view(), 0),
{
    let ghost shapes = predicates.deep_view();
    let mut out: Vec<String> = Vec::new();
    let mut i: usize = 0;
    assert(texts(out@) + bounded_from(shapes, 0) =~= bounded_from(shapes, 0));
    while i < predicates.len()
        invariant
            0 <= i <= predicates.len(),
            shapes == predicates.deep_view(),
            bounded_from(shapes, 0) == texts(out@) + bounded_from(shapes, i as int),
        decreases predicates.len() - i,
    {
        let ghost before = texts(out@);
        let ghost rest = bounded_from(shapes, i as int);
        let ghost tail = bounded_from(shapes, i + 1);
        assert(shapes[i as int] == predicates[i as int].deep_view());
        match &predicates[i] {
            Predicate::Type(TypeShape::Path { leading_colon, segments }) => {
                proof {
                    lemma_path_view(*leading_colon, *segments);
                }
                if segments.len() > 0 {
                    let copy = segments[0].ident.clone();
                    out.push(copy);
                    proof {
                        assert(texts(out@) =~= before.push(segments@[0].ident@));
                        assert(before + rest =~= before.push(segments@[0].ident@) + tail);
                    }
                }
            },
            _ => {},
        }
        i = i + 1;
    }
    proof {
        assert(texts(out@) + Seq::<Seq<char>>::empty() =~= texts(out@));
    }
    out
}

/// Why the bound written by hand on a struct cannot be read.
#[derive(Clone, Copy, Debug, PartialEq, Eq, Structural)]
pub enum ManualBoundError {
    /// The attribute at this position is `#[debug]` or `#[debug = ...]`, not
    /// `#[debug(...)]`.
    NotAList(usize),
    /// The tokens of the attribute at this position are not
    /// `<identifier> = "<text>"`.
    Malformed(usize, SyntaxError),
}

/// The bound written by hand, read from the first attribute named `debug`
/// at position `i` or later.
pub open spec fn manual_bound_from<L>(attrs: Seq<AttributeView<L>>, i: int) -> Result<
    Option<Seq<char>>,
    ManualBoundError,
>
    decreases attrs.len() - i,
{
    if i < 0 || i >= attrs.len() {
        Ok(None)
    } else if !is_named(attrs[i], "debug"@) {
        manual_bound_from(attrs, i + 1)
    } else {
        match attrs[i].meta {
            MetaView::List(tokens) => match bound_attr(tokens) {
                Ok(text) => Ok(Some(text)),
                Err(error) => Err(ManualBoundError::Malformed(i as usize, error)),
            },
            _ => Err(ManualBoundError::NotAList(i as usize)),
        }
    }
}

/// The characters of an optional text, or the error in its place.
pub open spec fn bound_text(r: Result<Option<String>, ManualBoundError>) -> Result<
    Option<Seq<char>>,
    ManualBoundError,
> {
    match r {
        Ok(Some(text)) => Ok(Some(text@)),
        Ok(None) => Ok(None),
        Err(error) => Err(error),
    }
}

/// The text of the bound written by hand on a struct, as in
/// `#[debug(bound = "T::Value: Debug")]`: that of the first attribute named
/// `debug`, nothing where there is none.
pub fn get_manual_bounds<L: Copy>(attrs: &Vec<Attribute<L>>) -> (r: Result<
    Option<String>,
    ManualBoundError,
>)
    ensures
        bound_text(r) == manual_bound_from(attrs.deep_view(), 0),
{
    let debug = String::from_str("debug");
    let mut i: usize = 0;
    while i < attrs.len()
        invariant
            0 <= i <= attrs.len(),
            debug@ == "debug"@,
            manual_bound_from(attrs.deep_view(), 0) == manual_bound_from(
                attrs.deep_view(),
                i as int,
            ),
        decreases attrs.len() - i,
    {
        let attribute = &attrs[i];
        assert(attrs.deep_view()[i as int] == attribute.deep_view());
        let named = match &attribute.name {
            Some(name) => *name == debug,
            None => false,
        };
        if named {
            match &attribute.meta {
                Meta::List(tokens) => {
                    match parse_bound_attr(tokens) {
                        Ok(text) => {
                            return Ok(Some(text));
                        },
                        Err(error) => {
                            return Err(ManualBoundError::Malformed(i, error));
                        },
                    }
                },
                _ => {
                    return Err(ManualBoundError::NotAList(i));
                },
            }
        }
        i = i + 1;
    }
    Ok(None)
}

/// The type parameters that the first `n` fields only name inside
/// `PhantomData`, in the order of the fields.
pub open spec fn phantom_upto<L>(fields: Seq<FieldView<L>>, n: int) -> Seq<Seq<char>>
    decreases n,
{
    if n <= 0 || n > fields.len() {
        Seq::empty()
    } else {
        phantom_upto(fields, n - 1) + phantom_params(fields[n - 1].ty)
    }
}

/// The associated types that the first `n` fields name, in the order of the
/// fields.
pub open spec fn associated_upto<L>(fields: Seq<FieldView<L>>, n: int) -> Seq<
    (Seq<char>, Seq<char>),
>
    decreases n,
{
    if n <= 0 || n > fields.len() {
        Seq::empty()
    } else if associated_pair(fields[n - 1].ty) is Some {
        associated_upto(fields, n - 1).push(associated_pair(fields[n - 1].ty)->Some_0)
    } else {
        associated_upto(fields, n - 1)
    }
}

/// Everything the derived `Debug` depends on: for each field the attribute
/// that gives its format, or why its attributes are refused; for each
/// generic parameter its bound.
#[derive(Debug, PartialEq, Eq)]
pub struct DebugPlan {
    pub formats: Vec<Result<Option<usize>, DebugAttrError>>,
    pub bounds: Vec<Bound>,
}

/// The mathematical value of a [`DebugPlan`].
pub struct DebugPlanView {
    pub formats: Seq<Result<Option<usize>, DebugAttrError>>,
    pub bounds: Seq<BoundView>,
}

impl DeepView for DebugPlan {
    type V = DebugPlanView;

    open spec fn deep_view(&self) -> DebugPlanView {
        DebugPlanView { formats: self.formats@, bounds: self.bounds.deep_view() }
    }
}

/// The plan of the derived `Debug` of a struct with the fields `fields` and
/// the generic parameters `params`, where `manually_bounded` are the
/// parameters that a bound written by hand covers.
pub open spec fn plan_spec<L>(
    fields: Seq<FieldView<L>>,
    params: Seq<ParamView>,
    manually_bounded: Seq<Seq<char>>,
) -> DebugPlanView {
    DebugPlanView {
        formats: Seq::new(fields.len(), |i: int| format_of(fields[i].attrs)),
        bounds: Seq::new(
            params.len(),
            |i: int|
                auto_bound_spec(
                    params[i].is_type,
                    params[i].ident,
                    manually_bounded,
                    phantom_upto(fields, fields.len() as int),
                    associated_upto(fields, fields.len() as int),
                ),
        ),
    }
}

/// The mathematical value of an optional plan.
pub open spec fn optional_plan(r: Option<DebugPlan>) -> Option<DebugPlanView> {
    match r {
        Some(plan) => Some(plan.deep_view()),
        None => None,
    }
}

/// Plans the derived `Debug` of an item with the given generic parameters,
/// where `manually_bounded` are the parameters that a bound written by hand
/// covers: for each field its format, for each parameter its bound. There
/// is no plan for an item that is not a struct with named fields.
pub fn derive<L>(data: &DataShape<L>, params: &Vec<Param>, manually_bounded: &Vec<String>) -> (r:
    Option<DebugPlan>)
    ensures
        optional_plan(r) == (match data.deep_view() {
            DataView::NamedStruct(fields) => Some(
                plan_spec(fields, params.deep_view(), texts(manually_bounded@)),
            ),
            DataView::Other => None,
        }),
{
    let fields = match data {
        DataShape::NamedStruct(fields) => fields,
        DataShape::Other => {
            return None;
        },
    };
    let ghost shapes = fields.deep_view();
    let ghost wanted = plan_spec(shapes, params.deep_view(), texts(manually_bounded@));
    let mut formats: Vec<Result<Option<usize>, DebugAttrError>> = Vec::new();
    let mut phantom_only: Vec<String> = Vec::new();
    let mut associated: Vec<(String, String)> = Vec::new();
    let mut i: usize = 0;
    assert(texts(phantom_only@) =~= phantom_upto(shapes, 0));
    assert(pair_texts(associated@) =~= associated_upto(shapes, 0));
    while i < fields.len()
        invariant
            0 <= i <= fields.len(),
            shapes == fields.deep_view(),
            formats@.len() == i,
            forall|j: int| 0 <= j < i ==> (#[trigger] formats@[j]) == format_of(shapes[j].attrs),
            texts(phantom_only@) == phantom_upto(shapes, i as int),
            pair_texts(associated@) == associated_upto(shapes, i as int),
        decreases fields.len() - i,
    {
        let field = &fields[i];
        assert(shapes[i as int] == field.deep_view());
        formats.push(get_debug_attribute(&field.attrs));
        let mut named = extract_phantom_type_params(&field.ty);
        let ghost before = phantom_only@;
        let ghost added = named@;
        phantom_only.append(&mut named);
        proof {
            assert(texts(before + added) =~= texts(before) + texts(added));
        }
        let ghost pairs_before = associated@;
        match get_associated_types(&field.ty) {
            Some(pair) => {
                associated.push(pair);
                proof {
                    assert(pair_texts(associated@) =~= pair_texts(pairs_before).push(
                        (pair.0@, pair.1@),
                    ));
                }
            },
            None => {},
        }
        i = i + 1;
    }
    let mut bounds: Vec<Bound> = Vec::new();
    let mut k: usize = 0;
    while k < params.len()
        invariant
            0 <= k <= params.len(),
            shapes == fields.deep_view(),
            wanted == plan_spec(shapes, params.deep_view(), texts(manually_bounded@)),
            bounds@.len() == k,
            texts(phantom_only@) == phantom_upto(shapes, shapes.len() as int),
            pair_texts(associated@) == associated_upto(shapes, shapes.len() as int),
            forall|j: int| 0 <= j < k ==> (#[trigger] bounds.deep_view()[j]) == wanted.bounds[j],
        decreases params.len() - k,
    {
        let param = &params[k];
        assert(params.deep_view()[k as int] == param.deep_view());
        let bound = auto_bound(
            param.is_type,
            &param.ident,
            manually_bounded,
            &phantom_only,
            &associated,
        );
        let ghost before = bounds.deep_view();
        bounds.push(bound);
        proof {
            assert(bounds.deep_view() =~= before.push(bound.deep_view()));
        }
        k = k + 1;
    }
    let plan = DebugPlan { formats, bounds };
    proof {
        assert(plan.deep_view().formats =~= wanted.formats);
        assert(plan.deep_view().bounds =~= wanted.bounds);
        assert(data.deep_view() == DataView::NamedStruct(shapes));
    }
    Some(plan)
}

} // verus!
