//! Types as far as the derives look into them: a path's segments, their
//! generic arguments, and the types among those.

use vstd::prelude::*;
use crate::attribute::{Attribute, AttributeView};

verus! {

/// A type.
#[derive(Debug, PartialEq, Eq)]
pub enum TypeShape {
    /// A path such as `Option<T>` or `::std::vec::Vec<u8>`.
    Path { leading_colon: bool, segments: Vec<Segment> },
    /// Anything else: a reference, a tuple, an array, ...
    Other,
}

/// One segment of a path: its identifier and its generic arguments.
#[derive(Debug, PartialEq, Eq)]
pub struct Segment {
    pub ident: String,
    pub arguments: Arguments,
}

/// The generic arguments of a path segment.
#[derive(Debug, PartialEq, Eq)]
pub enum Arguments {
    /// No arguments.
    Absent,
    /// `<A, B, ...>`
    AngleBracketed(Vec<Argument>),
    /// `(A, B) -> C`
    Parenthesized,
}

/// One generic argument.
#[derive(Debug, PartialEq, Eq)]
pub enum Argument {
    /// A type.
    Type(TypeShape),
    /// A lifetime, a constant, a binding, ...
    Other,
}

/// The mathematical value of a [`TypeShape`].
pub enum TypeView {
    Path { leading_colon: bool, segments: Seq<SegmentView> },
    Other,
}

/// The mathematical value of a [`Segment`].
pub struct SegmentView {
    pub ident: Seq<char>,
    pub arguments: ArgumentsView,
}

/// The mathematical value of [`Arguments`].
pub enum ArgumentsView {
    Absent,
    AngleBracketed(Seq<ArgumentView>),
    Parenthesized,
}

/// The mathematical value of an [`Argument`].
pub enum ArgumentView {
    Type(TypeView),
    Other,
}

/// The value of a type: its segments by their values.
pub open spec fn type_view(ty: TypeShape) -> TypeView
    decreases ty,
{
    match ty {
        TypeShape::Path { leading_colon, segments } => TypeView::Path {
            leading_colon,
            segments: Seq::new(
                segments@.len(),
                |i: int|
                    if 0 <= i < segments@.len() {
                        segment_view(segments@[i])
                    } else {
                        arbitrary()
                    },
            ),
        },
        TypeShape::Other => TypeView::Other,
    }
}

/// The value of a path segment: its identifier's text and its arguments by
/// their values.
pub open spec fn segment_view(segment: Segment) -> SegmentView
    decreases segment,
{
    SegmentView { ident: segment.ident@, arguments: arguments_view(segment.arguments) }
}

/// The value of a segment's arguments.
pub open spec fn arguments_view(arguments: Arguments) -> ArgumentsView
    decreases arguments,
{
    match arguments {
        Arguments::Absent => ArgumentsView::Absent,
        Arguments::AngleBracketed(list) => ArgumentsView::AngleBracketed(
            Seq::new(
                list@.len(),
                |i: int|
                    if 0 <= i < list@.len() {
                        argument_view(list@[i])
                    } else {
                        arbitrary()
                    },
            ),
        ),
        Arguments::Parenthesized => ArgumentsView::Parenthesized,
    }
}

/// The value of a generic argument.
pub open spec fn argument_view(argument: Argument) -> ArgumentView
    decreases argument,
{
    match argument {
        Argument::Type(ty) => ArgumentView::Type(type_view(ty)),
        Argument::Other => ArgumentView::Other,
    }
}

impl DeepView for TypeShape {
    type V = TypeView;

    open spec fn deep_view(&self) -> TypeView {
        type_view(*self)
    }
}

impl DeepView for Segment {
    type V = SegmentView;

    open spec fn deep_view(&self) -> SegmentView {
        segment_view(*self)
    }
}

impl DeepView for Arguments {
    type V = ArgumentsView;

    open spec fn deep_view(&self) -> ArgumentsView {
        arguments_view(*self)
    }
}

impl DeepView for Argument {
    type V = ArgumentView;

    open spec fn deep_view(&self) -> ArgumentView {
        argument_view(*self)
    }
}

/// The value of a path is its segments' values in order.
pub proof fn lemma_path_view(leading_colon: bool, segments: Vec<Segment>)
    ensures
        (TypeShape::Path { leading_colon, segments }).deep_view() == (TypeView::Path {
            leading_colon,
            segments: segments.deep_view(),
        }),
{
    let direct = (TypeShape::Path { leading_colon, segments }).deep_view();
    assert(direct->Path_segments =~= segments.deep_view());
}

/// The value of arguments in angle brackets is the arguments' values in
/// order.
pub proof fn lemma_arguments_view(list: Vec<Argument>)
    ensures
        Arguments::AngleBracketed(list).deep_view() == ArgumentsView::AngleBracketed(
            list.deep_view(),
        ),
{
    let direct = Arguments::AngleBracketed(list).deep_view();
    assert(direct->AngleBracketed_0 =~= list.deep_view());
}

/// A field of a struct: its type and its attributes.
#[derive(Debug, PartialEq, Eq)]
pub struct FieldShape<L> {
    pub ty: TypeShape,
    pub attrs: Vec<Attribute<L>>,
}

/// The mathematical value of a [`FieldShape`].
pub struct FieldView<L> {
    pub ty: TypeView,
    pub attrs: Seq<AttributeView<L>>,
}

impl<L> DeepView for FieldShape<L> {
    type V = FieldView<L>;

    open spec fn deep_view(&self) -> FieldView<L> {
        FieldView { ty: self.ty.deep_view(), attrs: self.attrs.deep_view() }
    }
}

/// The item that a derive is applied to.
#[derive(Debug, PartialEq, Eq)]
pub enum DataShape<L> {
    /// A struct with named fields, in the order they are written.
    NamedStruct(Vec<FieldShape<L>>),
    /// A tuple struct, a unit struct, an enum or a union.
    Other,
}

/// The mathematical value of a [`DataShape`].
pub enum DataView<L> {
    NamedStruct(Seq<FieldView<L>>),
    Other,
}

impl<L> DeepView for DataShape<L> {
    type V = DataView<L>;

    open spec fn deep_view(&self) -> DataView<L> {
        match self {
            DataShape::NamedStruct(fields) => DataView::NamedStruct(fields.deep_view()),
            DataShape::Other => DataView::Other,
        }
    }
}

/// One generic parameter of an item: whether it is a type parameter, and its
/// name.
#[derive(Debug, PartialEq, Eq)]
pub struct Param {
    pub is_type: bool,
    pub ident: String,
}

/// The mathematical value of a [`Param`].
pub struct ParamView {
    pub is_type: bool,
    pub ident: Seq<char>,
}

impl DeepView for Param {
    type V = ParamView;

    open spec fn deep_view(&self) -> ParamView {
        ParamView { is_type: self.is_type, ident: self.ident@ }
    }
}

/// The identifier that a type consists of, where it is a path of one segment
/// without a leading `::` and without arguments.
pub open spec fn single_ident(ty: TypeView) -> Option<Seq<char>> {
    match ty {
        TypeView::Path { leading_colon, segments } => if !leading_colon && segments.len() == 1
            && segments[0].arguments is Absent {
            Some(segments[0].ident)
        } else {
            None
        },
        TypeView::Other => None,
    }
}

/// The identifier that a type consists of, where it is a single identifier.
pub fn get_ident(ty: &TypeShape) -> (r: Option<&String>)
    ensures
        match r {
            Some(ident) => single_ident(ty.deep_view()) == Some(ident@),
            None => single_ident(ty.deep_view()) is None,
        },
{
    match ty {
        TypeShape::Path { leading_colon, segments } => {
            proof {
                lemma_path_view(*leading_colon, *segments);
            }
            if !*leading_colon && segments.len() == 1 {
                match &segments[0].arguments {
                    Arguments::Absent => Some(&segments[0].ident),
                    _ => None,
                }
            } else {
                None
            }
        },
        TypeShape::Other => None,
    }
}

} // verus!
