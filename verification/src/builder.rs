//! The decisions behind a derived builder: which fields are optional, which
//! are filled one element at a time, and what each setter and each field of
//! `build` does.

use vstd::prelude::*;
use vstd::string::*;
use crate::attribute::{
    each_attr, is_named, parse_each_attr, Attribute, AttributeView, Meta, MetaView,
};
use crate::shape::{
    lemma_arguments_view, lemma_path_view, Argument, ArgumentView, Arguments, ArgumentsView,
    DataShape, DataView, FieldShape, FieldView, TypeShape, TypeView,
};
use crate::syntax::text_view;

verus! {

/// The first generic argument of `ty`, where `ty` is the one-segment path
/// `name<..>` and that argument is a type.
pub open spec fn inner_type(ty: TypeView, name: Seq<char>) -> Option<TypeView> {
    match ty {
        TypeView::Path { leading_colon, segments } => if segments.len() == 1 && segments[0].ident
            == name {
            match segments[0].arguments {
                ArgumentsView::AngleBracketed(arguments) => if arguments.len() > 0 {
                    match arguments[0] {
                        ArgumentView::Type(inner) => Some(inner),
                        ArgumentView::Other => None,
                    }
                } else {
                    None
                },
                _ => None,
            }
        } else {
            None
        },
        TypeView::Other => None,
    }
}

/// The value of the type that an optional reference points to.
pub open spec fn pointee(r: Option<&TypeShape>) -> Option<TypeView> {
    match r {
        Some(ty) => Some(ty.deep_view()),
        None => None,
    }
}

/// The type inside `ident_type<..>`: the first generic argument of `ty`
/// where `ty` is a path of the single segment `ident_type` with arguments in
/// angle brackets, the first of which is a type.
pub fn extract_inner_type<'a>(ty: &'a TypeShape, ident_type: &str) -> (r: Option<&'a TypeShape>)
    ensures
        pointee(r) == inner_type(ty.deep_view(), ident_type@),
{
    let segments = match ty {
        TypeShape::Path { leading_colon, segments } => {
            proof {
                lemma_path_view(*leading_colon, *segments);
            }
            segments
        },
        TypeShape::Other => {
            return None;
        },
    };
    if segments.len() != 1 {
        return None;
    }
    let wanted = String::from_str(ident_type);
    if segments[0].ident != wanted {
        return None;
    }
    let arguments = match &segments[0].arguments {
        Arguments::AngleBracketed(arguments) => {
            proof {
                lemma_arguments_view(*arguments);
            }
            arguments
        },
        _ => {
            return None;
        },
    };
    if arguments.len() == 0 {
        return None;
    }
    match &arguments[0] {
        Argument::Type(inner) => Some(inner),
        Argument::Other => None,
    }
}

/// Whether the field's type is written `Option<T>`.
pub fn is_option_type(ty: &TypeShape) -> (r: bool)
    ensures
        r == inner_type(ty.deep_view(), "Option"@) is Some,
{
    extract_inner_type(ty, "Option").is_some()
}

/// The element name that one attribute gives: the text of
/// `#[builder(each = "<text>")]`, nothing for any other attribute.
pub open spec fn each_of<L>(attribute: AttributeView<L>) -> Option<Seq<char>> {
    match attribute.meta {
        MetaView::List(tokens) => if is_named(attribute, "builder"@) {
            match each_attr(tokens) {
                Ok(text) => Some(text),
                Err(_) => None,
            }
        } else {
            None
        },
        _ => None,
    }
}

/// The element name given by the first attribute at position `i` or later
/// that gives one.
pub open spec fn first_each<L>(attrs: Seq<AttributeView<L>>, i: int) -> Option<Seq<char>>
    decreases attrs.len() - i,
{
    if i < 0 || i >= attrs.len() {
        None
    } else if each_of(attrs[i]) is Some {
        each_of(attrs[i])
    } else {
        first_each(attrs, i + 1)
    }
}

/// The element name of a field: the text of its first well-formed
/// `#[builder(each = "<text>")]`. Attributes that are malformed are passed
/// over.
pub fn get_each_attribute_clean<L: Copy>(attrs: &Vec<Attribute<L>>) -> (r: Option<String>)
    ensures
        text_view(r) == first_each(attrs.deep_view(), 0),
{
    let builder = String::from_str("builder");
    let mut i: usize = 0;
    while i < attrs.len()
        invariant
            0 <= i <= attrs.len(),
            builder@ == "builder"@,
            first_each(attrs.deep_view(), 0) == first_each(attrs.deep_view(), i as int),
        decreases attrs.len() - i,
    {
        let attribute = &attrs[i];
        assert(attrs.deep_view()[i as int] == attribute.deep_view());
        match (&attribute.name, &attribute.meta) {
            (Some(name), Meta::List(tokens)) => {
                if *name == builder {
                    match parse_each_attr(tokens) {
                        Ok(text) => {
                            return Some(text);
                        },
                        Err(_) => {},
                    }
                }
            },
            _ => {},
        }
        i = i + 1;
    }
    None
}

/// How the builder holds a field.
#[derive(Clone, Copy, Debug, PartialEq, Eq, Structural)]
pub enum BuilderField {
    /// With the field's own type, which is already an `Option`.
    AsDeclared,
    /// Wrapped in an `Option`.
    Wrapped,
}

/// What the setter of a field takes.
#[derive(Debug, PartialEq, Eq)]
pub enum SetterPlan {
    /// A method named like the field that takes the type inside the field's
    /// `Option`.
    Inner,
    /// A method with the given name that takes one element of the field's
    /// `Vec` and appends it.
    Each(String),
    /// A method named like the field that takes the field's whole type.
    Whole,
}

/// What `build` does with a field.
#[derive(Clone, Copy, Debug, PartialEq, Eq, Structural)]
pub enum BuildPlan {
    /// Hands on the `Option`, set or not.
    Optional,
    /// Hands on the elements collected so far, none where the field was
    /// never set.
    Repeated,
    /// Fails where the field was never set.
    Required,
}

/// The mathematical value of a [`SetterPlan`].
pub enum SetterPlanView {
    Inner,
    Each(Seq<char>),
    Whole,
}

impl DeepView for SetterPlan {
    type V = SetterPlanView;

    open spec fn deep_view(&self) -> SetterPlanView {
        match self {
            SetterPlan::Inner => SetterPlanView::Inner,
            SetterPlan::Each(name) => SetterPlanView::Each(name@),
            SetterPlan::Whole => SetterPlanView::Whole,
        }
    }
}

/// How the builder holds a field of type `ty`.
pub open spec fn holds_spec(ty: TypeView) -> BuilderField {
    if inner_type(ty, "Option"@) is Some {
        BuilderField::AsDeclared
    } else {
        BuilderField::Wrapped
    }
}

/// The setter of a field of type `ty` with element name `each`: an optional
/// field takes what its `Option` holds, whatever its attributes; otherwise a
/// field with an element name is filled by elements; any other field takes
/// its whole type.
pub open spec fn setter_spec(ty: TypeView, each: Option<Seq<char>>) -> SetterPlanView {
    if inner_type(ty, "Option"@) is Some {
        SetterPlanView::Inner
    } else if each is Some {
        SetterPlanView::Each(each->Some_0)
    } else {
        SetterPlanView::Whole
    }
}

/// What `build` does with a field of type `ty`, with or without an element
/// name.
pub open spec fn build_spec(ty: TypeView, has_each: bool) -> BuildPlan {
    if inner_type(ty, "Option"@) is Some {
        BuildPlan::Optional
    } else if has_each {
        BuildPlan::Repeated
    } else {
        BuildPlan::Required
    }
}

/// Whether a setter can be generated: an element name on a field that is
/// not optional asks for a field written `Vec<T>`.
pub open spec fn setter_possible(ty: TypeView, each: Option<Seq<char>>) -> bool {
    inner_type(ty, "Option"@) is None && each is Some ==> inner_type(ty, "Vec"@) is Some
}

/// How the builder holds a field of type `ty`.
pub fn generate_builder_field(ty: &TypeShape) -> (r: BuilderField)
    ensures
        r == holds_spec(ty.deep_view()),
{
    if is_option_type(ty) {
        BuilderField::AsDeclared
    } else {
        BuilderField::Wrapped
    }
}

/// The setter of a field of type `ty` whose element name is `each`.
pub fn plan_setter(ty: &TypeShape, each: Option<String>) -> (r: SetterPlan)
    requires
        setter_possible(ty.deep_view(), text_view(each)),
    ensures
        r.deep_view() == setter_spec(ty.deep_view(), text_view(each)),
{
    if is_option_type(ty) {
        SetterPlan::Inner
    } else {
        match each {
            Some(name) => SetterPlan::Each(name),
            None => SetterPlan::Whole,
        }
    }
}

/// Whether a setter can be generated for the field.
pub open spec fn field_possible<L>(field: FieldView<L>) -> bool {
    setter_possible(field.ty, first_each(field.attrs, 0))
}

/// Everything the builder does with the field.
pub open spec fn field_plan<L>(field: FieldView<L>) -> FieldPlanView {
    FieldPlanView {
        holds: holds_spec(field.ty),
        setter: setter_spec(field.ty, first_each(field.attrs, 0)),
        build: build_spec(field.ty, first_each(field.attrs, 0) is Some),
    }
}

/// The setter of a field, or nothing where none can be generated: where the
/// field has an element name, is not optional and is not written `Vec<T>`.
pub fn generate_setter_method<L: Copy>(field: &FieldShape<L>) -> (r: Option<SetterPlan>)
    ensures
        match r {
            Some(plan) => field_possible(field.deep_view()) && plan.deep_view() == field_plan(
                field.deep_view(),
            ).setter,
            None => !field_possible(field.deep_view()),
        },
{
    let each = get_each_attribute_clean(&field.attrs);
    if !is_option_type(&field.ty) && each.is_some() && extract_inner_type(&field.ty, "Vec").is_none() {
        return None;
    }
    Some(plan_setter(&field.ty, each))
}

/// What `build` does with a field of type `ty`, given whether the field has
/// an element name.
pub fn plan_build(ty: &TypeShape, has_each: bool) -> (r: BuildPlan)
    ensures
        r == build_spec(ty.deep_view(), has_each),
{
    if is_option_type(ty) {
        BuildPlan::Optional
    } else if has_each {
        BuildPlan::Repeated
    } else {
        BuildPlan::Required
    }
}

/// What `build` does with a field.
pub fn generate_build_field<L: Copy>(field: &FieldShape<L>) -> (r: BuildPlan)
    ensures
        r == field_plan(field.deep_view()).build,
{
    if is_option_type(&field.ty) {
        BuildPlan::Optional
    } else {
        let each = get_each_attribute_clean(&field.attrs);
        plan_build(&field.ty, each.is_some())
    }
}

/// Everything the builder does with one field.
#[derive(Debug, PartialEq, Eq)]
pub struct FieldPlan {
    pub holds: BuilderField,
    pub setter: SetterPlan,
    pub build: BuildPlan,
}

/// The mathematical value of a [`FieldPlan`].
pub struct FieldPlanView {
    pub holds: BuilderField,
    pub setter: SetterPlanView,
    pub build: BuildPlan,
}

impl DeepView for FieldPlan {
    type V = FieldPlanView;

    open spec fn deep_view(&self) -> FieldPlanView {
        FieldPlanView {
            holds: self.holds,
            setter: self.setter.deep_view(),
            build: self.build,
        }
    }
}

/// Why no builder can be derived.
#[derive(Clone, Copy, Debug, PartialEq, Eq, Structural)]
pub enum DeriveError {
    /// The item is not a struct with named fields.
    NotNamedStruct,
    /// The field at this position has an element name, is not optional and
    /// is not written `Vec<T>`.
    EachNeedsVec(usize),
}

/// What planning the builder of an item gives: one plan per field, in the
/// order of the fields. Refused are an item that is not a struct with named
/// fields, and the first field for which no setter can be generated.
pub open spec fn derive_spec<L>(data: DataView<L>, r: Result<Seq<FieldPlanView>, DeriveError>) -> bool {
    match r {
        Ok(plans) => data is NamedStruct && plans.len() == data->NamedStruct_0.len()
            && forall|i: int|
            0 <= i < plans.len() ==> field_possible(#[trigger] data->NamedStruct_0[i]) && plans[i]
                == field_plan(data->NamedStruct_0[i]),
        Err(DeriveError::NotNamedStruct) => data is Other,
        Err(DeriveError::EachNeedsVec(k)) => data is NamedStruct && k < data->NamedStruct_0.len()
            && !field_possible(data->NamedStruct_0[k as int]) && forall|j: int|
            0 <= j < k ==> field_possible(#[trigger] data->NamedStruct_0[j]),
    }
}

/// The mathematical value of the result of [`derive`].
pub open spec fn plans_view(r: Result<Vec<FieldPlan>, DeriveError>) -> Result<
    Seq<FieldPlanView>,
    DeriveError,
> {
    match r {
        Ok(plans) => Ok(plans.deep_view()),
        Err(error) => Err(error),
    }
}

/// Plans the builder of an item.
pub fn derive<L: Copy>(data: &DataShape<L>) -> (r: Result<Vec<FieldPlan>, DeriveError>)
    ensures
        derive_spec(data.deep_view(), plans_view(r)),
{
    let fields = match data {
        DataShape::NamedStruct(fields) => fields,
        DataShape::Other => {
            return Err(DeriveError::NotNamedStruct);
        },
    };
    let ghost shapes = fields.deep_view();
    let mut plans: Vec<FieldPlan> = Vec::new();
    let mut i: usize = 0;
    while i < fields.len()
        invariant
            0 <= i <= fields.len(),
            plans@.len() == i,
            shapes == fields.deep_view(),
            data.deep_view() == DataView::NamedStruct(shapes),
            forall|j: int| 0 <= j < i ==> field_possible(#[trigger] shapes[j]),
            forall|j: int|
                0 <= j < i ==> (#[trigger] plans.deep_view()[j]) == field_plan(shapes[j]),
        decreases fields.len() - i,
    {
        let field = &fields[i];
        assert(shapes[i as int] == field.deep_view());
        let setter = match generate_setter_method(field) {
            Some(setter) => setter,
            None => {
                return Err(DeriveError::EachNeedsVec(i));
            },
        };
        let plan = FieldPlan {
            holds: generate_builder_field(&field.ty),
            setter,
            build: generate_build_field(field),
        };
        let ghost before = plans.deep_view();
        plans.push(plan);
        proof {
            assert(plans.deep_view() =~= before.push(plan.deep_view()));
        }
        i = i + 1;
    }
    Ok(plans)
}

} // verus!
