use seq_macro::attribute::{
    parse_bound_attr, parse_bound_with, parse_each_attr, parse_each_with, Attribute, Meta,
};
use seq_macro::builder::{
    extract_inner_type, generate_build_field, generate_builder_field, generate_setter_method,
    get_each_attribute_clean, is_option_type, plan_build, plan_setter, BuildPlan, BuilderField,
    DeriveError, FieldPlan, SetterPlan,
};
use seq_macro::debug::{
    auto_bound, contains_name, extract_phantom_type_params,
    extract_type_params_from_manual_bounds, generate_debug_bounds, get_associated_types,
    get_debug_attribute, get_manual_bounds, Bound, DebugAttrError, ManualBoundError, Predicate,
    Problem,
};
use seq_macro::invocation::{Expected, SyntaxError};
use seq_macro::shape::{
    get_ident, Argument, Arguments, DataShape, FieldShape, Param, Segment, TypeShape,
};
use seq_macro::token::{Delimiter, Spacing, Token};
use std::str::FromStr;

fn tokens_of(stream: proc_macro2::TokenStream) -> Vec<Token<u32>> {
    stream
        .into_iter()
        .map(|tree| match tree {
            proc_macro2::TokenTree::Ident(i) => Token::Ident(i.to_string(), 0),
            proc_macro2::TokenTree::Literal(l) => Token::Literal(l.to_string(), 0),
            proc_macro2::TokenTree::Punct(p) => Token::Punct(
                p.as_char(),
                match p.spacing() {
                    proc_macro2::Spacing::Alone => Spacing::Alone,
                    proc_macro2::Spacing::Joint => Spacing::Joint,
                },
                0,
            ),
            proc_macro2::TokenTree::Group(g) => Token::Group(
                match g.delimiter() {
                    proc_macro2::Delimiter::Parenthesis => Delimiter::Parenthesis,
                    proc_macro2::Delimiter::Brace => Delimiter::Brace,
                    proc_macro2::Delimiter::Bracket => Delimiter::Bracket,
                    proc_macro2::Delimiter::None => Delimiter::Invisible,
                },
                tokens_of(g.stream()),
            ),
        })
        .collect()
}

fn lex(source: &str) -> Vec<Token<u32>> {
    tokens_of(proc_macro2::TokenStream::from_str(source).unwrap())
}

fn shape_of(ty: &syn::Type) -> TypeShape {
    match ty {
        syn::Type::Path(type_path) => TypeShape::Path {
            leading_colon: type_path.path.leading_colon.is_some(),
            segments: type_path
                .path
                .segments
                .iter()
                .map(|segment| Segment {
                    ident: segment.ident.to_string(),
                    arguments: match &segment.arguments {
                        syn::PathArguments::None => Arguments::Absent,
                        syn::PathArguments::AngleBracketed(list) => Arguments::AngleBracketed(
                            list.args
                                .iter()
                                .map(|argument| match argument {
                                    syn::GenericArgument::Type(ty) => Argument::Type(shape_of(ty)),
                                    _ => Argument::Other,
                                })
                                .collect(),
                        ),
                        syn::PathArguments::Parenthesized(_) => Arguments::Parenthesized,
                    },
                })
                .collect(),
        },
        _ => TypeShape::Other,
    }
}

fn ty(source: &str) -> TypeShape {
    match syn::parse_str::<syn::Type>(source) {
        Ok(parsed) => shape_of(&parsed),
        Err(error) => panic!("{}: {}", source, error),
    }
}

fn attribute_of(attribute: &syn::Attribute) -> Attribute<u32> {
    Attribute {
        name: attribute.path().get_ident().map(|ident| ident.to_string()),
        meta: match &attribute.meta {
            syn::Meta::Path(_) => Meta::Path,
            syn::Meta::List(list) => Meta::List(tokens_of(list.tokens.clone())),
            syn::Meta::NameValue(pair) => Meta::NameValue(matches!(
                &pair.value,
                syn::Expr::Lit(syn::ExprLit { lit: syn::Lit::Str(_), .. })
            )),
        },
    }
}

fn item(source: &str) -> syn::DeriveInput {
    syn::parse_str::<syn::DeriveInput>(source).unwrap()
}

fn item_attrs(source: &str) -> Vec<Attribute<u32>> {
    item(source).attrs.iter().map(attribute_of).collect()
}

fn fields_of(source: &str) -> Vec<FieldShape<u32>> {
    match item(source).data {
        syn::Data::Struct(data) => data
            .fields
            .iter()
            .map(|field| FieldShape {
                ty: shape_of(&field.ty),
                attrs: field.attrs.iter().map(attribute_of).collect(),
            })
            .collect(),
        _ => Vec::new(),
    }
}

fn field(source: &str) -> FieldShape<u32> {
    fields_of(&format!("struct S {{ {} }}", source)).pop().unwrap()
}

fn err<T>(at: usize, expected: Expected) -> Result<T, SyntaxError> {
    Err(SyntaxError { at, expected })
}

fn strings(names: &[&str]) -> Vec<String> {
    names.iter().map(|name| name.to_string()).collect()
}

#[test]
fn each_attribute_gives_its_text() {
    assert_eq!(parse_each_attr(&lex("each = \"arg\"")), Ok("arg".to_string()));
    assert_eq!(parse_each_attr(&lex("each = \"a\\nb\\u{41}\"")), Ok("a\nbA".to_string()));
    assert_eq!(parse_each_attr(&lex("each = r#\"x\"y\"#")), Ok("x\"y".to_string()));
    assert_eq!(parse_each_attr(&lex("each = \"\"")), Ok(String::new()));
}

#[test]
fn each_attribute_reports_the_first_token_that_does_not_fit() {
    assert_eq!(parse_each_attr(&lex("")), err(0, Expected::Identifier));
    assert_eq!(parse_each_attr(&lex("\"arg\"")), err(0, Expected::Identifier));
    assert_eq!(parse_each_attr(&lex("for = \"arg\"")), err(0, Expected::Identifier));
    assert_eq!(parse_each_attr(&lex("eac = \"arg\"")), err(0, Expected::EachKeyword));
    assert_eq!(parse_each_attr(&lex("eac")), err(0, Expected::EachKeyword));
    assert_eq!(parse_each_attr(&lex("each")), err(1, Expected::EqualsSign));
    assert_eq!(parse_each_attr(&lex("each \"arg\"")), err(1, Expected::EqualsSign));
    assert_eq!(parse_each_attr(&lex("each =")), err(2, Expected::StringLiteral));
    assert_eq!(parse_each_attr(&lex("each = 5")), err(2, Expected::StringLiteral));
    assert_eq!(parse_each_attr(&lex("each = b\"arg\"")), err(2, Expected::StringLiteral));
    assert_eq!(parse_each_attr(&lex("each = arg")), err(2, Expected::StringLiteral));
    assert_eq!(parse_each_attr(&lex("each == \"arg\"")), err(2, Expected::StringLiteral));
    assert_eq!(parse_each_attr(&lex("each = \"arg\",")), err(3, Expected::EndOfInput));
}

#[test]
fn bound_attribute_accepts_any_identifier_as_key() {
    assert_eq!(parse_bound_attr(&lex("bound = \"T: Debug\"")), Ok("T: Debug".to_string()));
    assert_eq!(parse_bound_attr(&lex("whatever = \"x\"")), Ok("x".to_string()));
    assert_eq!(parse_bound_attr(&lex("type = \"x\"")), err(0, Expected::Identifier));
    assert_eq!(parse_bound_attr(&lex("bound(\"x\")")), err(1, Expected::EqualsSign));
    assert_eq!(parse_bound_attr(&lex("bound = 'x'")), err(2, Expected::StringLiteral));
    assert_eq!(parse_bound_attr(&lex("bound = \"x\" \"y\"")), err(3, Expected::EndOfInput));
}

#[test]
fn attribute_grammars_go_by_the_verdicts_they_are_given() {
    let tokens = lex("each = \"arg\"");
    assert_eq!(parse_each_with(&tokens, true, Some("v".to_string())), Ok("v".to_string()));
    assert_eq!(parse_each_with(&tokens, false, Some("v".to_string())), err(0, Expected::Identifier));
    assert_eq!(parse_each_with(&tokens, true, None), err(2, Expected::StringLiteral));
    assert_eq!(parse_bound_with(&tokens, true, Some("v".to_string())), Ok("v".to_string()));
    assert_eq!(parse_bound_with(&tokens, false, None), err(0, Expected::Identifier));
    assert_eq!(parse_bound_with(&tokens, true, None), err(2, Expected::StringLiteral));
    let other = lex("bound = \"arg\"");
    assert_eq!(parse_each_with(&other, true, Some("v".to_string())), err(0, Expected::EachKeyword));
    assert_eq!(parse_bound_with(&other, true, Some("v".to_string())), Ok("v".to_string()));
}

#[test]
fn inner_type_of_a_one_segment_path() {
    let option = ty("Option<String>");
    assert_eq!(extract_inner_type(&option, "Option"), Some(&ty("String")));
    assert_eq!(extract_inner_type(&option, "Vec"), None);
    assert!(is_option_type(&option));
    let vec = ty("Vec<Option<u8>>");
    assert_eq!(extract_inner_type(&vec, "Vec"), Some(&ty("Option<u8>")));
    assert!(!is_option_type(&vec));
    assert_eq!(extract_inner_type(&ty("Result<A, B>"), "Result"), Some(&ty("A")));
    assert_eq!(extract_inner_type(&ty("::Option<u8>"), "Option"), Some(&ty("u8")));
}

#[test]
fn no_inner_type_in_other_shapes() {
    for source in [
        "std::option::Option<u8>",
        "Option",
        "Option<'static>",
        "Option<3>",
        "(Option<u8>,)",
        "&Option<u8>",
        "[Option<u8>; 2]",
        "option<u8>",
        "Option::<u8>::Item",
    ] {
        assert_eq!(extract_inner_type(&ty(source), "Option"), None, "{}", source);
        assert!(!is_option_type(&ty(source)), "{}", source);
    }
}

#[test]
fn element_name_comes_from_the_first_well_formed_attribute() {
    assert_eq!(get_each_attribute_clean(&field("x: u8").attrs), None);
    assert_eq!(
        get_each_attribute_clean(&field("#[builder(each = \"arg\")] args: Vec<String>").attrs),
        Some("arg".to_string())
    );
    assert_eq!(
        get_each_attribute_clean(
            &field(
                "#[doc = \"x\"] #[builder] #[builder = \"each\"] #[other(each = \"no\")] \
                 #[builder(eac = \"no\")] #[builder(each = \"first\")] #[builder(each = \"second\")] \
                 args: Vec<String>"
            )
            .attrs
        ),
        Some("first".to_string())
    );
    assert_eq!(
        get_each_attribute_clean(&field("#[a::builder(each = \"arg\")] args: Vec<String>").attrs),
        None
    );
}

#[test]
fn plans_for_each_kind_of_field() {
    let optional = field("#[builder(each = \"x\")] x: Option<String>");
    assert_eq!(generate_builder_field(&optional.ty), BuilderField::AsDeclared);
    assert_eq!(generate_setter_method(&optional), Some(SetterPlan::Inner));
    assert_eq!(generate_build_field(&optional), BuildPlan::Optional);

    let repeated = field("#[builder(each = \"arg\")] args: Vec<String>");
    assert_eq!(generate_builder_field(&repeated.ty), BuilderField::Wrapped);
    assert_eq!(generate_setter_method(&repeated), Some(SetterPlan::Each("arg".to_string())));
    assert_eq!(generate_build_field(&repeated), BuildPlan::Repeated);

    let plain = field("#[builder(each = 5)] name: Vec<String>");
    assert_eq!(generate_builder_field(&plain.ty), BuilderField::Wrapped);
    assert_eq!(generate_setter_method(&plain), Some(SetterPlan::Whole));
    assert_eq!(generate_build_field(&plain), BuildPlan::Required);

    let impossible = field("#[builder(each = \"arg\")] args: String");
    assert_eq!(generate_setter_method(&impossible), None);
    assert_eq!(generate_build_field(&impossible), BuildPlan::Repeated);
}

#[test]
fn plans_from_plain_values() {
    assert_eq!(plan_setter(&ty("Option<u8>"), None), SetterPlan::Inner);
    assert_eq!(plan_setter(&ty("Option<u8>"), Some("e".to_string())), SetterPlan::Inner);
    assert_eq!(plan_setter(&ty("Vec<u8>"), Some("e".to_string())), SetterPlan::Each("e".to_string()));
    assert_eq!(plan_setter(&ty("Vec<u8>"), None), SetterPlan::Whole);
    assert_eq!(plan_setter(&ty("u8"), None), SetterPlan::Whole);
    assert_eq!(plan_build(&ty("Option<u8>"), true), BuildPlan::Optional);
    assert_eq!(plan_build(&ty("Option<u8>"), false), BuildPlan::Optional);
    assert_eq!(plan_build(&ty("Vec<u8>"), true), BuildPlan::Repeated);
    assert_eq!(plan_build(&ty("Vec<u8>"), false), BuildPlan::Required);
}

#[test]
fn builder_plan_of_a_whole_struct() {
    let data = DataShape::NamedStruct(fields_of(
        "struct Command { \
            executable: String, \
            #[builder(each = \"arg\")] args: Vec<String>, \
            #[builder(each = \"env\")] env: Vec<String>, \
            current_dir: Option<String>, \
         }",
    ));
    assert_eq!(
        seq_macro::builder::derive(&data),
        Ok(vec![
            FieldPlan {
                holds: BuilderField::Wrapped,
                setter: SetterPlan::Whole,
                build: BuildPlan::Required,
            },
            FieldPlan {
                holds: BuilderField::Wrapped,
                setter: SetterPlan::Each("arg".to_string()),
                build: BuildPlan::Repeated,
            },
            FieldPlan {
                holds: BuilderField::Wrapped,
                setter: SetterPlan::Each("env".to_string()),
                build: BuildPlan::Repeated,
            },
            FieldPlan {
                holds: BuilderField::AsDeclared,
                setter: SetterPlan::Inner,
                build: BuildPlan::Optional,
            },
        ])
    );
    assert_eq!(seq_macro::builder::derive(&DataShape::<u32>::NamedStruct(vec![])), Ok(vec![]));
}

#[test]
fn builder_plan_refusals() {
    assert_eq!(
        seq_macro::builder::derive(&DataShape::<u32>::Other),
        Err(DeriveError::NotNamedStruct)
    );
    let data = DataShape::NamedStruct(fields_of(
        "struct S { a: u8, #[builder(each = \"b\")] b: u8, #[builder(each = \"c\")] c: [u8; 2] }",
    ));
    assert_eq!(seq_macro::builder::derive(&data), Err(DeriveError::EachNeedsVec(1)));
}

#[test]
fn format_attribute_of_a_field() {
    assert_eq!(get_debug_attribute(&field("x: u8").attrs), Ok(None));
    assert_eq!(
        get_debug_attribute(&field("#[doc = \"d\"] #[debug = \"0b{:08b}\"] bitmask: u8").attrs),
        Ok(Some(1))
    );
    assert_eq!(
        get_debug_attribute(&field("#[debug(bound = \"x\")] #[debug] #[debug = \"{}\"] x: u8").attrs),
        Ok(Some(2))
    );
    assert_eq!(
        get_debug_attribute(&field("#[debug = \"a\"] #[x] #[debug = \"b\"] x: u8").attrs),
        Err(DebugAttrError { at: 2, problem: Problem::Duplicate })
    );
    assert_eq!(
        get_debug_attribute(&field("#[debug = 5] #[debug = \"b\"] x: u8").attrs),
        Err(DebugAttrError { at: 0, problem: Problem::NotStringLiteral })
    );
    assert_eq!(
        get_debug_attribute(&field("#[debug = \"a\"] #[debug = 5] x: u8").attrs),
        Err(DebugAttrError { at: 1, problem: Problem::Duplicate })
    );
}

#[test]
fn phantom_parameters_of_a_type() {
    assert_eq!(extract_phantom_type_params(&ty("PhantomData<T>")), strings(&["T"]));
    assert_eq!(
        extract_phantom_type_params(&ty("std::marker::PhantomData<(A, B)>")),
        strings(&[])
    );
    assert_eq!(
        extract_phantom_type_params(&ty("marker::PhantomData<A, 'a, B, Vec<C>, ::D, e::F>")),
        strings(&["A", "B"])
    );
    assert_eq!(extract_phantom_type_params(&ty("Vec<T>")), strings(&[]));
    assert_eq!(extract_phantom_type_params(&ty("PhantomData")), strings(&[]));
    assert_eq!(extract_phantom_type_params(&ty("&PhantomData<T>")), strings(&[]));
    assert_eq!(extract_phantom_type_params(&ty("PhantomData<T>::X")), strings(&[]));
}

#[test]
fn associated_type_of_a_field() {
    assert_eq!(
        get_associated_types(&ty("Vec<T::Value>")),
        Some(("T".to_string(), "Value".to_string()))
    );
    assert_eq!(
        get_associated_types(&ty("a::Map<K, T::Inner::Value>")),
        Some(("T".to_string(), "Value".to_string()))
    );
    assert_eq!(get_associated_types(&ty("Vec<T>")), Some(("T".to_string(), "T".to_string())));
    assert_eq!(get_associated_types(&ty("Vec<&T>")), None);
    assert_eq!(get_associated_types(&ty("Vec<T, 'a>")), None);
    assert_eq!(get_associated_types(&ty("String")), None);
    assert_eq!(get_associated_types(&ty("(T::Value,)")), None);
}

#[test]
fn bounds_on_generic_parameters() {
    let t = "T".to_string();
    let phantom = strings(&["P", "Q"]);
    let associated = vec![
        ("T".to_string(), "First".to_string()),
        ("U".to_string(), "Other".to_string()),
        ("T".to_string(), "Last".to_string()),
    ];
    assert_eq!(generate_debug_bounds(false, &t, &phantom, &associated), Bound::Absent);
    assert_eq!(
        generate_debug_bounds(true, &t, &phantom, &associated),
        Bound::OnAssociated("Last".to_string())
    );
    assert_eq!(
        generate_debug_bounds(true, &"U".to_string(), &phantom, &associated),
        Bound::OnAssociated("Other".to_string())
    );
    assert_eq!(generate_debug_bounds(true, &"V".to_string(), &phantom, &associated), Bound::OnParam);
    assert_eq!(generate_debug_bounds(true, &"Q".to_string(), &phantom, &associated), Bound::Absent);
    assert_eq!(generate_debug_bounds(true, &t, &strings(&["T"]), &associated), Bound::Absent);

    let manual = strings(&["T"]);
    assert_eq!(auto_bound(true, &t, &manual, &phantom, &associated), Bound::Absent);
    assert_eq!(
        auto_bound(true, &"U".to_string(), &manual, &phantom, &associated),
        Bound::OnAssociated("Other".to_string())
    );
    assert_eq!(auto_bound(false, &t, &manual, &phantom, &associated), Bound::Absent);
    assert!(contains_name(&phantom, &"Q".to_string()));
    assert!(!contains_name(&phantom, &"q".to_string()));
    assert!(!contains_name(&strings(&[]), &"q".to_string()));
}

#[test]
fn parameters_covered_by_a_hand_written_bound() {
    let clause = syn::parse_str::<syn::WhereClause>(
        "where T::Value: Debug, 'a: 'b, U: Clone, &'a V: Debug, ::w::X: Copy",
    )
    .unwrap();
    let predicates: Vec<Predicate> = clause
        .predicates
        .iter()
        .map(|predicate| match predicate {
            syn::WherePredicate::Type(bounded) => Predicate::Type(shape_of(&bounded.bounded_ty)),
            _ => Predicate::Other,
        })
        .collect();
    assert_eq!(extract_type_params_from_manual_bounds(&predicates), strings(&["T", "U", "w"]));
    assert_eq!(extract_type_params_from_manual_bounds(&vec![]), strings(&[]));
}

#[test]
fn hand_written_bound_of_a_struct() {
    assert_eq!(get_manual_bounds(&item_attrs("struct S;")), Ok(None));
    assert_eq!(
        get_manual_bounds(&item_attrs(
            "#[derive(X)] #[debug(bound = \"T::Value: Debug\")] #[debug(bound = \"no\")] struct S;"
        )),
        Ok(Some("T::Value: Debug".to_string()))
    );
    assert_eq!(
        get_manual_bounds(&item_attrs("#[doc = \"d\"] #[debug] struct S;")),
        Err(ManualBoundError::NotAList(1))
    );
    assert_eq!(
        get_manual_bounds(&item_attrs("#[debug = \"x\"] struct S;")),
        Err(ManualBoundError::NotAList(0))
    );
    assert_eq!(
        get_manual_bounds(&item_attrs("#[debug(bound)] #[debug(bound = \"x\")] struct S;")),
        Err(ManualBoundError::Malformed(
            0,
            SyntaxError { at: 1, expected: Expected::EqualsSign }
        ))
    );
}

#[test]
fn debug_plan_of_a_whole_struct() {
    let fields = fields_of(
        "struct Field<T, U, 'a, V, W, const N: usize> { \
            marker: PhantomData<T>, \
            values: Vec<U::Value>, \
            #[debug = \"0b{:08b}\"] bitmask: u8, \
            #[debug = \"a\"] #[debug = \"b\"] twice: V, \
            w: W, \
         }",
    );
    let params = vec![
        Param { is_type: true, ident: "T".to_string() },
        Param { is_type: true, ident: "U".to_string() },
        Param { is_type: false, ident: "a".to_string() },
        Param { is_type: true, ident: "V".to_string() },
        Param { is_type: true, ident: "W".to_string() },
        Param { is_type: false, ident: "N".to_string() },
    ];
    let plan =
        seq_macro::debug::derive(&DataShape::NamedStruct(fields), &params, &strings(&["W"]))
            .unwrap();
    assert_eq!(seq_macro::debug::derive(&DataShape::<u32>::Other, &params, &strings(&[])), None);
    assert_eq!(
        plan.formats,
        vec![
            Ok(None),
            Ok(None),
            Ok(Some(0)),
            Err(DebugAttrError { at: 1, problem: Problem::Duplicate }),
            Ok(None),
        ]
    );
    assert_eq!(
        plan.bounds,
        vec![
            Bound::Absent,
            Bound::OnAssociated("Value".to_string()),
            Bound::Absent,
            Bound::OnParam,
            Bound::Absent,
            Bound::Absent,
        ]
    );
}

#[test]
fn single_identifier_of_a_type() {
    assert_eq!(get_ident(&ty("T")), Some(&"T".to_string()));
    assert_eq!(get_ident(&ty("::T")), None);
    assert_eq!(get_ident(&ty("a::T")), None);
    assert_eq!(get_ident(&ty("T<u8>")), None);
    assert_eq!(get_ident(&ty("&T")), None);
}

#[test]
fn attribute_grammars_see_through_groups_without_brackets() {
    let tokens = vec![
        Token::Group(Delimiter::Invisible, lex("each")),
        Token::Punct('=', Spacing::Alone, 0),
        Token::Group(Delimiter::Invisible, lex("\"arg\"")),
    ];
    assert_eq!(parse_each_attr(&tokens), Ok("arg".to_string()));
    assert_eq!(parse_bound_attr(&tokens), Ok("arg".to_string()));
    assert_eq!(parse_each_with(&tokens, true, Some("arg".to_string())), err(0, Expected::Identifier));
}
