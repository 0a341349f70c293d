use derive_engine::debug::classify_params;
use derive_engine::schema::{DeriveError, DeriveInput, Field, GenericParam, Lit, Meta, NestedMeta, Shape, Site, TypeExpr};

fn path(segments: &[&str]) -> TypeExpr {
    TypeExpr::Path { segments: segments.iter().map(|s| s.to_string()).collect(), text: segments.join("::") }
}

fn generic(wrapper: &str, arg: TypeExpr) -> TypeExpr {
    let text = match &arg {
        TypeExpr::Path { text, .. } | TypeExpr::Generic { text, .. } | TypeExpr::Other { text } => {
            format!("{}<{}>", wrapper, text)
        }
    };
    TypeExpr::Generic { segments: vec![wrapper.to_string()], arg: Box::new(arg), n_args: 1, text }
}

fn field(name: &str, ty: TypeExpr, annotation: Option<Meta>) -> Field {
    Field { name: name.to_string(), ty, annotation }
}

fn str_lit(value: &str) -> Lit {
    Lit::Str { value: value.to_string(), token: format!("\"{}\"", value) }
}

fn type_param(name: &str, bounds: &[&str]) -> GenericParam {
    GenericParam::Type { name: name.to_string(), bounds: bounds.iter().map(|s| s.to_string()).collect() }
}

fn record(name: &str, generics: Vec<GenericParam>, annotation: Option<Meta>, fields: Vec<Field>) -> DeriveInput {
    DeriveInput { name: name.to_string(), generics, annotation, shape: Shape::Named { fields } }
}

fn body(name: &str, calls: &[&str]) -> String {
    let mut s = format!(
        "\n{{\n    fn fmt(&self, f: &mut ::std::fmt::Formatter<'_>) -> ::std::fmt::Result {{\n        f.debug_struct(\"{}\")",
        name
    );
    for c in calls {
        s.push_str("\n            ");
        s.push_str(c);
    }
    s.push_str("\n            .finish()\n    }\n}\n");
    s
}

struct Point {
    x: i32,
    y: i32,
}

// The implementation that `derive` emits for `Point`, as the compiler reads it.
impl std::fmt::Debug for Point {
    fn fmt(&self, f: &mut ::std::fmt::Formatter<'_>) -> ::std::fmt::Result {
        f.debug_struct("Point").field("x", &self.x).field("y", &self.y).finish()
    }
}

#[test]
fn debug_renders_plain_record() {
    let fields = vec![field("x", path(&["i32"]), None), field("y", path(&["i32"]), None)];
    let out = derive_engine::debug::derive(record("Point", vec![], None, fields)).ok().unwrap();
    let expected = format!(
        "impl ::std::fmt::Debug for Point\nwhere\n    {}",
        body("Point", &[".field(\"x\", &self.x)", ".field(\"y\", &self.y)"])
    );
    assert_eq!(out, expected);
    assert_eq!(format!("{:?}", Point { x: 1, y: 2 }), "Point { x: 1, y: 2 }");
}

#[test]
fn debug_uses_field_template() {
    let fields = vec![
        field("name", path(&["String"]), None),
        field("bitmask", path(&["u8"]), Some(Meta::NameValue { path: vec!["debug".to_string()], lit: str_lit("{:b}") })),
    ];
    let out = derive_engine::debug::derive(record("Field", vec![], None, fields)).ok().unwrap();
    assert!(out.contains(".field(\"name\", &self.name)"));
    assert!(out.contains(".field(\"bitmask\", &::std::format_args!(\"{:b}\", &self.bitmask))"));
    assert_eq!(format!("{:b}", 5), "101");
}

#[test]
fn debug_bounds_plain_type_parameter() {
    let fields = vec![field("value", path(&["T"]), None)];
    let out = derive_engine::debug::derive(record("Wrapper", vec![type_param("T", &["Clone"])], None, fields)).ok().unwrap();
    assert!(out.starts_with("impl<T: Clone + ::std::fmt::Debug, > ::std::fmt::Debug for Wrapper<T, >\nwhere\n    \n{"));
}

#[test]
fn debug_phantom_parameter_gets_no_bound() {
    let fields = vec![
        field("marker", generic("PhantomData", path(&["T"])), None),
        field("string", path(&["String"]), None),
    ];
    let out = derive_engine::debug::derive(record("Field", vec![type_param("T", &[])], None, fields)).ok().unwrap();
    assert!(out.starts_with("impl<T:, > ::std::fmt::Debug for Field<T, >\nwhere\n    \n{"));
}

#[test]
fn debug_associated_type_is_bounded_instead_of_parameter() {
    let fields = vec![field("values", generic("Vec", path(&["T", "Value"])), None)];
    let generics = vec![type_param("T", &["Trait"])];
    let out = derive_engine::debug::derive(record("Field", generics, None, fields)).ok().unwrap();
    assert!(out.starts_with(
        "impl<T: Trait +, > ::std::fmt::Debug for Field<T, >\nwhere\n    T::Value: ::std::fmt::Debug, \n{"
    ));
}

#[test]
fn debug_where_annotation_replaces_inference() {
    let bound = Meta::List {
        path: vec!["debug".to_string()],
        nested: vec![NestedMeta::NameValue { path: vec!["bound".to_string()], lit: str_lit("T::Value: Debug") }],
    };
    let fields = vec![field("values", generic("Vec", path(&["T", "Value"])), None), field("t", path(&["T"]), None)];
    let out = derive_engine::debug::derive(record("Wrapper", vec![type_param("T", &["Trait"])], Some(bound), fields)).ok().unwrap();
    assert!(out.starts_with("impl<T: Trait +, > ::std::fmt::Debug for Wrapper<T, >\nwhere\n    T::Value: Debug\n{"));
}

#[test]
fn debug_rejects_where_annotation_that_is_not_a_predicate() {
    let bound = Meta::List {
        path: vec!["debug".to_string()],
        nested: vec![NestedMeta::NameValue { path: vec!["bound".to_string()], lit: str_lit("not a predicate") }],
    };
    let r = derive_engine::debug::derive(record("Wrapper", vec![type_param("T", &[])], Some(bound), vec![]));
    assert!(matches!(r, Err(DeriveError::MalformedAnnotation { site: Site::Type, .. })));
}

#[test]
fn debug_rejects_malformed_field_template() {
    let fields = vec![
        field("a", path(&["u8"]), None),
        field("b", path(&["u8"]), Some(Meta::Path { path: vec!["debug".to_string()] })),
        field("c", path(&["u8"]), Some(Meta::NameValue { path: vec!["doc".to_string()], lit: str_lit("x") })),
    ];
    match derive_engine::debug::derive(record("S", vec![], None, fields)) {
        Err(DeriveError::MalformedAnnotation { site: Site::Field { index }, message }) => {
            assert_eq!(index, 1);
            assert_eq!(message, "expected `debug = \"...\"`");
        }
        _ => panic!("expected a malformed template"),
    }
}

#[test]
fn debug_rejects_unsupported_shape() {
    let input = DeriveInput { name: "E".to_string(), generics: vec![], annotation: None, shape: Shape::Enum };
    assert!(matches!(derive_engine::debug::derive(input), Err(DeriveError::UnsupportedShape)));
}

#[test]
fn debug_lifetime_and_const_parameters() {
    let generics = vec![
        GenericParam::Lifetime { name: "'a".to_string(), bounds: vec![] },
        GenericParam::Const { name: "N".to_string(), ty: "usize".to_string() },
    ];
    let fields = vec![field("s", TypeExpr::Other { text: "&'a [u8; N]".to_string() }, None)];
    let out = derive_engine::debug::derive(record("S", generics, None, fields)).ok().unwrap();
    assert!(out.starts_with("impl<'a:, const N: usize, > ::std::fmt::Debug for S<'a, N, >\nwhere"));
}

#[test]
fn debug_classifies_parameters() {
    let fields = vec![
        field("marker", generic("PhantomData", path(&["A"])), None),
        field("values", generic("Option", generic("Box", path(&["B", "Item"]))), None),
        field("c", path(&["C"]), None),
    ];
    let generics = vec![
        type_param("A", &[]),
        type_param("B", &[]),
        type_param("C", &[]),
        GenericParam::Lifetime { name: "'a".to_string(), bounds: vec![] },
    ];
    assert_eq!(classify_params(&fields, &generics), vec![false, false, true, false]);
}

#[test]
fn debug_parameter_used_directly_keeps_its_bound() {
    let fields = vec![
        field("value", generic("Option", path(&["T"])), None),
        field("marker", generic("PhantomData", path(&["T"])), None),
        field("items", generic("Vec", path(&["T", "Item"])), None),
    ];
    let out = derive_engine::debug::derive(record("S", vec![type_param("T", &["Trait"])], None, fields)).ok().unwrap();
    assert!(out.starts_with(
        "impl<T: Trait + ::std::fmt::Debug, > ::std::fmt::Debug for S<T, >\nwhere\n    T::Item: ::std::fmt::Debug, \n{"
    ));
}

#[test]
fn debug_phantom_excludes_every_parameter_it_names() {
    let generics = vec![type_param("T", &[])];
    let boxed = vec![field("m", generic("PhantomData", generic("Box", path(&["T"]))), None)];
    assert_eq!(classify_params(&boxed, &generics), vec![false]);
    let func = vec![field(
        "m",
        generic("PhantomData", TypeExpr::Other { text: "fn() -> T".to_string() }),
        None,
    )];
    assert_eq!(classify_params(&func, &generics), vec![false]);
    let direct = vec![field("m", generic("PhantomData", path(&["T"])), None)];
    assert_eq!(classify_params(&direct, &generics), vec![false]);
    let other_name = vec![field("m", generic("PhantomData", path(&["Tx"])), None)];
    assert_eq!(classify_params(&other_name, &generics), vec![true]);
}

#[test]
fn debug_parameter_inside_other_types_keeps_its_bound() {
    let generics = vec![type_param("T", &[])];
    let marker = || field("m", generic("PhantomData", path(&["T"])), None);
    let uses = [
        TypeExpr::Other { text: "& 'static T".to_string() },
        TypeExpr::Other { text: "(T , u8)".to_string() },
        TypeExpr::Other { text: "[T ; 3]".to_string() },
        TypeExpr::Generic {
            segments: vec!["HashMap".to_string()],
            arg: Box::new(path(&["u8"])),
            n_args: 2,
            text: "HashMap < u8 , T >".to_string(),
        },
    ];
    for ty in uses {
        let fields = vec![marker(), field("r", ty, None)];
        assert_eq!(classify_params(&fields, &generics), vec![true]);
    }
}

#[test]
fn debug_where_annotation_with_c_string_is_rejected() {
    for text in ["T: Foo<c\"x\">", "T: Foo /* x */"] {
        let bound = Meta::NameValue { path: vec!["debug".to_string()], lit: str_lit(text) };
        let r = derive_engine::debug::derive(record("W", vec![type_param("T", &[])], Some(bound), vec![]));
        assert!(matches!(r, Err(DeriveError::MalformedAnnotation { site: Site::Type, .. })));
    }
}

#[test]
fn wrapper_needs_exactly_one_argument() {
    let two = TypeExpr::Generic {
        segments: vec!["HashMap".to_string()],
        arg: Box::new(path(&["K"])),
        n_args: 2,
        text: "HashMap<K, V>".to_string(),
    };
    assert!(derive_engine::wrapper::get_inner(None, &two).is_none());
    let one = generic("Box", path(&["K"]));
    assert!(derive_engine::wrapper::get_inner(None, &one).is_some());
    assert!(derive_engine::wrapper::get_inner(Some("Box"), &one).is_some());
    assert!(derive_engine::wrapper::get_inner(Some("Rc"), &one).is_none());
}
