use derive_engine::companion::{Companion, FieldValue};
use derive_engine::schema::{Field, Lit, Meta, NestedMeta, TypeExpr};

fn path(name: &str) -> TypeExpr {
    TypeExpr::Path { segments: vec![name.to_string()], text: name.to_string() }
}

fn wrapped(wrapper: &str, inner: &str) -> TypeExpr {
    TypeExpr::Generic {
        segments: vec![wrapper.to_string()],
        arg: Box::new(path(inner)),
        n_args: 1,
        text: format!("{} < {} >", wrapper, inner),
    }
}

fn field(name: &str, ty: TypeExpr, annotation: Option<Meta>) -> Field {
    Field { name: name.to_string(), ty, annotation }
}

fn each(setter: &str) -> Option<Meta> {
    Some(Meta::List {
        path: vec!["builder".to_string()],
        nested: vec![NestedMeta::NameValue {
            path: vec!["each".to_string()],
            lit: Lit::Str { value: setter.to_string(), token: format!("\"{}\"", setter) },
        }],
    })
}

fn values_of(r: Result<Vec<FieldValue<i64>>, derive_engine::companion::MissingAttribute>) -> Vec<FieldValue<i64>> {
    match r {
        Ok(v) => v,
        Err(e) => panic!("{}", e.message()),
    }
}

#[test]
fn companion_all_mandatory_round_trip() {
    let fields = vec![field("width", path("i64"), None), field("height", path("i64"), None)];
    let mut c: Companion<i64> = Companion::new(&fields).ok().unwrap();
    assert!(c.call("width", 3));
    assert!(c.call("height", 4));
    let v = values_of(c.build());
    assert_eq!(v.len(), 2);
    assert!(matches!(v[0], FieldValue::Value(3)));
    assert!(matches!(v[1], FieldValue::Value(4)));
}

#[test]
fn companion_reports_first_missing_field() {
    let fields = vec![
        field("executable", path("i64"), None),
        field("current_dir", wrapped("Option", "i64"), None),
        field("env", path("i64"), None),
    ];
    let mut c: Companion<i64> = Companion::new(&fields).ok().unwrap();
    let e = c.build().err().unwrap();
    assert_eq!(e.name, "executable");
    assert_eq!(e.message(), "missing attribute executable");
    assert!(c.call("executable", 1));
    let e = c.build().err().unwrap();
    assert_eq!(e.message(), "missing attribute env");
    assert!(c.call("env", 2));
    assert!(c.build().is_ok());
}

#[test]
fn companion_unset_optional_is_absent() {
    let fields = vec![
        field("executable", path("i64"), None),
        field("current_dir", wrapped("Option", "i64"), None),
    ];
    let mut c: Companion<i64> = Companion::new(&fields).ok().unwrap();
    assert!(c.call("executable", 7));
    let v = values_of(c.build());
    assert!(matches!(v[1], FieldValue::Maybe(None)));
    assert!(c.call("current_dir", 9));
    let v = values_of(c.build());
    assert!(matches!(v[1], FieldValue::Maybe(Some(9))));
}

#[test]
fn companion_each_collects_in_call_order() {
    let fields = vec![field("args", wrapped("Vec", "i64"), each("arg"))];
    let mut c: Companion<i64> = Companion::new(&fields).ok().unwrap();
    assert!(!c.call("args", 0));
    assert!(c.call("arg", 1));
    assert!(c.call("arg", 2));
    assert!(c.call("arg", 3));
    let v = values_of(c.build());
    match &v[0] {
        FieldValue::Many(items) => assert_eq!(items, &vec![1, 2, 3]),
        _ => panic!("expected a list"),
    }
}

#[test]
fn companion_build_twice_composes() {
    let fields = vec![field("args", wrapped("Vec", "i64"), each("arg")), field("n", path("i64"), None)];
    let mut c: Companion<i64> = Companion::new(&fields).ok().unwrap();
    c.call("arg", 1);
    assert_eq!(c.build().err().unwrap().message(), "missing attribute n");
    c.call("n", 5);
    c.call("arg", 2);
    let v = values_of(c.build());
    match &v[0] {
        FieldValue::Many(items) => assert_eq!(items, &vec![1, 2]),
        _ => panic!("expected a list"),
    }
    let again = values_of(c.build());
    assert!(matches!(again[1], FieldValue::Value(5)));
}

#[test]
fn companion_unknown_setter_changes_nothing() {
    let fields = vec![field("n", path("i64"), None)];
    let mut c: Companion<i64> = Companion::new(&fields).ok().unwrap();
    assert!(!c.call("m", 1));
    assert_eq!(c.build().err().unwrap().name, "n");
}

#[test]
fn companion_rejects_malformed_annotation() {
    let fields = vec![field("args", wrapped("Vec", "i64"), each("not an ident"))];
    assert!(Companion::<i64>::new(&fields).is_err());
}
