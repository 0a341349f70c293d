use derive_engine::builder::{plan_field, plan_fields, FieldPlan};
use derive_engine::schema::{DeriveError, DeriveInput, Field, Lit, Meta, NestedMeta, Shape, Site, TypeExpr};

fn path(segments: &[&str], text: &str) -> TypeExpr {
    TypeExpr::Path {
        segments: segments.iter().map(|s| s.to_string()).collect(),
        text: text.to_string(),
    }
}

fn generic(segments: &[&str], arg: TypeExpr, text: &str) -> TypeExpr {
    TypeExpr::Generic {
        segments: segments.iter().map(|s| s.to_string()).collect(),
        arg: Box::new(arg),
        n_args: 1,
        text: text.to_string(),
    }
}

fn field(name: &str, ty: TypeExpr, annotation: Option<Meta>) -> Field {
    Field { name: name.to_string(), ty, annotation }
}

fn builder_list(key: &str, lit: Lit) -> Meta {
    Meta::List {
        path: vec!["builder".to_string()],
        nested: vec![NestedMeta::NameValue { path: vec![key.to_string()], lit }],
    }
}

fn str_lit(value: &str) -> Lit {
    Lit::Str { value: value.to_string(), token: format!("\"{}\"", value) }
}

fn record(name: &str, fields: Vec<Field>) -> DeriveInput {
    DeriveInput {
        name: name.to_string(),
        generics: vec![],
        annotation: None,
        shape: Shape::Named { fields },
    }
}

fn string_ty() -> TypeExpr {
    path(&["String"], "String")
}

fn command_fields() -> Vec<Field> {
    vec![
        field("executable", string_ty(), None),
        field(
            "args",
            generic(&["Vec"], string_ty(), "Vec < String >"),
            Some(builder_list("each", str_lit("arg"))),
        ),
        field("current_dir", generic(&["Option"], string_ty(), "Option < String >"), None),
    ]
}

fn lines(parts: &[&str]) -> String {
    let mut out = parts.join("\n");
    out.push('\n');
    out
}

#[test]
fn builder_emits_companion_source() {
    let out = derive_engine::builder::derive(record("Command", command_fields())).ok().unwrap();
    let expected = lines(&[
        "pub struct CommandBuilder {",
        "    executable: ::std::option::Option<String>,",
        "    args: Vec < String >,",
        "    current_dir: Option < String >,",
        "}",
        "",
        "impl CommandBuilder {",
        "    pub fn executable(&mut self, executable: String) -> &mut Self {",
        "        self.executable = ::std::option::Option::Some(executable);",
        "        self",
        "    }",
        "    pub fn arg(&mut self, val: String) -> &mut Self {",
        "        self.args.push(val);",
        "        self",
        "    }",
        "    pub fn current_dir(&mut self, current_dir: String) -> &mut Self {",
        "        self.current_dir = ::std::option::Option::Some(current_dir);",
        "        self",
        "    }",
        "    pub fn build(&mut self) -> ::std::result::Result<Command, ::std::boxed::Box<dyn ::std::error::Error>> {",
        "        ::std::result::Result::Ok(Command {",
        "            executable: self.executable.clone().ok_or(\"missing attribute executable\")?,",
        "            args: self.args.clone(),",
        "            current_dir: self.current_dir.clone(),",
        "        })",
        "    }",
        "}",
        "",
        "impl Command {",
        "    pub fn builder() -> CommandBuilder {",
        "        CommandBuilder {",
        "            executable: ::std::option::Option::None,",
        "            args: ::std::vec::Vec::new(),",
        "            current_dir: ::std::option::Option::None,",
        "        }",
        "    }",
        "}",
    ]);
    assert_eq!(out, expected);
}

#[test]
fn builder_has_no_field_named_setter_for_each_field() {
    let out = derive_engine::builder::derive(record("Command", command_fields())).ok().unwrap();
    assert!(out.contains("pub fn arg(&mut self, val: String)"));
    assert!(!out.contains("pub fn args("));
}

#[test]
fn builder_companion_name_follows_the_type() {
    let out = derive_engine::builder::derive(record("Request", vec![field("url", string_ty(), None)])).ok().unwrap();
    assert!(out.starts_with("pub struct RequestBuilder {\n"));
    assert!(out.contains("impl Request {\n    pub fn builder() -> RequestBuilder {"));
    assert!(out.contains("ok_or(\"missing attribute url\")?"));
}

fn malformed_field_index(r: Result<String, DeriveError>) -> (usize, String) {
    match r {
        Err(DeriveError::MalformedAnnotation { site: Site::Field { index }, message }) => (index, message),
        _ => panic!("expected a malformed annotation on a field"),
    }
}

#[test]
fn builder_rejects_misspelled_each() {
    let fields = vec![
        field("executable", string_ty(), None),
        field(
            "args",
            generic(&["Vec"], string_ty(), "Vec < String >"),
            Some(builder_list("eachh", str_lit("x"))),
        ),
    ];
    let (index, message) = malformed_field_index(derive_engine::builder::derive(record("Command", fields)));
    assert_eq!(index, 1);
    assert_eq!(message, "expected `builder(each = \"...\")`");
}

#[test]
fn builder_rejects_non_string_each() {
    let fields = vec![field(
        "args",
        generic(&["Vec"], string_ty(), "Vec < String >"),
        Some(builder_list("each", Lit::Other { token: "5".to_string() })),
    )];
    let (index, message) = malformed_field_index(derive_engine::builder::derive(record("Command", fields)));
    assert_eq!(index, 0);
    assert!(message.contains("each"));
}

#[test]
fn builder_rejects_each_that_is_not_an_identifier() {
    for bad in ["two words", "fn", "", "1st"] {
        let fields = vec![field(
            "args",
            generic(&["Vec"], string_ty(), "Vec < String >"),
            Some(builder_list("each", str_lit(bad))),
        )];
        let (index, _) = malformed_field_index(derive_engine::builder::derive(record("Command", fields)));
        assert_eq!(index, 0);
    }
}

#[test]
fn builder_rejects_each_on_a_field_that_is_not_a_vec() {
    let fields = vec![field("args", string_ty(), Some(builder_list("each", str_lit("arg"))))];
    let (index, _) = malformed_field_index(derive_engine::builder::derive(record("Command", fields)));
    assert_eq!(index, 0);
}

#[test]
fn builder_rejects_other_namespace() {
    let m = Meta::List {
        path: vec!["serde".to_string()],
        nested: vec![NestedMeta::NameValue { path: vec!["each".to_string()], lit: str_lit("arg") }],
    };
    let fields = vec![field("args", generic(&["Vec"], string_ty(), "Vec < String >"), Some(m))];
    let (index, _) = malformed_field_index(derive_engine::builder::derive(record("Command", fields)));
    assert_eq!(index, 0);
}

#[test]
fn builder_reports_first_malformed_field() {
    let bad = || Some(builder_list("eachh", str_lit("x")));
    let fields = vec![
        field("a", string_ty(), None),
        field("b", generic(&["Vec"], string_ty(), "Vec < String >"), bad()),
        field("c", generic(&["Vec"], string_ty(), "Vec < String >"), bad()),
    ];
    let (index, _) = malformed_field_index(derive_engine::builder::derive(record("Command", fields)));
    assert_eq!(index, 1);
}

#[test]
fn builder_rejects_unsupported_shapes() {
    for shape in [Shape::Tuple, Shape::Unit, Shape::Enum, Shape::Union] {
        let input = DeriveInput { name: "X".to_string(), generics: vec![], annotation: None, shape };
        assert!(matches!(derive_engine::builder::derive(input), Err(DeriveError::UnsupportedShape)));
    }
}

#[test]
fn builder_plans_each_kind_of_field() {
    let fields = command_fields();
    assert!(matches!(plan_field(&fields[0]), Some(FieldPlan::Mandatory)));
    match plan_field(&fields[1]) {
        Some(FieldPlan::Each { setter }) => assert_eq!(setter, "arg"),
        _ => panic!("expected an each field"),
    }
    assert!(matches!(plan_field(&fields[2]), Some(FieldPlan::Optional)));
    let qualified = field(
        "dir",
        generic(&["std", "option", "Option"], string_ty(), "std :: option :: Option < String >"),
        None,
    );
    assert!(matches!(plan_field(&qualified), Some(FieldPlan::Optional)));
    assert_eq!(plan_fields(&fields).ok().unwrap().len(), 3);
}

#[test]
fn builder_rejects_each_with_comment_or_space() {
    for bad in ["arg // x", "arg /* x */", " arg", "arg\n"] {
        let fields = vec![field(
            "args",
            generic(&["Vec"], string_ty(), "Vec < String >"),
            Some(builder_list("each", str_lit(bad))),
        )];
        let (index, _) = malformed_field_index(derive_engine::builder::derive(record("Command", fields)));
        assert_eq!(index, 0);
    }
}

#[test]
fn builder_vec_with_two_arguments_is_no_sequence() {
    let ty = TypeExpr::Generic {
        segments: vec!["Vec".to_string()],
        arg: Box::new(string_ty()),
        n_args: 2,
        text: "Vec < String , Global >".to_string(),
    };
    let fields = vec![field("args", ty, Some(builder_list("each", str_lit("arg"))))];
    let (index, _) = malformed_field_index(derive_engine::builder::derive(record("Command", fields)));
    assert_eq!(index, 0);
}
