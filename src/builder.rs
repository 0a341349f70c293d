//! The builder synthesizer: for a record type `N` it emits a companion
//! `NBuilder` with one setter per field and a validating `build`.
use vstd::prelude::*;
use crate::annotation::{each_literal, is_identifier, parses_as_identifier, spec_each_literal};
use crate::schema::{DeriveError, DeriveInput, Field, Shape, Site, TypeExpr};
use crate::schema::extract;
use crate::text::{bare_word, is_bare_word};
use crate::text::{joined, lemma_joined_push};
use crate::wrapper::{get_inner, inner_of};

verus! {

/// How a field is stored and set, as a value of the model.
pub enum Kind {
    /// Stored as an optional slot; finalizing fails while it is absent.
    Mandatory,
    /// Declared as `Option<T>`: set with a `T`, absent unless set.
    Optional,
    /// Declared as `Vec<T>` with `builder(each = "setter")`: grown one
    /// element at a time by the setter of that name.
    Each { setter: Seq<char> },
}

/// How a field is stored and set.
pub enum FieldPlan {
    Mandatory,
    Optional,
    Each { setter: String },
}

impl View for FieldPlan {
    type V = Kind;

    open spec fn view(&self) -> Kind {
        match self {
            FieldPlan::Mandatory => Kind::Mandatory,
            FieldPlan::Optional => Kind::Optional,
            FieldPlan::Each { setter } => Kind::Each { setter: setter@ },
        }
    }
}

/// The message of every malformed builder annotation.
pub open spec fn each_message() -> Seq<char> {
    "expected `builder(each = \"...\")`"@
}

/// The kind of a field, given whether the string of its `each`
/// annotation, if any, is an identifier; `None` when its annotation is
/// malformed: an annotation must be `builder(each = "name")` with an
/// identifier for `name`, on a field declared as `Vec<T>`.
pub open spec fn kind_given(f: Field, setter_is_identifier: bool) -> Option<Kind> {
    match f.annotation {
        Some(m) => match spec_each_literal(m) {
            Some(s) => if setter_is_identifier && inner_of(Some("Vec"@), f.ty) is Some {
                Some(Kind::Each { setter: s })
            } else {
                None
            },
            None => None,
        },
        None => if inner_of(Some("Option"@), f.ty) is Some {
            Some(Kind::Optional)
        } else {
            Some(Kind::Mandatory)
        },
    }
}

/// The string of a field's `each` annotation, if it has one.
pub open spec fn each_of(f: Field) -> Seq<char> {
    match f.annotation {
        Some(m) => match spec_each_literal(m) {
            Some(s) => s,
            None => Seq::empty(),
        },
        None => Seq::empty(),
    }
}

/// Whether the string of an `each` annotation names a setter: a single
/// identifier, with no whitespace or comment around it.
pub open spec fn setter_name_ok(s: Seq<char>) -> bool {
    bare_word(s) && is_identifier(s)
}

/// The kind of a field, or `None` when its annotation is malformed.
pub open spec fn kind_of(f: Field) -> Option<Kind> {
    kind_given(f, setter_name_ok(each_of(f)))
}

/// Whether every field of `fields` has a kind.
pub open spec fn all_planned(fields: Seq<Field>) -> bool {
    forall|i: int| 0 <= i < fields.len() ==> (#[trigger] kind_of(fields[i])) is Some
}

/// The kinds of all fields, in declaration order.
pub open spec fn kinds_of(fields: Seq<Field>) -> Seq<Kind> {
    fields.map_values(|f: Field| kind_of(f)->0)
}

/// Whether `e` is the malformed-annotation error of the field at `index`.
pub open spec fn malformed_field(e: DeriveError, index: int) -> bool {
    match e {
        DeriveError::MalformedAnnotation { site: Site::Field { index: k }, message } => k == index
            && message@ == each_message(),
        _ => false,
    }
}

/// Whether `e` reports the first field whose annotation is malformed.
pub open spec fn first_malformed(fields: Seq<Field>, e: DeriveError) -> bool {
    exists|k: int|
        0 <= k < fields.len() && kind_of(#[trigger] fields[k]) is None && (forall|j: int|
            0 <= j < k ==> kind_of(#[trigger] fields[j]) is Some) && malformed_field(e, k)
}

/// The error for a malformed annotation on the field at `index`.
fn malformed(index: usize) -> (e: DeriveError)
    ensures
        malformed_field(e, index as int),
{
    DeriveError::MalformedAnnotation {
        site: Site::Field { index },
        message: String::from_str("expected `builder(each = \"...\")`"),
    }
}

/// Decides how one field is stored and set, given whether the string of
/// its `each` annotation is an identifier.
pub fn plan_given(f: &Field, setter_is_identifier: bool) -> (r: Option<FieldPlan>)
    ensures
        r is Some <==> kind_given(*f, setter_is_identifier) is Some,
        r is Some ==> r->0@ == kind_given(*f, setter_is_identifier)->0,
{
    match &f.annotation {
        Some(m) => match each_literal(m) {
            Some(s) => {
                if setter_is_identifier && get_inner(Some("Vec"), &f.ty).is_some() {
                    Some(FieldPlan::Each { setter: s.clone() })
                } else {
                    None
                }
            },
            None => None,
        },
        None => {
            if get_inner(Some("Option"), &f.ty).is_some() {
                Some(FieldPlan::Optional)
            } else {
                Some(FieldPlan::Mandatory)
            }
        },
    }
}

/// Decides how one field is stored and set.
pub fn plan_field(f: &Field) -> (r: Option<FieldPlan>)
    ensures
        r is Some <==> kind_of(*f) is Some,
        r is Some ==> r->0@ == kind_of(*f)->0,
{
    let setter_is_identifier = match &f.annotation {
        Some(m) => match each_literal(m) {
            Some(s) => is_bare_word(s.as_str()) && parses_as_identifier(s.as_str()),
            None => false,
        },
        None => false,
    };
    plan_given(f, setter_is_identifier)
}

/// Decides every field in declaration order; the first malformed annotation
/// is the one reported.
pub fn plan_fields(fields: &Vec<Field>) -> (r: Result<Vec<FieldPlan>, DeriveError>)
    ensures
        r is Ok <==> all_planned(fields@),
        r is Ok ==> r->Ok_0@.map_values(|p: FieldPlan| p@) == kinds_of(fields@),
        r is Err ==> first_malformed(fields@, r->Err_0),
{
    let mut plans: Vec<FieldPlan> = Vec::new();
    let mut i: usize = 0;
    while i < fields.len()
        invariant
            i <= fields.len(),
            plans@.len() == i,
            forall|j: int| 0 <= j < i ==> (#[trigger] kind_of(fields@[j])) is Some,
            forall|j: int| 0 <= j < i ==> (#[trigger] plans@[j])@ == kind_of(fields@[j])->0,
        decreases fields.len() - i,
    {
        match plan_field(&fields[i]) {
            Some(p) => plans.push(p),
            None => {
                let e = malformed(i);
                assert(kind_of(fields@[i as int]) is None);
                return Err(e);
            },
        }
        i = i + 1;
    }
    assert(plans@.map_values(|p: FieldPlan| p@) =~= kinds_of(fields@));
    Ok(plans)
}

/// The four lists of the companion's source, one entry per field.
#[derive(Clone, Copy)]
pub enum Part {
    /// The storage slot in the companion struct.
    Slot,
    /// The setter.
    Setter,
    /// The field's value in the record that `build` returns.
    Value,
    /// The slot's initial value in `builder()`.
    Init,
}

/// The type that a field's setter takes: the field's type, without its
/// `Option` for an optional field, the element type for an `each` field.
pub open spec fn setter_type(f: Field, k: Kind) -> Seq<char> {
    match k {
        Kind::Mandatory => f.ty.spec_text(),
        Kind::Optional => inner_of(Some("Option"@), f.ty)->0.spec_text(),
        Kind::Each { .. } => inner_of(Some("Vec"@), f.ty)->0.spec_text(),
    }
}

/// The source of one field's entry in one list.
pub open spec fn piece(part: Part, f: Field, k: Kind) -> Seq<char> {
    let n = f.name@;
    match part {
        Part::Slot => match k {
            Kind::Mandatory => "    "@ + n + ": ::std::option::Option<"@ + f.ty.spec_text()
                + ">,\n"@,
            _ => "    "@ + n + ": "@ + f.ty.spec_text() + ",\n"@,
        },
        Part::Setter => match k {
            Kind::Each { setter } => "    pub fn "@ + setter + "(&mut self, val: "@
                + setter_type(f, k) + ") -> &mut Self {\n        self."@ + n
                + ".push(val);\n        self\n    }\n"@,
            _ => "    pub fn "@ + n + "(&mut self, "@ + n + ": "@ + setter_type(f, k)
                + ") -> &mut Self {\n        self."@ + n
                + " = ::std::option::Option::Some("@ + n + ");\n        self\n    }\n"@,
        },
        Part::Value => match k {
            Kind::Mandatory => "            "@ + n + ": self."@ + n
                + ".clone().ok_or(\"missing attribute "@ + n + "\")?,\n"@,
            _ => "            "@ + n + ": self."@ + n + ".clone(),\n"@,
        },
        Part::Init => match k {
            Kind::Each { .. } => "            "@ + n + ": ::std::vec::Vec::new(),\n"@,
            _ => "            "@ + n + ": ::std::option::Option::None,\n"@,
        },
    }
}

/// One list: the entries of all fields in declaration order.
pub open spec fn pieces(part: Part, fields: Seq<Field>, kinds: Seq<Kind>) -> Seq<Seq<char>> {
    Seq::new(fields.len(), |i: int| piece(part, fields[i], kinds[i]))
}

/// The companion's source for the record `name` with these fields.
pub open spec fn builder_source(name: Seq<char>, fields: Seq<Field>) -> Seq<char> {
    let k = kinds_of(fields);
    "pub struct "@ + name + "Builder {\n"@ + joined(pieces(Part::Slot, fields, k))
        + "}\n\nimpl "@ + name + "Builder {\n"@ + joined(pieces(Part::Setter, fields, k))
        + "    pub fn build(&mut self) -> ::std::result::Result<"@ + name
        + ", ::std::boxed::Box<dyn ::std::error::Error>> {\n        ::std::result::Result::Ok("@
        + name + " {\n"@ + joined(pieces(Part::Value, fields, k)) + "        })\n    }\n}\n\nimpl "@
        + name + " {\n    pub fn builder() -> "@ + name + "Builder {\n        "@ + name
        + "Builder {\n"@ + joined(pieces(Part::Init, fields, k)) + "        }\n    }\n}\n"@
}

/// Appends one field's entry of one list.
fn emit_piece(out: &mut String, part: Part, f: &Field, p: &FieldPlan)
    requires
        kind_of(*f) == Some(p@),
    ensures
        final(out)@ == old(out)@ + piece(part, *f, p@),
{
    let n = f.name.as_str();
    match part {
        Part::Slot => {
            out.append("    ");
            out.append(n);
            match p {
                FieldPlan::Mandatory => {
                    out.append(": ::std::option::Option<");
                    out.append(f.ty.text().as_str());
                    out.append(">,\n");
                },
                _ => {
                    out.append(": ");
                    out.append(f.ty.text().as_str());
                    out.append(",\n");
                },
            }
        },
        Part::Setter => {
            out.append("    pub fn ");
            match p {
                FieldPlan::Each { setter } => {
                    let elem = get_inner(Some("Vec"), &f.ty).unwrap();
                    out.append(setter.as_str());
                    out.append("(&mut self, val: ");
                    out.append(elem.text().as_str());
                    out.append(") -> &mut Self {\n        self.");
                    out.append(n);
                    out.append(".push(val);\n        self\n    }\n");
                },
                _ => {
                    let ty = match p {
                        FieldPlan::Optional => get_inner(Some("Option"), &f.ty).unwrap(),
                        _ => &f.ty,
                    };
                    out.append(n);
                    out.append("(&mut self, ");
                    out.append(n);
                    out.append(": ");
                    out.append(ty.text().as_str());
                    out.append(") -> &mut Self {\n        self.");
                    out.append(n);
                    out.append(" = ::std::option::Option::Some(");
                    out.append(n);
                    out.append(");\n        self\n    }\n");
                },
            }
        },
        Part::Value => {
            out.append("            ");
            out.append(n);
            out.append(": self.");
            out.append(n);
            match p {
                FieldPlan::Mandatory => {
                    out.append(".clone().ok_or(\"missing attribute ");
                    out.append(n);
                    out.append("\")?,\n");
                },
                _ => {
                    out.append(".clone(),\n");
                },
            }
        },
        Part::Init => {
            out.append("            ");
            out.append(n);
            match p {
                FieldPlan::Each { .. } => {
                    out.append(": ::std::vec::Vec::new(),\n");
                },
                _ => {
                    out.append(": ::std::option::Option::None,\n");
                },
            }
        },
    }
}

/// Appends one list, the entries of all fields in declaration order.
fn emit_list(out: &mut String, part: Part, fields: &Vec<Field>, plans: &Vec<FieldPlan>)
    requires
        plans@.len() == fields@.len(),
        forall|i: int| 0 <= i < fields@.len() ==> kind_of(#[trigger] fields@[i]) == Some(plans@[i]@),
    ensures
        final(out)@ == old(out)@ + joined(pieces(part, fields@, plans@.map_values(|p: FieldPlan| p@))),
{
    let ghost kinds = plans@.map_values(|p: FieldPlan| p@);
    let ghost start = out@;
    let mut i: usize = 0;
    while i < fields.len()
        invariant
            i <= fields.len(),
            plans@.len() == fields@.len(),
            kinds == plans@.map_values(|p: FieldPlan| p@),
            forall|j: int| 0 <= j < fields@.len() ==> kind_of(#[trigger] fields@[j]) == Some(plans@[j]@),
            out@ == start + joined(pieces(part, fields@.take(i as int), kinds.take(i as int))),
        decreases fields.len() - i,
    {
        proof {
            let a = pieces(part, fields@.take(i as int), kinds.take(i as int));
            let b = pieces(part, fields@.take(i + 1), kinds.take(i + 1));
            assert(b =~= a.push(piece(part, fields@[i as int], plans@[i as int]@)));
            lemma_joined_push(a, piece(part, fields@[i as int], plans@[i as int]@));
        }
        emit_piece(out, part, &fields[i], &plans[i]);
        i = i + 1;
    }
    assert(fields@.take(i as int) =~= fields@);
    assert(kinds.take(i as int) =~= kinds);
}

/// Synthesises the builder companion of a record type: the source of
/// `NBuilder`, its setters and `build`, and `N::builder()`.
pub fn derive(input: DeriveInput) -> (r: Result<String, DeriveError>)
    ensures
        match input.shape {
            Shape::Named { fields } => {
                &&& r is Ok <==> all_planned(fields@)
                &&& r is Ok ==> r->Ok_0@ == builder_source(input.name@, fields@)
                &&& r is Err ==> first_malformed(fields@, r->Err_0)
            },
            _ => r == Err::<String, DeriveError>(DeriveError::UnsupportedShape),
        },
{
    let d = match extract(input) {
        Ok(d) => d,
        Err(e) => return Err(e),
    };
    let plans = match plan_fields(&d.fields) {
        Ok(p) => p,
        Err(e) => return Err(e),
    };
    let name = d.name.as_str();
    let fields = &d.fields;
    proof {
        let kinds = plans@.map_values(|p: FieldPlan| p@);
        assert(kinds.len() == plans@.len());
        assert(kinds_of(fields@).len() == fields@.len());
        assert forall|i: int| 0 <= i < fields@.len() implies kind_of(#[trigger] fields@[i]) == Some(
            plans@[i]@,
        ) by {
            assert(kinds[i] == plans@[i]@);
            assert(kinds_of(fields@)[i] == kind_of(fields@[i])->0);
        }
    }
    let mut out = String::new();
    out.append("pub struct ");
    out.append(name);
    out.append("Builder {\n");
    emit_list(&mut out, Part::Slot, fields, &plans);
    out.append("}\n\nimpl ");
    out.append(name);
    out.append("Builder {\n");
    emit_list(&mut out, Part::Setter, fields, &plans);
    out.append("    pub fn build(&mut self) -> ::std::result::Result<");
    out.append(name);
    out.append(", ::std::boxed::Box<dyn ::std::error::Error>> {\n        ::std::result::Result::Ok(");
    out.append(name);
    out.append(" {\n");
    emit_list(&mut out, Part::Value, fields, &plans);
    out.append("        })\n    }\n}\n\nimpl ");
    out.append(name);
    out.append(" {\n    pub fn builder() -> ");
    out.append(name);
    out.append("Builder {\n        ");
    out.append(name);
    out.append("Builder {\n");
    emit_list(&mut out, Part::Init, fields, &plans);
    out.append("        }\n    }\n}\n");
    Ok(out)
}

} // verus!
