//! The formatting synthesizer: a `Debug` implementation that renders
//! `Name { field: value, .. }`, with per-field templates and inferred
//! bounds on the type parameters.
use vstd::prelude::*;
use crate::annotation::{
    debug_literal, debug_token, debug_value, is_where_predicate, parses_as_where_predicate,
    spec_debug_literal,
};
use crate::schema::{extract, DeriveError, DeriveInput, Field, GenericParam, Meta, Shape, Site, TypeExpr};
use crate::text::{
    has_word, is_literal_free, joined, last_is, lemma_joined_push, literal_free, mentions_word,
    path_ends_with,
};
use crate::wrapper::{get_inner, inner_of};

verus! {

/// Whether `ty` is a `PhantomData` whose argument names `name` anywhere:
/// `PhantomData<T>`, `PhantomData<Box<T>>`, `PhantomData<fn() -> T>`.
pub open spec fn in_marker(ty: TypeExpr, name: Seq<char>) -> bool {
    match inner_of(Some("PhantomData"@), ty) {
        Some(inner) => mentions_word(inner.spec_text(), name),
        None => false,
    }
}

/// Whether `ty` is a `PhantomData` whose argument names `name` anywhere.
pub fn marker_names(ty: &TypeExpr, name: &String) -> (r: bool)
    ensures
        r == in_marker(*ty, name@),
{
    match get_inner(Some("PhantomData"), ty) {
        Some(inner) => has_word(inner.text().as_str(), name.as_str()),
        None => false,
    }
}

/// Whether `name` is a type parameter among `generics`.
pub open spec fn is_type_param(generics: Seq<GenericParam>, name: Seq<char>) -> bool {
    exists|i: int|
        0 <= i < generics.len() && (#[trigger] generics[i] matches GenericParam::Type { name: n, .. }
            && n@ == name)
}

/// Whether `name` is a type parameter among `generics`.
pub fn type_param_named(generics: &Vec<GenericParam>, name: &String) -> (r: bool)
    ensures
        r == is_type_param(generics@, name@),
{
    let mut i: usize = 0;
    while i < generics.len()
        invariant
            i <= generics@.len(),
            forall|j: int|
                0 <= j < i ==> !(#[trigger] generics@[j] matches GenericParam::Type { name: n, .. }
                    && n@ == name@),
        decreases generics.len() - i,
    {
        match &generics[i] {
            GenericParam::Type { name: n, .. } => {
                if *n == *name {
                    return true;
                }
            },
            _ => {},
        }
        i = i + 1;
    }
    false
}

/// The associated-type path that `ty` leads to: the arguments of
/// one-argument generics are followed inward to a path of several segments whose first
/// segment is a type parameter, such as `T::Value` in `Vec<Box<T::Value>>`.
pub open spec fn assoc_of(ty: TypeExpr, generics: Seq<GenericParam>) -> Option<TypeExpr>
    decreases ty,
{
    match ty {
        TypeExpr::Generic { arg, n_args, .. } => if n_args == 1 {
            assoc_of(*arg, generics)
        } else {
            None
        },
        TypeExpr::Path { segments, .. } => if segments@.len() > 1 && is_type_param(
            generics,
            segments@[0]@,
        ) {
            Some(ty)
        } else {
            None
        },
        TypeExpr::Other { .. } => None,
    }
}

/// Finds the associated-type path that a field's type leads to.
pub fn associated_type<'a>(ty: &'a TypeExpr, generics: &Vec<GenericParam>) -> (r: Option<
    &'a TypeExpr,
>)
    ensures
        r is Some <==> assoc_of(*ty, generics@) is Some,
        r is Some ==> *r->0 == assoc_of(*ty, generics@)->0,
    decreases ty,
{
    if let Some(inner) = get_inner(None, ty) {
        return associated_type(inner, generics);
    }
    match ty {
        TypeExpr::Path { segments, .. } => {
            if segments.len() > 1 && type_param_named(generics, &segments[0]) {
                Some(ty)
            } else {
                None
            }
        },
        _ => None,
    }
}

/// What `assoc_of` finds is a path of several segments.
pub proof fn lemma_assoc_is_path(ty: TypeExpr, generics: Seq<GenericParam>)
    ensures
        assoc_of(ty, generics) is Some ==> (assoc_of(ty, generics)->0 matches TypeExpr::Path {
            segments,
            ..
        } && segments@.len() > 1),
    decreases ty,
{
    if let TypeExpr::Generic { arg, .. } = ty {
        lemma_assoc_is_path(*arg, generics);
    }
}

/// The first path segment of an associated-type path.
pub open spec fn head_of(ty: TypeExpr) -> Seq<char> {
    match ty {
        TypeExpr::Path { segments, .. } => segments@[0]@,
        _ => Seq::empty(),
    }
}

/// Whether type `ty` excludes the type parameter `name` from bound
/// inference: `ty` is a `PhantomData` that names `name`, or leads to an
/// associated type of `name`.
pub open spec fn excludes(ty: TypeExpr, generics: Seq<GenericParam>, name: Seq<char>) -> bool {
    in_marker(ty, name) || (assoc_of(ty, generics) is Some && head_of(
        assoc_of(ty, generics)->0,
    ) == name)
}

/// Whether `ty` may use the type parameter `name` outside a `PhantomData`.
/// One-argument generics other than `PhantomData` are followed inward;
/// a path counts when it is `name` itself, or when it does not start with
/// `name` and names it in its text; any other type counts when its text
/// names `name`. Where the model does not see inside a type, this says yes
/// rather than no, so that no bound the impl needs is left out.
pub open spec fn uses_directly(ty: TypeExpr, name: Seq<char>) -> bool
    decreases ty,
{
    match ty {
        TypeExpr::Generic { segments, arg, n_args, text } => if n_args == 1 {
            !last_is(segments@, "PhantomData"@) && uses_directly(*arg, name)
        } else {
            mentions_word(text@, name)
        },
        TypeExpr::Path { segments, text } => segments@.len() > 0 && ((segments@.len() == 1
            && segments@[0]@ == name) || (segments@[0]@ != name && mentions_word(text@, name))),
        TypeExpr::Other { text } => mentions_word(text@, name),
    }
}

/// Whether `ty` may use the type parameter `name` outside a `PhantomData`.
pub fn used_directly(ty: &TypeExpr, name: &String) -> (r: bool)
    ensures
        r == uses_directly(*ty, name@),
    decreases ty,
{
    match ty {
        TypeExpr::Generic { segments, arg, n_args, text } => {
            if *n_args == 1 {
                !path_ends_with(segments, "PhantomData") && used_directly(arg, name)
            } else {
                has_word(text.as_str(), name.as_str())
            }
        },
        TypeExpr::Path { segments, text } => segments.len() > 0 && ((segments.len() == 1
            && segments[0] == *name) || (segments[0] != *name && has_word(
            text.as_str(),
            name.as_str(),
        ))),
        TypeExpr::Other { text } => has_word(text.as_str(), name.as_str()),
    }
}

/// Whether the parameter at `i` gets the `Debug` bound: it is a type
/// parameter, and either some field's type may use it outside a
/// `PhantomData`, or no field's type excludes it. So it goes without the
/// bound exactly when it appears only inside `PhantomData` or as the head
/// of an associated type.
pub open spec fn bound_required(fields: Seq<Field>, generics: Seq<GenericParam>, i: int) -> bool {
    match generics[i] {
        GenericParam::Type { name, .. } => (exists|j: int|
            0 <= j < fields.len() && uses_directly(#[trigger] fields[j].ty, name@)) || !exists|j: int|
            0 <= j < fields.len() && excludes(#[trigger] fields[j].ty, generics, name@),
        _ => false,
    }
}

/// Whether some field's type leads to the type parameter `name` itself.
fn used_by_some(fields: &Vec<Field>, name: &String) -> (r: bool)
    ensures
        r == exists|j: int| 0 <= j < fields@.len() && uses_directly(#[trigger] fields@[j].ty, name@),
{
    let mut j: usize = 0;
    while j < fields.len()
        invariant
            j <= fields@.len(),
            forall|k: int| 0 <= k < j ==> !uses_directly(#[trigger] fields@[k].ty, name@),
        decreases fields.len() - j,
    {
        if used_directly(&fields[j].ty, name) {
            return true;
        }
        j = j + 1;
    }
    false
}

/// Whether some field's type excludes the type parameter `name`.
fn excluded(fields: &Vec<Field>, generics: &Vec<GenericParam>, name: &String) -> (r: bool)
    ensures
        r == exists|j: int| 0 <= j < fields@.len() && excludes(#[trigger] fields@[j].ty, generics@, name@),
{
    let mut j: usize = 0;
    while j < fields.len()
        invariant
            j <= fields@.len(),
            forall|k: int| 0 <= k < j ==> !excludes(#[trigger] fields@[k].ty, generics@, name@),
        decreases fields.len() - j,
    {
        let ty = &fields[j].ty;
        proof {
            lemma_assoc_is_path(*ty, generics@);
        }
        let by_phantom = marker_names(ty, name);
        let by_assoc = match associated_type(ty, generics) {
            Some(TypeExpr::Path { segments, .. }) => segments[0] == *name,
            _ => false,
        };
        if by_phantom || by_assoc {
            return true;
        }
        j = j + 1;
    }
    false
}

/// Classifies every generic parameter: `true` where it must get the
/// `Debug` bound, `false` where it is excluded or not a type parameter.
pub fn classify_params(fields: &Vec<Field>, generics: &Vec<GenericParam>) -> (r: Vec<bool>)
    ensures
        r@.len() == generics@.len(),
        forall|i: int| 0 <= i < generics@.len() ==> r@[i] == bound_required(fields@, generics@, i),
{
    let mut r: Vec<bool> = Vec::new();
    let mut i: usize = 0;
    while i < generics.len()
        invariant
            i <= generics@.len(),
            r@.len() == i,
            forall|k: int| 0 <= k < i ==> r@[k] == bound_required(fields@, generics@, k),
        decreases generics.len() - i,
    {
        let b = match &generics[i] {
            GenericParam::Type { name, .. } => used_by_some(fields, name) || !excluded(
                fields,
                generics,
                name,
            ),
            _ => false,
        };
        r.push(b);
        i = i + 1;
    }
    r
}

/// The two lists of the implementation's source that run over the fields.
#[derive(Clone, Copy)]
pub enum FieldPart {
    /// The field's `.field(..)` call in the `debug_struct` chain.
    Call,
    /// The where-clause entry for the associated type that the field uses.
    Bound,
}

/// The two lists of the implementation's source that run over the
/// generic parameters.
#[derive(Clone, Copy)]
pub enum ParamPart {
    /// The parameter as declared after `impl`, with its bounds.
    Decl,
    /// The parameter as passed to the type.
    Use,
}

/// One field's entry in one list.
pub open spec fn field_piece(part: FieldPart, f: Field, generics: Seq<GenericParam>) -> Seq<char> {
    let n = f.name@;
    match part {
        FieldPart::Call => match f.annotation {
            Some(m) => "\n            .field(\""@ + n + "\", &::std::format_args!("@
                + debug_token(m) + ", &self."@ + n + "))"@,
            None => "\n            .field(\""@ + n + "\", &self."@ + n + ")"@,
        },
        FieldPart::Bound => match assoc_of(f.ty, generics) {
            Some(t) => t.spec_text() + ": ::std::fmt::Debug, "@,
            None => Seq::empty(),
        },
    }
}

/// The bounds written on a parameter, each followed by `+`.
pub open spec fn bounds_text(bounds: Seq<String>) -> Seq<char> {
    joined(Seq::new(bounds.len(), |i: int| " "@ + bounds[i]@ + " +"@))
}

/// One parameter's entry in one list; `bound` says whether it gets `Debug`.
pub open spec fn param_piece(part: ParamPart, p: GenericParam, bound: bool) -> Seq<char> {
    match part {
        ParamPart::Decl => match p {
            GenericParam::Type { name, bounds } => name@ + ":"@ + bounds_text(bounds@) + (if bound {
                " ::std::fmt::Debug"@
            } else {
                Seq::empty()
            }) + ", "@,
            GenericParam::Lifetime { name, bounds } => name@ + ":"@ + bounds_text(bounds@) + ", "@,
            GenericParam::Const { name, ty } => "const "@ + name@ + ": "@ + ty@ + ", "@,
        },
        ParamPart::Use => match p {
            GenericParam::Type { name, .. } => name@ + ", "@,
            GenericParam::Lifetime { name, .. } => name@ + ", "@,
            GenericParam::Const { name, .. } => name@ + ", "@,
        },
    }
}

/// The list of a part over all fields.
pub open spec fn field_list(part: FieldPart, fields: Seq<Field>, generics: Seq<GenericParam>) -> Seq<char> {
    joined(Seq::new(fields.len(), |j: int| field_piece(part, fields[j], generics)))
}

/// The list of a part over all parameters, in angle brackets; nothing for
/// a type without parameters.
pub open spec fn param_list(part: ParamPart, generics: Seq<GenericParam>, bounds: Seq<bool>) -> Seq<char> {
    if generics.len() == 0 {
        Seq::empty()
    } else {
        "<"@ + joined(Seq::new(generics.len(), |i: int| param_piece(part, generics[i], bounds[i])))
            + ">"@
    }
}

/// Whether a field's annotation, if any, is a template the derive reads.
pub open spec fn field_ok(f: Field) -> bool {
    f.annotation is None || spec_debug_literal(f.annotation->0) is Some
}

/// Whether the type's annotation, if any, is a where-clause predicate that
/// holds no string literal and no block comment.
pub open spec fn clause_ok(annotation: Option<Meta>) -> bool {
    match annotation {
        Some(m) => spec_debug_literal(m) is Some && literal_free(debug_value(m))
            && is_where_predicate(debug_value(m)),
        None => true,
    }
}

/// The where clause that the type's annotation gives, given whether the
/// annotation's string is a where-clause predicate: `None` when the
/// annotation is malformed, `Some(None)` when there is no annotation.
pub open spec fn clause_given(annotation: Option<Meta>, is_predicate: bool) -> Option<Option<Seq<char>>> {
    match annotation {
        Some(m) => if spec_debug_literal(m) is Some && is_predicate {
            Some(Some(debug_value(m)))
        } else {
            None
        },
        None => Some(None),
    }
}

/// Reads the type's annotation as a where clause, given whether its string
/// is a where-clause predicate; `Err` when the annotation is malformed.
pub fn where_clause_given(annotation: &Option<Meta>, is_predicate: bool) -> (r: Result<Option<&String>, ()>)
    ensures
        match clause_given(*annotation, is_predicate) {
            Some(Some(c)) => r is Ok && r->Ok_0 is Some && r->Ok_0->0@ == c,
            Some(None) => r == Ok::<Option<&String>, ()>(None),
            None => r is Err,
        },
{
    match annotation {
        Some(m) => match debug_literal(m) {
            Some((value, _)) => {
                if is_predicate {
                    Ok(Some(value))
                } else {
                    Err(())
                }
            },
            None => Err(()),
        },
        None => Ok(None),
    }
}

/// The where-clause predicate that the type's annotation gives.
pub open spec fn clause_of(annotation: Option<Meta>) -> Option<Seq<char>> {
    match annotation {
        Some(m) => Some(debug_value(m)),
        None => None,
    }
}

/// The `Debug` implementation of the record `name`. With a where-clause
/// annotation, that clause is the whole where clause and no parameter gets
/// a bound; otherwise the parameters that need it get `Debug`, and so does
/// every associated type that a field uses.
pub open spec fn debug_source(
    name: Seq<char>,
    generics: Seq<GenericParam>,
    fields: Seq<Field>,
    clause: Option<Seq<char>>,
) -> Seq<char> {
    match clause {
        Some(c) => impl_source(name, generics, fields, Seq::new(generics.len(), |i: int| false), c),
        None => impl_source(
            name,
            generics,
            fields,
            Seq::new(generics.len(), |i: int| bound_required(fields, generics, i)),
            field_list(FieldPart::Bound, fields, generics),
        ),
    }
}

/// The `Debug` implementation of the record `name`, where `bounds` says
/// which parameters get `Debug` and `w` is the where clause.
pub open spec fn impl_source(
    name: Seq<char>,
    generics: Seq<GenericParam>,
    fields: Seq<Field>,
    bounds: Seq<bool>,
    w: Seq<char>,
) -> Seq<char> {
    "impl"@ + param_list(ParamPart::Decl, generics, bounds) + " ::std::fmt::Debug for "@ + name
        + param_list(ParamPart::Use, generics, bounds) + "\nwhere\n    "@ + w
        + "\n{\n    fn fmt(&self, f: &mut ::std::fmt::Formatter<'_>) -> ::std::fmt::Result {"@
        + "\n        f.debug_struct(\""@
        + name + "\")"@ + field_list(FieldPart::Call, fields, generics)
        + "\n            .finish()\n    }\n}\n"@
}

/// A type parameter that a `PhantomData` field names, and that no field
/// uses directly, gets no `Debug` bound: it is declared with only the
/// bounds written on it.
pub proof fn law_phantom_param_unbounded(fields: Seq<Field>, generics: Seq<GenericParam>, i: int, j: int)
    requires
        0 <= i < generics.len(),
        generics[i] is Type,
        0 <= j < fields.len(),
        in_marker(fields[j].ty, generics[i]->Type_name@),
        forall|k: int|
            0 <= k < fields.len() ==> !uses_directly(#[trigger] fields[k].ty, generics[i]->Type_name@),
    ensures
        !bound_required(fields, generics, i),
        param_piece(ParamPart::Decl, generics[i], bound_required(fields, generics, i))
            == generics[i]->Type_name@ + ":"@ + bounds_text(generics[i]->Type_bounds@)
                + Seq::<char>::empty() + ", "@,
{
    assert(excludes(fields[j].ty, generics, generics[i]->Type_name@));
}

/// A where-clause annotation is the whole where clause, and no parameter
/// gets an inferred bound.
pub proof fn law_clause_replaces_inference(
    name: Seq<char>,
    generics: Seq<GenericParam>,
    fields: Seq<Field>,
    c: Seq<char>,
)
    ensures
        debug_source(name, generics, fields, Some(c)) == impl_source(
            name,
            generics,
            fields,
            Seq::new(generics.len(), |i: int| false),
            c,
        ),
        forall|i: int|
            0 <= i < generics.len() && generics[i] is Type ==> param_piece(
                ParamPart::Decl,
                #[trigger] generics[i],
                false,
            ) == generics[i]->Type_name@ + ":"@ + bounds_text(generics[i]->Type_bounds@)
                + Seq::<char>::empty() + ", "@,
{
}

/// The message of a malformed field template.
pub open spec fn template_message() -> Seq<char> {
    "expected `debug = \"...\"`"@
}

/// The message of a malformed where-clause annotation.
pub open spec fn clause_message() -> Seq<char> {
    "expected `debug(bound = \"...\")` with a where-clause predicate"@
}

/// Whether `e` is the malformed-annotation error at `site` with `message`.
pub open spec fn malformed_at(e: DeriveError, site: Site, message: Seq<char>) -> bool {
    match e {
        DeriveError::MalformedAnnotation { site: s, message: m } => s == site && m@ == message,
        _ => false,
    }
}

/// Whether `e` is the malformed-annotation error of field `k` with `message`.
pub open spec fn malformed_at_field(e: DeriveError, k: int, message: Seq<char>) -> bool {
    match e {
        DeriveError::MalformedAnnotation { site: Site::Field { index }, message: m } => index == k
            && m@ == message,
        _ => false,
    }
}

/// Appends the bounds written on a parameter.
fn emit_bounds(out: &mut String, bounds: &Vec<String>)
    ensures
        final(out)@ == old(out)@ + bounds_text(bounds@),
{
    let ghost start = out@;
    let ghost f = |i: int| " "@ + bounds@[i]@ + " +"@;
    let mut i: usize = 0;
    while i < bounds.len()
        invariant
            i <= bounds@.len(),
            f == (|i: int| " "@ + bounds@[i]@ + " +"@),
            out@ == start + joined(Seq::new(i as nat, f)),
        decreases bounds.len() - i,
    {
        proof {
            assert(Seq::new((i + 1) as nat, f) =~= Seq::new(i as nat, f).push(f(i as int)));
            lemma_joined_push(Seq::new(i as nat, f), f(i as int));
        }
        out.append(" ");
        out.append(bounds[i].as_str());
        out.append(" +");
        i = i + 1;
    }
}

/// Appends one parameter's entry of one list.
fn emit_param(out: &mut String, part: ParamPart, p: &GenericParam, bound: bool)
    ensures
        final(out)@ == old(out)@ + param_piece(part, *p, bound),
{
    match part {
        ParamPart::Decl => match p {
            GenericParam::Type { name, bounds } => {
                out.append(name.as_str());
                out.append(":");
                emit_bounds(out, bounds);
                if bound {
                    out.append(" ::std::fmt::Debug");
                } else {
                    proof {
                        assert(out@ + Seq::<char>::empty() =~= out@);
                    }
                }
                out.append(", ");
            },
            GenericParam::Lifetime { name, bounds } => {
                out.append(name.as_str());
                out.append(":");
                emit_bounds(out, bounds);
                out.append(", ");
            },
            GenericParam::Const { name, ty } => {
                out.append("const ");
                out.append(name.as_str());
                out.append(": ");
                out.append(ty.as_str());
                out.append(", ");
            },
        },
        ParamPart::Use => {
            match p {
                GenericParam::Type { name, .. } => out.append(name.as_str()),
                GenericParam::Lifetime { name, .. } => out.append(name.as_str()),
                GenericParam::Const { name, .. } => out.append(name.as_str()),
            }
            out.append(", ");
        },
    }
}

/// Appends the list of a part over all parameters.
fn emit_params(out: &mut String, part: ParamPart, generics: &Vec<GenericParam>, bounds: &Vec<bool>)
    requires
        bounds@.len() == generics@.len(),
    ensures
        final(out)@ == old(out)@ + param_list(part, generics@, bounds@),
{
    if generics.len() == 0 {
        proof {
            assert(old(out)@ + Seq::<char>::empty() =~= old(out)@);
        }
        return;
    }
    out.append("<");
    let ghost start = out@;
    let ghost f = |i: int| param_piece(part, generics@[i], bounds@[i]);
    let mut i: usize = 0;
    while i < generics.len()
        invariant
            i <= generics@.len(),
            bounds@.len() == generics@.len(),
            f == (|i: int| param_piece(part, generics@[i], bounds@[i])),
            out@ == start + joined(Seq::new(i as nat, f)),
        decreases generics.len() - i,
    {
        proof {
            assert(Seq::new((i + 1) as nat, f) =~= Seq::new(i as nat, f).push(f(i as int)));
            lemma_joined_push(Seq::new(i as nat, f), f(i as int));
        }
        emit_param(out, part, &generics[i], bounds[i]);
        i = i + 1;
    }
    out.append(">");
}

/// Appends one field's entry of one list.
fn emit_field(out: &mut String, part: FieldPart, f: &Field, generics: &Vec<GenericParam>)
    requires
        field_ok(*f),
    ensures
        final(out)@ == old(out)@ + field_piece(part, *f, generics@),
{
    match part {
        FieldPart::Call => {
            let n = f.name.as_str();
            out.append("\n            .field(\"");
            out.append(n);
            match &f.annotation {
                Some(m) => {
                    let (_, token) = debug_literal(m).unwrap();
                    out.append("\", &::std::format_args!(");
                    out.append(token.as_str());
                    out.append(", &self.");
                    out.append(n);
                    out.append("))");
                },
                None => {
                    out.append("\", &self.");
                    out.append(n);
                    out.append(")");
                },
            }
        },
        FieldPart::Bound => match associated_type(&f.ty, generics) {
            Some(t) => {
                out.append(t.text().as_str());
                out.append(": ::std::fmt::Debug, ");
            },
            None => {
                proof {
                    assert(old(out)@ + Seq::<char>::empty() =~= old(out)@);
                }
            },
        },
    }
}

/// Appends the list of a part over all fields.
fn emit_fields(out: &mut String, part: FieldPart, fields: &Vec<Field>, generics: &Vec<GenericParam>)
    requires
        forall|j: int| 0 <= j < fields@.len() ==> field_ok(#[trigger] fields@[j]),
    ensures
        final(out)@ == old(out)@ + field_list(part, fields@, generics@),
{
    let ghost start = out@;
    let ghost f = |j: int| field_piece(part, fields@[j], generics@);
    let mut i: usize = 0;
    while i < fields.len()
        invariant
            i <= fields@.len(),
            forall|j: int| 0 <= j < fields@.len() ==> field_ok(#[trigger] fields@[j]),
            f == (|j: int| field_piece(part, fields@[j], generics@)),
            out@ == start + joined(Seq::new(i as nat, f)),
        decreases fields.len() - i,
    {
        proof {
            assert(Seq::new((i + 1) as nat, f) =~= Seq::new(i as nat, f).push(f(i as int)));
            lemma_joined_push(Seq::new(i as nat, f), f(i as int));
        }
        emit_field(out, part, &fields[i], generics);
        i = i + 1;
    }
}

/// Whether every field's template annotation, if any, is well formed.
pub open spec fn all_fields_ok(fields: Seq<Field>) -> bool {
    forall|j: int| 0 <= j < fields.len() ==> field_ok(#[trigger] fields[j])
}

/// Whether `e` reports the first field whose template annotation is malformed.
pub open spec fn first_bad_template(fields: Seq<Field>, e: DeriveError) -> bool {
    exists|k: int|
        0 <= k < fields.len() && !field_ok(#[trigger] fields[k]) && (forall|j: int|
            0 <= j < k ==> field_ok(#[trigger] fields[j])) && malformed_at_field(
            e,
            k,
            template_message(),
        )
}

/// Synthesises the `Debug` implementation of a record type.
pub fn derive(input: DeriveInput) -> (r: Result<String, DeriveError>)
    ensures
        match input.shape {
            Shape::Named { fields } => {
                &&& r is Ok <==> all_fields_ok(fields@) && clause_ok(input.annotation)
                &&& r is Ok ==> r->Ok_0@ == debug_source(
                    input.name@,
                    input.generics@,
                    fields@,
                    clause_of(input.annotation),
                )
                &&& r is Err ==> first_bad_template(fields@, r->Err_0) || (all_fields_ok(fields@)
                    && malformed_at(r->Err_0, Site::Type, clause_message()))
            },
            _ => r == Err::<String, DeriveError>(DeriveError::UnsupportedShape),
        },
{
    let d = match extract(input) {
        Ok(d) => d,
        Err(e) => return Err(e),
    };
    let fields = &d.fields;
    let generics = &d.generics;
    let mut k: usize = 0;
    while k < fields.len()
        invariant
            k <= fields@.len(),
            input.shape == (Shape::Named { fields: *fields }),
            forall|j: int| 0 <= j < k ==> field_ok(#[trigger] fields@[j]),
        decreases fields.len() - k,
    {
        match &fields[k].annotation {
            Some(m) => {
                if debug_literal(m).is_none() {
                    let e = DeriveError::MalformedAnnotation {
                        site: Site::Field { index: k },
                        message: String::from_str("expected `debug = \"...\"`"),
                    };
                    assert(!field_ok(fields@[k as int]));
                    assert(malformed_at_field(e, k as int, template_message()));
                    assert(input.shape matches Shape::Named { fields: fs } && fs@ == fields@);
                    return Err(e);
                }
            },
            None => {},
        }
        k = k + 1;
    }
    let is_predicate = match &d.annotation {
        Some(m) => match debug_literal(m) {
            Some((value, _)) => is_literal_free(value.as_str()) && parses_as_where_predicate(
                value.as_str(),
            ),
            None => false,
        },
        None => false,
    };
    let clause = match where_clause_given(&d.annotation, is_predicate) {
        Ok(c) => c,
        Err(()) => {
            return Err(
                DeriveError::MalformedAnnotation {
                    site: Site::Type,
                    message: String::from_str(
                        "expected `debug(bound = \"...\")` with a where-clause predicate",
                    ),
                },
            );
        },
    };
    let bounds = match clause {
        Some(_) => {
            let mut b: Vec<bool> = Vec::new();
            let mut i: usize = 0;
            while i < generics.len()
                invariant
                    i <= generics@.len(),
                    b@.len() == i,
                    forall|j: int| 0 <= j < i ==> !(#[trigger] b@[j]),
                decreases generics.len() - i,
            {
                b.push(false);
                i = i + 1;
            }
            assert(b@ =~= Seq::new(generics@.len(), |i: int| false));
            b
        },
        None => {
            let b = classify_params(fields, generics);
            assert(b@ =~= Seq::new(generics@.len(), |i: int| bound_required(fields@, generics@, i)));
            b
        },
    };
    let name = d.name.as_str();
    let mut out = String::from_str("impl");
    emit_params(&mut out, ParamPart::Decl, generics, &bounds);
    out.append(" ::std::fmt::Debug for ");
    out.append(name);
    emit_params(&mut out, ParamPart::Use, generics, &bounds);
    out.append("\nwhere\n    ");
    match clause {
        Some(c) => out.append(c.as_str()),
        None => emit_fields(&mut out, FieldPart::Bound, fields, generics),
    }
    out.append("\n{\n    fn fmt(&self, f: &mut ::std::fmt::Formatter<'_>) -> ::std::fmt::Result {");
    out.append("\n        f.debug_struct(\"");
    out.append(name);
    out.append("\")");
    emit_fields(&mut out, FieldPart::Call, fields, generics);
    out.append("\n            .finish()\n    }\n}\n");
    Ok(out)
}

} // verus!
