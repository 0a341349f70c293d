//! Reading the two annotation grammars: the nested `builder(each = "name")`
//! of the builder, and the `debug = "..."` / `debug(key = "...")` forms of
//! the formatting synthesizer.
use vstd::prelude::*;
use crate::schema::{Lit, Meta, NestedMeta};
use crate::text::{first_is, literal_free, path_starts_with};

verus! {

/// Whether the text is a single identifier that is not a keyword.
pub uninterp spec fn is_identifier(s: Seq<char>) -> bool;

/// Whether the text is a single where-clause predicate, such as `T::Value: Debug`.
pub uninterp spec fn is_where_predicate(s: Seq<char>) -> bool;

/// Relies on `syn::parse_str::<syn::Ident>`, which accepts exactly the texts
/// made of one identifier token that is not a keyword.
#[verifier::external_body]
pub(crate) fn parses_as_identifier(s: &str) -> (r: bool)
    ensures
        r == is_identifier(s@),
{
    syn::parse_str::<syn::Ident>(s).is_ok()
}

/// Relies on `syn::parse_str::<syn::WherePredicate>`, which accepts exactly
/// the texts made of one where-clause predicate. The text must hold no
/// string literal and no block comment: the tokenizer reads C-string
/// literals and error placeholders that syn's literal parser panics on.
#[verifier::external_body]
pub(crate) fn parses_as_where_predicate(s: &str) -> (r: bool)
    requires
        literal_free(s@),
    ensures
        r == is_where_predicate(s@),
{
    syn::parse_str::<syn::WherePredicate>(s).is_ok()
}

/// The string given to `each` in `builder(each = "...")`: the first item of
/// the list must be `each` set to a string literal.
pub open spec fn spec_each_literal(m: Meta) -> Option<Seq<char>> {
    match m {
        Meta::List { path, nested } => if first_is(path@, "builder"@) && nested@.len() > 0 {
            match nested@[0] {
                NestedMeta::NameValue { path: key, lit: Lit::Str { value, .. } } => if first_is(
                    key@,
                    "each"@,
                ) {
                    Some(value@)
                } else {
                    None
                },
                _ => None,
            }
        } else {
            None
        },
        _ => None,
    }
}

/// Reads `builder(each = "...")`; any other form gives `None`.
pub fn each_literal(m: &Meta) -> (r: Option<&String>)
    ensures
        r is Some <==> spec_each_literal(*m) is Some,
        r is Some ==> r->0@ == spec_each_literal(*m)->0,
{
    match m {
        Meta::List { path, nested } => {
            if path_starts_with(path, "builder") && nested.len() > 0 {
                match &nested[0] {
                    NestedMeta::NameValue { path: key, lit: Lit::Str { value, .. } } => {
                        if path_starts_with(key, "each") {
                            Some(value)
                        } else {
                            None
                        }
                    },
                    _ => None,
                }
            } else {
                None
            }
        },
        _ => None,
    }
}

/// The string literal of `debug = "..."`, or of the first item of
/// `debug(key = "...")`, whatever its key: its value and its source text.
pub open spec fn spec_debug_literal(m: Meta) -> Option<(Seq<char>, Seq<char>)> {
    match m {
        Meta::NameValue { path, lit } => if first_is(path@, "debug"@) {
            match lit {
                Lit::Str { value, token } => Some((value@, token@)),
                _ => None,
            }
        } else {
            None
        },
        Meta::List { path, nested } => if first_is(path@, "debug"@) && nested@.len() > 0 {
            match nested@[0] {
                NestedMeta::NameValue { lit: Lit::Str { value, token }, .. } => Some(
                    (value@, token@),
                ),
                _ => None,
            }
        } else {
            None
        },
        Meta::Path { .. } => None,
    }
}

/// The value of the string literal that `spec_debug_literal` finds.
pub open spec fn debug_value(m: Meta) -> Seq<char> {
    match spec_debug_literal(m) {
        Some((value, _)) => value,
        None => Seq::empty(),
    }
}

/// The source text of the string literal that `spec_debug_literal` finds.
pub open spec fn debug_token(m: Meta) -> Seq<char> {
    match spec_debug_literal(m) {
        Some((_, token)) => token,
        None => Seq::empty(),
    }
}

/// Reads `debug = "..."` or `debug(key = "...")`; any other form gives `None`.
pub fn debug_literal(m: &Meta) -> (r: Option<(&String, &String)>)
    ensures
        match r {
            Some((value, token)) => spec_debug_literal(*m) == Some((value@, token@)),
            None => spec_debug_literal(*m) is None,
        },
{
    match m {
        Meta::NameValue { path, lit } => {
            if path_starts_with(path, "debug") {
                match lit {
                    Lit::Str { value, token } => Some((value, token)),
                    _ => None,
                }
            } else {
                None
            }
        },
        Meta::List { path, nested } => {
            if path_starts_with(path, "debug") && nested.len() > 0 {
                match &nested[0] {
                    NestedMeta::NameValue { lit: Lit::Str { value, token }, .. } => Some(
                        (value, token),
                    ),
                    _ => None,
                }
            } else {
                None
            }
        },
        Meta::Path { .. } => None,
    }
}

} // verus!
