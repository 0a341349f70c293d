//! Recognising one-argument generic wrappers such as `Option<T>`, `Vec<T>`
//! or `PhantomData<T>` around a type.
use vstd::prelude::*;
use crate::schema::TypeExpr;
use crate::text::{last_is, path_ends_with};

verus! {

/// The type inside `ty` when `ty` is a wrapper, a generic with exactly one
/// argument, whose last path segment is `wrapper` (any name when `wrapper`
/// is `None`); that argument is the inner type.
pub open spec fn inner_of(wrapper: Option<Seq<char>>, ty: TypeExpr) -> Option<TypeExpr> {
    match ty {
        TypeExpr::Generic { segments, arg, n_args, .. } => if n_args != 1 {
            None
        } else {
            match wrapper {
            None => Some(*arg),
                Some(w) => if last_is(segments@, w) {
                    Some(*arg)
                } else {
                    None
                },
            }
        },
        _ => None,
    }
}

/// The requested wrapper name, as characters.
pub open spec fn name_view(wrapper: Option<&str>) -> Option<Seq<char>> {
    match wrapper {
        Some(w) => Some(w@),
        None => None,
    }
}

/// Finds the type inside a wrapper; no match is an ordinary outcome.
pub fn get_inner<'a>(wrapper: Option<&str>, ty: &'a TypeExpr) -> (r: Option<&'a TypeExpr>)
    ensures
        r is Some <==> inner_of(name_view(wrapper), *ty) is Some,
        r is Some ==> *r->0 == inner_of(name_view(wrapper), *ty)->0,
{
    match ty {
        TypeExpr::Generic { segments, arg, n_args, .. } => if *n_args != 1 {
            None
        } else {
            match wrapper {
            None => Some(&**arg),
            Some(w) => if path_ends_with(segments, w) {
                Some(&**arg)
            } else {
                None
            },
            }
        },
        _ => None,
    }
}

} // verus!
