//! The shape of a declaration handed to a derive: its name, generic parameters,
//! fields, their types and the annotations attached to them.
use vstd::prelude::*;

verus! {

/// A literal on the right of `=` in an annotation.
pub enum Lit {
    /// A string literal: its value, and the literal as it was written.
    Str { value: String, token: String },
    /// Any other literal (an integer, a character, ...), as it was written.
    Other { token: String },
}

/// One item inside the parentheses of a list annotation `key(...)`.
pub enum NestedMeta {
    /// `path = lit`
    NameValue { path: Vec<String>, lit: Lit },
    /// A bare path.
    Path { path: Vec<String> },
    /// A list `path(...)`, whose contents are not read.
    List { path: Vec<String> },
    /// A bare literal.
    Lit { lit: Lit },
}

/// An annotation, such as `#[builder(each = "arg")]` or `#[debug = "{:b}"]`,
/// with each path given by the names of its segments.
pub enum Meta {
    /// `#[path]`
    Path { path: Vec<String> },
    /// `#[path(nested, ...)]`
    List { path: Vec<String>, nested: Vec<NestedMeta> },
    /// `#[path = lit]`
    NameValue { path: Vec<String>, lit: Lit },
}

/// A type expression, with the source text of each node.
pub enum TypeExpr {
    /// A path type whose last segment has no type as its first generic
    /// argument: `u8`, `T::Value`, `std::string::String`.
    Path { segments: Vec<String>, text: String },
    /// A path type whose last segment has a type as its first generic
    /// argument: `Option<u8>`, `std::vec::Vec<T>`, `HashMap<K, V>`; `n_args`
    /// counts all generic arguments of that segment.
    Generic { segments: Vec<String>, arg: Box<TypeExpr>, n_args: usize, text: String },
    /// Any other type: a reference, a tuple, an array, ...
    Other { text: String },
}

impl TypeExpr {
    pub open spec fn spec_text(self) -> Seq<char> {
        match self {
            TypeExpr::Path { text, .. } => text@,
            TypeExpr::Generic { text, .. } => text@,
            TypeExpr::Other { text } => text@,
        }
    }

    /// The source text of the type.
    pub fn text(&self) -> (r: &String)
        ensures
            r@ == self.spec_text(),
    {
        match self {
            TypeExpr::Path { text, .. } => text,
            TypeExpr::Generic { text, .. } => text,
            TypeExpr::Other { text } => text,
        }
    }
}

/// A named field: its name, its declared type and its first annotation, if any.
pub struct Field {
    pub name: String,
    pub ty: TypeExpr,
    pub annotation: Option<Meta>,
}

/// A generic parameter of the declared type, with the bounds written on it.
pub enum GenericParam {
    /// `T: B1 + B2`
    Type { name: String, bounds: Vec<String> },
    /// `'a: 'b`, with the name written `'a`.
    Lifetime { name: String, bounds: Vec<String> },
    /// `const N: usize`
    Const { name: String, ty: String },
}

/// The body of a declaration.
pub enum Shape {
    /// A record with named fields, in declaration order.
    Named { fields: Vec<Field> },
    /// A record with unnamed fields.
    Tuple,
    /// A record without fields.
    Unit,
    /// An enumeration.
    Enum,
    /// A union.
    Union,
}

/// A declaration as the host compiler hands it to a derive.
pub struct DeriveInput {
    pub name: String,
    pub generics: Vec<GenericParam>,
    /// The first annotation on the declaration itself, if any.
    pub annotation: Option<Meta>,
    pub shape: Shape,
}

/// A record type with named fields, ready for synthesis.
pub struct TypeDescriptor {
    pub name: String,
    pub generics: Vec<GenericParam>,
    pub annotation: Option<Meta>,
    pub fields: Vec<Field>,
}

/// Where a malformed annotation stands.
pub enum Site {
    /// On the declaration itself.
    Type,
    /// On the field at this index.
    Field { index: usize },
}

/// Why a derive produced no code.
pub enum DeriveError {
    /// The declaration is not a record with named fields.
    UnsupportedShape,
    /// An annotation does not follow the grammar that the derive expects.
    MalformedAnnotation { site: Site, message: String },
}

/// Takes the descriptor out of a declaration; only records with named fields
/// are supported.
pub fn extract(input: DeriveInput) -> (r: Result<TypeDescriptor, DeriveError>)
    ensures
        match input.shape {
            Shape::Named { fields } => r == Ok::<TypeDescriptor, DeriveError>(
                TypeDescriptor {
                    name: input.name,
                    generics: input.generics,
                    annotation: input.annotation,
                    fields: fields,
                },
            ),
            _ => r == Err::<TypeDescriptor, DeriveError>(DeriveError::UnsupportedShape),
        },
{
    match input.shape {
        Shape::Named { fields } => Ok(
            TypeDescriptor {
                name: input.name,
                generics: input.generics,
                annotation: input.annotation,
                fields,
            },
        ),
        _ => Err(DeriveError::UnsupportedShape),
    }
}

} // verus!
