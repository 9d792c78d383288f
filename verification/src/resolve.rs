//! The type resolver: maps a schema-or-reference node to an entry of the
//! type algebra. References resolve to `Ty::Model` by name, without
//! recursing into the referenced body, which keeps cyclic schema graphs
//! finite here.

use vstd::prelude::*;
use crate::hir::Ty;
use crate::oa::{OaDocument, OaSchema, OaSchemaKind, OaType, RefOr};
use crate::strutil::{seq_has_string, str_eq, vec_contains_string};

verus! {

/// The `format` value marking a date-time string schema.
pub open spec fn datetime_format() -> Seq<char> {
    seq!['d', 'a', 't', 'e', '-', 't', 'i', 'm', 'e']
}

/// The `format` values marking binary string schemas.
pub open spec fn binary_format() -> Seq<char> {
    seq!['b', 'i', 'n', 'a', 'r', 'y']
}

pub open spec fn byte_format() -> Seq<char> {
    seq!['b', 'y', 't', 'e']
}

/// The type a string schema's format selects.
pub open spec fn string_ty(format: Option<String>) -> Ty {
    match format {
        Some(f) => if f@ == datetime_format() {
            Ty::DateTime
        } else if f@ == binary_format() || f@ == byte_format() {
            Ty::Bytes
        } else {
            Ty::Str
        },
        None => Ty::Str,
    }
}

/// The type a concrete (already resolved) schema node denotes.
///
/// An inline object with properties has no name to refer to, so it falls
/// back structurally: to a map type when it only declares additional
/// properties, else to `Any`. Unions fall back to `Any` inline; named union
/// schemas become enum-shaped records instead.
pub open spec fn spec_concrete_ty(s: OaSchema, d: OaDocument) -> Ty
    decreases s,
{
    match s.kind {
        OaSchemaKind::Typed(t) => match t {
            OaType::OaString(st) => string_ty(st.format),
            OaType::OaNumber => Ty::Float,
            OaType::OaInteger => Ty::Int,
            OaType::OaBoolean => Ty::Bool,
            OaType::OaObject(obj) => if obj.properties@.len() == 0 {
                match obj.additional {
                    Some(inner) => Ty::Dict(Box::new(spec_ref_ty(inner, d))),
                    None => Ty::Any,
                }
            } else {
                Ty::Any
            },
            OaType::OaArray(arr) => match arr.items {
                Some(items) => Ty::Array(Box::new(spec_ref_ty(items, d))),
                None => Ty::Array(Box::new(Ty::Any)),
            },
        },
        _ => Ty::Any,
    }
}

/// The type a schema-or-reference node denotes: a reference becomes a
/// by-name `Model`, never an inlined body.
pub open spec fn spec_ref_ty(r: RefOr<Box<OaSchema>>, d: OaDocument) -> Ty
    decreases r,
{
    match r {
        RefOr::Reference { name } => Ty::Model(name),
        RefOr::Item(s) => spec_concrete_ty(*s, d),
    }
}

/// Resolves a concrete schema node to its entry in the type algebra.
pub fn concrete_schema_to_ty(s: &OaSchema, d: &OaDocument) -> (t: Ty)
    ensures
        t == spec_concrete_ty(*s, *d),
    decreases *s,
{
    match &s.kind {
        OaSchemaKind::Typed(ty) => match ty {
            OaType::OaString(st) => match &st.format {
                Some(f) => {
                    proof {
                        reveal_strlit("date-time");
                        reveal_strlit("binary");
                        reveal_strlit("byte");
                        assert("date-time"@ =~= datetime_format());
                        assert("binary"@ =~= binary_format());
                        assert("byte"@ =~= byte_format());
                    }
                    if str_eq(f.as_str(), "date-time") {
                        Ty::DateTime
                    } else if str_eq(f.as_str(), "binary") || str_eq(f.as_str(), "byte") {
                        Ty::Bytes
                    } else {
                        Ty::Str
                    }
                },
                None => Ty::Str,
            },
            OaType::OaNumber => Ty::Float,
            OaType::OaInteger => Ty::Int,
            OaType::OaBoolean => Ty::Bool,
            OaType::OaObject(obj) => if obj.properties.len() == 0 {
                match &obj.additional {
                    Some(inner) => Ty::Dict(Box::new(schema_ref_to_ty(inner, d))),
                    None => Ty::Any,
                }
            } else {
                Ty::Any
            },
            OaType::OaArray(arr) => match &arr.items {
                Some(items) => Ty::Array(Box::new(schema_ref_to_ty(items, d))),
                None => Ty::Array(Box::new(Ty::Any)),
            },
        },
        _ => Ty::Any,
    }
}

/// Resolves a schema-or-reference node to its entry in the type algebra.
pub fn schema_ref_to_ty(r: &RefOr<Box<OaSchema>>, d: &OaDocument) -> (t: Ty)
    ensures
        t == spec_ref_ty(*r, *d),
    decreases *r,
{
    match r {
        RefOr::Reference { name } => Ty::Model(name.clone()),
        RefOr::Item(s) => concrete_schema_to_ty(s, d),
    }
}

/// Whether the object schema `parent` lists `name` as required.
pub open spec fn parent_requires(parent: OaSchema, name: Seq<char>) -> bool {
    match parent.kind {
        OaSchemaKind::Typed(OaType::OaObject(obj)) => seq_has_string(obj.required@, name),
        _ => false,
    }
}

/// Whether the property named `name`, with schema `schema`, is optional
/// inside `parent`: nullable, or absent from the enclosing required list.
/// Either condition alone suffices.
pub open spec fn spec_is_optional(name: Seq<char>, schema: OaSchema, parent: OaSchema) -> bool {
    schema.data.nullable || !parent_requires(parent, name)
}

/// Per-field optionality, from the field's own nullability and the parent
/// object's required list.
pub fn is_optional(name: &str, schema: &OaSchema, parent: &OaSchema) -> (b: bool)
    ensures
        b == spec_is_optional(name@, *schema, *parent),
{
    if schema.data.nullable {
        return true;
    }
    match &parent.kind {
        OaSchemaKind::Typed(OaType::OaObject(obj)) => !vec_contains_string(&obj.required, name),
        _ => true,
    }
}

/// A copy of an optional string, with its characters pinned down.
pub fn clone_opt_string(o: &Option<String>) -> (r: Option<String>)
    ensures
        r == *o,
{
    match o {
        Some(s) => Some(s.clone()),
        None => None,
    }
}

/// Wraps a concrete schema as a public named newtype over its resolved
/// entry in the type algebra.
pub fn extract_newtype(name: &str, schema: &OaSchema, d: &OaDocument) -> (r: crate::hir::NewType)
    ensures
        r.name@ == name@,
        r.doc is None,
        r.ty == spec_concrete_ty(*schema, *d),
        r.public,
{
    let ty = concrete_schema_to_ty(schema, d);
    crate::hir::NewType { name: String::from_str(name), doc: None, ty, public: true }
}

/// The documentation of a schema: its description, verbatim.
pub fn extract_schema_docs(schema: &OaSchema) -> (r: Option<String>)
    ensures
        (match (r, schema.data.description) {
            (Some(a), Some(b)) => a@ == b@,
            (None, None) => true,
            _ => false,
        }),
{
    clone_opt_string(&schema.data.description)
}

} // verus!
