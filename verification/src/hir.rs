//! The intermediate representation: a closed type algebra, named records,
//! operations, authorization strategies, and the aggregate `MirSpec`.
//!
//! `Ty::Model` is a by-name reference into the schema table; record bodies
//! live only in that table, which keeps cyclic schema graphs representable.

use vstd::prelude::*;
use crate::strutil::is_suffix_of;

verus! {

/// Where a parameter travels in an HTTP request.
#[derive(Clone, Copy, Debug, PartialEq, Eq, Structural)]
pub enum Location {
    Path,
    Query,
    Header,
    Cookie,
    Body,
}

/// The closed type algebra of the IR.
#[derive(Debug, PartialEq, Eq)]
pub enum Ty {
    Unit,
    Any,
    Str,
    Int,
    Float,
    Bool,
    Bytes,
    DateTime,
    Array(Box<Ty>),
    Dict(Box<Ty>),
    /// A non-owning reference to a named record in the schema table.
    Model(String),
}

/// The record name a type refers to, digging through containers.
pub open spec fn ty_model(t: Ty) -> Option<Seq<char>>
    decreases t,
{
    match t {
        Ty::Model(n) => Some(n@),
        Ty::Array(inner) => ty_model(*inner),
        Ty::Dict(inner) => ty_model(*inner),
        _ => None,
    }
}

impl Clone for Ty {
    /// A structural copy.
    fn clone(&self) -> (r: Ty)
        ensures
            r == *self,
        decreases *self,
    {
        match self {
            Ty::Unit => Ty::Unit,
            Ty::Any => Ty::Any,
            Ty::Str => Ty::Str,
            Ty::Int => Ty::Int,
            Ty::Float => Ty::Float,
            Ty::Bool => Ty::Bool,
            Ty::Bytes => Ty::Bytes,
            Ty::DateTime => Ty::DateTime,
            Ty::Array(inner) => Ty::Array(Box::new((**inner).clone())),
            Ty::Dict(inner) => Ty::Dict(Box::new((**inner).clone())),
            Ty::Model(n) => Ty::Model(n.clone()),
        }
    }
}

impl Ty {
    /// The name of the record this type refers to, if any.
    pub fn inner_model(&self) -> (r: Option<&String>)
        ensures
            (match r {
                Some(n) => ty_model(*self) == Some(n@),
                None => ty_model(*self) is None,
            }),
        decreases *self,
    {
        match self {
            Ty::Model(n) => Some(n),
            Ty::Array(inner) => inner.inner_model(),
            Ty::Dict(inner) => inner.inner_model(),
            _ => None,
        }
    }
}

/// A named field of a record.
#[derive(Clone, Debug, PartialEq, Eq)]
pub struct Field {
    pub name: String,
    pub ty: Ty,
    pub optional: bool,
    /// An example value, carried as its serialized text.
    pub example: Option<String>,
    pub doc: Option<String>,
}

/// A variant of an enumerated record, with an optional associated value.
#[derive(Clone, Debug, PartialEq, Eq)]
pub struct EnumVariant {
    pub name: String,
    pub value: Option<String>,
}

/// A struct record body.
#[derive(Clone, Debug, PartialEq, Eq)]
pub struct StructRecord {
    pub name: String,
    pub fields: Vec<Field>,
}

/// An enum record body.
#[derive(Clone, Debug, PartialEq, Eq)]
pub struct EnumRecord {
    pub name: String,
    pub variants: Vec<EnumVariant>,
}

/// A named data shape in the schema table.
#[derive(Clone, Debug, PartialEq, Eq)]
pub enum Record {
    Struct(StructRecord),
    Enum(EnumRecord),
    /// An alias, wrapped as a single synthetic field carrying optionality.
    TypeAlias(String, Field),
}

/// The fields a record carries types in.
pub open spec fn record_fields(r: Record) -> Seq<Field> {
    match r {
        Record::Struct(s) => s.fields@,
        Record::Enum(_) => Seq::empty(),
        Record::TypeAlias(_, f) => seq![f],
    }
}

/// Whether a record is a trivially optional wrapper.
pub open spec fn record_optional(r: Record) -> bool {
    match r {
        Record::TypeAlias(_, f) => f.optional,
        _ => false,
    }
}

impl Record {
    /// Whether this record is a trivially optional wrapper.
    pub fn optional(&self) -> (b: bool)
        ensures
            b == record_optional(*self),
    {
        match self {
            Record::TypeAlias(_, f) => f.optional,
            _ => false,
        }
    }
}

/// A named wrapper around one entry of the type algebra.
#[derive(Clone, Debug, PartialEq, Eq)]
pub struct NewType {
    pub name: String,
    pub doc: Option<String>,
    pub ty: Ty,
    pub public: bool,
}

/// An extracted operation parameter.
#[derive(Clone, Debug, PartialEq, Eq)]
pub struct Parameter {
    pub name: String,
    pub ty: Ty,
    pub optional: bool,
    pub location: Location,
    pub example: Option<String>,
    pub doc: Option<String>,
}

/// An extracted API operation.
#[derive(Clone, Debug, PartialEq, Eq)]
pub struct Operation {
    pub name: String,
    pub doc: Option<String>,
    pub parameters: Vec<Parameter>,
    pub ret: Ty,
    pub path: String,
    pub method: String,
}

/// The flavor of documentation pointer sentences.
#[derive(Clone, Copy, Debug, PartialEq, Eq, Structural)]
pub enum DocFormat {
    Markdown,
    Rst,
}

/// What can go wrong while extracting, named by the missing piece.
#[derive(Clone, Copy, Debug, PartialEq, Eq, Structural)]
pub enum ExtractError {
    /// A parameter `$ref` does not land on a declared component parameter.
    ParamRefUnresolved,
    /// A declared parameter carries no schema.
    ParamMissingSchema,
    /// The operation declares no request body.
    NoRequestBody,
    /// A request-body `$ref` does not land on a declared component body.
    BodyRefUnresolved,
    /// The request body carries no JSON content schema.
    NoJsonBody,
    /// A security scheme outside the supported shapes.
    UnsupportedAuthScheme,
    /// An HTTP auth scheme string outside the recognized set.
    UnknownHttpAuthScheme,
}

/// Normalized classification of where a credential is transmitted.
#[derive(Clone, Debug, PartialEq, Eq)]
pub enum AuthLocation {
    Basic,
    Bearer,
    Token,
    Header { key: String },
    Query { key: String },
    Cookie { key: String },
}

/// One credential of an authorization strategy.
#[derive(Clone, Debug, PartialEq, Eq)]
pub struct AuthorizationParameter {
    pub name: String,
    pub env_var: String,
    pub location: AuthLocation,
}

/// One authorization strategy, keyed by the security-scheme name.
#[derive(Clone, Debug, PartialEq, Eq)]
pub struct AuthorizationStrategy {
    pub name: String,
    pub fields: Vec<AuthorizationParameter>,
}

/// The extracted intermediate representation of an API surface.
#[derive(Clone, Debug, PartialEq, Eq)]
pub struct MirSpec {
    pub operations: Vec<Operation>,
    /// The schema table: an insertion-ordered mapping from name to record.
    pub schemas: Vec<(String, Record)>,
    /// Base URLs keyed by environment keyword.
    pub servers: Vec<(String, String)>,
    pub security: Vec<AuthorizationStrategy>,
    pub api_docs_url: Option<String>,
}

/// Whether record `r` has a field referring to the record named `n`.
pub open spec fn record_uses(r: Record, n: Seq<char>) -> bool {
    exists|i: int|
        0 <= i < record_fields(r).len() && ty_model(record_fields(r)[i].ty) == Some(n)
}

/// Whether operation `o` refers to the record named `n` in its return type
/// or in one of its parameters.
pub open spec fn op_uses(o: Operation, n: Seq<char>) -> bool {
    ||| ty_model(o.ret) == Some(n)
    ||| exists|i: int| 0 <= i < o.parameters@.len() && ty_model(o.parameters@[i].ty) == Some(n)
}

/// Whether any record of `schemas` or operation of `ops` refers to the
/// record named `n`.
pub open spec fn spec_uses(
    schemas: Seq<(String, Record)>,
    ops: Seq<Operation>,
    n: Seq<char>,
) -> bool {
    ||| exists|i: int| 0 <= i < schemas.len() && record_uses(schemas[i].1, n)
    ||| exists|i: int| 0 <= i < ops.len() && op_uses(ops[i], n)
}

/// The reserved suffix of webhook payload records, retained by pruning
/// regardless of reachability.
pub open spec fn webhook_suffix() -> Seq<char> {
    seq!['W', 'e', 'b', 'h', 'o', 'o', 'k']
}

/// Whether a record name is retained by one pruning pass.
pub open spec fn kept_by_prune(
    schemas: Seq<(String, Record)>,
    ops: Seq<Operation>,
    n: Seq<char>,
) -> bool {
    spec_uses(schemas, ops, n) || is_suffix_of(webhook_suffix(), n)
}

/// One reachability-pruning pass: retains the records that are referred to
/// from somewhere, or whose names carry the webhook suffix.
pub open spec fn prune_once(
    schemas: Seq<(String, Record)>,
    ops: Seq<Operation>,
) -> Seq<(String, Record)> {
    schemas.filter(|p: (String, Record)| kept_by_prune(schemas, ops, p.0@))
}

/// Whether `n` is a key of the schema table.
pub open spec fn has_key(schemas: Seq<(String, Record)>, n: Seq<char>) -> bool {
    exists|i: int| 0 <= i < schemas.len() && schemas[i].0@ == n
}

/// Whether the name of every record referred to from any record or
/// operation is a key of the schema table: no dangling references.
pub open spec fn closed_spec(schemas: Seq<(String, Record)>, ops: Seq<Operation>) -> bool {
    forall|n: Seq<char>| #[trigger] spec_uses(schemas, ops, n) ==> has_key(schemas, n)
}

} // verus!
