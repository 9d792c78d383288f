//! The input document model: the parts of an OpenAPI 3 document that the
//! extraction pipeline reads, held as plain values. Parsing the raw
//! specification text into this shape is the surrounding command layer's
//! job; the pipeline itself is a pure transformation over one `OaDocument`.
//!
//! Only JSON-media-typed request and response bodies are represented; other
//! media types are treated as absent.

use vstd::prelude::*;

verus! {

/// A value standing in the document, or a `$ref` to a named component.
#[derive(Clone, Debug, PartialEq, Eq)]
pub enum RefOr<T> {
    Reference { name: String },
    Item(T),
}

/// Metadata every schema carries.
#[derive(Clone, Debug, PartialEq, Eq)]
pub struct OaSchemaData {
    pub nullable: bool,
    pub description: Option<String>,
    /// An example value, carried as its serialized text.
    pub example: Option<String>,
}

/// A string schema.
#[derive(Clone, Debug, PartialEq, Eq)]
pub struct OaStringType {
    pub format: Option<String>,
    pub enumeration: Vec<String>,
}

/// An object schema.
#[derive(Debug, PartialEq, Eq)]
pub struct OaObjectType {
    /// Properties in the document's declared order.
    pub properties: Vec<(String, RefOr<Box<OaSchema>>)>,
    pub required: Vec<String>,
    pub additional: Option<RefOr<Box<OaSchema>>>,
}

/// An array schema.
#[derive(Debug, PartialEq, Eq)]
pub struct OaArrayType {
    pub items: Option<RefOr<Box<OaSchema>>>,
}

/// A typed schema node.
#[derive(Debug, PartialEq, Eq)]
pub enum OaType {
    OaString(OaStringType),
    OaNumber,
    OaInteger,
    OaBoolean,
    OaObject(OaObjectType),
    OaArray(OaArrayType),
}

/// The shape of a schema node.
#[derive(Debug, PartialEq, Eq)]
pub enum OaSchemaKind {
    Typed(OaType),
    OneOf { alternatives: Vec<RefOr<Box<OaSchema>>> },
    AnyOf { alternatives: Vec<RefOr<Box<OaSchema>>> },
    AllOf { parts: Vec<RefOr<Box<OaSchema>>> },
    /// A schema with no constraining shape.
    AnyShape,
}

/// A schema node.
#[derive(Debug, PartialEq, Eq)]
pub struct OaSchema {
    pub data: OaSchemaData,
    pub kind: OaSchemaKind,
}

/// Where a declared parameter travels.
#[derive(Clone, Copy, Debug, PartialEq, Eq, Structural)]
pub enum OaParamKind {
    Path,
    Query,
    Header,
    Cookie,
}

/// A declared operation or path-item parameter.
#[derive(Debug, PartialEq, Eq)]
pub struct OaParameter {
    pub name: String,
    pub kind: OaParamKind,
    pub required: bool,
    pub schema: Option<RefOr<Box<OaSchema>>>,
}

/// A request body; only its JSON content schema is read.
#[derive(Debug, PartialEq, Eq)]
pub struct OaRequestBody {
    pub json_schema: Option<RefOr<Box<OaSchema>>>,
}

/// A response; only its JSON content schema is read.
#[derive(Debug, PartialEq, Eq)]
pub struct OaResponse {
    pub json_schema: Option<RefOr<Box<OaSchema>>>,
}

/// One operation under a path, keyed by its HTTP method in `OaPathItem`.
#[derive(Debug, PartialEq, Eq)]
pub struct OaOperation {
    pub operation_id: Option<String>,
    pub summary: Option<String>,
    pub description: Option<String>,
    pub external_docs_url: Option<String>,
    pub parameters: Vec<RefOr<OaParameter>>,
    pub request_body: Option<RefOr<OaRequestBody>>,
    /// Responses keyed by numeric status code.
    pub responses: Vec<(u16, RefOr<OaResponse>)>,
}

/// A path item: path-level parameters and per-method operations.
#[derive(Debug, PartialEq, Eq)]
pub struct OaPathItem {
    pub parameters: Vec<RefOr<OaParameter>>,
    /// Operations keyed by lowercase HTTP method, in declaration order.
    pub operations: Vec<(String, OaOperation)>,
}

/// A declared server.
#[derive(Clone, Debug, PartialEq, Eq)]
pub struct OaServer {
    pub url: String,
    pub description: Option<String>,
}

/// Where an API key travels.
#[derive(Clone, Copy, Debug, PartialEq, Eq, Structural)]
pub enum OaApiKeyLocation {
    Header,
    Query,
    Cookie,
}

/// A declared security scheme.
#[derive(Clone, Debug, PartialEq, Eq)]
pub enum OaSecurityScheme {
    ApiKey { location: OaApiKeyLocation, name: String },
    Http { scheme: String },
    /// OAuth2, OpenID Connect, and other shapes the pipeline does not model.
    Other,
}

/// The parts of a parsed OpenAPI document that the pipeline reads.
#[derive(Debug, PartialEq, Eq)]
pub struct OaDocument {
    /// Path items keyed by path template, in declaration order.
    pub paths: Vec<(String, OaPathItem)>,
    /// `components.schemas`, in declaration order.
    pub schemas: Vec<(String, RefOr<Box<OaSchema>>)>,
    /// `components.parameters`.
    pub parameters: Vec<(String, OaParameter)>,
    /// `components.requestBodies`.
    pub request_bodies: Vec<(String, OaRequestBody)>,
    /// `components.responses`.
    pub responses: Vec<(String, OaResponse)>,
    /// `components.securitySchemes`.
    pub security_schemes: Vec<(String, OaSecurityScheme)>,
    /// Top-level security requirements: the ordered scheme names of each.
    pub security: Vec<Vec<String>>,
    pub servers: Vec<OaServer>,
    pub external_docs_url: Option<String>,
}

/// First entry of `entries` keyed by `n`, if any.
pub open spec fn lookup<T>(entries: Seq<(String, T)>, n: Seq<char>) -> Option<T>
    decreases entries.len(),
{
    if entries.len() == 0 {
        None
    } else if entries[0].0@ == n {
        Some(entries[0].1)
    } else {
        lookup(entries.skip(1), n)
    }
}

/// Linear search for the first entry keyed by `name`.
pub fn find_entry<'a, T>(entries: &'a Vec<(String, T)>, name: &str) -> (r: Option<&'a T>)
    ensures
        (match r {
            Some(t) => lookup(entries@, name@) == Some(*t),
            None => lookup(entries@, name@) is None,
        }),
{
    let n = entries.len();
    let mut i: usize = 0;
    proof {
        assert(entries@.skip(0) =~= entries@);
    }
    while i < n
        invariant
            n == entries@.len(),
            i <= n,
            lookup(entries@, name@) == lookup(entries@.skip(i as int), name@),
        decreases n - i,
    {
        if crate::strutil::str_eq(entries[i].0.as_str(), name) {
            proof {
                assert(entries@.skip(i as int)[0] == entries@[i as int]);
            }
            return Some(&entries[i].1);
        }
        proof {
            assert(entries@.skip(i as int)[0] == entries@[i as int]);
            assert(entries@.skip(i as int).skip(1) =~= entries@.skip(i + 1));
        }
        i += 1;
    }
    None
}

/// A value found by lookup stands in the entry list under that key.
pub proof fn lemma_lookup_in<T>(entries: Seq<(String, T)>, n: Seq<char>, v: T)
    requires
        lookup(entries, n) == Some(v),
    ensures
        exists|i: int| 0 <= i < entries.len() && entries[i].1 == v && entries[i].0@ == n,
    decreases entries.len(),
{
    if entries.len() > 0 {
        if entries[0].0@ == n {
            assert(entries[0].1 == v);
        } else {
            lemma_lookup_in(entries.skip(1), n, v);
            let i = choose|i: int|
                0 <= i < entries.skip(1).len() && entries.skip(1)[i].1 == v && entries.skip(
                    1,
                )[i].0@ == n;
            assert(entries[i + 1].1 == v && entries[i + 1].0@ == n);
        }
    }
}

/// Whether `n` names a component schema held directly as an item.
pub open spec fn ref_resolves(d: OaDocument, n: Seq<char>) -> bool {
    match lookup(d.schemas@, n) {
        Some(RefOr::Item(_)) => true,
        _ => false,
    }
}

/// The component schema named `n`.
pub open spec fn resolved_schema(d: OaDocument, n: Seq<char>) -> OaSchema
    recommends
        ref_resolves(d, n),
{
    match lookup(d.schemas@, n) {
        Some(RefOr::Item(s)) => *s,
        _ => arbitrary(),
    }
}

/// A schema node whose property references all resolve, recursively through
/// inline objects. Property references are followed one hop when field
/// optionality is read, so they must land on component schemas held as items.
pub open spec fn schema_wf(s: OaSchema, d: OaDocument) -> bool
    decreases s,
{
    match s.kind {
        OaSchemaKind::Typed(OaType::OaObject(obj)) => forall|i: int|
            0 <= i < obj.properties@.len() ==> schema_ref_wf(
                (#[trigger] obj.properties@[i]).1,
                d,
            ),
        _ => true,
    }
}

/// The property references of a well-formed object schema resolve.
pub proof fn lemma_schema_wf_properties(s: OaSchema, d: OaDocument, i: int)
    requires
        schema_wf(s, d),
        s.kind is Typed,
        s.kind->Typed_0 is OaObject,
        0 <= i < s.kind->Typed_0->OaObject_0.properties@.len(),
    ensures
        schema_ref_wf(s.kind->Typed_0->OaObject_0.properties@[i].1, d),
{
}

/// Well-formedness of a schema-or-reference node.
pub open spec fn schema_ref_wf(r: RefOr<Box<OaSchema>>, d: OaDocument) -> bool
    decreases r,
{
    match r {
        RefOr::Reference { name } => ref_resolves(d, name@),
        RefOr::Item(s) => schema_wf(*s, d),
    }
}

/// A parameter whose schema, if present, is well-formed.
pub open spec fn param_wf(p: OaParameter, d: OaDocument) -> bool {
    match p.schema {
        Some(r) => schema_ref_wf(r, d),
        None => true,
    }
}

/// A parameter-or-reference whose reference, if any, lands on a component.
pub open spec fn param_ref_wf(r: RefOr<OaParameter>, d: OaDocument) -> bool {
    match r {
        RefOr::Reference { name } => (match lookup(d.parameters@, name@) {
            Some(p) => param_wf(p, d),
            None => true,
        }),
        RefOr::Item(p) => param_wf(p, d),
    }
}

/// A request body whose JSON schema, if present, is well-formed.
pub open spec fn body_wf(b: OaRequestBody, d: OaDocument) -> bool {
    match b.json_schema {
        Some(r) => schema_ref_wf(r, d),
        None => true,
    }
}

/// A body-or-reference node: the reference must land on a component.
pub open spec fn body_ref_wf(r: RefOr<OaRequestBody>, d: OaDocument) -> bool {
    match r {
        RefOr::Reference { name } => (match lookup(d.request_bodies@, name@) {
            Some(b) => body_wf(b, d),
            None => true,
        }),
        RefOr::Item(b) => body_wf(b, d),
    }
}

/// A response-or-reference node: the reference must land on a component.
pub open spec fn response_ref_wf(r: RefOr<OaResponse>, d: OaDocument) -> bool {
    match r {
        RefOr::Reference { name } => lookup(d.responses@, name@) is Some,
        RefOr::Item(_) => true,
    }
}

/// Well-formedness of one operation.
pub open spec fn op_wf(o: OaOperation, d: OaDocument) -> bool {
    &&& forall|i: int|
        0 <= i < o.parameters@.len() ==> #[trigger] param_ref_wf(o.parameters@[i], d)
    &&& (match o.request_body {
        Some(r) => body_ref_wf(r, d),
        None => true,
    })
    &&& forall|i: int|
        0 <= i < o.responses@.len() ==> #[trigger] response_ref_wf(o.responses@[i].1, d)
}

/// Well-formedness of one path item.
pub open spec fn path_item_wf(item: OaPathItem, d: OaDocument) -> bool {
    &&& forall|i: int|
        0 <= i < item.parameters@.len() ==> #[trigger] param_ref_wf(item.parameters@[i], d)
    &&& forall|i: int|
        0 <= i < item.operations@.len() ==> #[trigger] op_wf(item.operations@[i].1, d)
}

/// Every security requirement is non-empty and every scheme name it lists
/// is declared under `components.securitySchemes`.
pub open spec fn security_wf(d: OaDocument) -> bool {
    forall|i: int|
        0 <= i < d.security@.len() ==> {
            &&& #[trigger] d.security@[i]@.len() > 0
            &&& forall|j: int|
                0 <= j < d.security@[i]@.len() ==> lookup(
                    d.security_schemes@,
                    #[trigger] d.security@[i]@[j]@,
                ) is Some
        }
}

/// The document shape the pipeline requires: references it follows resolve,
/// and security requirements name declared schemes.
pub open spec fn doc_wf(d: OaDocument) -> bool {
    &&& forall|i: int|
        0 <= i < d.schemas@.len() ==> (match #[trigger] d.schemas@[i].1 {
            RefOr::Item(s) => schema_wf(*s, d),
            RefOr::Reference { .. } => true,
        })
    &&& forall|i: int|
        0 <= i < d.parameters@.len() ==> #[trigger] param_wf(d.parameters@[i].1, d)
    &&& forall|i: int|
        0 <= i < d.request_bodies@.len() ==> #[trigger] body_wf(d.request_bodies@[i].1, d)
    &&& forall|i: int|
        0 <= i < d.paths@.len() ==> #[trigger] path_item_wf(d.paths@[i].1, d)
    &&& security_wf(d)
}

/// Resolution of a schema-or-reference to a schema node, one hop.
pub open spec fn spec_resolve(r: RefOr<Box<OaSchema>>, d: OaDocument) -> OaSchema {
    match r {
        RefOr::Reference { name } => resolved_schema(d, name@),
        RefOr::Item(s) => *s,
    }
}

/// Follows a schema reference into the component table, or returns the
/// inline schema itself.
pub fn resolve_schema<'a>(r: &'a RefOr<Box<OaSchema>>, d: &'a OaDocument) -> (res: &'a OaSchema)
    requires
        (match *r {
            RefOr::Reference { name } => ref_resolves(*d, name@),
            RefOr::Item(_) => true,
        }),
    ensures
        *res == spec_resolve(*r, *d),
{
    match r {
        RefOr::Item(s) => s,
        RefOr::Reference { name } => {
            let entry = find_entry(&d.schemas, name.as_str());
            match entry {
                Some(RefOr::Item(s)) => s,
                _ => {
                    proof {
                        assert(false);
                    }
                    unreached()
                },
            }
        },
    }
}

} // verus!
