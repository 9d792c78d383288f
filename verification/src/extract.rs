//! The operation extractor: parameter extraction and merging, request-body
//! flattening, success-response selection, and documentation assembly.

use vstd::prelude::*;
use crate::hir::{DocFormat, ExtractError, Location, Operation, Parameter, Ty};
use crate::naming::{op_name, url_wf};
use crate::strutil::{lemma_lex_le_total, lemma_lex_le_trans, lex_le};
use crate::oa::{
    lookup, param_ref_wf, resolve_schema, schema_ref_wf, spec_resolve, OaDocument,
    OaOperation, OaParamKind, OaParameter, OaPathItem, OaRequestBody, OaResponse, OaSchema,
    OaSchemaKind, OaType, RefOr,
};
use crate::resolve::{clone_opt_string, schema_ref_to_ty, spec_is_optional, spec_ref_ty, spec_concrete_ty, concrete_schema_to_ty};

verus! {

/// The IR location of a declared parameter kind.
pub open spec fn loc_of_kind(k: OaParamKind) -> Location {
    match k {
        OaParamKind::Path => Location::Path,
        OaParamKind::Query => Location::Query,
        OaParamKind::Header => Location::Header,
        OaParamKind::Cookie => Location::Cookie,
    }
}

/// Resolution of a parameter-or-reference against the component table.
pub open spec fn resolve_param(r: RefOr<OaParameter>, d: OaDocument) -> Option<OaParameter> {
    match r {
        RefOr::Item(p) => Some(p),
        RefOr::Reference { name } => lookup(d.parameters@, name@),
    }
}

/// The parameter extracted from a declared parameter with schema `sr`.
pub open spec fn spec_param(p: OaParameter, sr: RefOr<Box<OaSchema>>, d: OaDocument) -> Parameter {
    Parameter {
        name: p.name,
        ty: spec_ref_ty(sr, d),
        optional: !p.required,
        location: loc_of_kind(p.kind),
        example: spec_resolve(sr, d).data.example,
        doc: None,
    }
}

/// What parameter extraction returns: the extracted parameter, or the error
/// naming what was missing.
pub open spec fn spec_extract_param(r: RefOr<OaParameter>, d: OaDocument) -> Result<
    Parameter,
    ExtractError,
> {
    match resolve_param(r, d) {
        None => Err(ExtractError::ParamRefUnresolved),
        Some(p) => match p.schema {
            None => Err(ExtractError::ParamMissingSchema),
            Some(sr) => Ok(spec_param(p, sr, d)),
        },
    }
}

/// Extracts one declared parameter: resolves the reference, reads the
/// schema into the type algebra, and keeps the example of the resolved
/// schema. Fails when the reference does not resolve or no schema is given.
pub fn extract_param(r: &RefOr<OaParameter>, d: &OaDocument) -> (res: Result<
    Parameter,
    ExtractError,
>)
    requires
        param_ref_wf(*r, *d),
    ensures
        res == spec_extract_param(*r, *d),
{
    let p: &OaParameter = match r {
        RefOr::Item(p) => p,
        RefOr::Reference { name } => match crate::oa::find_entry(&d.parameters, name.as_str()) {
            Some(p) => p,
            None => {
                return Err(ExtractError::ParamRefUnresolved);
            },
        },
    };
    let sr = match &p.schema {
        Some(sr) => sr,
        None => {
            return Err(ExtractError::ParamMissingSchema);
        },
    };
    let ty = schema_ref_to_ty(sr, d);
    let schema = resolve_schema(sr, d);
    let location = match p.kind {
        OaParamKind::Path => Location::Path,
        OaParamKind::Query => Location::Query,
        OaParamKind::Header => Location::Header,
        OaParamKind::Cookie => Location::Cookie,
    };
    Ok(
        Parameter {
            name: p.name.clone(),
            ty,
            optional: !p.required,
            location,
            example: clone_opt_string(&schema.data.example),
            doc: None,
        },
    )
}

/// Resolution of a request-body-or-reference against the component table.
pub open spec fn resolve_body(r: RefOr<OaRequestBody>, d: OaDocument) -> Option<OaRequestBody> {
    match r {
        RefOr::Item(b) => Some(b),
        RefOr::Reference { name } => lookup(d.request_bodies@, name@),
    }
}

/// What request-schema extraction returns: the resolved JSON body schema,
/// or the error naming what was absent.
pub open spec fn spec_request_schema(op: OaOperation, d: OaDocument) -> Result<
    OaSchema,
    ExtractError,
> {
    match op.request_body {
        None => Err(ExtractError::NoRequestBody),
        Some(r) => match resolve_body(r, d) {
            None => Err(ExtractError::BodyRefUnresolved),
            Some(b) => match b.json_schema {
                None => Err(ExtractError::NoJsonBody),
                Some(sr) => Ok(spec_resolve(sr, d)),
            },
        },
    }
}

/// The JSON schema of an operation's request body, resolved. Fails when the
/// operation has no request body, the body reference does not resolve, or
/// the body carries no JSON content.
pub fn extract_request_schema<'a>(op: &'a OaOperation, d: &'a OaDocument) -> (res: Result<
    &'a OaSchema,
    ExtractError,
>)
    requires
        (match op.request_body {
            Some(r) => crate::oa::body_ref_wf(r, *d),
            None => true,
        }),
    ensures
        (match (res, spec_request_schema(*op, *d)) {
            (Ok(s), Ok(ss)) => *s == ss,
            (Err(e), Err(ee)) => e == ee,
            _ => false,
        }),
{
    let r = match &op.request_body {
        Some(r) => r,
        None => {
            return Err(ExtractError::NoRequestBody);
        },
    };
    let b: &OaRequestBody = match r {
        RefOr::Item(b) => b,
        RefOr::Reference { name } => match crate::oa::find_entry(&d.request_bodies, name.as_str())
             {
            Some(b) => b,
            None => {
                return Err(ExtractError::BodyRefUnresolved);
            },
        },
    };
    let sr = match &b.json_schema {
        Some(sr) => sr,
        None => {
            return Err(ExtractError::NoJsonBody);
        },
    };
    Ok(resolve_schema(sr, d))
}

/// First entry of `responses` carrying status code `code`.
pub open spec fn lookup_code(responses: Seq<(u16, RefOr<OaResponse>)>, code: u16) -> Option<
    RefOr<OaResponse>,
>
    decreases responses.len(),
{
    if responses.len() == 0 {
        None
    } else if responses[0].0 == code {
        Some(responses[0].1)
    } else {
        lookup_code(responses.skip(1), code)
    }
}

/// The first success code the operation declares a response for, if any.
pub open spec fn success_entry(op: OaOperation) -> Option<RefOr<OaResponse>> {
    if lookup_code(op.responses@, 200) is Some {
        lookup_code(op.responses@, 200)
    } else if lookup_code(op.responses@, 201) is Some {
        lookup_code(op.responses@, 201)
    } else if lookup_code(op.responses@, 202) is Some {
        lookup_code(op.responses@, 202)
    } else if lookup_code(op.responses@, 204) is Some {
        lookup_code(op.responses@, 204)
    } else {
        lookup_code(op.responses@, 302)
    }
}

/// Resolution of a response-or-reference against the component table.
pub open spec fn resolve_response(r: RefOr<OaResponse>, d: OaDocument) -> Option<OaResponse> {
    match r {
        RefOr::Item(b) => Some(b),
        RefOr::Reference { name } => lookup(d.responses@, name@),
    }
}

/// The JSON schema of the selected success response, if one exists.
pub open spec fn spec_response_success(op: OaOperation, d: OaDocument) -> Option<
    RefOr<Box<OaSchema>>,
> {
    match success_entry(op) {
        None => None,
        Some(r) => match resolve_response(r, d) {
            Some(resp) => resp.json_schema,
            None => None,
        },
    }
}

/// First entry of the response table carrying `code`.
fn find_response<'a>(op: &'a OaOperation, code: u16) -> (res: Option<&'a RefOr<OaResponse>>)
    ensures
        (match res {
            Some(r) => lookup_code(op.responses@, code) == Some(*r),
            None => lookup_code(op.responses@, code) is None,
        }),
{
    let n = op.responses.len();
    let mut i: usize = 0;
    proof {
        assert(op.responses@.skip(0) =~= op.responses@);
    }
    while i < n
        invariant
            n == op.responses@.len(),
            i <= n,
            lookup_code(op.responses@, code) == lookup_code(op.responses@.skip(i as int), code),
        decreases n - i,
    {
        proof {
            assert(op.responses@.skip(i as int)[0] == op.responses@[i as int]);
            assert(op.responses@.skip(i as int).skip(1) =~= op.responses@.skip(i + 1));
        }
        if op.responses[i].0 == code {
            return Some(&op.responses[i].1);
        }
        i += 1;
    }
    None
}

/// Selects the success response by the fixed priority order 200, 201, 202,
/// 204, 302, and hands back its JSON schema node, if any. A response
/// reference that does not resolve is outside the documents this pipeline
/// accepts, so the well-formedness bound excludes it.
pub fn extract_response_success<'a>(op: &'a OaOperation, d: &'a OaDocument) -> (res: Option<
    &'a RefOr<Box<OaSchema>>,
>)
    requires
        crate::oa::op_wf(*op, *d),
    ensures
        (match res {
            Some(r) => spec_response_success(*op, *d) == Some(*r),
            None => spec_response_success(*op, *d) is None,
        }),
{
    let mut entry = find_response(op, 200);
    if entry.is_none() {
        entry = find_response(op, 201);
    }
    if entry.is_none() {
        entry = find_response(op, 202);
    }
    if entry.is_none() {
        entry = find_response(op, 204);
    }
    if entry.is_none() {
        entry = find_response(op, 302);
    }
    let r = match entry {
        None => {
            return None;
        },
        Some(r) => r,
    };
    proof {
        lemma_lookup_code_in(op.responses@, *r);
        let i = choose|i: int| 0 <= i < op.responses@.len() && op.responses@[i].1 == *r;
        assert(crate::oa::response_ref_wf(op.responses@[i].1, *d));
    }
    let resp: &OaResponse = match r {
        RefOr::Item(b) => b,
        RefOr::Reference { name } => match crate::oa::find_entry(&d.responses, name.as_str()) {
            Some(b) => b,
            None => {
                proof {
                    assert(false);
                }
                unreached()
            },
        },
    };
    match &resp.json_schema {
        Some(sr) => Some(sr),
        None => None,
    }
}

/// The name of a synthetic body parameter.
pub open spec fn body_param_name() -> Seq<char> {
    seq!['b', 'o', 'd', 'y']
}

/// Extraction of a parameter list: the first failure wins, else the
/// extracted parameters in order.
pub open spec fn spec_extract_params(prs: Seq<RefOr<OaParameter>>, d: OaDocument) -> Result<
    Seq<Parameter>,
    ExtractError,
>
    decreases prs.len(),
{
    if prs.len() == 0 {
        Ok(Seq::empty())
    } else {
        match spec_extract_param(prs[0], d) {
            Err(e) => Err(e),
            Ok(p) => match spec_extract_params(prs.skip(1), d) {
                Err(e) => Err(e),
                Ok(rest) => Ok(seq![p] + rest),
            },
        }
    }
}

/// Whether some parameter of `ps` is named `n`.
pub open spec fn names_contain(ps: Seq<Parameter>, n: Seq<char>) -> bool {
    exists|i: int| 0 <= i < ps.len() && ps[i].name@ == n
}

/// Appends the parameters of `extra` whose names are not already taken,
/// in order; the earlier list takes precedence on a name collision.
pub open spec fn merge_params(base: Seq<Parameter>, extra: Seq<Parameter>) -> Seq<Parameter>
    decreases extra.len(),
{
    if extra.len() == 0 {
        base
    } else {
        let b2 = if names_contain(base, extra[0].name@) {
            base
        } else {
            base.push(extra[0])
        };
        merge_params(b2, extra.skip(1))
    }
}

/// The parameter flattened out of one request-body object property. The
/// example carried is the enclosing body schema's.
pub open spec fn spec_body_param(
    pname: String,
    pref: RefOr<Box<OaSchema>>,
    parent: OaSchema,
    d: OaDocument,
) -> Parameter {
    Parameter {
        name: pname,
        ty: spec_ref_ty(pref, d),
        optional: spec_is_optional(pname@, spec_resolve(pref, d), parent),
        location: Location::Body,
        example: parent.data.example,
        doc: None,
    }
}

/// Flattens the body object's properties into the parameter list, skipping
/// properties whose names are already present.
pub open spec fn add_body_props(
    acc: Seq<Parameter>,
    props: Seq<(String, RefOr<Box<OaSchema>>)>,
    parent: OaSchema,
    d: OaDocument,
) -> Seq<Parameter>
    decreases props.len(),
{
    if props.len() == 0 {
        acc
    } else {
        let p = spec_body_param(props[0].0, props[0].1, parent, d);
        let acc2 = if names_contain(acc, p.name@) {
            acc
        } else {
            acc.push(p)
        };
        add_body_props(acc2, props.skip(1), parent, d)
    }
}

/// The synthetic parameter for an array-shaped request body.
pub open spec fn body_array_param_matches(p: Parameter, schema: OaSchema, d: OaDocument) -> bool {
    &&& p.name@ == body_param_name()
    &&& p.ty == spec_concrete_ty(schema, d)
    &&& !p.optional
    &&& p.location == Location::Body
    &&& p.example == schema.data.example
    &&& p.doc is None
}

/// The opaque parameter for a request body of any other shape.
pub open spec fn opaque_body_param_matches(p: Parameter, schema: OaSchema) -> bool {
    &&& p.name@ == body_param_name()
    &&& p.ty == Ty::Any
    &&& !p.optional
    &&& p.location == Location::Body
    &&& p.example == schema.data.example
    &&& p.doc is None
}

/// What input extraction returns: operation parameters first, path-item
/// parameters appended unless shadowed by name, then the request body
/// flattened in; a body that cannot be read contributes nothing.
pub open spec fn inputs_match(
    res: Result<Seq<Parameter>, ExtractError>,
    op: OaOperation,
    item: OaPathItem,
    d: OaDocument,
) -> bool {
    match spec_extract_params(op.parameters@, d) {
        Err(e) => res == Err::<Seq<Parameter>, ExtractError>(e),
        Ok(ops_params) => match spec_extract_params(item.parameters@, d) {
            Err(e) => res == Err::<Seq<Parameter>, ExtractError>(e),
            Ok(item_params) => {
                let merged = merge_params(ops_params, item_params);
                match spec_request_schema(op, d) {
                    Err(_) => res matches Ok(out) && out == merged,
                    Ok(schema) => match schema.kind {
                        OaSchemaKind::Typed(OaType::OaArray(_)) => res matches Ok(out) && {
                            &&& out.len() == merged.len() + 1
                            &&& out.take(merged.len() as int) == merged
                            &&& body_array_param_matches(out.last(), schema, d)
                        },
                        OaSchemaKind::Typed(OaType::OaObject(obj)) => res matches Ok(out) && out
                            == add_body_props(merged, obj.properties@, schema, d),
                        _ => res matches Ok(out) && {
                            &&& out.len() == merged.len() + 1
                            &&& out.take(merged.len() as int) == merged
                            &&& opaque_body_param_matches(out.last(), schema)
                        },
                    },
                }
            },
        },
    }
}

/// Extracts a declared parameter list in order, stopping at the first
/// failure.
fn extract_params(prs: &Vec<RefOr<OaParameter>>, d: &OaDocument) -> (res: Result<
    Vec<Parameter>,
    ExtractError,
>)
    requires
        forall|i: int| 0 <= i < prs@.len() ==> param_ref_wf(#[trigger] prs@[i], *d),
    ensures
        (match (res, spec_extract_params(prs@, *d)) {
            (Ok(v), Ok(s)) => v@ == s,
            (Err(e), Err(ee)) => e == ee,
            _ => false,
        }),
{
    let n = prs.len();
    let mut out: Vec<Parameter> = Vec::new();
    let mut i: usize = 0;
    proof {
        assert(prs@.skip(0) =~= prs@);
    }
    while i < n
        invariant
            n == prs@.len(),
            i <= n,
            forall|k: int| 0 <= k < prs@.len() ==> param_ref_wf(#[trigger] prs@[k], *d),
            spec_extract_params(prs@, *d) == (match spec_extract_params(
                prs@.skip(i as int),
                *d,
            ) {
                Ok(rest) => Ok::<Seq<Parameter>, ExtractError>(out@ + rest),
                Err(e) => Err::<Seq<Parameter>, ExtractError>(e),
            }),
        decreases n - i,
    {
        proof {
            assert(prs@.skip(i as int)[0] == prs@[i as int]);
            assert(prs@.skip(i as int).skip(1) =~= prs@.skip(i + 1));
        }
        match extract_param(&prs[i], d) {
            Err(e) => {
                return Err(e);
            },
            Ok(p) => {
                let ghost old_out = out@;
                out.push(p);
                proof {
                    if spec_extract_params(prs@.skip(i + 1), *d) is Ok {
                        let rest = spec_extract_params(prs@.skip(i + 1), *d)->Ok_0;
                        assert(old_out + (seq![p] + rest) =~= out@ + rest);
                    }
                }
            },
        }
        i += 1;
    }
    proof {
        assert(prs@.skip(n as int).len() == 0);
        assert(out@ + Seq::<Parameter>::empty() =~= out@);
    }
    Ok(out)
}

/// Whether some parameter of `ps` is named `n`.
fn params_contain(ps: &Vec<Parameter>, n: &str) -> (b: bool)
    ensures
        b == names_contain(ps@, n@),
{
    let m = ps.len();
    let mut i: usize = 0;
    while i < m
        invariant
            m == ps@.len(),
            i <= m,
            forall|j: int| 0 <= j < i ==> ps@[j].name@ != n@,
        decreases m - i,
    {
        if crate::strutil::str_eq(ps[i].name.as_str(), n) {
            return true;
        }
        i += 1;
    }
    false
}

/// Collects an operation's inputs: its own parameters, then path-item
/// parameters not shadowed by name, then the request body flattened into
/// further parameters — one array- or opaque-shaped `body` parameter, or
/// one parameter per object property not already present. A request body
/// that cannot be read (absent, unresolved, or without JSON content)
/// contributes nothing. Parameter extraction failures abort with the first
/// error.
pub fn extract_inputs(op: &OaOperation, item: &OaPathItem, d: &OaDocument) -> (res: Result<
    Vec<Parameter>,
    ExtractError,
>)
    requires
        crate::oa::op_wf(*op, *d),
        forall|i: int|
            0 <= i < item.parameters@.len() ==> param_ref_wf(#[trigger] item.parameters@[i], *d),
        (match spec_request_schema(*op, *d) {
            Ok(s) => crate::oa::schema_wf(s, *d),
            Err(_) => true,
        }),
    ensures
        (match res {
            Ok(v) => inputs_match(Ok(v@), *op, *item, *d),
            Err(e) => inputs_match(Err(e), *op, *item, *d),
        }),
{
    let mut inputs = match extract_params(&op.parameters, d) {
        Ok(v) => v,
        Err(e) => {
            return Err(e);
        },
    };
    let args = match extract_params(&item.parameters, d) {
        Ok(v) => v,
        Err(e) => {
            return Err(e);
        },
    };
    let ghost ops_params = spec_extract_params(op.parameters@, *d)->Ok_0;
    let ghost item_params = spec_extract_params(item.parameters@, *d)->Ok_0;
    let ghost merged = merge_params(ops_params, item_params);
    let na = args.len();
    let mut j: usize = 0;
    proof {
        assert(args@.skip(0) =~= args@);
    }
    while j < na
        invariant
            na == args@.len(),
            j <= na,
            args@ == item_params,
            merge_params(inputs@, args@.skip(j as int)) == merged,
        decreases na - j,
    {
        proof {
            assert(args@.skip(j as int)[0] == args@[j as int]);
            assert(args@.skip(j as int).skip(1) =~= args@.skip(j + 1));
        }
        let present = params_contain(&inputs, args[j].name.as_str());
        if !present {
            let p = extract_param_copy(&args, j);
            inputs.push(p);
        }
        j += 1;
    }
    proof {
        assert(args@.skip(na as int).len() == 0);
    }
    let schema = match extract_request_schema(op, d) {
        Err(_) => {
            return Ok(inputs);
        },
        Ok(s) => s,
    };
    proof {
        reveal_strlit("body");
        assert("body"@ =~= body_param_name());
    }
    match &schema.kind {
        OaSchemaKind::Typed(OaType::OaArray(_)) => {
            let ty = concrete_schema_to_ty(schema, d);
            let ghost before = inputs@;
            inputs.push(
                Parameter {
                    name: String::from_str("body"),
                    ty,
                    optional: false,
                    location: Location::Body,
                    example: clone_opt_string(&schema.data.example),
                    doc: None,
                },
            );
            proof {
                assert(inputs@.take(merged.len() as int) =~= before);
            }
            Ok(inputs)
        },
        OaSchemaKind::Typed(OaType::OaObject(obj)) => {
            let np = obj.properties.len();
            let mut k: usize = 0;
            proof {
                assert(obj.properties@.skip(0) =~= obj.properties@);
            }
            while k < np
                invariant
                    np == obj.properties@.len(),
                    k <= np,
                    schema.kind is Typed,
                    schema.kind->Typed_0 is OaObject,
                    *obj == schema.kind->Typed_0->OaObject_0,
                    crate::oa::schema_wf(*schema, *d),
                    add_body_props(inputs@, obj.properties@.skip(k as int), *schema, *d)
                        == add_body_props(merged, obj.properties@, *schema, *d),
                decreases np - k,
            {
                proof {
                    assert(obj.properties@.skip(k as int)[0] == obj.properties@[k as int]);
                    assert(obj.properties@.skip(k as int).skip(1) =~= obj.properties@.skip(
                        k + 1,
                    ));
                    crate::oa::lemma_schema_wf_properties(*schema, *d, k as int);
                }
                let pname = &obj.properties[k].0;
                let pref = &obj.properties[k].1;
                let present = params_contain(&inputs, pname.as_str());
                if !present {
                    let ty = schema_ref_to_ty(pref, d);
                    let resolved = resolve_schema(pref, d);
                    let optional = crate::resolve::is_optional(pname.as_str(), resolved, schema);
                    inputs.push(
                        Parameter {
                            name: pname.clone(),
                            ty,
                            optional,
                            location: Location::Body,
                            example: clone_opt_string(&schema.data.example),
                            doc: None,
                        },
                    );
                }
                k += 1;
            }
            proof {
                assert(obj.properties@.skip(np as int).len() == 0);
            }
            Ok(inputs)
        },
        _ => {
            let ghost before = inputs@;
            inputs.push(
                Parameter {
                    name: String::from_str("body"),
                    ty: Ty::Any,
                    optional: false,
                    location: Location::Body,
                    example: clone_opt_string(&schema.data.example),
                    doc: None,
                },
            );
            proof {
                assert(inputs@.take(merged.len() as int) =~= before);
            }
            Ok(inputs)
        },
    }
}

/// A copy of the parameter at `j`.
fn extract_param_copy(ps: &Vec<Parameter>, j: usize) -> (p: Parameter)
    requires
        j < ps@.len(),
    ensures
        p == ps@[j as int],
{
    let q = &ps[j];
    Parameter {
        name: q.name.clone(),
        ty: q.ty.clone(),
        optional: q.optional,
        location: q.location,
        example: clone_opt_string(&q.example),
        doc: clone_opt_string(&q.doc),
    }
}

/// The pointer sentence linking an operation's external documentation.
pub open spec fn docs_sentence(format: DocFormat, url: Seq<char>) -> Seq<char> {
    match format {
        DocFormat::Markdown => "See endpoint docs at <"@ + url + ">."@,
        DocFormat::Rst => "See endpoint docs at `"@ + url + " <"@ + url + ">`_."@,
    }
}

/// The summary piece of an operation's documentation: a non-empty summary.
pub open spec fn summary_piece(op: OaOperation) -> Option<Seq<char>> {
    match op.summary {
        Some(s) => if s@.len() > 0 {
            Some(s@)
        } else {
            None
        },
        None => None,
    }
}

/// The description piece: a non-empty description, skipped when it repeats
/// the summary piece.
pub open spec fn desc_piece(op: OaOperation) -> Option<Seq<char>> {
    match op.description {
        Some(s) => if s@.len() > 0 && !(summary_piece(op) matches Some(x) && x == s@) {
            Some(s@)
        } else {
            None
        },
        None => None,
    }
}

/// The external-documentation piece.
pub open spec fn ext_piece(op: OaOperation, format: DocFormat) -> Option<Seq<char>> {
    match op.external_docs_url {
        Some(u) => Some(docs_sentence(format, u@)),
        None => None,
    }
}

/// An operation's documentation: the non-empty pieces joined with one blank
/// line; no pieces, no documentation.
pub open spec fn spec_operation_doc(op: OaOperation, format: DocFormat) -> Option<Seq<char>> {
    match (summary_piece(op), desc_piece(op), ext_piece(op, format)) {
        (None, None, None) => None,
        (Some(a), None, None) => Some(a),
        (None, Some(b), None) => Some(b),
        (None, None, Some(c)) => Some(c),
        (Some(a), Some(b), None) => Some(a + "\n\n"@ + b),
        (Some(a), None, Some(c)) => Some(a + "\n\n"@ + c),
        (None, Some(b), Some(c)) => Some(b + "\n\n"@ + c),
        (Some(a), Some(b), Some(c)) => Some(a + "\n\n"@ + b + "\n\n"@ + c),
    }
}

/// Assembles an operation's documentation from its summary, description,
/// and external-documentation link.
pub fn extract_operation_doc(op: &OaOperation, format: DocFormat) -> (res: Option<String>)
    ensures
        (match res {
            Some(s) => spec_operation_doc(*op, format) == Some(s@),
            None => spec_operation_doc(*op, format) is None,
        }),
{
    let mut doc = String::new();
    let mut have_summary = false;
    let mut have_any = false;
    if let Some(s) = &op.summary {
        if s.unicode_len() > 0 {
            doc.append(s.as_str());
            have_summary = true;
            have_any = true;
        }
    }
    if let Some(ds) = &op.description {
        if ds.unicode_len() > 0 {
            let dup = if have_summary {
                match &op.summary {
                    Some(s) => crate::strutil::str_eq(ds.as_str(), s.as_str()),
                    None => false,
                }
            } else {
                false
            };
            if !dup {
                if have_any {
                    doc.append("\n\n");
                }
                doc.append(ds.as_str());
                have_any = true;
            }
        }
    }
    if let Some(u) = &op.external_docs_url {
        if have_any {
            doc.append("\n\n");
        }
        match format {
            DocFormat::Markdown => {
                doc.append("See endpoint docs at <");
                doc.append(u.as_str());
                doc.append(">.");
            },
            DocFormat::Rst => {
                doc.append("See endpoint docs at `");
                doc.append(u.as_str());
                doc.append(" <");
                doc.append(u.as_str());
                doc.append(">`_.");
            },
        }
        have_any = true;
    }
    if have_any {
        Some(doc)
    } else {
        None
    }
}

/// Parameters in non-descending name order.
pub open spec fn sorted_by_name(ps: Seq<Parameter>) -> bool {
    forall|i: int, j: int| 0 <= i < j < ps.len() ==> lex_le(ps[i].name@, ps[j].name@)
}

/// Sorts the parameter list by name, for deterministic downstream output.
pub fn sort_params(ps: &mut Vec<Parameter>)
    ensures
        sorted_by_name(final(ps)@),
        final(ps)@.to_multiset() == old(ps)@.to_multiset(),
{
    let n = ps.len();
    let mut i: usize = 1;
    if n == 0 {
        return;
    }
    while i < n
        invariant
            n == ps@.len(),
            1 <= i <= n,
            sorted_by_name(ps@.take(i as int)),
            ps@.to_multiset() == old(ps)@.to_multiset(),
        decreases n - i,
    {
        let ghost s0 = ps@;
        let p = ps.remove(i);
        let ghost s1 = ps@;
        proof {
            assert(forall|k: int| 0 <= k < i ==> s1[k] == s0[k]);
            assert(sorted_by_name(s1.take(i as int))) by {
                assert(s1.take(i as int) =~= s0.take(i as int));
            };
        }
        let mut q: usize = 0;
        while q < i && crate::strutil::str_le(ps[q].name.as_str(), p.name.as_str())
            invariant
                i < n,
                n == ps@.len() + 1,
                q <= i <= ps@.len(),
                ps@ == s1,
                forall|k: int| 0 <= k < q ==> lex_le(ps@[k].name@, p.name@),
            decreases i - q,
        {
            q += 1;
        }
        proof {
            if q < i {
                lemma_lex_le_total(s1[q as int].name@, p.name@);
                assert(lex_le(p.name@, s1[q as int].name@));
            }
        }
        ps.insert(q, p);
        proof {
            broadcast use vstd::seq_lib::group_to_multiset_ensures;

            let a = ps@;
            assert(forall|k: int| 0 <= k < q ==> a[k] == s1[k]);
            assert(a[q as int] == p);
            assert(forall|k: int| q < k < a.len() ==> a[k] == s1[k - 1]);
            assert(sorted_by_name(s1.take(i as int)));
            assert forall|x: int, y: int| 0 <= x < y < i + 1 implies lex_le(
                a[x].name@,
                a[y].name@,
            ) by {
                if y < q {
                    assert(lex_le(a[x].name@, a[y].name@));
                } else if y == q {
                    assert(lex_le(a[x].name@, p.name@));
                } else if x < q {
                    assert(a[y] == s1[y - 1]);
                    if y - 1 == q {
                        lemma_lex_le_trans(a[x].name@, p.name@, a[y].name@);
                    } else {
                        assert(lex_le(s1.take(i as int)[x].name@, s1.take(i as int)[y - 1].name@));
                        assert(lex_le(a[x].name@, a[y].name@));
                    }
                } else if x == q {
                    assert(a[x] == p);
                    assert(a[y] == s1[y - 1]);
                    if y - 1 == q {
                        assert(lex_le(p.name@, s1[q as int].name@));
                    } else {
                        assert(lex_le(s1.take(i as int)[q as int].name@, s1.take(i as int)[y
                            - 1].name@));
                        lemma_lex_le_trans(p.name@, s1[q as int].name@, s1[y - 1].name@);
                    }
                } else {
                    assert(a[x] == s1[x - 1]);
                    assert(a[y] == s1[y - 1]);
                    assert(lex_le(s1.take(i as int)[x - 1].name@, s1.take(i as int)[y - 1].name@));
                }
            }
            assert(sorted_by_name(a.take(i + 1))) by {
                assert(forall|k: int| 0 <= k < i + 1 ==> a.take(i + 1)[k] == a[k]);
            };
            assert(a.to_multiset() =~= old(ps)@.to_multiset()) by {
                assert(s1.to_multiset() == s0.to_multiset().remove(p));
                assert(s0[i as int] == p);
                assert(s0.to_multiset().count(p) > 0) by {
                    assert(s0.contains(p));
                };
                assert(a.to_multiset() == s1.to_multiset().insert(p));
                assert(forall|x: Parameter|
                    #[trigger] a.to_multiset().count(x) == s0.to_multiset().count(x));
            };
        }
        i += 1;
    }
    proof {
        assert(ps@.take(n as int) =~= ps@);
    }
}

/// The resolved request-body schema of a well-formed operation in a
/// well-formed document is itself well-formed.
pub proof fn lemma_request_schema_wf(op: OaOperation, d: OaDocument)
    requires
        crate::oa::doc_wf(d),
        crate::oa::op_wf(op, d),
    ensures
        (match spec_request_schema(op, d) {
            Ok(s) => crate::oa::schema_wf(s, d),
            Err(_) => true,
        }),
{
    if spec_request_schema(op, d) is Ok {
        let r = op.request_body->Some_0;
        assert(crate::oa::body_ref_wf(r, d));
        let b = resolve_body(r, d)->Some_0;
        match r {
            RefOr::Item(b0) => {
                assert(crate::oa::body_wf(b0, d));
            },
            RefOr::Reference { name } => {
                crate::oa::lemma_lookup_in(d.request_bodies@, name@, b);
                let i = choose|i: int|
                    0 <= i < d.request_bodies@.len() && d.request_bodies@[i].1 == b
                        && d.request_bodies@[i].0@ == name@;
                assert(crate::oa::body_wf(d.request_bodies@[i].1, d));
            },
        }
        let sr = b.json_schema->Some_0;
        assert(crate::oa::schema_ref_wf(sr, d));
        match sr {
            RefOr::Item(_) => {
            },
            RefOr::Reference { name } => {
                assert(crate::oa::ref_resolves(d, name@));
                let entry = crate::oa::lookup(d.schemas@, name@)->Some_0;
                crate::oa::lemma_lookup_in(d.schemas@, name@, entry);
                let i = choose|i: int|
                    0 <= i < d.schemas@.len() && d.schemas@[i].1 == entry && d.schemas@[i].0@
                        == name@;
                assert(match d.schemas@[i].1 {
                    RefOr::Item(s) => crate::oa::schema_wf(*s, d),
                    RefOr::Reference { .. } => true,
                });
            },
        }
    }
}

/// Whether input extraction fails for this operation.
pub open spec fn inputs_err(op: OaOperation, item: OaPathItem, d: OaDocument) -> bool {
    exists|e: ExtractError| inputs_match(Err(e), op, item, d)
}

/// One extracted operation against its source: the declared identifier or
/// the synthesized name, the assembled documentation, the extracted inputs
/// sorted by name, the success-response type (`Unit` when there is none),
/// and the path and method verbatim.
pub open spec fn operation_matches(
    o: Operation,
    path: String,
    method: String,
    op: OaOperation,
    item: OaPathItem,
    d: OaDocument,
) -> bool {
    &&& o.name@ == (match op.operation_id {
        Some(id) => id@,
        None => op_name(method@, path@),
    })
    &&& (match o.doc {
        Some(s) => spec_operation_doc(op, DocFormat::Markdown) == Some(s@),
        None => spec_operation_doc(op, DocFormat::Markdown) is None,
    })
    &&& exists|ins: Seq<Parameter>|
        #[trigger] inputs_match(Ok(ins), op, item, d) && o.parameters@.to_multiset()
            == ins.to_multiset()
    &&& sorted_by_name(o.parameters@)
    &&& o.ret == (match spec_response_success(op, d) {
        None => Ty::Unit,
        Some(r) => spec_ref_ty(r, d),
    })
    &&& o.path@ == path@
    &&& o.method@ == method@
}

/// The number of operations the first `pi` path items declare.
pub open spec fn prefix_op_count(paths: Seq<(String, OaPathItem)>, pi: int) -> int
    decreases pi,
{
    if pi <= 0 {
        0
    } else {
        prefix_op_count(paths, pi - 1) + paths[pi - 1].1.operations@.len()
    }
}

/// No operation before (`pi`, `oi`) in document order fails input
/// extraction.
pub open spec fn no_input_err_before(d: OaDocument, pi: int, oi: int) -> bool {
    forall|pj: int, oj: int|
        0 <= pj < d.paths@.len() && 0 <= oj < d.paths@[pj].1.operations@.len() && (pj < pi || (
        pj == pi && oj < oi)) ==> !inputs_err(
            (#[trigger] d.paths@[pj].1.operations@[oj]).1,
            d.paths@[pj].1,
            d,
        )
}

/// Every path template of the document is one the naming heuristic accepts.
pub open spec fn paths_named_wf(d: OaDocument) -> bool {
    forall|i: int| 0 <= i < d.paths@.len() ==> url_wf((#[trigger] d.paths@[i]).0@)
}

/// Prefix operation counts are non-negative and monotone.
pub proof fn lemma_prefix_mono(paths: Seq<(String, OaPathItem)>, a: int, b: int)
    requires
        a <= b,
    ensures
        prefix_op_count(paths, a) <= prefix_op_count(paths, b),
        0 <= prefix_op_count(paths, b) || b <= 0,
    decreases b,
{
    if b > 0 && a < b {
        lemma_prefix_mono(paths, a, b - 1);
    }
    if b > 0 {
        lemma_prefix_mono(paths, 0, b - 1);
    }
}

/// Extracts one operation per path and method, in declaration order:
/// the first input-extraction failure aborts the whole extraction.
pub fn extract_api_operations(d: &OaDocument) -> (res: Result<Vec<Operation>, ExtractError>)
    requires
        crate::oa::doc_wf(*d),
        paths_named_wf(*d),
    ensures
        (match res {
            Ok(out) => {
                &&& out@.len() == prefix_op_count(d.paths@, d.paths@.len() as int)
                &&& forall|pi: int, oi: int|
                    0 <= pi < d.paths@.len() && 0 <= oi < (#[trigger] d.paths@[pi]).1.operations@.len()
                        ==> operation_matches(
                        out@[prefix_op_count(d.paths@, pi) + oi],
                        d.paths@[pi].0,
                        (#[trigger] d.paths@[pi].1.operations@[oi]).0,
                        d.paths@[pi].1.operations@[oi].1,
                        d.paths@[pi].1,
                        *d,
                    ) && !inputs_err(
                        d.paths@[pi].1.operations@[oi].1,
                        d.paths@[pi].1,
                        *d,
                    )
            },
            Err(e) => exists|pi: int, oi: int|
                0 <= pi < d.paths@.len() && 0 <= oi < d.paths@[pi].1.operations@.len()
                    && inputs_match(
                    Err(e),
                    (#[trigger] d.paths@[pi].1.operations@[oi]).1,
                    d.paths@[pi].1,
                    *d,
                ) && no_input_err_before(*d, pi, oi),
        }),
{
    let mut out: Vec<Operation> = Vec::new();
    let np = d.paths.len();
    let mut pi: usize = 0;
    while pi < np
        invariant
            crate::oa::doc_wf(*d),
            paths_named_wf(*d),
            np == d.paths@.len(),
            pi <= np,
            out@.len() == prefix_op_count(d.paths@, pi as int),
            forall|pj: int, oj: int|
                0 <= pj < pi && 0 <= oj < (#[trigger] d.paths@[pj]).1.operations@.len()
                    ==> operation_matches(
                    out@[prefix_op_count(d.paths@, pj) + oj],
                    d.paths@[pj].0,
                    (#[trigger] d.paths@[pj].1.operations@[oj]).0,
                    d.paths@[pj].1.operations@[oj].1,
                    d.paths@[pj].1,
                    *d,
                ) && !inputs_err(d.paths@[pj].1.operations@[oj].1, d.paths@[pj].1, *d),
        decreases np - pi,
    {
        let path: &String = &d.paths[pi].0;
        let item: &OaPathItem = &d.paths[pi].1;
        proof {
            assert(crate::oa::path_item_wf(d.paths@[pi as int].1, *d));
        }
        let no = item.operations.len();
        let mut oi: usize = 0;
        while oi < no
            invariant
                crate::oa::doc_wf(*d),
                paths_named_wf(*d),
                np == d.paths@.len(),
                pi < np,
                *path == d.paths@[pi as int].0,
                *item == d.paths@[pi as int].1,
                crate::oa::path_item_wf(*item, *d),
                no == item.operations@.len(),
                oi <= no,
                out@.len() == prefix_op_count(d.paths@, pi as int) + oi,
                forall|pj: int, oj: int|
                    0 <= pj < pi && 0 <= oj < (#[trigger] d.paths@[pj]).1.operations@.len()
                        ==> operation_matches(
                        out@[prefix_op_count(d.paths@, pj) + oj],
                        d.paths@[pj].0,
                        (#[trigger] d.paths@[pj].1.operations@[oj]).0,
                        d.paths@[pj].1.operations@[oj].1,
                        d.paths@[pj].1,
                        *d,
                    ) && !inputs_err(d.paths@[pj].1.operations@[oj].1, d.paths@[pj].1, *d),
                forall|oj: int|
                    0 <= oj < oi ==> operation_matches(
                        out@[prefix_op_count(d.paths@, pi as int) + oj],
                        d.paths@[pi as int].0,
                        (#[trigger] item.operations@[oj]).0,
                        item.operations@[oj].1,
                        *item,
                        *d,
                    ) && !inputs_err(item.operations@[oj].1, *item, *d),
            decreases no - oi,
        {
            let method: &String = &item.operations[oi].0;
            let op: &OaOperation = &item.operations[oi].1;
            proof {
                assert(crate::oa::op_wf(item.operations@[oi as int].1, *d));
                lemma_request_schema_wf(*op, *d);
                assert(url_wf(d.paths@[pi as int].0@));
            }
            let name: String = match &op.operation_id {
                Some(id) => id.clone(),
                None => crate::naming::make_name_from_method_and_url(
                    method.as_str(),
                    path.as_str(),
                ),
            };
            let doc = extract_operation_doc(op, DocFormat::Markdown);
            let mut parameters = match extract_inputs(op, item, d) {
                Ok(v) => v,
                Err(e) => {
                    proof {
                        assert(inputs_match(Err(e), item.operations@[oi as int].1, *item, *d));
                        assert(no_input_err_before(*d, pi as int, oi as int)) by {
                            assert forall|pj: int, oj: int|
                                0 <= pj < d.paths@.len() && 0 <= oj
                                    < d.paths@[pj].1.operations@.len() && (pj < pi || (pj == pi
                                    && oj < oi)) implies !inputs_err(
                                (#[trigger] d.paths@[pj].1.operations@[oj]).1,
                                d.paths@[pj].1,
                                *d,
                            ) by {
                                if pj == pi {
                                    assert(!inputs_err(item.operations@[oj].1, *item, *d));
                                }
                            };
                        };
                    }
                    return Err(e);
                },
            };
            let ghost raw_params = parameters@;
            sort_params(&mut parameters);
            let ret = match extract_response_success(op, d) {
                None => Ty::Unit,
                Some(r) => schema_ref_to_ty(r, d),
            };
            let ghost old_out = out@;
            out.push(
                Operation {
                    name,
                    doc,
                    parameters,
                    ret,
                    path: path.clone(),
                    method: method.clone(),
                },
            );
            proof {
                let newop = out@.last();
                assert(inputs_match(Ok(raw_params), item.operations@[oi as int].1, *item, *d));
                assert(operation_matches(
                    newop,
                    d.paths@[pi as int].0,
                    item.operations@[oi as int].0,
                    item.operations@[oi as int].1,
                    *item,
                    *d,
                ));
                assert(!inputs_err(item.operations@[oi as int].1, *item, *d)) by {
                    if inputs_err(item.operations@[oi as int].1, *item, *d) {
                        let e = choose|e: ExtractError|
                            inputs_match(Err(e), item.operations@[oi as int].1, *item, *d);
                        assert(false);
                    }
                };
                assert forall|pj: int, oj: int|
                    0 <= pj < pi && 0 <= oj < (#[trigger] d.paths@[pj]).1.operations@.len()
                        implies operation_matches(
                    out@[prefix_op_count(d.paths@, pj) + oj],
                    d.paths@[pj].0,
                    (#[trigger] d.paths@[pj].1.operations@[oj]).0,
                    d.paths@[pj].1.operations@[oj].1,
                    d.paths@[pj].1,
                    *d,
                ) && !inputs_err(d.paths@[pj].1.operations@[oj].1, d.paths@[pj].1, *d) by {
                    lemma_prefix_mono(d.paths@, 0, pj);
                    lemma_prefix_mono(d.paths@, pj + 1, pi as int);
                    assert(prefix_op_count(d.paths@, pj + 1) == prefix_op_count(d.paths@, pj)
                        + d.paths@[pj].1.operations@.len());
                    let idx = prefix_op_count(d.paths@, pj) + oj;
                    assert(0 <= idx < old_out.len());
                    assert(out@[idx] == old_out[idx]);
                };
                assert forall|oj: int|
                    0 <= oj < oi implies operation_matches(
                    out@[prefix_op_count(d.paths@, pi as int) + oj],
                    d.paths@[pi as int].0,
                    (#[trigger] item.operations@[oj]).0,
                    item.operations@[oj].1,
                    *item,
                    *d,
                ) && !inputs_err(item.operations@[oj].1, *item, *d) by {
                    lemma_prefix_mono(d.paths@, 0, pi as int);
                    let idx = prefix_op_count(d.paths@, pi as int) + oj;
                    assert(0 <= idx < old_out.len());
                    assert(out@[idx] == old_out[idx]);
                };
                lemma_prefix_mono(d.paths@, 0, pi as int);
                assert(out@[prefix_op_count(d.paths@, pi as int) + oi] == newop);
            }
            oi += 1;
        }
        pi += 1;
    }
    proof {
        assert(out@.len() == prefix_op_count(d.paths@, np as int));
    }
    Ok(out)
}

/// A response entry selected by code lookup stands in the response list.
proof fn lemma_lookup_code_in(responses: Seq<(u16, RefOr<OaResponse>)>, r: RefOr<OaResponse>)
    requires
        exists|c: u16| lookup_code(responses, c) == Some(r),
    ensures
        exists|i: int| 0 <= i < responses.len() && responses[i].1 == r,
    decreases responses.len(),
{
    let c = choose|c: u16| lookup_code(responses, c) == Some(r);
    if responses.len() > 0 {
        if responses[0].0 == c {
            assert(responses[0].1 == r);
        } else {
            assert(lookup_code(responses.skip(1), c) == Some(r));
            lemma_lookup_code_in(responses.skip(1), r);
            let i = choose|i: int|
                0 <= i < responses.skip(1).len() && responses.skip(1)[i].1 == r;
            assert(responses[i + 1].1 == r);
        }
    }
}

} // verus!
