use openapi_mir::extract::{
    extract_api_operations, extract_inputs, extract_operation_doc, extract_param,
    extract_response_success,
};
use openapi_mir::extract_spec;
use openapi_mir::hir::{DocFormat, ExtractError, Location, Ty};
use openapi_mir::oa::{
    OaApiKeyLocation, OaArrayType, OaDocument, OaObjectType, OaOperation, OaParamKind,
    OaParameter, OaPathItem, OaRequestBody, OaResponse, OaSchema, OaSchemaData, OaSchemaKind,
    OaServer, OaStringType, OaType, RefOr,
};
use openapi_mir::options::{Language, LibraryConfig, LibraryOptions};
use openapi_mir::servers::extract_servers;

fn data() -> OaSchemaData {
    OaSchemaData { nullable: false, description: None, example: None }
}

fn string_schema() -> OaSchema {
    OaSchema {
        data: data(),
        kind: OaSchemaKind::Typed(OaType::OaString(OaStringType {
            format: None,
            enumeration: vec![],
        })),
    }
}

fn empty_doc() -> OaDocument {
    OaDocument {
        paths: vec![],
        schemas: vec![],
        parameters: vec![],
        request_bodies: vec![],
        responses: vec![],
        security_schemes: vec![],
        security: vec![],
        servers: vec![],
        external_docs_url: None,
    }
}

fn empty_op() -> OaOperation {
    OaOperation {
        operation_id: None,
        summary: None,
        description: None,
        external_docs_url: None,
        parameters: vec![],
        request_body: None,
        responses: vec![],
    }
}

fn opts() -> LibraryOptions {
    LibraryOptions {
        package_name: "petstore".to_string(),
        service_name: "PetStore".to_string(),
        package_version: "0.1.0".to_string(),
        build_examples: false,
        language: Language::Rust,
        config: LibraryConfig { ormlite: false },
    }
}

fn query_param(name: &str) -> RefOr<OaParameter> {
    RefOr::Item(OaParameter {
        name: name.to_string(),
        kind: OaParamKind::Query,
        required: true,
        schema: Some(RefOr::Item(Box::new(string_schema()))),
    })
}

#[test]
fn param_locations_follow_their_source() {
    let d = empty_doc();
    for (kind, loc) in [
        (OaParamKind::Path, Location::Path),
        (OaParamKind::Query, Location::Query),
        (OaParamKind::Header, Location::Header),
        (OaParamKind::Cookie, Location::Cookie),
    ] {
        let p = RefOr::Item(OaParameter {
            name: "p".to_string(),
            kind,
            required: false,
            schema: Some(RefOr::Item(Box::new(string_schema()))),
        });
        let got = extract_param(&p, &d).unwrap();
        assert_eq!(got.location, loc);
        assert!(got.optional);
        assert_eq!(got.ty, Ty::Str);
    }
}

#[test]
fn param_without_schema_is_an_error() {
    let d = empty_doc();
    let p = RefOr::Item(OaParameter {
        name: "p".to_string(),
        kind: OaParamKind::Query,
        required: true,
        schema: None,
    });
    assert_eq!(extract_param(&p, &d), Err(ExtractError::ParamMissingSchema));
}

#[test]
fn param_reference_that_does_not_resolve_is_an_error() {
    let d = empty_doc();
    let p: RefOr<OaParameter> = RefOr::Reference { name: "absent".to_string() };
    assert_eq!(extract_param(&p, &d), Err(ExtractError::ParamRefUnresolved));
}

#[test]
fn body_object_properties_flatten_with_body_location() {
    let d = empty_doc();
    let body_schema = OaSchema {
        data: data(),
        kind: OaSchemaKind::Typed(OaType::OaObject(OaObjectType {
            properties: vec![
                ("alpha".to_string(), RefOr::Item(Box::new(string_schema()))),
                ("beta".to_string(), RefOr::Item(Box::new(string_schema()))),
            ],
            required: vec!["alpha".to_string()],
            additional: None,
        })),
    };
    let mut op = empty_op();
    op.request_body = Some(RefOr::Item(OaRequestBody {
        json_schema: Some(RefOr::Item(Box::new(body_schema))),
    }));
    op.parameters = vec![query_param("beta")];
    let item = OaPathItem { parameters: vec![], operations: vec![] };
    let inputs = extract_inputs(&op, &item, &d).unwrap();
    // beta stays a query parameter; alpha is flattened in as a body field
    assert_eq!(inputs.len(), 2);
    assert_eq!(inputs[0].name, "beta");
    assert_eq!(inputs[0].location, Location::Query);
    assert_eq!(inputs[1].name, "alpha");
    assert_eq!(inputs[1].location, Location::Body);
    assert!(!inputs[1].optional);
}

#[test]
fn body_array_becomes_single_body_parameter() {
    let d = empty_doc();
    let body_schema = OaSchema {
        data: data(),
        kind: OaSchemaKind::Typed(OaType::OaArray(OaArrayType {
            items: Some(RefOr::Reference { name: "Pet".to_string() }),
        })),
    };
    let mut op = empty_op();
    op.request_body = Some(RefOr::Item(OaRequestBody {
        json_schema: Some(RefOr::Item(Box::new(body_schema))),
    }));
    let item = OaPathItem { parameters: vec![], operations: vec![] };
    let inputs = extract_inputs(&op, &item, &d).unwrap();
    assert_eq!(inputs.len(), 1);
    assert_eq!(inputs[0].name, "body");
    assert_eq!(inputs[0].location, Location::Body);
    assert_eq!(inputs[0].ty, Ty::Array(Box::new(Ty::Model("Pet".to_string()))));
}

#[test]
fn single_server_is_registered_as_default() {
    let mut d = empty_doc();
    d.servers = vec![OaServer { url: "https://api.example.com".to_string(), description: None }];
    let servers = extract_servers(&d);
    assert_eq!(servers.len(), 1);
    assert_eq!(servers[0].0, "default");
    assert_eq!(servers[0].1, "https://api.example.com");
}

#[test]
fn servers_are_classified_by_keyword() {
    let mut d = empty_doc();
    d.servers = vec![
        OaServer {
            url: "https://api.example.com".to_string(),
            description: Some("The PRODUCTION environment".to_string()),
        },
        OaServer {
            url: "https://sandbox.example.com".to_string(),
            description: Some("Sandbox for testing".to_string()),
        },
    ];
    let servers = extract_servers(&d);
    assert_eq!(servers.len(), 2);
    assert_eq!(servers[0].0, "production");
    assert_eq!(servers[1].0, "sandbox");
}

#[test]
fn unrecognized_server_description_discards_the_map() {
    let mut d = empty_doc();
    d.servers = vec![
        OaServer {
            url: "https://a.example.com".to_string(),
            description: Some("Production cluster".to_string()),
        },
        OaServer { url: "https://b.example.com".to_string(), description: Some("Main".to_string()) },
    ];
    assert!(extract_servers(&d).is_empty());
}

#[test]
fn operation_doc_skips_description_equal_to_summary() {
    let mut op = empty_op();
    op.summary = Some("Creates a pet.".to_string());
    op.description = Some("Creates a pet.".to_string());
    let doc = extract_operation_doc(&op, DocFormat::Markdown).unwrap();
    assert_eq!(doc, "Creates a pet.");
}

#[test]
fn operation_doc_joins_pieces_with_blank_lines() {
    let mut op = empty_op();
    op.summary = Some("Summary.".to_string());
    op.description = Some("Longer description.".to_string());
    op.external_docs_url = Some("https://docs.example.com".to_string());
    let doc = extract_operation_doc(&op, DocFormat::Markdown).unwrap();
    assert_eq!(
        doc,
        "Summary.\n\nLonger description.\n\nSee endpoint docs at <https://docs.example.com>."
    );
}

#[test]
fn operation_doc_absent_when_all_pieces_empty() {
    let mut op = empty_op();
    op.summary = Some(String::new());
    assert!(extract_operation_doc(&op, DocFormat::Markdown).is_none());
}

#[test]
fn success_response_follows_priority_order() {
    let d = empty_doc();
    let mut op = empty_op();
    op.responses = vec![
        (500, RefOr::Item(OaResponse { json_schema: None })),
        (
            201,
            RefOr::Item(OaResponse {
                json_schema: Some(RefOr::Reference { name: "Later".to_string() }),
            }),
        ),
        (
            200,
            RefOr::Item(OaResponse {
                json_schema: Some(RefOr::Reference { name: "First".to_string() }),
            }),
        ),
    ];
    let got = extract_response_success(&op, &d).unwrap();
    assert_eq!(*got, RefOr::Reference { name: "First".to_string() });
}

#[test]
fn no_success_response_yields_none() {
    let d = empty_doc();
    let mut op = empty_op();
    op.responses = vec![(404, RefOr::Item(OaResponse { json_schema: None }))];
    assert!(extract_response_success(&op, &d).is_none());
}

#[test]
fn operations_use_declared_identifier_and_sort_parameters() {
    let mut d = empty_doc();
    let mut op = empty_op();
    op.operation_id = Some("listPets".to_string());
    op.parameters = vec![query_param("zeta"), query_param("alpha")];
    op.responses = vec![(
        200,
        RefOr::Item(OaResponse {
            json_schema: Some(RefOr::Reference { name: "Pet".to_string() }),
        }),
    )];
    d.paths = vec![(
        "/pets".to_string(),
        OaPathItem { parameters: vec![], operations: vec![("get".to_string(), op)] },
    )];
    let ops = extract_api_operations(&d).unwrap();
    assert_eq!(ops.len(), 1);
    assert_eq!(ops[0].name, "listPets");
    assert_eq!(ops[0].method, "get");
    assert_eq!(ops[0].path, "/pets");
    assert_eq!(ops[0].ret, Ty::Model("Pet".to_string()));
    assert_eq!(ops[0].parameters[0].name, "alpha");
    assert_eq!(ops[0].parameters[1].name, "zeta");
}

#[test]
fn extract_spec_assembles_and_sanitizes() {
    let mut d = empty_doc();
    let mut op = empty_op();
    op.parameters = vec![query_param("id")];
    op.responses = vec![(
        200,
        RefOr::Item(OaResponse {
            json_schema: Some(RefOr::Reference { name: "Pet".to_string() }),
        }),
    )];
    d.paths = vec![(
        "/pets/{pet_id}".to_string(),
        OaPathItem { parameters: vec![], operations: vec![("get".to_string(), op)] },
    )];
    d.schemas = vec![
        ("Pet".to_string(), RefOr::Item(Box::new(string_schema()))),
        ("Orphan".to_string(), RefOr::Item(Box::new(string_schema()))),
        ("PaymentWebhook".to_string(), RefOr::Item(Box::new(string_schema()))),
    ];
    d.external_docs_url = Some("https://docs.example.com".to_string());
    d.servers = vec![OaServer { url: "https://api.example.com".to_string(), description: None }];
    let s = extract_spec(&d, &opts()).unwrap();
    assert_eq!(s.operations.len(), 1);
    assert_eq!(s.operations[0].name, "get_pets_by_pet_id");
    let keys: Vec<&str> = s.schemas.iter().map(|p| p.0.as_str()).collect();
    // the referenced record and the webhook-suffixed record survive; the
    // orphan is pruned
    assert!(keys.contains(&"Pet"));
    assert!(keys.contains(&"PaymentWebhook"));
    assert!(!keys.contains(&"Orphan"));
    assert_eq!(s.api_docs_url.as_deref(), Some("https://docs.example.com"));
    assert_eq!(s.servers[0].0, "default");
}
