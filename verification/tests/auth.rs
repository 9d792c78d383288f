use openapi_mir::hir::{AuthLocation, ExtractError, MirSpec};
use openapi_mir::oa::{OaApiKeyLocation, OaDocument, OaSecurityScheme};
use openapi_mir::options::{Config, Generate, Language, LibraryConfig, LibraryOptions};
use openapi_mir::security::{
    extract_security_fields, extract_security_strategies, spec_defines_auth,
};

fn opts(service: &str) -> LibraryOptions {
    LibraryOptions {
        package_name: service.to_lowercase(),
        service_name: service.to_string(),
        package_version: "0.1.0".to_string(),
        build_examples: false,
        language: Language::Rust,
        config: LibraryConfig { ormlite: false },
    }
}

fn doc_with_schemes(schemes: Vec<(&str, OaSecurityScheme)>, reqs: Vec<Vec<&str>>) -> OaDocument {
    OaDocument {
        paths: vec![],
        schemas: vec![],
        parameters: vec![],
        request_bodies: vec![],
        responses: vec![],
        security_schemes: schemes.into_iter().map(|(n, s)| (n.to_string(), s)).collect(),
        security: reqs
            .into_iter()
            .map(|r| r.into_iter().map(|n| n.to_string()).collect())
            .collect(),
        servers: vec![],
        external_docs_url: None,
    }
}

#[test]
fn bearer_named_api_key_header_classifies_as_bearer() {
    let d = doc_with_schemes(
        vec![(
            "auth",
            OaSecurityScheme::ApiKey {
                location: OaApiKeyLocation::Header,
                name: "BearerAuth".to_string(),
            },
        )],
        vec![vec!["auth"]],
    );
    let fields = extract_security_fields(&d.security[0], &d, &opts("PetStore")).unwrap();
    assert_eq!(fields.len(), 1);
    assert_eq!(fields[0].location, AuthLocation::Bearer);
}

#[test]
fn other_api_key_header_keeps_its_key() {
    let d = doc_with_schemes(
        vec![(
            "auth",
            OaSecurityScheme::ApiKey {
                location: OaApiKeyLocation::Header,
                name: "X-Api-Key".to_string(),
            },
        )],
        vec![vec!["auth"]],
    );
    let fields = extract_security_fields(&d.security[0], &d, &opts("PetStore")).unwrap();
    assert_eq!(fields[0].location, AuthLocation::Header { key: "X-Api-Key".to_string() });
}

#[test]
fn query_and_cookie_api_keys_keep_their_locations() {
    let d = doc_with_schemes(
        vec![
            (
                "q",
                OaSecurityScheme::ApiKey {
                    location: OaApiKeyLocation::Query,
                    name: "token".to_string(),
                },
            ),
            (
                "c",
                OaSecurityScheme::ApiKey {
                    location: OaApiKeyLocation::Cookie,
                    name: "session".to_string(),
                },
            ),
        ],
        vec![vec!["q", "c"]],
    );
    let fields = extract_security_fields(&d.security[0], &d, &opts("PetStore")).unwrap();
    assert_eq!(fields[0].location, AuthLocation::Query { key: "token".to_string() });
    assert_eq!(fields[1].location, AuthLocation::Cookie { key: "session".to_string() });
}

#[test]
fn http_schemes_classify_by_name() {
    for (scheme, loc) in [
        ("basic", AuthLocation::Basic),
        ("bearer", AuthLocation::Bearer),
        ("token", AuthLocation::Token),
    ] {
        let d = doc_with_schemes(
            vec![("h", OaSecurityScheme::Http { scheme: scheme.to_string() })],
            vec![vec!["h"]],
        );
        let fields = extract_security_fields(&d.security[0], &d, &opts("PetStore")).unwrap();
        assert_eq!(fields[0].location, loc);
    }
}

#[test]
fn unknown_http_scheme_is_an_error() {
    let d = doc_with_schemes(
        vec![("h", OaSecurityScheme::Http { scheme: "digest".to_string() })],
        vec![vec!["h"]],
    );
    assert_eq!(
        extract_security_fields(&d.security[0], &d, &opts("PetStore")),
        Err(ExtractError::UnknownHttpAuthScheme)
    );
}

#[test]
fn unsupported_scheme_shape_is_skipped_not_fatal() {
    let d = doc_with_schemes(
        vec![
            ("oauth", OaSecurityScheme::Other),
            ("h", OaSecurityScheme::Http { scheme: "bearer".to_string() }),
        ],
        vec![vec!["oauth"], vec!["h"]],
    );
    let strats = extract_security_strategies(&d, &opts("PetStore"));
    assert_eq!(strats.len(), 1);
    assert_eq!(strats[0].name, "h");
    assert_eq!(
        extract_security_fields(&d.security[0], &d, &opts("PetStore")),
        Err(ExtractError::UnsupportedAuthScheme)
    );
}

#[test]
fn env_var_prefix_is_not_duplicated() {
    let d = doc_with_schemes(
        vec![(
            "PetStoreKey",
            OaSecurityScheme::ApiKey {
                location: OaApiKeyLocation::Query,
                name: "key".to_string(),
            },
        )],
        vec![vec!["PetStoreKey"]],
    );
    let fields = extract_security_fields(&d.security[0], &d, &opts("PetStore")).unwrap();
    assert_eq!(fields[0].env_var, "PET_STORE_KEY");
}

#[test]
fn env_var_prefix_is_added_when_missing() {
    let d = doc_with_schemes(
        vec![(
            "ApiKey",
            OaSecurityScheme::ApiKey {
                location: OaApiKeyLocation::Query,
                name: "key".to_string(),
            },
        )],
        vec![vec!["ApiKey"]],
    );
    let fields = extract_security_fields(&d.security[0], &d, &opts("PetStore")).unwrap();
    assert_eq!(fields[0].env_var, "PET_STORE_API_KEY");
}

#[test]
fn spec_defines_auth_reflects_strategies() {
    let empty = MirSpec {
        operations: vec![],
        schemas: vec![],
        servers: vec![],
        security: vec![],
        api_docs_url: None,
    };
    assert!(!spec_defines_auth(&empty));
}

#[test]
fn generate_command_builds_library_options() {
    let g = Generate {
        name: "pet store".to_string(),
        language: Language::Rust,
        spec_filepath: "openapi.json".to_string(),
        github_repo: "example/petstore".to_string(),
        output_dir: "out".to_string(),
        gen_examples: None,
        package_name: None,
        version: None,
        config: vec![Config::Ormlite],
    };
    let out = g.build_options();
    assert_eq!(out.library_options.package_name, "pet store");
    assert_eq!(out.library_options.service_name, "PetStore");
    assert_eq!(out.library_options.package_version, "0.1.0");
    assert!(!out.library_options.build_examples);
    assert!(out.library_options.config.ormlite);
    assert_eq!(out.qualified_github_repo, "example/petstore");
    assert_eq!(out.dest_path, "out");
}
