//! The security extractor: maps security schemes and requirements into
//! authorization strategies, with a normalized credential-location model
//! and the environment-variable naming convention.

use vstd::prelude::*;
use crate::casing::{lower_of, snake_of, to_lower, to_snake, to_upper_snake, upper_snake_of};
use crate::hir::{AuthLocation, AuthorizationParameter, AuthorizationStrategy, ExtractError, MirSpec};
use crate::oa::{lookup, security_wf, OaApiKeyLocation, OaDocument, OaSecurityScheme};
use crate::options::LibraryOptions;
use crate::strutil::{is_prefix_of, str_eq, str_starts_with};

verus! {

/// The credential location a security scheme classifies to, or the error
/// naming why it is unsupported. An API key in the header whose name
/// snake-cases to `bearer_auth` or `bearer` is bearer authentication.
pub open spec fn spec_auth_location(scheme: OaSecurityScheme) -> Result<
    AuthLocation,
    ExtractError,
> {
    match scheme {
        OaSecurityScheme::ApiKey { location, name } => match location {
            OaApiKeyLocation::Header => if snake_of(name@) == "bearer_auth"@ || snake_of(name@)
                == "bearer"@ {
                Ok(AuthLocation::Bearer)
            } else {
                Ok(AuthLocation::Header { key: name })
            },
            OaApiKeyLocation::Query => Ok(AuthLocation::Query { key: name }),
            OaApiKeyLocation::Cookie => Ok(AuthLocation::Cookie { key: name }),
        },
        OaSecurityScheme::Http { scheme: s } => if s@ == "basic"@ {
            Ok(AuthLocation::Basic)
        } else if s@ == "bearer"@ {
            Ok(AuthLocation::Bearer)
        } else if s@ == "token"@ {
            Ok(AuthLocation::Token)
        } else {
            Err(ExtractError::UnknownHttpAuthScheme)
        },
        OaSecurityScheme::Other => Err(ExtractError::UnsupportedAuthScheme),
    }
}

/// The derived environment-variable name: the scheme key upper-snake-cased,
/// prefixed by the service name unless the key already starts with it,
/// case-insensitively.
pub open spec fn spec_env_var(key: Seq<char>, service: Seq<char>) -> Seq<char> {
    if is_prefix_of(lower_of(service), lower_of(key)) {
        upper_snake_of(key)
    } else {
        upper_snake_of(service) + "_"@ + upper_snake_of(key)
    }
}

/// One extracted authorization parameter against its scheme entry.
pub open spec fn auth_param_matches(
    p: AuthorizationParameter,
    key: String,
    scheme: OaSecurityScheme,
    service: String,
) -> bool {
    &&& p.name@ == key@
    &&& p.env_var@ == spec_env_var(key@, service@)
    &&& Ok::<AuthLocation, ExtractError>(p.location) == spec_auth_location(scheme)
}

/// What field extraction returns for one requirement's scheme names: one
/// parameter per name in order, or the first classification error.
pub open spec fn fields_match(
    res: Result<Seq<AuthorizationParameter>, ExtractError>,
    names: Seq<String>,
    d: OaDocument,
    service: String,
) -> bool
    decreases names.len(),
{
    if names.len() == 0 {
        res matches Ok(fs) && fs.len() == 0
    } else {
        match lookup(d.security_schemes@, names[0]@) {
            None => true,
            Some(scheme) => match spec_auth_location(scheme) {
                Err(e) => res == Err::<Seq<AuthorizationParameter>, ExtractError>(e),
                Ok(_) => match res {
                    Ok(fs) => {
                        &&& fs.len() >= 1
                        &&& auth_param_matches(fs[0], names[0], scheme, service)
                        &&& fields_match(Ok(fs.skip(1)), names.skip(1), d, service)
                    },
                    Err(e) => fields_match(
                        Err::<Seq<AuthorizationParameter>, ExtractError>(e),
                        names.skip(1),
                        d,
                        service,
                    ),
                },
            },
        }
    }
}

/// Derives the environment-variable name for one scheme key.
fn derive_env_var(key: &String, service: &String) -> (r: String)
    ensures
        r@ == spec_env_var(key@, service@),
{
    let lower_key = to_lower(key.as_str());
    let lower_service = to_lower(service.as_str());
    if str_starts_with(lower_key.as_str(), lower_service.as_str()) {
        to_upper_snake(key.as_str())
    } else {
        let mut r = to_upper_snake(service.as_str());
        r.append("_");
        let tail = to_upper_snake(key.as_str());
        r.append(tail.as_str());
        r
    }
}

/// Classifies one security scheme into a credential location.
fn classify_scheme(scheme: &OaSecurityScheme) -> (res: Result<AuthLocation, ExtractError>)
    ensures
        res == spec_auth_location(*scheme),
{
    match scheme {
        OaSecurityScheme::ApiKey { location, name } => match location {
            OaApiKeyLocation::Header => {
                let snake = to_snake(name.as_str());
                if str_eq(snake.as_str(), "bearer_auth") || str_eq(snake.as_str(), "bearer") {
                    Ok(AuthLocation::Bearer)
                } else {
                    Ok(AuthLocation::Header { key: name.clone() })
                }
            },
            OaApiKeyLocation::Query => Ok(AuthLocation::Query { key: name.clone() }),
            OaApiKeyLocation::Cookie => Ok(AuthLocation::Cookie { key: name.clone() }),
        },
        OaSecurityScheme::Http { scheme: s } => {
            if str_eq(s.as_str(), "basic") {
                Ok(AuthLocation::Basic)
            } else if str_eq(s.as_str(), "bearer") {
                Ok(AuthLocation::Bearer)
            } else if str_eq(s.as_str(), "token") {
                Ok(AuthLocation::Token)
            } else {
                Err(ExtractError::UnknownHttpAuthScheme)
            }
        },
        OaSecurityScheme::Other => Err(ExtractError::UnsupportedAuthScheme),
    }
}

/// Extracts the authorization parameters of one security requirement: one
/// per scheme name it lists, each with its classified location and derived
/// environment variable. The first unsupported scheme fails the whole
/// requirement.
pub fn extract_security_fields(
    requirement: &Vec<String>,
    d: &OaDocument,
    opt: &LibraryOptions,
) -> (res: Result<Vec<AuthorizationParameter>, ExtractError>)
    requires
        forall|j: int|
            0 <= j < requirement@.len() ==> lookup(
                d.security_schemes@,
                (#[trigger] requirement@[j])@,
            ) is Some,
    ensures
        (match res {
            Ok(fs) => fields_match(Ok(fs@), requirement@, *d, opt.service_name),
            Err(e) => fields_match(Err(e), requirement@, *d, opt.service_name),
        }),
{
    let mut fields: Vec<AuthorizationParameter> = Vec::new();
    let n = requirement.len();
    let mut i: usize = 0;
    proof {
        assert(requirement@.skip(0) =~= requirement@);
    }
    while i < n
        invariant
            n == requirement@.len(),
            i <= n,
            forall|j: int|
                0 <= j < requirement@.len() ==> lookup(
                    d.security_schemes@,
                    (#[trigger] requirement@[j])@,
                ) is Some,
            forall|fs_rest: Seq<AuthorizationParameter>|
                #[trigger] fields_match(
                    Ok(fs_rest),
                    requirement@.skip(i as int),
                    *d,
                    opt.service_name,
                ) ==> fields_match(Ok(fields@ + fs_rest), requirement@, *d, opt.service_name),
            forall|e: ExtractError|
                #[trigger] fields_match(
                    Err::<Seq<AuthorizationParameter>, ExtractError>(e),
                    requirement@.skip(i as int),
                    *d,
                    opt.service_name,
                ) ==> fields_match(Err(e), requirement@, *d, opt.service_name),
        decreases n - i,
    {
        proof {
            assert(requirement@.skip(i as int)[0] == requirement@[i as int]);
            assert(requirement@.skip(i as int).skip(1) =~= requirement@.skip(i + 1));
        }
        let name = &requirement[i];
        let scheme = match crate::oa::find_entry(&d.security_schemes, name.as_str()) {
            Some(s) => s,
            None => {
                proof {
                    assert(false);
                }
                unreached()
            },
        };
        let location = match classify_scheme(scheme) {
            Ok(l) => l,
            Err(e) => {
                proof {
                    assert(fields_match(
                        Err::<Seq<AuthorizationParameter>, ExtractError>(e),
                        requirement@.skip(i as int),
                        *d,
                        opt.service_name,
                    ));
                }
                return Err(e);
            },
        };
        let env_var = derive_env_var(name, &opt.service_name);
        let ghost old_fields = fields@;
        fields.push(
            AuthorizationParameter { name: name.clone(), env_var, location },
        );
        proof {
            let p = fields@.last();
            assert(auth_param_matches(
                p,
                requirement@[i as int],
                lookup(d.security_schemes@, requirement@[i as int]@)->Some_0,
                opt.service_name,
            ));
            assert forall|fs_rest: Seq<AuthorizationParameter>|
                #[trigger] fields_match(
                    Ok(fs_rest),
                    requirement@.skip(i + 1),
                    *d,
                    opt.service_name,
                ) implies fields_match(
                Ok(fields@ + fs_rest),
                requirement@,
                *d,
                opt.service_name,
            ) by {
                let with_p = seq![p] + fs_rest;
                assert(with_p.skip(1) =~= fs_rest);
                assert(with_p[0] == p);
                assert(fields_match(
                    Ok(with_p),
                    requirement@.skip(i as int),
                    *d,
                    opt.service_name,
                ));
                assert(old_fields + with_p =~= fields@ + fs_rest);
            };
            assert forall|e: ExtractError|
                #[trigger] fields_match(
                    Err::<Seq<AuthorizationParameter>, ExtractError>(e),
                    requirement@.skip(i + 1),
                    *d,
                    opt.service_name,
                ) implies fields_match(Err(e), requirement@, *d, opt.service_name) by {
                assert(fields_match(
                    Err::<Seq<AuthorizationParameter>, ExtractError>(e),
                    requirement@.skip(i as int),
                    *d,
                    opt.service_name,
                ));
            };
        }
        i += 1;
    }
    proof {
        assert(requirement@.skip(n as int).len() == 0);
        assert(fields_match(
            Ok(Seq::<AuthorizationParameter>::empty()),
            requirement@.skip(n as int),
            *d,
            opt.service_name,
        ));
        assert(fields@ + Seq::<AuthorizationParameter>::empty() =~= fields@);
    }
    Ok(fields)
}

/// Whether field extraction fails for a requirement.
pub open spec fn req_fails(names: Seq<String>, d: OaDocument, service: String) -> bool {
    exists|e: ExtractError| fields_match(Err(e), names, d, service)
}

/// One extracted strategy against its requirement.
pub open spec fn strategy_matches(
    s: AuthorizationStrategy,
    names: Seq<String>,
    d: OaDocument,
    service: String,
) -> bool {
    &&& names.len() > 0
    &&& s.name@ == names[0]@
    &&& fields_match(Ok(s.fields@), names, d, service)
}

/// The extracted strategies against the requirement list: one strategy per
/// supported requirement, in order; unsupported requirements are skipped.
pub open spec fn strategies_match(
    out: Seq<AuthorizationStrategy>,
    reqs: Seq<Vec<String>>,
    d: OaDocument,
    service: String,
) -> bool
    decreases reqs.len(),
{
    if reqs.len() == 0 {
        out.len() == 0
    } else if req_fails(reqs[0]@, d, service) {
        strategies_match(out, reqs.skip(1), d, service)
    } else {
        &&& out.len() >= 1
        &&& strategy_matches(out[0], reqs[0]@, d, service)
        &&& strategies_match(out.skip(1), reqs.skip(1), d, service)
    }
}

/// Extracts one authorization strategy per supported top-level security
/// requirement, named by the requirement's first scheme name; requirements
/// naming unsupported schemes are skipped, not fatal.
pub fn extract_security_strategies(d: &OaDocument, opt: &LibraryOptions) -> (res: Vec<
    AuthorizationStrategy,
>)
    requires
        security_wf(*d),
    ensures
        strategies_match(res@, d.security@, *d, opt.service_name),
{
    let mut strats: Vec<AuthorizationStrategy> = Vec::new();
    let n = d.security.len();
    let mut i: usize = 0;
    proof {
        assert(d.security@.skip(0) =~= d.security@);
    }
    while i < n
        invariant
            n == d.security@.len(),
            i <= n,
            security_wf(*d),
            forall|t: Seq<AuthorizationStrategy>|
                #[trigger] strategies_match(t, d.security@.skip(i as int), *d, opt.service_name)
                    ==> strategies_match(strats@ + t, d.security@, *d, opt.service_name),
        decreases n - i,
    {
        proof {
            assert(d.security@.skip(i as int)[0] == d.security@[i as int]);
            assert(d.security@.skip(i as int).skip(1) =~= d.security@.skip(i + 1));
        }
        let requirement: &Vec<String> = &d.security[i];
        proof {
            assert(d.security@[i as int]@.len() > 0);
        }
        let name = &requirement[0];
        match extract_security_fields(requirement, d, opt) {
            Err(_e) => {
                proof {
                    assert(req_fails(d.security@[i as int]@, *d, opt.service_name));
                    assert forall|t: Seq<AuthorizationStrategy>|
                        #[trigger] strategies_match(
                            t,
                            d.security@.skip(i + 1),
                            *d,
                            opt.service_name,
                        ) implies strategies_match(
                        strats@ + t,
                        d.security@,
                        *d,
                        opt.service_name,
                    ) by {
                        assert(strategies_match(
                            t,
                            d.security@.skip(i as int),
                            *d,
                            opt.service_name,
                        ));
                    };
                }
            },
            Ok(fields) => {
                let ghost old_strats = strats@;
                let ghost fields_view = fields@;
                strats.push(AuthorizationStrategy { name: name.clone(), fields });
                proof {
                    let s = strats@.last();
                    assert(!req_fails(d.security@[i as int]@, *d, opt.service_name)) by {
                        if req_fails(d.security@[i as int]@, *d, opt.service_name) {
                            let e = choose|e: ExtractError|
                                fields_match(
                                    Err(e),
                                    d.security@[i as int]@,
                                    *d,
                                    opt.service_name,
                                );
                            lemma_fields_match_excl(
                                fields_view,
                                e,
                                d.security@[i as int]@,
                                *d,
                                opt.service_name,
                            );
                        }
                    };
                    assert(strategy_matches(s, d.security@[i as int]@, *d, opt.service_name));
                    assert forall|t: Seq<AuthorizationStrategy>|
                        #[trigger] strategies_match(
                            t,
                            d.security@.skip(i + 1),
                            *d,
                            opt.service_name,
                        ) implies strategies_match(
                        strats@ + t,
                        d.security@,
                        *d,
                        opt.service_name,
                    ) by {
                        let with_s = seq![s] + t;
                        assert(with_s.skip(1) =~= t);
                        assert(with_s[0] == s);
                        assert(strategies_match(
                            with_s,
                            d.security@.skip(i as int),
                            *d,
                            opt.service_name,
                        ));
                        assert(old_strats + with_s =~= strats@ + t);
                    };
                }
            },
        }
        i += 1;
    }
    proof {
        assert(d.security@.skip(n as int).len() == 0);
        assert(strategies_match(
            Seq::<AuthorizationStrategy>::empty(),
            d.security@.skip(n as int),
            *d,
            opt.service_name,
        ));
        assert(strats@ + Seq::<AuthorizationStrategy>::empty() =~= strats@);
    }
    strats
}

/// A requirement whose fields extract does not also fail.
proof fn lemma_fields_match_excl(
    fs: Seq<AuthorizationParameter>,
    e: ExtractError,
    names: Seq<String>,
    d: OaDocument,
    service: String,
)
    requires
        fields_match(Ok(fs), names, d, service),
        forall|j: int|
            0 <= j < names.len() ==> lookup(d.security_schemes@, (#[trigger] names[j])@) is Some,
    ensures
        !fields_match(Err(e), names, d, service),
    decreases names.len(),
{
    if names.len() > 0 {
        assert(lookup(d.security_schemes@, names[0]@) is Some);
        let scheme = lookup(d.security_schemes@, names[0]@)->Some_0;
        if spec_auth_location(scheme) is Ok {
            assert(forall|j: int|
                0 <= j < names.skip(1).len() ==> lookup(
                    d.security_schemes@,
                    (#[trigger] names.skip(1)[j])@,
                ) is Some);
            lemma_fields_match_excl(fs.skip(1), e, names.skip(1), d, service);
        }
    }
}

/// Whether the specification defines at least one authorization strategy.
pub fn spec_defines_auth(spec: &MirSpec) -> (b: bool)
    ensures
        b == (spec.security@.len() > 0),
{
    spec.security.len() > 0
}

} // verus!
