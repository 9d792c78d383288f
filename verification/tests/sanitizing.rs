use openapi_mir::hir::{Field, MirSpec, Operation, Parameter, Record, StructRecord, Ty, Location};
use openapi_mir::options::Language;
use openapi_mir::sanitize::{add_operation_models, remove_unused, sanitize_spec};

fn field(name: &str, ty: Ty) -> Field {
    Field { name: name.to_string(), ty, optional: false, example: None, doc: None }
}

fn struct_record(name: &str, fields: Vec<Field>) -> (String, Record) {
    (
        name.to_string(),
        Record::Struct(StructRecord { name: name.to_string(), fields }),
    )
}

fn op_returning(name: &str, ret: Ty) -> Operation {
    Operation {
        name: name.to_string(),
        doc: None,
        parameters: vec![],
        ret,
        path: "/x".to_string(),
        method: "get".to_string(),
    }
}

fn param(name: &str, optional: bool) -> Parameter {
    Parameter {
        name: name.to_string(),
        ty: Ty::Str,
        optional,
        location: Location::Query,
        example: None,
        doc: None,
    }
}

#[test]
fn pruning_removes_two_level_dangling_chains() {
    // A is unused; B is referenced only by A: the first pass removes A,
    // the second removes B
    let mut spec = MirSpec {
        operations: vec![op_returning("get_root", Ty::Model("Root".to_string()))],
        schemas: vec![
            struct_record("Root", vec![]),
            struct_record("A", vec![field("b", Ty::Model("B".to_string()))]),
            struct_record("B", vec![]),
        ],
        servers: vec![],
        security: vec![],
        api_docs_url: None,
    };
    remove_unused(&mut spec);
    let keys: Vec<&str> = spec.schemas.iter().map(|p| p.0.as_str()).collect();
    assert_eq!(keys, vec!["Root", "B"]);
    remove_unused(&mut spec);
    let keys: Vec<&str> = spec.schemas.iter().map(|p| p.0.as_str()).collect();
    assert_eq!(keys, vec!["Root"]);
}

#[test]
fn third_pruning_pass_is_a_no_op_on_representative_inputs() {
    let mut spec = MirSpec {
        operations: vec![op_returning("get_root", Ty::Model("Root".to_string()))],
        schemas: vec![
            struct_record("Root", vec![field("leaf", Ty::Model("Leaf".to_string()))]),
            struct_record("Leaf", vec![]),
            struct_record("A", vec![field("b", Ty::Model("B".to_string()))]),
            struct_record("B", vec![]),
            struct_record("EventWebhook", vec![]),
        ],
        servers: vec![],
        security: vec![],
        api_docs_url: None,
    };
    remove_unused(&mut spec);
    remove_unused(&mut spec);
    let after_two = spec.clone();
    remove_unused(&mut spec);
    assert_eq!(spec, after_two);
    let keys: Vec<&str> = spec.schemas.iter().map(|p| p.0.as_str()).collect();
    assert_eq!(keys, vec!["Root", "Leaf", "EventWebhook"]);
}

#[test]
fn alias_collapsing_rewrites_fields_and_leaves_no_dangling_reference() {
    // NameAlias is an optional alias for Name; Person.name points at the
    // alias and is rewritten to point at Name directly, forced optional
    let mut spec = MirSpec {
        operations: vec![op_returning("get_person", Ty::Model("Person".to_string()))],
        schemas: vec![
            struct_record("Person", vec![field("name", Ty::Model("NameAlias".to_string()))]),
            (
                "NameAlias".to_string(),
                Record::TypeAlias(
                    "NameAlias".to_string(),
                    Field {
                        name: "value".to_string(),
                        ty: Ty::Model("Name".to_string()),
                        optional: true,
                        example: None,
                        doc: None,
                    },
                ),
            ),
            struct_record("Name", vec![field("first", Ty::Str)]),
        ],
        servers: vec![],
        security: vec![],
        api_docs_url: None,
    };
    sanitize_spec(&mut spec);
    let keys: Vec<&str> = spec.schemas.iter().map(|p| p.0.as_str()).collect();
    assert!(keys.contains(&"Person"));
    assert!(keys.contains(&"Name"));
    assert!(!keys.contains(&"NameAlias"));
    let person = &spec.schemas.iter().find(|p| p.0 == "Person").unwrap().1;
    match person {
        Record::Struct(sr) => {
            assert_eq!(sr.fields[0].ty, Ty::Model("Name".to_string()));
            assert!(sr.fields[0].optional);
        }
        _ => panic!("Person should stay a struct"),
    }
    // no surviving field or operation refers to a name outside the table
    for (_, r) in &spec.schemas {
        let fields: Vec<&Field> = match r {
            Record::Struct(sr) => sr.fields.iter().collect(),
            Record::TypeAlias(_, f) => vec![f],
            Record::Enum(_) => vec![],
        };
        for f in fields {
            if let Some(n) = f.ty.inner_model() {
                assert!(spec.schemas.iter().any(|p| &p.0 == n), "dangling: {n}");
            }
        }
    }
    for o in &spec.operations {
        if let Some(n) = o.ret.inner_model() {
            assert!(spec.schemas.iter().any(|p| &p.0 == n), "dangling: {n}");
        }
    }
}

#[test]
fn operations_with_many_required_parameters_get_a_record() {
    let mut op = op_returning("link_token_create", Ty::Unit);
    op.parameters = vec![
        param("a", false),
        param("b", false),
        param("c", false),
        param("d", false),
        param("e", true),
    ];
    let spec = MirSpec {
        operations: vec![op],
        schemas: vec![],
        servers: vec![],
        security: vec![],
        api_docs_url: None,
    };
    let out = add_operation_models(Language::Rust, spec).unwrap();
    assert_eq!(out.schemas.len(), 1);
    assert_eq!(out.schemas[0].0, "LinkTokenCreateRequired");
    match &out.schemas[0].1 {
        Record::Struct(sr) => {
            assert_eq!(sr.name, "LinkTokenCreateRequired");
            let names: Vec<&str> = sr.fields.iter().map(|f| f.name.as_str()).collect();
            assert_eq!(names, vec!["a", "b", "c", "d"]);
        }
        _ => panic!("expected a struct record"),
    }
}

#[test]
fn operations_with_few_required_parameters_get_no_record() {
    let mut op = op_returning("get_thing", Ty::Unit);
    op.parameters = vec![param("a", false), param("b", false), param("c", false)];
    let spec = MirSpec {
        operations: vec![op],
        schemas: vec![],
        servers: vec![],
        security: vec![],
        api_docs_url: None,
    };
    let out = add_operation_models(Language::Python, spec).unwrap();
    assert!(out.schemas.is_empty());
}
