use openapi_mir::hir::{Record, Ty};
use openapi_mir::oa::{
    OaArrayType, OaDocument, OaObjectType, OaSchema, OaSchemaData, OaSchemaKind, OaStringType,
    OaType, RefOr,
};
use openapi_mir::records::extract_records;
use openapi_mir::resolve::{
    concrete_schema_to_ty, extract_newtype, extract_schema_docs, is_optional, schema_ref_to_ty,
};

fn data() -> OaSchemaData {
    OaSchemaData { nullable: false, description: None, example: None }
}

fn typed(t: OaType) -> OaSchema {
    OaSchema { data: data(), kind: OaSchemaKind::Typed(t) }
}

fn string_type(format: Option<&str>) -> OaType {
    OaType::OaString(OaStringType {
        format: format.map(|f| f.to_string()),
        enumeration: vec![],
    })
}

fn empty_doc() -> OaDocument {
    OaDocument {
        paths: vec![],
        schemas: vec![],
        parameters: vec![],
        request_bodies: vec![],
        responses: vec![],
        security_schemes: vec![],
        security: vec![],
        servers: vec![],
        external_docs_url: None,
    }
}

#[test]
fn scalars_resolve_to_their_algebra_entries() {
    let d = empty_doc();
    assert_eq!(concrete_schema_to_ty(&typed(string_type(None)), &d), Ty::Str);
    assert_eq!(concrete_schema_to_ty(&typed(string_type(Some("date-time"))), &d), Ty::DateTime);
    assert_eq!(concrete_schema_to_ty(&typed(string_type(Some("binary"))), &d), Ty::Bytes);
    assert_eq!(concrete_schema_to_ty(&typed(OaType::OaInteger), &d), Ty::Int);
    assert_eq!(concrete_schema_to_ty(&typed(OaType::OaNumber), &d), Ty::Float);
    assert_eq!(concrete_schema_to_ty(&typed(OaType::OaBoolean), &d), Ty::Bool);
}

#[test]
fn references_resolve_by_name_without_inlining() {
    let d = empty_doc();
    let r: RefOr<Box<OaSchema>> = RefOr::Reference { name: "Pet".to_string() };
    assert_eq!(schema_ref_to_ty(&r, &d), Ty::Model("Pet".to_string()));
}

#[test]
fn arrays_resolve_their_item_type_defaulting_to_any() {
    let d = empty_doc();
    let with_items = typed(OaType::OaArray(OaArrayType {
        items: Some(RefOr::Item(Box::new(typed(string_type(None))))),
    }));
    assert_eq!(concrete_schema_to_ty(&with_items, &d), Ty::Array(Box::new(Ty::Str)));
    let without = typed(OaType::OaArray(OaArrayType { items: None }));
    assert_eq!(concrete_schema_to_ty(&without, &d), Ty::Array(Box::new(Ty::Any)));
}

#[test]
fn optionality_needs_nullable_or_missing_from_required() {
    let parent = typed(OaType::OaObject(OaObjectType {
        properties: vec![
            ("a".to_string(), RefOr::Item(Box::new(typed(string_type(None))))),
            ("b".to_string(), RefOr::Item(Box::new(typed(string_type(None))))),
        ],
        required: vec!["a".to_string()],
        additional: None,
    }));
    let plain = typed(string_type(None));
    let mut nullable = typed(string_type(None));
    nullable.data.nullable = true;
    // in the required list and not nullable: mandatory
    assert!(!is_optional("a", &plain, &parent));
    // nullable alone suffices
    assert!(is_optional("a", &nullable, &parent));
    // absence from the required list alone suffices
    assert!(is_optional("b", &plain, &parent));
}

#[test]
fn newtypes_wrap_the_resolved_type() {
    let d = empty_doc();
    let nt = extract_newtype("UserId", &typed(OaType::OaInteger), &d);
    assert_eq!(nt.name, "UserId");
    assert_eq!(nt.ty, Ty::Int);
    assert!(nt.public);
    assert!(nt.doc.is_none());
}

#[test]
fn schema_docs_surface_the_description() {
    let mut s = typed(OaType::OaInteger);
    assert!(extract_schema_docs(&s).is_none());
    s.data.description = Some("A count.".to_string());
    assert_eq!(extract_schema_docs(&s).as_deref(), Some("A count."));
}

#[test]
fn named_schemas_classify_into_struct_enum_and_alias() {
    let mut d = empty_doc();
    let object = typed(OaType::OaObject(OaObjectType {
        properties: vec![("name".to_string(), RefOr::Item(Box::new(typed(string_type(None)))))],
        required: vec![],
        additional: None,
    }));
    let enumeration = typed(OaType::OaString(OaStringType {
        format: None,
        enumeration: vec!["red".to_string(), "blue".to_string()],
    }));
    let wrapper = typed(string_type(None));
    d.schemas = vec![
        ("Pet".to_string(), RefOr::Item(Box::new(object))),
        ("Color".to_string(), RefOr::Item(Box::new(enumeration))),
        ("Label".to_string(), RefOr::Item(Box::new(wrapper))),
        ("PetRef".to_string(), RefOr::Reference { name: "Pet".to_string() }),
    ];
    let table = extract_records(&d);
    assert_eq!(table.len(), 4);
    match &table[0].1 {
        Record::Struct(sr) => {
            assert_eq!(sr.name, "Pet");
            assert_eq!(sr.fields.len(), 1);
            assert_eq!(sr.fields[0].name, "name");
            assert_eq!(sr.fields[0].ty, Ty::Str);
            assert!(sr.fields[0].optional);
        }
        _ => panic!("Pet should be a struct"),
    }
    match &table[1].1 {
        Record::Enum(er) => {
            let names: Vec<&str> = er.variants.iter().map(|v| v.name.as_str()).collect();
            assert_eq!(names, vec!["red", "blue"]);
        }
        _ => panic!("Color should be an enum"),
    }
    match &table[2].1 {
        Record::TypeAlias(n, f) => {
            assert_eq!(n, "Label");
            assert_eq!(f.ty, Ty::Str);
        }
        _ => panic!("Label should be an alias"),
    }
    match &table[3].1 {
        Record::TypeAlias(n, f) => {
            assert_eq!(n, "PetRef");
            assert_eq!(f.ty, Ty::Model("Pet".to_string()));
        }
        _ => panic!("PetRef should be an alias"),
    }
}
