//! The record extractor: classifies each named component schema into a
//! Struct, Enum, or TypeAlias record, producing the schema table.

use vstd::prelude::*;
use crate::hir::{EnumRecord, EnumVariant, Field, Record, StructRecord, Ty};
use crate::oa::{
    doc_wf, lookup, resolve_schema, schema_ref_wf, schema_wf, spec_resolve, OaDocument, OaSchema,
    OaSchemaKind, OaType, RefOr,
};
use crate::resolve::{
    clone_opt_string, concrete_schema_to_ty, is_optional, schema_ref_to_ty, spec_concrete_ty,
    spec_is_optional, spec_ref_ty,
};

verus! {

/// The synthetic name of the single field a TypeAlias record wraps.
pub open spec fn alias_field_name() -> Seq<char> {
    seq!['v', 'a', 'l', 'u', 'e']
}

/// Whether two optional strings carry the same characters.
pub open spec fn opt_str_eq(a: Option<String>, b: Option<String>) -> bool {
    match (a, b) {
        (Some(x), Some(y)) => x@ == y@,
        (None, None) => true,
        _ => false,
    }
}

/// The field extracted from one declared property of a struct schema.
pub open spec fn field_matches_property(
    f: Field,
    pname: String,
    pref: RefOr<Box<OaSchema>>,
    parent: OaSchema,
    d: OaDocument,
) -> bool {
    &&& f.name@ == pname@
    &&& f.ty == spec_ref_ty(pref, d)
    &&& f.optional == spec_is_optional(pname@, spec_resolve(pref, d), parent)
    &&& opt_str_eq(f.example, spec_resolve(pref, d).data.example)
    &&& opt_str_eq(f.doc, spec_resolve(pref, d).data.description)
}

/// The record classified from the named component schema `entry`.
pub open spec fn record_matches(
    name: Seq<char>,
    entry: RefOr<Box<OaSchema>>,
    d: OaDocument,
    r: Record,
) -> bool {
    match entry {
        RefOr::Reference { name: target } => match r {
            Record::TypeAlias(n, f) => {
                &&& n@ == name
                &&& f.name@ == alias_field_name()
                &&& f.ty == Ty::Model(target)
                &&& !f.optional
                &&& f.example is None
                &&& f.doc is None
            },
            _ => false,
        },
        RefOr::Item(s) => match s.kind {
            OaSchemaKind::Typed(OaType::OaObject(obj)) => match r {
                Record::Struct(sr) => {
                    &&& sr.name@ == name
                    &&& sr.fields@.len() == obj.properties@.len()
                    &&& forall|j: int|
                        0 <= j < obj.properties@.len() ==> field_matches_property(
                            #[trigger] sr.fields@[j],
                            obj.properties@[j].0,
                            obj.properties@[j].1,
                            *s,
                            d,
                        )
                },
                _ => false,
            },
            OaSchemaKind::Typed(OaType::OaString(st)) if st.enumeration@.len() > 0 => match r {
                Record::Enum(er) => {
                    &&& er.name@ == name
                    &&& er.variants@.len() == st.enumeration@.len()
                    &&& forall|j: int|
                        0 <= j < st.enumeration@.len() ==> {
                            &&& (#[trigger] er.variants@[j]).name@ == st.enumeration@[j]@
                            &&& er.variants@[j].value is None
                        }
                },
                _ => false,
            },
            _ => match r {
                Record::TypeAlias(n, f) => {
                    &&& n@ == name
                    &&& f.name@ == alias_field_name()
                    &&& f.ty == spec_concrete_ty(*s, d)
                    &&& f.optional == s.data.nullable
                    &&& opt_str_eq(f.example, s.data.example)
                    &&& opt_str_eq(f.doc, s.data.description)
                },
                _ => false,
            },
        },
    }
}

/// The fields of a struct record, one per declared property, in order.
fn extract_struct_fields(parent: &OaSchema, d: &OaDocument) -> (fields: Vec<Field>)
    requires
        schema_wf(*parent, *d),
        parent.kind is Typed,
        parent.kind->Typed_0 is OaObject,
    ensures
        ({
            let obj = parent.kind->Typed_0->OaObject_0;
            &&& fields@.len() == obj.properties@.len()
            &&& forall|j: int|
                0 <= j < obj.properties@.len() ==> field_matches_property(
                    #[trigger] fields@[j],
                    obj.properties@[j].0,
                    obj.properties@[j].1,
                    *parent,
                    *d,
                )
        }),
{
    let mut fields: Vec<Field> = Vec::new();
    let obj = match &parent.kind {
        OaSchemaKind::Typed(OaType::OaObject(obj)) => obj,
        _ => unreached(),
    };
    let n = obj.properties.len();
    let mut j: usize = 0;
    while j < n
        invariant
            n == obj.properties@.len(),
            j <= n,
            *obj == parent.kind->Typed_0->OaObject_0,
            schema_wf(*parent, *d),
            parent.kind is Typed,
            parent.kind->Typed_0 is OaObject,
            fields@.len() == j,
            forall|k: int|
                0 <= k < j ==> field_matches_property(
                    #[trigger] fields@[k],
                    obj.properties@[k].0,
                    obj.properties@[k].1,
                    *parent,
                    *d,
                ),
        decreases n - j,
    {
        let pname = &obj.properties[j].0;
        let pref = &obj.properties[j].1;
        proof {
            let specobj = parent.kind->Typed_0->OaObject_0;
            assert(schema_ref_wf(specobj.properties@[j as int].1, *d));
            assert(schema_ref_wf(obj.properties@[j as int].1, *d));
        }
        let ty = schema_ref_to_ty(pref, d);
        let resolved = resolve_schema(pref, d);
        let optional = is_optional(pname.as_str(), resolved, parent);
        let field = Field {
            name: pname.clone(),
            ty,
            optional,
            example: clone_opt_string(&resolved.data.example),
            doc: clone_opt_string(&resolved.data.description),
        };
        fields.push(field);
        j += 1;
    }
    fields
}

/// Classifies one named component schema.
fn extract_record(name: &String, entry: &RefOr<Box<OaSchema>>, d: &OaDocument) -> (r: Record)
    requires
        (match *entry {
            RefOr::Item(s) => schema_wf(*s, *d),
            RefOr::Reference { .. } => true,
        }),
    ensures
        record_matches(name@, *entry, *d, r),
{
    proof {
        reveal_strlit("value");
        assert("value"@ =~= alias_field_name());
    }
    match entry {
        RefOr::Reference { name: target } => Record::TypeAlias(
            name.clone(),
            Field {
                name: String::from_str("value"),
                ty: Ty::Model(target.clone()),
                optional: false,
                example: None,
                doc: None,
            },
        ),
        RefOr::Item(s) => {
            let is_enum_string = match &s.kind {
                OaSchemaKind::Typed(OaType::OaString(st)) => st.enumeration.len() > 0,
                _ => false,
            };
            match &s.kind {
                OaSchemaKind::Typed(OaType::OaObject(_)) => {
                    let fields = extract_struct_fields(s, d);
                    Record::Struct(StructRecord { name: name.clone(), fields })
                },
                OaSchemaKind::Typed(OaType::OaString(st)) if is_enum_string => {
                    let mut variants: Vec<EnumVariant> = Vec::new();
                    let n = st.enumeration.len();
                    let mut j: usize = 0;
                    while j < n
                        invariant
                            n == st.enumeration@.len(),
                            j <= n,
                            variants@.len() == j,
                            forall|k: int|
                                0 <= k < j ==> {
                                    &&& (#[trigger] variants@[k]).name@ == st.enumeration@[k]@
                                    &&& variants@[k].value is None
                                },
                        decreases n - j,
                    {
                        variants.push(
                            EnumVariant { name: st.enumeration[j].clone(), value: None },
                        );
                        j += 1;
                    }
                    Record::Enum(EnumRecord { name: name.clone(), variants })
                },
                _ => {
                    let ty = concrete_schema_to_ty(s, d);
                    Record::TypeAlias(
                        name.clone(),
                        Field {
                            name: String::from_str("value"),
                            ty,
                            optional: s.data.nullable,
                            example: clone_opt_string(&s.data.example),
                            doc: clone_opt_string(&s.data.description),
                        },
                    )
                },
            }
        },
    }
}

/// Extracts the schema table: one record per named component schema, keys
/// and declaration order preserved.
pub fn extract_records(d: &OaDocument) -> (table: Vec<(String, Record)>)
    requires
        doc_wf(*d),
    ensures
        table@.len() == d.schemas@.len(),
        forall|i: int|
            0 <= i < d.schemas@.len() ==> {
                &&& (#[trigger] table@[i]).0@ == d.schemas@[i].0@
                &&& record_matches(d.schemas@[i].0@, d.schemas@[i].1, *d, table@[i].1)
            },
{
    let mut table: Vec<(String, Record)> = Vec::new();
    let n = d.schemas.len();
    let mut i: usize = 0;
    while i < n
        invariant
            n == d.schemas@.len(),
            i <= n,
            doc_wf(*d),
            table@.len() == i,
            forall|k: int|
                0 <= k < i ==> {
                    &&& (#[trigger] table@[k]).0@ == d.schemas@[k].0@
                    &&& record_matches(d.schemas@[k].0@, d.schemas@[k].1, *d, table@[k].1)
                },
        decreases n - i,
    {
        let name = &d.schemas[i].0;
        let entry = &d.schemas[i].1;
        proof {
            assert(match d.schemas@[i as int].1 {
                RefOr::Item(s) => schema_wf(*s, *d),
                RefOr::Reference { .. } => true,
            });
        }
        let record = extract_record(name, entry, d);
        table.push((name.clone(), record));
        i += 1;
    }
    table
}

} // verus!
