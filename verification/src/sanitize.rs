//! The spec sanitizer: collapses trivial optional type aliases into their
//! targets, then prunes unreachable records. The pruning pass runs twice, a
//! cheap bounded approximation of transitive reachability: a record whose
//! only referrer dies in the first pass dies in the second.

use vstd::prelude::*;
use crate::hir::{
    closed_spec, has_key, kept_by_prune, op_uses, prune_once, record_fields, record_uses,
    spec_uses, ty_model, webhook_suffix, ExtractError, Field, MirSpec, Operation, Parameter,
    Record, StructRecord, Ty,
};
use crate::casing::{pascal_of, to_pascal};
use crate::oa::lookup;
use crate::options::Language;
use crate::resolve::clone_opt_string;
use crate::strutil::{seq_has_string, str_ends_with, vec_contains_string};

verus! {

/// Filtering one more element appends it when the predicate holds.
proof fn lemma_filter_push<A>(s: Seq<A>, pred: spec_fn(A) -> bool, x: A)
    ensures
        pred(x) ==> s.push(x).filter(pred) == s.filter(pred).push(x),
        !pred(x) ==> s.push(x).filter(pred) == s.filter(pred),
{
    reveal(Seq::filter);
    assert(s.push(x).drop_last() =~= s);
    assert(s.push(x).last() == x);
    if pred(x) {
        assert(s.push(x).filter(pred) =~= s.filter(pred).push(x));
    }
}

/// An element of a filtered sequence is an element of the original.
proof fn lemma_filter_sub<A>(s: Seq<A>, pred: spec_fn(A) -> bool, x: A)
    requires
        s.filter(pred).contains(x),
    ensures
        s.contains(x),
        pred(x),
    decreases s.len(),
{
    reveal(Seq::filter);
    if s.len() > 0 {
        if pred(s.last()) && x == s.last() {
        } else {
            assert(s.drop_last().filter(pred).contains(x));
            lemma_filter_sub(s.drop_last(), pred, x);
            let i = choose|i: int| 0 <= i < s.drop_last().len() && s.drop_last()[i] == x;
            assert(s[i] == x);
        }
    }
}

/// Whether one of the first `i` records refers to `n`.
spec fn uses_schemas_upto(schemas: Seq<(String, Record)>, i: int, n: Seq<char>) -> bool {
    exists|k: int| 0 <= k < i && record_uses(schemas[k].1, n)
}

/// Whether one of the first `i` operations refers to `n`.
spec fn uses_ops_upto(ops: Seq<Operation>, i: int, n: Seq<char>) -> bool {
    exists|k: int| 0 <= k < i && op_uses(ops[k], n)
}

/// Collects the record names that `r`'s fields refer to.
fn push_used_from_record(used: &mut Vec<String>, r: &Record)
    ensures
        forall|n: Seq<char>|
            #[trigger] seq_has_string(final(used)@, n) == (seq_has_string(old(used)@, n)
                || record_uses(*r, n)),
{
    match r {
        Record::Struct(sr) => {
            let nf = sr.fields.len();
            let mut j: usize = 0;
            while j < nf
                invariant
                    nf == sr.fields@.len(),
                    j <= nf,
                    record_fields(*r) == sr.fields@,
                    forall|n: Seq<char>|
                        #[trigger] seq_has_string(used@, n) == (seq_has_string(old(used)@, n)
                            || (exists|k: int|
                            0 <= k < j && ty_model(sr.fields@[k].ty) == Some(n))),
                decreases nf - j,
            {
                match sr.fields[j].ty.inner_model() {
                    Some(m) => {
                        let ghost before = used@;
                        used.push(m.clone());
                        proof {
                            assert forall|n: Seq<char>|
                                #[trigger] seq_has_string(used@, n) == (seq_has_string(
                                old(used)@,
                                n,
                            ) || (exists|k: int|
                                0 <= k < j + 1 && ty_model(sr.fields@[k].ty) == Some(n))) by {
                                if seq_has_string(used@, n) {
                                    let w = choose|w: int|
                                        0 <= w < used@.len() && used@[w]@ == n;
                                    if w < before.len() {
                                        assert(seq_has_string(before, n));
                                    } else {
                                        assert(ty_model(sr.fields@[j as int].ty) == Some(n));
                                    }
                                }
                                if seq_has_string(before, n) {
                                    let w = choose|w: int|
                                        0 <= w < before.len() && before[w]@ == n;
                                    assert(used@[w]@ == n);
                                }
                                if exists|k: int|
                                    0 <= k < j + 1 && ty_model(sr.fields@[k].ty) == Some(n) {
                                    let k = choose|k: int|
                                        0 <= k < j + 1 && ty_model(sr.fields@[k].ty) == Some(
                                            n,
                                        );
                                    if k < j {
                                        assert(seq_has_string(before, n));
                                    } else {
                                        assert(used@[used@.len() - 1]@ == n);
                                    }
                                }
                            }
                        }
                    },
                    None => {
                        proof {
                            assert forall|n: Seq<char>|
                                #[trigger] seq_has_string(used@, n) == (seq_has_string(
                                old(used)@,
                                n,
                            ) || (exists|k: int|
                                0 <= k < j + 1 && ty_model(sr.fields@[k].ty) == Some(n))) by {
                                if exists|k: int|
                                    0 <= k < j + 1 && ty_model(sr.fields@[k].ty) == Some(n) {
                                    let k = choose|k: int|
                                        0 <= k < j + 1 && ty_model(sr.fields@[k].ty) == Some(
                                            n,
                                        );
                                    assert(k < j);
                                }
                            }
                        }
                    },
                }
                j += 1;
            }
            proof {
                assert(forall|n: Seq<char>|
                    record_uses(*r, n) == (exists|k: int|
                        0 <= k < nf && ty_model(sr.fields@[k].ty) == Some(n)));
            }
        },
        Record::Enum(_) => {
            proof {
                assert(forall|n: Seq<char>| !record_uses(*r, n));
            }
        },
        Record::TypeAlias(_, f) => {
            match f.ty.inner_model() {
                Some(m) => {
                    let ghost before = used@;
                    used.push(m.clone());
                    proof {
                        assert forall|n: Seq<char>|
                            #[trigger] seq_has_string(used@, n) == (seq_has_string(
                            old(used)@,
                            n,
                        ) || record_uses(*r, n)) by {
                            assert(record_fields(*r) =~= seq![*f]);
                            if seq_has_string(used@, n) {
                                let w = choose|w: int| 0 <= w < used@.len() && used@[w]@ == n;
                                if w < before.len() {
                                    assert(seq_has_string(before, n));
                                } else {
                                    assert(record_fields(*r)[0] == *f);
                                }
                            }
                            if seq_has_string(before, n) {
                                let w = choose|w: int| 0 <= w < before.len() && before[w]@ == n;
                                assert(used@[w]@ == n);
                            }
                            if record_uses(*r, n) {
                                assert(ty_model(f.ty) == Some(n));
                                assert(used@[used@.len() - 1]@ == n);
                            }
                        }
                    }
                },
                None => {
                    proof {
                        assert forall|n: Seq<char>| !record_uses(*r, n) by {
                            assert(record_fields(*r) =~= seq![*f]);
                        }
                    }
                },
            }
        },
    }
}

/// Collects the record names that operation `o` refers to.
fn push_used_from_op(used: &mut Vec<String>, o: &Operation)
    ensures
        forall|n: Seq<char>|
            #[trigger] seq_has_string(final(used)@, n) == (seq_has_string(old(used)@, n)
                || op_uses(*o, n)),
{
    match o.ret.inner_model() {
        Some(m) => {
            let ghost before = used@;
            used.push(m.clone());
            proof {
                assert forall|n: Seq<char>| #[trigger] seq_has_string(used@, n) == (
                seq_has_string(before, n) || ty_model(o.ret) == Some(n)) by {
                    if seq_has_string(used@, n) {
                        let w = choose|w: int| 0 <= w < used@.len() && used@[w]@ == n;
                        if w < before.len() {
                            assert(seq_has_string(before, n));
                        }
                    }
                    if seq_has_string(before, n) {
                        let w = choose|w: int| 0 <= w < before.len() && before[w]@ == n;
                        assert(used@[w]@ == n);
                    }
                    if ty_model(o.ret) == Some(n) {
                        assert(used@[used@.len() - 1]@ == n);
                    }
                }
            }
        },
        None => {},
    }
    let ghost mid = used@;
    let np = o.parameters.len();
    let mut j: usize = 0;
    while j < np
        invariant
            np == o.parameters@.len(),
            j <= np,
            forall|n: Seq<char>|
                #[trigger] seq_has_string(used@, n) == (seq_has_string(mid, n) || (exists|k: int|
                    0 <= k < j && ty_model(o.parameters@[k].ty) == Some(n))),
        decreases np - j,
    {
        match o.parameters[j].ty.inner_model() {
            Some(m) => {
                let ghost before = used@;
                used.push(m.clone());
                proof {
                    assert forall|n: Seq<char>| #[trigger] seq_has_string(used@, n) == (
                    seq_has_string(mid, n) || (exists|k: int|
                        0 <= k < j + 1 && ty_model(o.parameters@[k].ty) == Some(n))) by {
                        if seq_has_string(used@, n) {
                            let w = choose|w: int| 0 <= w < used@.len() && used@[w]@ == n;
                            if w < before.len() {
                                assert(seq_has_string(before, n));
                            } else {
                                assert(ty_model(o.parameters@[j as int].ty) == Some(n));
                            }
                        }
                        if seq_has_string(before, n) {
                            let w = choose|w: int| 0 <= w < before.len() && before[w]@ == n;
                            assert(used@[w]@ == n);
                        }
                        if exists|k: int|
                            0 <= k < j + 1 && ty_model(o.parameters@[k].ty) == Some(n) {
                            let k = choose|k: int|
                                0 <= k < j + 1 && ty_model(o.parameters@[k].ty) == Some(n);
                            if k < j {
                                assert(seq_has_string(before, n));
                            } else {
                                assert(used@[used@.len() - 1]@ == n);
                            }
                        }
                    }
                }
            },
            None => {},
        }
        j += 1;
    }
    proof {
        assert(forall|n: Seq<char>|
            op_uses(*o, n) == (ty_model(o.ret) == Some(n) || (exists|k: int|
                0 <= k < np && ty_model(o.parameters@[k].ty) == Some(n))));
    }
}

/// Removes the records that nothing refers to, keeping those whose names
/// carry the webhook suffix; one pass of reachability pruning.
pub fn remove_unused(spec: &mut MirSpec)
    ensures
        final(spec).operations == old(spec).operations,
        final(spec).servers == old(spec).servers,
        final(spec).security == old(spec).security,
        final(spec).api_docs_url == old(spec).api_docs_url,
        final(spec).schemas@ == prune_once(old(spec).schemas@, old(spec).operations@),
{
    let ghost schemas0 = spec.schemas@;
    let ghost ops0 = spec.operations@;
    let mut used: Vec<String> = Vec::new();
    let ns = spec.schemas.len();
    let mut i: usize = 0;
    while i < ns
        invariant
            ns == spec.schemas@.len(),
            i <= ns,
            spec.schemas@ == schemas0,
            spec.operations@ == ops0,
            forall|n: Seq<char>|
                #[trigger] seq_has_string(used@, n) == uses_schemas_upto(schemas0, i as int, n),
        decreases ns - i,
    {
        push_used_from_record(&mut used, &spec.schemas[i].1);
        proof {
            assert forall|n: Seq<char>| #[trigger] seq_has_string(used@, n)
                == uses_schemas_upto(schemas0, i + 1, n) by {
                if uses_schemas_upto(schemas0, i + 1, n) {
                    let k = choose|k: int| 0 <= k < i + 1 && record_uses(schemas0[k].1, n);
                    if k < i {
                        assert(uses_schemas_upto(schemas0, i as int, n));
                    }
                }
            }
        }
        i += 1;
    }
    let no = spec.operations.len();
    let mut j: usize = 0;
    while j < no
        invariant
            no == spec.operations@.len(),
            j <= no,
            spec.schemas@ == schemas0,
            spec.operations@ == ops0,
            forall|n: Seq<char>|
                #[trigger] seq_has_string(used@, n) == (uses_schemas_upto(
                    schemas0,
                    schemas0.len() as int,
                    n,
                ) || uses_ops_upto(ops0, j as int, n)),
        decreases no - j,
    {
        push_used_from_op(&mut used, &spec.operations[j]);
        proof {
            assert forall|n: Seq<char>| #[trigger] seq_has_string(used@, n) == (
            uses_schemas_upto(schemas0, schemas0.len() as int, n) || uses_ops_upto(
                ops0,
                j + 1,
                n,
            )) by {
                if uses_ops_upto(ops0, j + 1, n) {
                    let k = choose|k: int| 0 <= k < j + 1 && op_uses(ops0[k], n);
                    if k < j {
                        assert(uses_ops_upto(ops0, j as int, n));
                    }
                }
            }
        }
        j += 1;
    }
    proof {
        assert(forall|n: Seq<char>|
            #[trigger] seq_has_string(used@, n) == spec_uses(schemas0, ops0, n));
    }
    // retain the used and webhook-suffixed records, preserving order
    let mut rest: Vec<(String, Record)> = Vec::new();
    core::mem::swap(&mut rest, &mut spec.schemas);
    let mut kept: Vec<(String, Record)> = Vec::new();
    let ghost pred = |p: (String, Record)| kept_by_prune(schemas0, ops0, p.0@);
    let mut k: usize = 0;
    proof {
        assert(rest@ == schemas0.skip(0));
        assert(schemas0.take(0).filter(pred) =~= Seq::<(String, Record)>::empty());
    }
    while rest.len() > 0
        invariant
            spec.operations@ == ops0,
            ns == schemas0.len(),
            k <= ns,
            rest@ == schemas0.skip(k as int),
            kept@ == schemas0.take(k as int).filter(pred),
            pred == (|p: (String, Record)| kept_by_prune(schemas0, ops0, p.0@)),
            forall|n: Seq<char>|
                #[trigger] seq_has_string(used@, n) == spec_uses(schemas0, ops0, n),
        decreases rest@.len(),
    {
        let pair = rest.remove(0);
        proof {
            assert(schemas0.skip(k as int)[0] == schemas0[k as int]);
            assert(pair == schemas0[k as int]);
            assert(schemas0.skip(k as int).skip(1) =~= schemas0.skip(k + 1));
            assert(rest@ =~= schemas0.skip(k as int).skip(1));
            reveal_strlit("Webhook");
            assert("Webhook"@ =~= webhook_suffix());
        }
        let keep = vec_contains_string(&used, pair.0.as_str()) || str_ends_with(
            pair.0.as_str(),
            "Webhook",
        );
        proof {
            assert(keep == pred(pair));
            lemma_filter_push(schemas0.take(k as int), pred, pair);
            assert(schemas0.take(k + 1) =~= schemas0.take(k as int).push(pair));
        }
        if keep {
            kept.push(pair);
        }
        k += 1;
    }
    proof {
        assert(schemas0.take(schemas0.len() as int) =~= schemas0);
    }
    spec.schemas = kept;
}

/// The alias-to-target pairs: one for each record that is a trivially
/// optional TypeAlias whose target is a by-name reference.
pub open spec fn alias_pairs(schemas: Seq<(String, Record)>) -> Seq<(String, String)>
    decreases schemas.len(),
{
    if schemas.len() == 0 {
        Seq::empty()
    } else {
        let rest = alias_pairs(schemas.skip(1));
        match schemas[0].1 {
            Record::TypeAlias(a, f) => if f.optional && f.ty is Model {
                seq![(a, f.ty->Model_0)] + rest
            } else {
                rest
            },
            _ => rest,
        }
    }
}

/// The collapse rewriting of one field: a direct reference to a collapsed
/// alias is redirected to the alias's target and forced optional.
pub open spec fn rewrite_field(f: Field, pairs: Seq<(String, String)>) -> Field {
    match f.ty {
        Ty::Model(m) => match lookup(pairs, m@) {
            Some(t) => Field {
                name: f.name,
                ty: Ty::Model(t),
                optional: true,
                example: f.example,
                doc: f.doc,
            },
            None => f,
        },
        _ => f,
    }
}

/// One record after the collapse rewriting of its fields.
pub open spec fn record_rewritten(r: Record, r2: Record, pairs: Seq<(String, String)>) -> bool {
    match r {
        Record::Struct(sr) => match r2 {
            Record::Struct(sr2) => {
                &&& sr2.name == sr.name
                &&& sr2.fields@.len() == sr.fields@.len()
                &&& forall|j: int|
                    0 <= j < sr.fields@.len() ==> #[trigger] sr2.fields@[j] == rewrite_field(
                        sr.fields@[j],
                        pairs,
                    )
            },
            _ => false,
        },
        Record::Enum(_) => r2 == r,
        Record::TypeAlias(n, f) => r2 == Record::TypeAlias(n, rewrite_field(f, pairs)),
    }
}

/// The whole schema table after the collapse rewriting.
pub open spec fn collapsed_matches(
    orig: Seq<(String, Record)>,
    out: Seq<(String, Record)>,
    pairs: Seq<(String, String)>,
) -> bool {
    &&& out.len() == orig.len()
    &&& forall|i: int|
        0 <= i < orig.len() ==> (#[trigger] out[i]).0 == orig[i].0 && record_rewritten(
            orig[i].1,
            out[i].1,
            pairs,
        )
}

/// Rewrites one field, consuming it.
fn rewrite_field_exec(f: Field, pairs: &Vec<(String, String)>) -> (r: Field)
    ensures
        r == rewrite_field(f, pairs@),
{
    match f.ty {
        Ty::Model(m) => match crate::oa::find_entry(pairs, m.as_str()) {
            Some(t) => Field {
                name: f.name,
                ty: Ty::Model(t.clone()),
                optional: true,
                example: f.example,
                doc: f.doc,
            },
            None => Field {
                name: f.name,
                ty: Ty::Model(m),
                optional: f.optional,
                example: f.example,
                doc: f.doc,
            },
        },
        other => Field {
            name: f.name,
            ty: other,
            optional: f.optional,
            example: f.example,
            doc: f.doc,
        },
    }
}

/// Rewrites one record, consuming it.
fn rewrite_record_exec(r: Record, pairs: &Vec<(String, String)>) -> (r2: Record)
    ensures
        record_rewritten(r, r2, pairs@),
{
    match r {
        Record::Struct(sr) => {
            let ghost fields0 = sr.fields@;
            let StructRecord { name, fields } = sr;
            let mut rest = fields;
            let nf = rest.len();
            let mut out: Vec<Field> = Vec::new();
            let mut j: usize = 0;
            proof {
                assert(rest@ == fields0.skip(0));
            }
            while rest.len() > 0
                invariant
                    nf == fields0.len(),
                    j <= nf,
                    rest@ == fields0.skip(j as int),
                    out@.len() == j,
                    forall|k: int|
                        0 <= k < j ==> #[trigger] out@[k] == rewrite_field(fields0[k], pairs@),
                decreases rest@.len(),
            {
                let f = rest.remove(0);
                proof {
                    assert(fields0.skip(j as int)[0] == fields0[j as int]);
                    assert(rest@ =~= fields0.skip(j as int).skip(1));
                    assert(fields0.skip(j as int).skip(1) =~= fields0.skip(j + 1));
                }
                out.push(rewrite_field_exec(f, pairs));
                j += 1;
            }
            Record::Struct(StructRecord { name, fields: out })
        },
        Record::Enum(er) => Record::Enum(er),
        Record::TypeAlias(n, f) => Record::TypeAlias(n, rewrite_field_exec(f, pairs)),
    }
}

/// Sanitizes the assembled IR in place: collapses trivially optional
/// aliases into their targets, then prunes unreachable records twice.
pub fn sanitize_spec(spec: &mut MirSpec)
    ensures
        final(spec).operations == old(spec).operations,
        final(spec).servers == old(spec).servers,
        final(spec).security == old(spec).security,
        final(spec).api_docs_url == old(spec).api_docs_url,
        exists|mid: Seq<(String, Record)>|
            #[trigger] collapsed_matches(old(spec).schemas@, mid, alias_pairs(old(spec).schemas@))
                && final(spec).schemas@ == prune_once(
                prune_once(mid, old(spec).operations@),
                old(spec).operations@,
            ),
{
    let ghost schemas0 = spec.schemas@;
    // collect the optional alias records
    let mut pairs: Vec<(String, String)> = Vec::new();
    let ns = spec.schemas.len();
    let mut i: usize = 0;
    proof {
        assert(schemas0.skip(0) =~= schemas0);
    }
    while i < ns
        invariant
            ns == spec.schemas@.len(),
            i <= ns,
            spec.schemas@ == schemas0,
            pairs@ + alias_pairs(schemas0.skip(i as int)) == alias_pairs(schemas0),
        decreases ns - i,
    {
        proof {
            assert(schemas0.skip(i as int)[0] == schemas0[i as int]);
            assert(schemas0.skip(i as int).skip(1) =~= schemas0.skip(i + 1));
        }
        let r = &spec.schemas[i].1;
        let mut push_pair: Option<(String, String)> = None;
        match r {
            Record::TypeAlias(a, f) => {
                if f.optional {
                    match &f.ty {
                        Ty::Model(t) => {
                            push_pair = Some((a.clone(), t.clone()));
                        },
                        _ => {},
                    }
                }
            },
            _ => {},
        }
        match push_pair {
            Some(p) => {
                let ghost before = pairs@;
                pairs.push(p);
                proof {
                    assert(before + (seq![p] + alias_pairs(schemas0.skip(i + 1))) =~= pairs@
                        + alias_pairs(schemas0.skip(i + 1)));
                }
            },
            None => {},
        }
        i += 1;
    }
    proof {
        assert(alias_pairs(schemas0.skip(ns as int)).len() == 0);
        assert(pairs@ + alias_pairs(schemas0.skip(ns as int)) =~= pairs@);
    }
    // rewrite every record's fields through the alias map
    let mut rest: Vec<(String, Record)> = Vec::new();
    core::mem::swap(&mut rest, &mut spec.schemas);
    let mut rewritten: Vec<(String, Record)> = Vec::new();
    let mut k: usize = 0;
    proof {
        assert(rest@ == schemas0.skip(0));
    }
    while rest.len() > 0
        invariant
            ns == schemas0.len(),
            k <= ns,
            rest@ == schemas0.skip(k as int),
            pairs@ == alias_pairs(schemas0),
            rewritten@.len() == k,
            forall|m: int|
                0 <= m < k ==> (#[trigger] rewritten@[m]).0 == schemas0[m].0 && record_rewritten(
                    schemas0[m].1,
                    rewritten@[m].1,
                    pairs@,
                ),
            spec.operations@ == old(spec).operations@,
            spec.servers == old(spec).servers,
            spec.security == old(spec).security,
            spec.api_docs_url == old(spec).api_docs_url,
        decreases rest@.len(),
    {
        let pair = rest.remove(0);
        proof {
            assert(schemas0.skip(k as int)[0] == schemas0[k as int]);
            assert(pair == schemas0[k as int]);
            assert(rest@ =~= schemas0.skip(k as int).skip(1));
            assert(schemas0.skip(k as int).skip(1) =~= schemas0.skip(k + 1));
        }
        let (name, record) = pair;
        let r2 = rewrite_record_exec(record, &pairs);
        rewritten.push((name, r2));
        k += 1;
    }
    spec.schemas = rewritten;
    proof {
        assert(collapsed_matches(schemas0, spec.schemas@, alias_pairs(schemas0)));
    }
    let ghost mid = spec.schemas@;
    // prune unreachable records; twice, for records only reachable from
    // records the first pass removes
    remove_unused(spec);
    remove_unused(spec);
    proof {
        assert(collapsed_matches(old(spec).schemas@, mid, alias_pairs(old(spec).schemas@))
            && spec.schemas@ == prune_once(
            prune_once(mid, old(spec).operations@),
            old(spec).operations@,
        ));
    }
}

/// Pruning preserves closedness: in a schema table with no dangling
/// references, every name referred to from a surviving record or operation
/// survives the pass.
pub proof fn lemma_prune_preserves_closed(schemas: Seq<(String, Record)>, ops: Seq<Operation>)
    requires
        closed_spec(schemas, ops),
    ensures
        closed_spec(prune_once(schemas, ops), ops),
{
    broadcast use vstd::seq_lib::group_filter_ensures;

    let pred = |p: (String, Record)| kept_by_prune(schemas, ops, p.0@);
    let s2 = prune_once(schemas, ops);
    assert forall|n: Seq<char>| #[trigger] spec_uses(s2, ops, n) implies has_key(s2, n) by {
        assert(spec_uses(schemas, ops, n)) by {
            if exists|i: int| 0 <= i < s2.len() && record_uses(s2[i].1, n) {
                let i = choose|i: int| 0 <= i < s2.len() && record_uses(s2[i].1, n);
                assert(s2.contains(s2[i]));
                lemma_filter_sub(schemas, pred, s2[i]);
                let k = choose|k: int| 0 <= k < schemas.len() && schemas[k] == s2[i];
                assert(record_uses(schemas[k].1, n));
            }
        };
        assert(has_key(schemas, n));
        let k2 = choose|k2: int| 0 <= k2 < schemas.len() && schemas[k2].0@ == n;
        assert(pred(schemas[k2]));
        assert(s2.contains(schemas[k2]));
        let w = choose|w: int| 0 <= w < s2.len() && s2[w] == schemas[k2];
        assert(s2[w].0@ == n);
    }
}

/// The target of a collapsed alias is referred to by the alias record
/// itself, so it counts as used in the original table.
proof fn lemma_alias_target_used(schemas: Seq<(String, Record)>, n: Seq<char>, t: String)
    requires
        lookup(alias_pairs(schemas), n) == Some(t),
    ensures
        exists|i: int| 0 <= i < schemas.len() && record_uses(schemas[i].1, t@),
    decreases schemas.len(),
{
    if schemas.len() > 0 {
        let rest = alias_pairs(schemas.skip(1));
        match schemas[0].1 {
            Record::TypeAlias(a, f) => {
                if f.optional && f.ty is Model {
                    let p = (a, f.ty->Model_0);
                    assert((seq![p] + rest)[0] == p);
                    if a@ == n {
                        assert(t == f.ty->Model_0);
                        assert(record_uses(schemas[0].1, t@)) by {
                            assert(record_fields(schemas[0].1) =~= seq![f]);
                            assert(f.ty == Ty::Model(t));
                            assert(record_fields(schemas[0].1)[0] == f);
                            assert(ty_model(record_fields(schemas[0].1)[0].ty) == Some(t@));
                        };
                    } else {
                        assert((seq![p] + rest).skip(1) =~= rest);
                        lemma_alias_target_used(schemas.skip(1), n, t);
                        let i = choose|i: int|
                            0 <= i < schemas.skip(1).len() && record_uses(
                                schemas.skip(1)[i].1,
                                t@,
                            );
                        assert(record_uses(schemas[i + 1].1, t@));
                    }
                } else {
                    lemma_alias_target_used(schemas.skip(1), n, t);
                    let i = choose|i: int|
                        0 <= i < schemas.skip(1).len() && record_uses(schemas.skip(1)[i].1, t@);
                    assert(record_uses(schemas[i + 1].1, t@));
                }
            },
            _ => {
                lemma_alias_target_used(schemas.skip(1), n, t);
                let i = choose|i: int|
                    0 <= i < schemas.skip(1).len() && record_uses(schemas.skip(1)[i].1, t@);
                assert(record_uses(schemas[i + 1].1, t@));
            },
        }
    }
}

/// Alias collapsing preserves closedness: after rewriting, every name a
/// field refers to still names a record of the table — in particular no
/// field is left pointing at a record the collapse made unreachable and a
/// later prune removes.
pub proof fn lemma_collapse_preserves_closed(
    orig: Seq<(String, Record)>,
    mid: Seq<(String, Record)>,
    ops: Seq<Operation>,
)
    requires
        closed_spec(orig, ops),
        collapsed_matches(orig, mid, alias_pairs(orig)),
    ensures
        closed_spec(mid, ops),
{
    let pairs = alias_pairs(orig);
    assert forall|n: Seq<char>| #[trigger] spec_uses(mid, ops, n) implies has_key(mid, n) by {
        assert(spec_uses(orig, ops, n)) by {
            if exists|i: int| 0 <= i < mid.len() && record_uses(mid[i].1, n) {
                let i = choose|i: int| 0 <= i < mid.len() && record_uses(mid[i].1, n);
                let r = orig[i].1;
                let r2 = mid[i].1;
                assert(record_rewritten(r, r2, pairs));
                let fs2 = record_fields(r2);
                let j = choose|j: int| 0 <= j < fs2.len() && ty_model(fs2[j].ty) == Some(n);
                match r {
                    Record::Struct(sr) => {
                        let sr2 = r2->Struct_0;
                        assert(fs2 == sr2.fields@);
                        assert(sr2.fields@[j] == rewrite_field(sr.fields@[j], pairs));
                        assert(record_fields(r)[j] == sr.fields@[j]);
                        assert(record_fields(r).contains(sr.fields@[j]));
                        lemma_rewrite_field_uses(orig, ops, sr.fields@[j], n, i);
                    },
                    Record::Enum(_) => {
                        assert(record_uses(r, n));
                    },
                    Record::TypeAlias(a, f) => {
                        assert(r2 == Record::TypeAlias(a, rewrite_field(f, pairs)));
                        assert(fs2 =~= seq![rewrite_field(f, pairs)]);
                        assert(record_fields(r) =~= seq![f]);
                        assert(record_fields(r)[0] == f);
                        assert(record_fields(r).contains(f));
                        assert(ty_model(rewrite_field(f, pairs).ty) == Some(n)) by {
                            assert(fs2[j] == rewrite_field(f, pairs));
                        };
                        lemma_rewrite_field_uses(orig, ops, f, n, i);
                    },
                }
            }
        };
        assert(has_key(orig, n));
        let k = choose|k: int| 0 <= k < orig.len() && orig[k].0@ == n;
        assert(mid[k].0@ == n);
    }
}

/// A name a rewritten field refers to was used in the original table,
/// given that the field stood in record `i` there.
proof fn lemma_rewrite_field_uses(
    orig: Seq<(String, Record)>,
    ops: Seq<Operation>,
    f: Field,
    n: Seq<char>,
    i: int,
)
    requires
        0 <= i < orig.len(),
        record_fields(orig[i].1).contains(f),
        ty_model(rewrite_field(f, alias_pairs(orig)).ty) == Some(n),
    ensures
        spec_uses(orig, ops, n),
{
    let pairs = alias_pairs(orig);
    match f.ty {
        Ty::Model(m) => {
            match lookup(pairs, m@) {
                Some(t) => {
                    assert(ty_model(Ty::Model(t)) == Some(t@));
                    lemma_alias_target_used(orig, m@, t);
                },
                None => {
                    assert(record_uses(orig[i].1, n)) by {
                        let fs = record_fields(orig[i].1);
                        let j = choose|j: int| 0 <= j < fs.len() && fs[j] == f;
                        assert(ty_model(fs[j].ty) == Some(n));
                    };
                },
            }
        },
        _ => {
            assert(record_uses(orig[i].1, n)) by {
                let fs = record_fields(orig[i].1);
                let j = choose|j: int| 0 <= j < fs.len() && fs[j] == f;
                assert(ty_model(fs[j].ty) == Some(n));
            };
        },
    }
}

/// The whole sanitizer leaves no dangling reference: starting from a
/// closed table, the collapse and both pruning passes keep every name that
/// any surviving record or operation refers to present in the table.
pub proof fn lemma_sanitize_no_dangling(
    orig: Seq<(String, Record)>,
    mid: Seq<(String, Record)>,
    ops: Seq<Operation>,
)
    requires
        closed_spec(orig, ops),
        collapsed_matches(orig, mid, alias_pairs(orig)),
    ensures
        closed_spec(prune_once(prune_once(mid, ops), ops), ops),
{
    lemma_collapse_preserves_closed(orig, mid, ops);
    lemma_prune_preserves_closed(mid, ops);
    lemma_prune_preserves_closed(prune_once(mid, ops), ops);
}

/// The required (non-optional) parameters of an operation.
pub open spec fn required_params(o: Operation) -> Seq<Parameter> {
    o.parameters@.filter(|p: Parameter| !p.optional)
}

/// Whether an operation gets a synthetic record for its required
/// parameters: more than three of them.
pub open spec fn uses_required_struct(o: Operation) -> bool {
    required_params(o).len() > 3
}

/// The field a required parameter contributes to the synthetic record.
pub open spec fn param_field(p: Parameter) -> Field {
    Field { name: p.name, ty: p.ty, optional: false, example: p.example, doc: p.doc }
}

/// The synthetic record of one operation: named after the operation,
/// Pascal-cased, with a `Required` suffix; one field per required
/// parameter, in order.
pub open spec fn required_model_matches(pair: (String, Record), o: Operation) -> bool {
    &&& pair.0@ == pascal_of(o.name@) + "Required"@
    &&& (pair.1 matches Record::Struct(sr) && sr.name@ == pair.0@ && sr.fields@
        == required_params(o).map_values(|p: Parameter| param_field(p)))
}

/// The appended records against the operation list: one per operation
/// that uses a required struct, in order.
pub open spec fn appended_models_match(extra: Seq<(String, Record)>, ops: Seq<Operation>) -> bool
    decreases ops.len(),
{
    if ops.len() == 0 {
        extra.len() == 0
    } else if uses_required_struct(ops[0]) {
        &&& extra.len() >= 1
        &&& required_model_matches(extra[0], ops[0])
        &&& appended_models_match(extra.skip(1), ops.skip(1))
    } else {
        appended_models_match(extra, ops.skip(1))
    }
}

/// Adds one synthetic record per operation whose required-parameter count
/// exceeds the threshold, so that generators can emit an arguments struct.
/// The target language is accepted for interface stability; the threshold
/// rule itself does not depend on it.
pub fn add_operation_models(sourcegen: Language, spec: MirSpec) -> (r: Result<
    MirSpec,
    ExtractError,
>)
    ensures
        (r matches Ok(out) && {
            &&& out.operations == spec.operations
            &&& out.servers == spec.servers
            &&& out.security == spec.security
            &&& out.api_docs_url == spec.api_docs_url
            &&& out.schemas@.len() >= spec.schemas@.len()
            &&& out.schemas@.take(spec.schemas@.len() as int) == spec.schemas@
            &&& appended_models_match(
                out.schemas@.skip(spec.schemas@.len() as int),
                spec.operations@,
            )
        }),
{
    let _ = sourcegen;
    let mut out = spec;
    let ghost base = out.schemas@;
    let ghost ops0 = out.operations@;
    let no = out.operations.len();
    let mut i: usize = 0;
    proof {
        assert(ops0.skip(0) =~= ops0);
        assert(base.take(base.len() as int) =~= base);
        assert(base.skip(base.len() as int).len() == 0);
    }
    while i < no
        invariant
            no == out.operations@.len(),
            i <= no,
            out.operations == spec.operations,
            out.operations@ == ops0,
            ops0 == spec.operations@,
            base == spec.schemas@,
            out.servers == spec.servers,
            out.security == spec.security,
            out.api_docs_url == spec.api_docs_url,
            out.schemas@.len() >= base.len(),
            out.schemas@.take(base.len() as int) == base,
            forall|t: Seq<(String, Record)>|
                #[trigger] appended_models_match(t, ops0.skip(i as int))
                    ==> appended_models_match(
                    out.schemas@.skip(base.len() as int) + t,
                    ops0,
                ),
        decreases no - i,
    {
        proof {
            assert(ops0.skip(i as int)[0] == ops0[i as int]);
            assert(ops0.skip(i as int).skip(1) =~= ops0.skip(i + 1));
        }
        let o = &out.operations[i];
        let np = o.parameters.len();
        let mut cnt: usize = 0;
        let mut j: usize = 0;
        proof {
            assert(o.parameters@.take(0).filter(|p: Parameter| !p.optional) =~= Seq::<
                Parameter,
            >::empty());
        }
        while j < np
            invariant
                np == o.parameters@.len(),
                j <= np,
                *o == ops0[i as int],
                cnt <= j,
                cnt == o.parameters@.take(j as int).filter(|p: Parameter| !p.optional).len(),
            decreases np - j,
        {
            proof {
                lemma_filter_push(
                    o.parameters@.take(j as int),
                    |p: Parameter| !p.optional,
                    o.parameters@[j as int],
                );
                assert(o.parameters@.take(j + 1) =~= o.parameters@.take(j as int).push(
                    o.parameters@[j as int],
                ));
            }
            if !o.parameters[j].optional {
                cnt += 1;
            }
            j += 1;
        }
        proof {
            assert(o.parameters@.take(np as int) =~= o.parameters@);
        }
        if cnt > 3 {
            let mut fields: Vec<Field> = Vec::new();
            let mut k: usize = 0;
            proof {
                assert(o.parameters@.take(0).filter(|p: Parameter| !p.optional).map_values(
                    |p: Parameter| param_field(p),
                ) =~= Seq::<Field>::empty());
            }
            while k < np
                invariant
                    np == o.parameters@.len(),
                    k <= np,
                    *o == ops0[i as int],
                    fields@ == o.parameters@.take(k as int).filter(
                        |p: Parameter| !p.optional,
                    ).map_values(|p: Parameter| param_field(p)),
                decreases np - k,
            {
                proof {
                    lemma_filter_push(
                        o.parameters@.take(k as int),
                        |p: Parameter| !p.optional,
                        o.parameters@[k as int],
                    );
                    assert(o.parameters@.take(k + 1) =~= o.parameters@.take(k as int).push(
                        o.parameters@[k as int],
                    ));
                }
                let p = &o.parameters[k];
                if !p.optional {
                    let ghost fl = o.parameters@.take(k as int).filter(
                        |pq: Parameter| !pq.optional,
                    );
                    fields.push(
                        Field {
                            name: p.name.clone(),
                            ty: p.ty.clone(),
                            optional: false,
                            example: clone_opt_string(&p.example),
                            doc: clone_opt_string(&p.doc),
                        },
                    );
                    proof {
                        assert(fields@ =~= fl.push(o.parameters@[k as int]).map_values(
                            |pq: Parameter| param_field(pq),
                        ));
                    }
                }
                k += 1;
            }
            let mut nm = crate::casing::to_pascal(o.name.as_str());
            nm.append("Required");
            let sname = nm.clone();
            let ghost before = out.schemas@;
            let ghost newpair_op = ops0[i as int];
            let record = Record::Struct(StructRecord { name: sname, fields });
            out.schemas.push((nm, record));
            proof {
                let newpair = out.schemas@.last();
                assert(out.schemas@.take(base.len() as int) =~= before.take(base.len() as int));
                assert(required_model_matches(newpair, newpair_op)) by {
                    assert(o.parameters@.take(np as int) =~= o.parameters@);
                };
                assert(uses_required_struct(newpair_op)) by {
                    assert(o.parameters@.take(np as int) =~= o.parameters@);
                };
                assert forall|t: Seq<(String, Record)>|
                    #[trigger] appended_models_match(t, ops0.skip(i + 1))
                        implies appended_models_match(
                    out.schemas@.skip(base.len() as int) + t,
                    ops0,
                ) by {
                    let with_p = seq![newpair] + t;
                    assert(with_p.skip(1) =~= t);
                    assert(with_p[0] == newpair);
                    assert(appended_models_match(with_p, ops0.skip(i as int)));
                    assert(before.skip(base.len() as int) + with_p =~= out.schemas@.skip(
                        base.len() as int,
                    ) + t);
                };
            }
        } else {
            proof {
                assert(!uses_required_struct(ops0[i as int])) by {
                    assert(o.parameters@.take(np as int) =~= o.parameters@);
                };
                assert forall|t: Seq<(String, Record)>|
                    #[trigger] appended_models_match(t, ops0.skip(i + 1))
                        implies appended_models_match(
                    out.schemas@.skip(base.len() as int) + t,
                    ops0,
                ) by {
                    assert(appended_models_match(t, ops0.skip(i as int)));
                };
            }
        }
        i += 1;
    }
    proof {
        assert(ops0.skip(no as int).len() == 0);
        assert(appended_models_match(
            Seq::<(String, Record)>::empty(),
            ops0.skip(no as int),
        ));
        assert(out.schemas@.skip(base.len() as int) + Seq::<(String, Record)>::empty()
            =~= out.schemas@.skip(base.len() as int));
    }
    Ok(out)
}

/// A table that one pruning pass leaves unchanged is left unchanged by
/// another: once pruning reaches a fixed point, further passes remove
/// nothing. Two passes are a bounded approximation, and on a table whose
/// dangling chains are at most two records deep the second pass already
/// reaches that fixed point.
pub proof fn lemma_prune_fixed_point(schemas: Seq<(String, Record)>, ops: Seq<Operation>)
    requires
        prune_once(schemas, ops) == schemas,
    ensures
        prune_once(prune_once(schemas, ops), ops) == prune_once(schemas, ops),
{
}

} // verus!
