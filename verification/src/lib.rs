//! Extraction of a language-agnostic intermediate representation (IR) from an
//! OpenAPI 3 document.
//!
//! The pipeline resolves schemas into a small type algebra, classifies named
//! component schemas into records, extracts operations (merging parameters,
//! flattening request bodies, selecting the success response), models
//! authorization strategies, classifies servers, and finally sanitizes the
//! assembled IR (alias collapsing and reachability-based pruning).

use vstd::prelude::*;

pub mod casing;
pub mod extract;
pub mod hir;
pub mod naming;
pub mod oa;
pub mod options;
pub mod records;
pub mod resolve;
pub mod sanitize;
pub mod security;
pub mod servers;
pub mod strutil;

use crate::extract::{
    extract_api_operations, inputs_match, operation_matches, paths_named_wf, prefix_op_count,
};
use crate::hir::{ExtractError, MirSpec, Record};
use crate::oa::{doc_wf, OaDocument};
use crate::options::LibraryOptions;
use crate::records::{extract_records, record_matches};
use crate::sanitize::{alias_pairs, collapsed_matches, sanitize_spec};
use crate::security::{extract_security_strategies, strategies_match};
use crate::servers::{extract_api_docs_link, extract_servers, kv_map, spec_servers};

verus! {

/// Runs the whole extraction pipeline over a parsed document: operations,
/// the record table, servers, security strategies and the documentation
/// link, assembled into one IR value and then sanitized in place.
///
/// The synthetic records for operations with many required parameters are
/// a separate enrichment step; see `sanitize::add_operation_models`.
pub fn extract_spec(d: &OaDocument, opt: &LibraryOptions) -> (res: Result<MirSpec, ExtractError>)
    requires
        doc_wf(*d),
        paths_named_wf(*d),
    ensures
        (match res {
            Ok(s) => {
                &&& s.operations@.len() == prefix_op_count(d.paths@, d.paths@.len() as int)
                &&& forall|pi: int, oi: int|
                    0 <= pi < d.paths@.len() && 0 <= oi < (#[trigger] d.paths@[pi]).1.operations@.len()
                        ==> operation_matches(
                        s.operations@[prefix_op_count(d.paths@, pi) + oi],
                        d.paths@[pi].0,
                        (#[trigger] d.paths@[pi].1.operations@[oi]).0,
                        d.paths@[pi].1.operations@[oi].1,
                        d.paths@[pi].1,
                        *d,
                    )
                &&& exists|table: Seq<(String, Record)>, mid: Seq<(String, Record)>| {
                    &&& table.len() == d.schemas@.len()
                    &&& (forall|i: int|
                        0 <= i < d.schemas@.len() ==> (#[trigger] table[i]).0@ == d.schemas@[i].0@
                            && record_matches(d.schemas@[i].0@, d.schemas@[i].1, *d, table[i].1))
                    &&& #[trigger] collapsed_matches(table, mid, alias_pairs(table))
                    &&& s.schemas@ == crate::hir::prune_once(
                        crate::hir::prune_once(mid, s.operations@),
                        s.operations@,
                    )
                }
                &&& kv_map(s.servers@) == spec_servers(d.servers@)
                &&& strategies_match(s.security@, d.security@, *d, opt.service_name)
                &&& s.api_docs_url == d.external_docs_url
            },
            Err(e) => exists|pi: int, oi: int|
                0 <= pi < d.paths@.len() && 0 <= oi < d.paths@[pi].1.operations@.len()
                    && inputs_match(
                    Err(e),
                    (#[trigger] d.paths@[pi].1.operations@[oi]).1,
                    d.paths@[pi].1,
                    *d,
                ) && crate::extract::no_input_err_before(*d, pi, oi),
        }),
{
    let operations = match extract_api_operations(d) {
        Ok(ops) => ops,
        Err(e) => {
            return Err(e);
        },
    };
    let schemas = extract_records(d);
    let servers = extract_servers(d);
    let security = extract_security_strategies(d, opt);
    let api_docs_url = extract_api_docs_link(d);
    let mut s = MirSpec { operations, schemas, servers, security, api_docs_url };
    sanitize_spec(&mut s);
    Ok(s)
}

} // verus!
