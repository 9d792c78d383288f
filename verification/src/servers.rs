//! The server/docs extractor: classifies declared servers by environment
//! keyword, and surfaces the external documentation link.

use vstd::prelude::*;
use crate::casing::{lower_of, to_lower};
use crate::oa::{OaDocument, OaServer};
use crate::strutil::{has_substr, str_contains};

verus! {

/// The mapping a key-value list denotes; a later entry overrides an
/// earlier one of the same key.
pub open spec fn kv_map(entries: Seq<(String, String)>) -> Map<Seq<char>, Seq<char>>
    decreases entries.len(),
{
    if entries.len() == 0 {
        Map::empty()
    } else {
        kv_map(entries.drop_last()).insert(entries.last().0@, entries.last().1@)
    }
}

/// The first environment keyword, in priority order, contained in the
/// lowercased server description, if any.
pub open spec fn first_keyword(desc: Option<String>) -> Option<Seq<char>> {
    match desc {
        None => None,
        Some(s) => if has_substr(lower_of(s@), "beta"@) {
            Some("beta"@)
        } else if has_substr(lower_of(s@), "production"@) {
            Some("production"@)
        } else if has_substr(lower_of(s@), "development"@) {
            Some("development"@)
        } else if has_substr(lower_of(s@), "sandbox"@) {
            Some("sandbox"@)
        } else {
            None
        },
    }
}

/// Registration of servers one by one; a server whose description matches
/// no keyword discards the whole map.
pub open spec fn servers_step(
    acc: Map<Seq<char>, Seq<char>>,
    svs: Seq<OaServer>,
) -> Option<Map<Seq<char>, Seq<char>>>
    decreases svs.len(),
{
    if svs.len() == 0 {
        Some(acc)
    } else {
        match first_keyword(svs[0].description) {
            None => None,
            Some(kw) => servers_step(acc.insert(kw, svs[0].url@), svs.skip(1)),
        }
    }
}

/// The extracted server map: a single server is registered under
/// `default`; otherwise each server is registered under its matched
/// keyword, and one unmatched server empties the whole map.
pub open spec fn spec_servers(svs: Seq<OaServer>) -> Map<Seq<char>, Seq<char>> {
    if svs.len() == 1 {
        Map::empty().insert("default"@, svs[0].url@)
    } else {
        match servers_step(Map::empty(), svs) {
            None => Map::empty(),
            Some(m) => m,
        }
    }
}

/// Classifies the declared servers by environment keyword.
pub fn extract_servers(d: &OaDocument) -> (res: Vec<(String, String)>)
    ensures
        kv_map(res@) == spec_servers(d.servers@),
        d.servers@.len() == 1 ==> res@.len() == 1 && res@[0].0@ == "default"@ && res@[0].1@
            == d.servers@[0].url@,
{
    let mut servers: Vec<(String, String)> = Vec::new();
    if d.servers.len() == 1 {
        servers.push((String::from_str("default"), d.servers[0].url.clone()));
        proof {
            assert(servers@.drop_last() =~= Seq::<(String, String)>::empty());
            assert(kv_map(servers@.drop_last()) =~= Map::<Seq<char>, Seq<char>>::empty());
            assert(kv_map(servers@) =~~= spec_servers(d.servers@));
        }
        return servers;
    }
    let n = d.servers.len();
    let mut i: usize = 0;
    proof {
        assert(d.servers@.skip(0) =~= d.servers@);
    }
    while i < n
        invariant
            n == d.servers@.len(),
            n != 1,
            i <= n,
            servers_step(kv_map(servers@), d.servers@.skip(i as int)) == servers_step(
                Map::empty(),
                d.servers@,
            ),
        decreases n - i,
    {
        proof {
            assert(d.servers@.skip(i as int)[0] == d.servers@[i as int]);
            assert(d.servers@.skip(i as int).skip(1) =~= d.servers@.skip(i + 1));
        }
        let server = &d.servers[i];
        let keyword: Option<&str> = match &server.description {
            None => None,
            Some(desc) => {
                let lowered = to_lower(desc.as_str());
                if str_contains(lowered.as_str(), "beta") {
                    Some("beta")
                } else if str_contains(lowered.as_str(), "production") {
                    Some("production")
                } else if str_contains(lowered.as_str(), "development") {
                    Some("development")
                } else if str_contains(lowered.as_str(), "sandbox") {
                    Some("sandbox")
                } else {
                    None
                }
            },
        };
        match keyword {
            None => {
                let empty: Vec<(String, String)> = Vec::new();
                proof {
                    assert(kv_map(empty@) =~= spec_servers(d.servers@));
                }
                return empty;
            },
            Some(kw) => {
                proof {
                    assert(first_keyword(d.servers@[i as int].description) == Some(kw@));
                }
                let ghost old_servers = servers@;
                servers.push((String::from_str(kw), server.url.clone()));
                proof {
                    assert(servers@.drop_last() =~= old_servers);
                    assert(kv_map(servers@) =~~= kv_map(old_servers).insert(
                        kw@,
                        d.servers@[i as int].url@,
                    ));
                }
            },
        }
        i += 1;
    }
    proof {
        assert(d.servers@.skip(n as int).len() == 0);
    }
    servers
}

/// The external documentation link of the document, verbatim.
pub fn extract_api_docs_link(d: &OaDocument) -> (res: Option<String>)
    ensures
        res == d.external_docs_url,
{
    crate::resolve::clone_opt_string(&d.external_docs_url)
}

} // verus!
