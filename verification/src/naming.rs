//! The naming heuristic: synthesizing an operation name from an HTTP method
//! and a path template, as a pure, fully specified string transform.

use vstd::prelude::*;
use crate::strutil::is_prefix_of;

verus! {

/// The segments of `s` separated by `/`. An empty string has one empty
/// segment; a separator at either end contributes an empty segment.
pub open spec fn split_slash(s: Seq<char>) -> Seq<Seq<char>>
    decreases s.len(),
{
    if s.len() == 0 {
        seq![Seq::<char>::empty()]
    } else if s[0] == '/' {
        seq![Seq::<char>::empty()] + split_slash(s.skip(1))
    } else {
        let rest = split_slash(s.skip(1));
        seq![seq![s[0]] + rest[0]] + rest.skip(1)
    }
}

pub proof fn lemma_split_len(s: Seq<char>)
    ensures
        split_slash(s).len() >= 1,
    decreases s.len(),
{
    if s.len() == 0 {
    } else if s[0] == '/' {
        lemma_split_len(s.skip(1));
    } else {
        lemma_split_len(s.skip(1));
    }
}

/// How one left-to-right scanning step relates to `split_slash`: if the
/// first `i` characters hold no separator, the split either is the single
/// whole segment (no separator at all) or breaks at the first separator.
pub proof fn lemma_split_step(s: Seq<char>, i: int)
    requires
        0 <= i <= s.len(),
        forall|j: int| 0 <= j < i ==> s[j] != '/',
    ensures
        i == s.len() && (forall|j: int| 0 <= j < s.len() ==> s[j] != '/') ==> split_slash(s)
            =~~= seq![s],
        i < s.len() && s[i] == '/' ==> split_slash(s) =~~= seq![s.take(i)] + split_slash(
            s.skip(i + 1),
        ),
    decreases i,
{
    lemma_split_len(s.skip(1));
    if i == 0 {
        if 0 < s.len() && s[0] == '/' {
            assert(s.take(0) =~= Seq::<char>::empty());
        }
        if s.len() == 0 {
            assert(split_slash(s) =~~= seq![s]);
        } else if forall|j: int| 0 <= j < s.len() ==> s[j] != '/' {
        }
    } else {
        // s[0] != '/' and s.len() > 0
        let s1 = s.skip(1);
        assert(forall|j: int| 0 <= j < i - 1 ==> s1[j] != '/');
        lemma_split_step(s1, i - 1);
        let rest = split_slash(s1);
        if i == s.len() && (forall|j: int| 0 <= j < s.len() ==> s[j] != '/') {
            assert(forall|j: int| 0 <= j < s1.len() ==> s1[j] != '/');
            assert(rest =~~= seq![s1]);
            assert(seq![s[0]] + rest[0] =~= s);
            assert(split_slash(s) =~~= seq![s]);
        } else if i < s.len() && s[i] == '/' {
            assert(s1[i - 1] == '/');
            assert(rest =~~= seq![s1.take(i - 1)] + split_slash(s1.skip(i)));
            assert(seq![s[0]] + s1.take(i - 1) =~= s.take(i));
            assert(s1.skip(i) =~= s.skip(i + 1));
            assert(rest[0] == s1.take(i - 1));
            assert(rest.skip(1) =~~= split_slash(s.skip(i + 1)));
            assert(split_slash(s) =~~= seq![s.take(i)] + split_slash(s.skip(i + 1)));
        }
    }
}

/// A path-parameter segment: `{...}`.
pub open spec fn is_param_seg(g: Seq<char>) -> bool {
    g.len() > 0 && g[0] == '{'
}

/// The non-parameter segments, in order.
pub open spec fn nonparam_segs(segs: Seq<Seq<char>>) -> Seq<Seq<char>> {
    segs.filter(|g: Seq<char>| !is_param_seg(g))
}

/// The parameter segments, in order.
pub open spec fn param_segs(segs: Seq<Seq<char>>) -> Seq<Seq<char>> {
    segs.filter(|g: Seq<char>| is_param_seg(g))
}

/// A parameter segment with its leading `{` and trailing `}` removed.
pub open spec fn strip_braces(g: Seq<char>) -> Seq<char>
    recommends
        g.len() >= 2,
{
    g.subrange(1, g.len() - 1)
}

/// The non-parameter segments joined with underscores.
pub open spec fn join_underscore(parts: Seq<Seq<char>>) -> Seq<char>
    decreases parts.len(),
{
    if parts.len() == 0 {
        Seq::empty()
    } else if parts.len() == 1 {
        parts[0]
    } else {
        join_underscore(parts.drop_last()) + seq!['_'] + parts.last()
    }
}

pub proof fn lemma_join_push(parts: Seq<Seq<char>>, x: Seq<char>)
    ensures
        parts.len() == 0 ==> join_underscore(parts.push(x)) == x,
        parts.len() > 0 ==> join_underscore(parts.push(x)) == join_underscore(parts)
            + seq!['_'] + x,
{
    let p = parts.push(x);
    if parts.len() == 0 {
        assert(p.len() == 1);
        assert(p[0] == x);
    } else {
        assert(p.drop_last() =~~= parts);
        assert(p.last() == x);
    }
}

/// An element of a filtered sequence is an element of the sequence, and
/// satisfies the predicate.
pub proof fn lemma_filter_elem_of(s: Seq<Seq<char>>, pred: spec_fn(Seq<char>) -> bool, x: Seq<char>)
    requires
        s.filter(pred).contains(x),
    ensures
        s.contains(x),
        pred(x),
    decreases s.len(),
{
    reveal(Seq::filter);
    if s.len() > 0 {
        if pred(s.last()) && x == s.last() {
        } else {
            assert(s.drop_last().filter(pred).contains(x));
            lemma_filter_elem_of(s.drop_last(), pred, x);
            let i = choose|i: int| 0 <= i < s.drop_last().len() && s.drop_last()[i] == x;
            assert(s[i] == x);
        }
    }
}

pub proof fn lemma_filter_push(s: Seq<Seq<char>>, pred: spec_fn(Seq<char>) -> bool, x: Seq<char>)
    ensures
        pred(x) ==> s.push(x).filter(pred) == s.filter(pred).push(x),
        !pred(x) ==> s.push(x).filter(pred) == s.filter(pred),
{
    reveal(Seq::filter);
    assert(s.push(x).drop_last() =~~= s);
    assert(s.push(x).last() == x);
    if pred(x) {
        assert(s.push(x).filter(pred) =~~= s.filter(pred).push(x));
    }
}

/// The `_by_<param>` suffix derived from the last path parameter, if any:
/// the parameter's braces are stripped, and a leading repetition of the
/// final non-parameter segment (plus one separator character) is removed.
pub open spec fn by_suffix(segs: Seq<Seq<char>>) -> Seq<char> {
    let ps = param_segs(segs);
    if ps.len() == 0 {
        Seq::empty()
    } else {
        let inner = strip_braces(ps.last());
        let base = nonparam_segs(segs);
        let stripped = if base.len() > 0 && is_prefix_of(base.last(), inner) {
            inner.skip(base.last().len() as int + 1)
        } else {
            inner
        };
        seq!['_', 'b', 'y', '_'] + stripped
    }
}

/// The synthesized operation name: the method, the non-parameter segments
/// joined with underscores, and the `_by_` suffix.
pub open spec fn op_name(method: Seq<char>, url: Seq<char>) -> Seq<char> {
    method + join_underscore(nonparam_segs(split_slash(url))) + by_suffix(split_slash(url))
}

/// The path templates the heuristic accepts: every parameter segment
/// carries both braces, and when the last parameter repeats the final
/// non-parameter segment as a prefix it is longer than that segment.
pub open spec fn url_wf(url: Seq<char>) -> bool {
    let segs = split_slash(url);
    let ps = param_segs(segs);
    let base = nonparam_segs(segs);
    &&& forall|i: int|
        0 <= i < segs.len() && is_param_seg(#[trigger] segs[i]) ==> segs[i].len() >= 2
    &&& (ps.len() > 0 && base.len() > 0 && is_prefix_of(base.last(), strip_braces(ps.last())))
        ==> strip_braces(ps.last()).len() > base.last().len()
}

/// The segments a boundary list denotes.
pub open spec fn bounds_segs(bounds: Seq<(usize, usize)>, url: Seq<char>) -> Seq<Seq<char>> {
    bounds.map_values(|b: (usize, usize)| url.subrange(b.0 as int, b.1 as int))
}

proof fn lemma_bounds_push(bounds: Seq<(usize, usize)>, url: Seq<char>, p: (usize, usize))
    ensures
        bounds_segs(bounds.push(p), url) =~~= bounds_segs(bounds, url).push(
            url.subrange(p.0 as int, p.1 as int),
        ),
{
}

/// Splits `url` on `/`, returning the character boundaries of each segment.
fn split_bounds(url: &str) -> (bounds: Vec<(usize, usize)>)
    ensures
        bounds_segs(bounds@, url@) == split_slash(url@),
        forall|k: int|
            0 <= k < bounds@.len() ==> (#[trigger] bounds@[k]).0 <= bounds@[k].1 <= url@.len(),
{
    let n = url.unicode_len();
    let mut bounds: Vec<(usize, usize)> = Vec::new();
    let mut start: usize = 0;
    let mut i: usize = 0;
    proof {
        assert(url@.skip(0) =~= url@);
    }
    while i < n
        invariant
            n == url@.len(),
            start <= i <= n,
            forall|j: int| start <= j < i ==> url@[j] != '/',
            forall|k: int|
                0 <= k < bounds@.len() ==> (#[trigger] bounds@[k]).0 <= bounds@[k].1 <= n,
            bounds_segs(bounds@, url@) + split_slash(url@.skip(start as int)) =~~= split_slash(
                url@,
            ),
        decreases n - i,
    {
        if url.get_char(i) == '/' {
            proof {
                let tail = url@.skip(start as int);
                assert(forall|j: int| 0 <= j < i - start ==> tail[j] != '/');
                assert(tail[i - start] == '/');
                lemma_split_step(tail, i - start);
                assert(tail.take(i - start) =~= url@.subrange(start as int, i as int));
                assert(tail.skip(i - start + 1) =~= url@.skip(i + 1));
                lemma_bounds_push(bounds@, url@, (start, i));
            }
            bounds.push((start, i));
            start = i + 1;
        }
        i += 1;
    }
    proof {
        let tail = url@.skip(start as int);
        assert(forall|j: int| 0 <= j < tail.len() ==> tail[j] != '/');
        lemma_split_step(tail, n - start);
        assert(tail =~= url@.subrange(start as int, n as int));
        lemma_bounds_push(bounds@, url@, (start, n));
        assert(bounds_segs(bounds@, url@).push(url@.subrange(start as int, n as int))
            + Seq::<Seq<char>>::empty() =~~= bounds_segs(bounds@, url@).push(
            url@.subrange(start as int, n as int),
        ));
    }
    bounds.push((start, n));
    proof {
        assert(bounds_segs(bounds@, url@) =~~= split_slash(url@));
    }
    bounds
}

/// Decides whether a path template is well-formed and, when it is,
/// synthesizes the operation name; a malformed template yields nothing
/// instead of a name.
pub fn try_make_name_from_method_and_url(method: &str, url: &str) -> (r: Option<String>)
    ensures
        (match r {
            Some(s) => url_wf(url@) && s@ == op_name(method@, url@),
            None => !url_wf(url@),
        }),
{
    let ghost segs = split_slash(url@);
    let bounds = split_bounds(url);
    let m = bounds.len();
    let mut last_base: Option<(usize, usize)> = None;
    let mut last_param: Option<(usize, usize)> = None;
    let mut k: usize = 0;
    proof {
        assert(segs.take(0) =~~= Seq::<Seq<char>>::empty());
        reveal(Seq::filter);
        assert(nonparam_segs(segs.take(0)) =~~= Seq::<Seq<char>>::empty());
        assert(param_segs(segs.take(0)) =~~= Seq::<Seq<char>>::empty());
    }
    while k < m
        invariant
            m == bounds@.len(),
            k <= m,
            segs == split_slash(url@),
            bounds_segs(bounds@, url@) == segs,
            forall|j: int|
                0 <= j < bounds@.len() ==> (#[trigger] bounds@[j]).0 <= bounds@[j].1
                    <= url@.len(),
            forall|j: int|
                0 <= j < k && is_param_seg(#[trigger] segs[j]) ==> segs[j].len() >= 2,
            (match last_base {
                None => nonparam_segs(segs.take(k as int)).len() == 0,
                Some((a, b)) => {
                    &&& a <= b <= url@.len()
                    &&& nonparam_segs(segs.take(k as int)).len() > 0
                    &&& nonparam_segs(segs.take(k as int)).last() == url@.subrange(
                        a as int,
                        b as int,
                    )
                },
            }),
            (match last_param {
                None => param_segs(segs.take(k as int)).len() == 0,
                Some((a, b)) => {
                    &&& a <= b <= url@.len()
                    &&& param_segs(segs.take(k as int)).len() > 0
                    &&& param_segs(segs.take(k as int)).last() == url@.subrange(
                        a as int,
                        b as int,
                    )
                },
            }),
        decreases m - k,
    {
        let (a, b) = bounds[k];
        let ghost seg = url@.subrange(a as int, b as int);
        proof {
            assert(seg == segs[k as int]);
            assert(segs.take(k + 1) =~~= segs.take(k as int).push(seg));
            lemma_filter_push(segs.take(k as int), |g: Seq<char>| !is_param_seg(g), seg);
            lemma_filter_push(segs.take(k as int), |g: Seq<char>| is_param_seg(g), seg);
        }
        let is_param = a < b && url.get_char(a) == '{';
        proof {
            assert(is_param == is_param_seg(seg));
        }
        if is_param {
            if b - a < 2 {
                proof {
                    assert(is_param_seg(segs[k as int]) && segs[k as int].len() < 2);
                    assert(!url_wf(url@));
                }
                return None;
            }
            last_param = Some((a, b));
        } else {
            last_base = Some((a, b));
        }
        k += 1;
    }
    proof {
        assert(segs.take(m as int) =~~= segs);
    }
    match (last_param, last_base) {
        (Some((a, b)), Some((c, d))) => {
            proof {
                let ps = param_segs(segs);
                assert(ps.last() == url@.subrange(a as int, b as int));
                assert(ps.contains(ps.last())) by {
                    assert(ps[ps.len() - 1] == ps.last());
                };
                lemma_filter_elem_of(
                    segs,
                    |g: Seq<char>| is_param_seg(g),
                    url@.subrange(a as int, b as int),
                );
                let i = choose|i: int|
                    0 <= i < segs.len() && segs[i] == url@.subrange(a as int, b as int);
                assert(is_param_seg(segs[i]));
                assert(url@.subrange(a as int, b as int).len() >= 2);
                assert(strip_braces(url@.subrange(a as int, b as int)) =~= url@.subrange(
                    a + 1,
                    b - 1,
                ));
            }
            let inner = url.substring_char(a + 1, b - 1);
            let base_s = url.substring_char(c, d);
            if crate::strutil::str_starts_with(inner, base_s) && (b - 1) - (a + 1) <= d - c {
                proof {
                    assert(!url_wf(url@));
                }
                return None;
            }
            proof {
                assert(url_wf(url@));
            }
            Some(make_name_from_method_and_url(method, url))
        },
        _ => {
            proof {
                assert(url_wf(url@));
            }
            Some(make_name_from_method_and_url(method, url))
        },
    }
}

/// Synthesizes an operation name from an HTTP method and a path template:
/// the non-parameter segments joined with underscores, appended to the
/// method, followed by `_by_<param>` for the last path parameter, with a
/// leading repetition of the last static segment removed from the
/// parameter name.
pub fn make_name_from_method_and_url(method: &str, url: &str) -> (r: String)
    requires
        url_wf(url@),
    ensures
        r@ == op_name(method@, url@),
{
    let ghost segs = split_slash(url@);
    let bounds = split_bounds(url);
    let m = bounds.len();
    let mut name = String::new();
    let mut last_base: Option<(usize, usize)> = None;
    let mut last_param: Option<(usize, usize)> = None;
    let mut k: usize = 0;
    proof {
        assert(segs.take(0) =~~= Seq::<Seq<char>>::empty());
        reveal(Seq::filter);
        assert(nonparam_segs(segs.take(0)) =~~= Seq::<Seq<char>>::empty());
        assert(param_segs(segs.take(0)) =~~= Seq::<Seq<char>>::empty());
        reveal_strlit("_");
        assert("_"@ =~= seq!['_']);
    }
    while k < m
        invariant
            m == bounds@.len(),
            k <= m,
            segs == split_slash(url@),
            bounds_segs(bounds@, url@) == segs,
            forall|j: int|
                0 <= j < bounds@.len() ==> (#[trigger] bounds@[j]).0 <= bounds@[j].1
                    <= url@.len(),
            name@ == join_underscore(nonparam_segs(segs.take(k as int))),
            (match last_base {
                None => nonparam_segs(segs.take(k as int)).len() == 0,
                Some((a, b)) => {
                    &&& a <= b <= url@.len()
                    &&& nonparam_segs(segs.take(k as int)).len() > 0
                    &&& nonparam_segs(segs.take(k as int)).last() == url@.subrange(
                        a as int,
                        b as int,
                    )
                },
            }),
            (match last_param {
                None => param_segs(segs.take(k as int)).len() == 0,
                Some((a, b)) => {
                    &&& a <= b <= url@.len()
                    &&& param_segs(segs.take(k as int)).len() > 0
                    &&& param_segs(segs.take(k as int)).last() == url@.subrange(
                        a as int,
                        b as int,
                    )
                },
            }),
            "_"@ == seq!['_'],
        decreases m - k,
    {
        let (a, b) = bounds[k];
        let ghost seg = url@.subrange(a as int, b as int);
        proof {
            assert(seg == segs[k as int]);
            assert(segs.take(k + 1) =~~= segs.take(k as int).push(seg));
            lemma_filter_push(segs.take(k as int), |g: Seq<char>| !is_param_seg(g), seg);
            lemma_filter_push(segs.take(k as int), |g: Seq<char>| is_param_seg(g), seg);
        }
        let is_param = a < b && url.get_char(a) == '{';
        proof {
            assert(is_param == is_param_seg(seg));
        }
        if !is_param {
            proof {
                lemma_join_push(nonparam_segs(segs.take(k as int)), seg);
            }
            if last_base.is_some() {
                name.append("_");
            }
            name.append(url.substring_char(a, b));
            last_base = Some((a, b));
        } else {
            last_param = Some((a, b));
        }
        k += 1;
    }
    proof {
        assert(segs.take(m as int) =~~= segs);
    }
    let mut result = String::from_str(method);
    result.append(name.as_str());
    match last_param {
        None => {
            proof {
                assert(by_suffix(segs) =~= Seq::<char>::empty());
                assert(result@ =~= op_name(method@, url@));
            }
        },
        Some((a, b)) => {
            let ghost pseg = url@.subrange(a as int, b as int);
            proof {
                reveal_strlit("_by_");
                assert("_by_"@ =~= seq!['_', 'b', 'y', '_']);
                let ps = param_segs(segs);
                assert(ps.last() == pseg);
                assert(ps.contains(pseg)) by {
                    assert(ps[ps.len() - 1] == pseg);
                };
                lemma_filter_elem_of(segs, |g: Seq<char>| is_param_seg(g), pseg);
                let i = choose|i: int| 0 <= i < segs.len() && segs[i] == pseg;
                assert(is_param_seg(segs[i]));
                assert(pseg.len() >= 2);
                assert(strip_braces(pseg) =~= url@.subrange(a + 1, b - 1));
            }
            result.append("_by_");
            let inner = url.substring_char(a + 1, b - 1);
            let stripped = match last_base {
                Some((c, d)) => {
                    let base_s = url.substring_char(c, d);
                    if crate::strutil::str_starts_with(inner, base_s) {
                        let blen = d - c;
                        proof {
                            assert(strip_braces(pseg).len() > (d - c)) by {
                                assert(is_prefix_of(
                                    nonparam_segs(segs).last(),
                                    strip_braces(param_segs(segs).last()),
                                ));
                            };
                            assert(strip_braces(pseg).skip(blen + 1) =~= url@.subrange(
                                a + 1 + blen + 1,
                                b - 1,
                            ));
                        }
                        url.substring_char(a + 1 + blen + 1, b - 1)
                    } else {
                        inner
                    }
                },
                None => inner,
            };
            result.append(stripped);
            proof {
                assert(result@ =~= op_name(method@, url@));
            }
        },
    }
    result
}

} // verus!
