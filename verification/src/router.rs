//! The per-tenant route table: path-pattern matching with named segments,
//! construction and validation of a table from a bundled script and a route
//! list, and value-level hot-swap with independent snapshots.

use vstd::prelude::*;

use crate::error::{AppError, AppErrorV};
use crate::model::kvs_view;
use crate::text::{
    chars_eq, from_chars, segs_view, spec_split, spec_upper, split_chars, to_chars, upper_chars,
};

verus! {

/// One route of a project manifest: an allowed method, a path pattern with
/// literal and `:name` segments, and the handler name the bundle exports.
#[derive(Debug)]
pub struct ProjectRoute {
    pub method: String,
    pub path: String,
    pub handler: String,
}

/// Ghost form of `ProjectRoute`.
pub ghost struct RouteV {
    pub method: Seq<char>,
    pub path: Seq<char>,
    pub handler: Seq<char>,
}

impl View for ProjectRoute {
    type V = RouteV;

    open spec fn view(&self) -> RouteV {
        RouteV { method: self.method@, path: self.path@, handler: self.handler@ }
    }
}

pub open spec fn routes_view(rs: Seq<ProjectRoute>) -> Seq<RouteV> {
    rs.map_values(|r: ProjectRoute| r@)
}

/// A `:name` segment of a pattern.
pub open spec fn is_param_seg(seg: Seq<char>) -> bool {
    seg.len() >= 1 && seg[0] == ':'
}

/// A pattern segment accepts a path segment: a parameter segment accepts any
/// non-empty segment, a literal segment only its exact text.
pub open spec fn seg_matches(pseg: Seq<char>, seg: Seq<char>) -> bool {
    if is_param_seg(pseg) {
        seg.len() > 0
    } else {
        pseg == seg
    }
}

/// The segments of a path or pattern; a trailing slash yields a final empty
/// segment, so it is significant.
pub open spec fn segments_of(path: Seq<char>) -> Seq<Seq<char>> {
    spec_split(path, '/')
}

/// A pattern matches a path exactly when they have the same number of
/// segments and each pattern segment accepts the path segment at its place.
pub open spec fn pat_matches(pat: Seq<Seq<char>>, segs: Seq<Seq<char>>) -> bool {
    pat.len() == segs.len() && forall|i: int|
        0 <= i < pat.len() ==> seg_matches(#[trigger] pat[i], segs[i])
}

/// The bindings a match produces: for each parameter segment, its name
/// (without the colon) paired with the path segment it captured, in pattern
/// order.
pub open spec fn spec_bindings(pat: Seq<Seq<char>>, segs: Seq<Seq<char>>) -> Seq<
    (Seq<char>, Seq<char>),
>
    decreases pat.len(),
{
    if pat.len() == 0 || segs.len() == 0 {
        Seq::empty()
    } else {
        let init = spec_bindings(pat.drop_last(), segs.drop_last());
        if is_param_seg(pat.last()) {
            init + seq![(pat.last().drop_first(), segs.last())]
        } else {
            init
        }
    }
}

/// The number of leading literal segments of a pattern; the measure of
/// specificity used to break ambiguity.
pub open spec fn lit_prefix(pat: Seq<Seq<char>>) -> nat
    decreases pat.len(),
{
    if pat.len() == 0 {
        0
    } else if is_param_seg(pat[0]) {
        0
    } else {
        1 + lit_prefix(pat.drop_first())
    }
}

/// A route accepts a request: its stored (uppercase) method equals the
/// uppercased request method and its pattern matches the path segments.
pub open spec fn route_matches(r: RouteV, m_upper: Seq<char>, segs: Seq<Seq<char>>) -> bool {
    r.method == m_upper && pat_matches(segments_of(r.path), segs)
}

/// Among the first `n` routes, the index of the winner: the most specific
/// accepting route (largest literal prefix), earliest insertion on ties;
/// `-1` when none accepts.
pub open spec fn best_upto(rs: Seq<RouteV>, m_upper: Seq<char>, segs: Seq<Seq<char>>, n: int) -> int
    decreases n,
{
    if n <= 0 {
        -1
    } else {
        let prev = best_upto(rs, m_upper, segs, n - 1);
        if route_matches(rs[n - 1], m_upper, segs) && (prev == -1 || lit_prefix(
            segments_of(rs[n - 1].path),
        ) > lit_prefix(segments_of(rs[prev].path))) {
            n - 1
        } else {
            prev
        }
    }
}

pub proof fn lemma_best_upto(rs: Seq<RouteV>, m_upper: Seq<char>, segs: Seq<Seq<char>>, n: int)
    requires
        n <= rs.len(),
    ensures
        n >= 0 ==> -1 <= best_upto(rs, m_upper, segs, n) < n,
        best_upto(rs, m_upper, segs, n) == -1 ==> forall|i: int|
            0 <= i < n ==> !route_matches(#[trigger] rs[i], m_upper, segs),
        best_upto(rs, m_upper, segs, n) >= 0 ==> {
            &&& best_upto(rs, m_upper, segs, n) < n
            &&& route_matches(rs[best_upto(rs, m_upper, segs, n)], m_upper, segs)
        },
    decreases n,
{
    if n > 0 {
        lemma_best_upto(rs, m_upper, segs, n - 1);
    }
}

/// A well-formed pattern: it begins with `/` and every parameter segment
/// carries a non-empty name.
pub open spec fn valid_pattern(path: Seq<char>) -> bool {
    &&& path.len() >= 1
    &&& path[0] == '/'
    &&& forall|i: int|
        0 <= i < segments_of(path).len() && is_param_seg(#[trigger] segments_of(path)[i])
            ==> segments_of(path)[i].len() >= 2
}

/// A route acceptable to the table: a well-formed pattern and a method
/// already in its uppercase form.
pub open spec fn valid_route(r: RouteV) -> bool {
    valid_pattern(r.path) && r.method == spec_upper(r.method)
}

/// Uppercasing the method of a route.
pub open spec fn normalize_route(r: RouteV) -> RouteV {
    RouteV { method: spec_upper(r.method), path: r.path, handler: r.handler }
}

pub open spec fn normalize_routes(rs: Seq<RouteV>) -> Seq<RouteV> {
    rs.map_values(|r: RouteV| normalize_route(r))
}

/// The routes an accepted manifest yields: every pattern well-formed.
pub open spec fn all_patterns_valid(rs: Seq<RouteV>) -> bool {
    forall|i: int| 0 <= i < rs.len() ==> valid_pattern((#[trigger] rs[i]).path)
}

/// A well-formed table: every route valid (pattern well-formed, method
/// uppercase).
pub open spec fn table_wf(rs: Seq<RouteV>) -> bool {
    forall|i: int| 0 <= i < rs.len() ==> valid_route(#[trigger] rs[i])
}

/// The result of a successful match: the handler to invoke and the captured
/// path parameters.
#[derive(Debug)]
pub struct MatchedRoute {
    pub handler: String,
    pub params: Vec<(String, String)>,
}

/// An immutable route table: the bundled script and the routes, kept
/// together so a reader always gets code and routes as one snapshot.
#[derive(Debug)]
pub struct AppRouter {
    pub code: String,
    pub routes: Vec<ProjectRoute>,
}

/// Ghost form of `AppRouter`.
pub ghost struct AppRouterV {
    pub code: Seq<char>,
    pub routes: Seq<RouteV>,
}

impl View for AppRouter {
    type V = AppRouterV;

    open spec fn view(&self) -> AppRouterV {
        AppRouterV { code: self.code@, routes: routes_view(self.routes@) }
    }
}

fn is_param_seg_exec(seg: &Vec<char>) -> (r: bool)
    ensures
        r == is_param_seg(seg@),
{
    seg.len() >= 1 && seg[0] == ':'
}

fn pat_matches_exec(pat: &Vec<Vec<char>>, segs: &Vec<Vec<char>>) -> (r: bool)
    ensures
        r == pat_matches(segs_view(pat@), segs_view(segs@)),
{
    if pat.len() != segs.len() {
        return false;
    }
    let mut i: usize = 0;
    while i < pat.len()
        invariant
            i <= pat.len(),
            pat.len() == segs.len(),
            forall|k: int|
                0 <= k < i ==> seg_matches(#[trigger] segs_view(pat@)[k], segs_view(segs@)[k]),
        decreases pat.len() - i,
    {
        let ok = if is_param_seg_exec(&pat[i]) {
            segs[i].len() > 0
        } else {
            chars_eq(&pat[i], &segs[i])
        };
        if !ok {
            proof {
                assert(!seg_matches(segs_view(pat@)[i as int], segs_view(segs@)[i as int]));
            }
            return false;
        }
        i += 1;
    }
    true
}

proof fn lemma_lit_prefix_at(pat: Seq<Seq<char>>, j: int)
    requires
        0 <= j <= pat.len(),
        forall|k: int| 0 <= k < j ==> !is_param_seg(#[trigger] pat[k]),
        j < pat.len() ==> is_param_seg(pat[j]),
    ensures
        lit_prefix(pat) == j,
    decreases pat.len(),
{
    if pat.len() == 0 {
    } else if j == 0 {
    } else {
        assert forall|k: int| 0 <= k < j - 1 implies !is_param_seg(
            #[trigger] pat.drop_first()[k],
        ) by {
            assert(pat.drop_first()[k] == pat[k + 1]);
        }
        if j - 1 < pat.drop_first().len() {
            assert(pat.drop_first()[j - 1] == pat[j]);
        }
        lemma_lit_prefix_at(pat.drop_first(), j - 1);
    }
}

fn lit_prefix_exec(pat: &Vec<Vec<char>>) -> (r: usize)
    ensures
        r == lit_prefix(segs_view(pat@)),
{
    let mut i: usize = 0;
    while i < pat.len() && !is_param_seg_exec(&pat[i])
        invariant
            i <= pat.len(),
            forall|k: int| 0 <= k < i ==> !is_param_seg(#[trigger] segs_view(pat@)[k]),
        decreases pat.len() - i,
    {
        i += 1;
    }
    proof {
        lemma_lit_prefix_at(segs_view(pat@), i as int);
    }
    i
}

fn bindings_exec(pat: &Vec<Vec<char>>, segs: &Vec<Vec<char>>) -> (v: Vec<(String, String)>)
    requires
        pat.len() == segs.len(),
    ensures
        kvs_view(v@) == spec_bindings(segs_view(pat@), segs_view(segs@)),
{
    let mut v: Vec<(String, String)> = Vec::new();
    let mut i: usize = 0;
    while i < pat.len()
        invariant
            i <= pat.len(),
            pat.len() == segs.len(),
            kvs_view(v@) == spec_bindings(
                segs_view(pat@).take(i as int),
                segs_view(segs@).take(i as int),
            ),
        decreases pat.len() - i,
    {
        let ghost pv = segs_view(pat@).take(i + 1);
        let ghost sv = segs_view(segs@).take(i + 1);
        proof {
            assert(pv.drop_last() =~= segs_view(pat@).take(i as int));
            assert(sv.drop_last() =~= segs_view(segs@).take(i as int));
            assert(pv.last() == pat@[i as int]@);
            assert(sv.last() == segs@[i as int]@);
        }
        if is_param_seg_exec(&pat[i]) {
            let mut name_chars: Vec<char> = Vec::new();
            let mut k: usize = 1;
            while k < pat[i].len()
                invariant
                    i < pat.len(),
                    1 <= k <= pat@[i as int]@.len(),
                    name_chars@ == pat@[i as int]@.subrange(1, k as int),
                decreases pat@[i as int]@.len() - k,
            {
                name_chars.push(pat[i][k]);
                proof {
                    assert(pat@[i as int]@.subrange(1, k + 1) =~= pat@[i as int]@.subrange(
                        1,
                        k as int,
                    ).push(pat@[i as int]@[k as int]));
                }
                k += 1;
            }
            proof {
                assert(name_chars@ =~= pat@[i as int]@.drop_first());
            }
            let name = from_chars(&name_chars);
            let value = from_chars(&segs[i]);
            let ghost old_kvs = kvs_view(v@);
            v.push((name, value));
            proof {
                assert(kvs_view(v@) =~= old_kvs + seq![
                    (pat@[i as int]@.drop_first(), segs@[i as int]@),
                ]);
                assert(kvs_view(v@) == spec_bindings(pv, sv));
            }
        } else {
            proof {
                assert(kvs_view(v@) == spec_bindings(pv, sv));
            }
        }
        i += 1;
    }
    proof {
        assert(segs_view(pat@).take(pat.len() as int) =~= segs_view(pat@));
        assert(segs_view(segs@).take(segs.len() as int) =~= segs_view(segs@));
    }
    v
}

/// Validate one pattern: leading `/` and non-empty parameter names.
fn check_pattern(path: &String) -> (r: bool)
    ensures
        r == valid_pattern(path@),
{
    let chars = to_chars(path.as_str());
    if chars.len() == 0 || chars[0] != '/' {
        return false;
    }
    let segs = split_chars(&chars, '/');
    let mut i: usize = 0;
    while i < segs.len()
        invariant
            i <= segs.len(),
            chars@ == path@,
            path@.len() >= 1 && path@[0] == '/',
            segs_view(segs@) == segments_of(path@),
            forall|k: int|
                0 <= k < i && is_param_seg(#[trigger] segments_of(path@)[k]) ==> segments_of(
                    path@,
                )[k].len() >= 2,
        decreases segs.len() - i,
    {
        if is_param_seg_exec(&segs[i]) && segs[i].len() < 2 {
            proof {
                assert(is_param_seg(segments_of(path@)[i as int]) && segments_of(path@)[
                    i as int].len() < 2);
            }
            return false;
        }
        i += 1;
    }
    true
}

impl AppRouter {
    /// Build a table from a bundled script and a manifest's routes. Succeeds
    /// exactly when every pattern is well-formed; methods are stored
    /// uppercased. On failure the error names the first offending pattern.
    pub fn try_new(code: String, routes: Vec<ProjectRoute>) -> (r: Result<AppRouter, AppError>)
        ensures
            r is Ok <==> all_patterns_valid(routes_view(routes@)),
            r matches Ok(t) ==> t@.code == code@ && t@.routes == normalize_routes(
                routes_view(routes@),
            ),
            r matches Ok(t) ==> table_wf(t@.routes),
            r matches Err(e) ==> exists|i: int|
                0 <= i < routes@.len() && !valid_pattern((#[trigger] routes_view(routes@)[i]).path)
                    && e@ == AppErrorV::Internal(routes_view(routes@)[i].path),
    {
        let mut out: Vec<ProjectRoute> = Vec::new();
        let mut i: usize = 0;
        while i < routes.len()
            invariant
                i <= routes.len(),
                out@.len() == i,
                forall|k: int|
                    0 <= k < i ==> valid_pattern((#[trigger] routes_view(routes@)[k]).path),
                routes_view(out@) =~= normalize_routes(routes_view(routes@)).take(i as int),
            decreases routes.len() - i,
        {
            if !check_pattern(&routes[i].path) {
                proof {
                    let ghost w = i as int;
                    assert(routes_view(routes@)[w] == routes@[w]@);
                    assert(!valid_pattern(routes_view(routes@)[w].path));
                }
                return Result::Err(AppError::Internal(routes[i].path.clone()));
            }
            let m_chars = upper_chars(&to_chars(routes[i].method.as_str()));
            let method = from_chars(&m_chars);
            let r = ProjectRoute {
                method,
                path: routes[i].path.clone(),
                handler: routes[i].handler.clone(),
            };
            out.push(r);
            proof {
                assert(routes_view(out@) =~= normalize_routes(routes_view(routes@)).take(i + 1));
            }
            i += 1;
        }
        proof {
            assert(normalize_routes(routes_view(routes@)).take(routes@.len() as int)
                =~= normalize_routes(routes_view(routes@)));
            assert forall|k: int| 0 <= k < routes_view(out@).len() implies valid_route(
                #[trigger] routes_view(out@)[k],
            ) by {
                assert(routes_view(out@)[k] == normalize_routes(routes_view(routes@))[k]);
                crate::text::lemma_upper_idempotent(routes_view(routes@)[k].method);
            }
        }
        Result::Ok(AppRouter { code, routes: out })
    }

    /// Resolve a request to a handler. Succeeds exactly when some route
    /// accepts the uppercased method and the path; the winner is the most
    /// specific accepting route (ties go to insertion order), and the
    /// captured parameters are the winner's named-segment bindings. A path
    /// no pattern matches is `RoutePathNotFound`; a matched path with no
    /// accepting method is `RouteMethodNotAllowed`.
    pub fn match_it(&self, method: &str, path: &str) -> (r: Result<MatchedRoute, AppError>)
        ensures
            ({
                let rs = self@.routes;
                let m = spec_upper(method@);
                let segs = segments_of(path@);
                &&& (r is Ok <==> exists|i: int|
                    0 <= i < rs.len() && route_matches(#[trigger] rs[i], m, segs))
                &&& (r matches Ok(mr) ==> {
                    let b = best_upto(rs, m, segs, rs.len() as int);
                    &&& 0 <= b < rs.len()
                    &&& route_matches(rs[b], m, segs)
                    &&& mr.handler@ == rs[b].handler
                    &&& kvs_view(mr.params@) == spec_bindings(segments_of(rs[b].path), segs)
                })
                &&& (r matches Err(e) ==> !(exists|i: int|
                    0 <= i < rs.len() && route_matches(#[trigger] rs[i], m, segs)))
                &&& (r matches Err(e) ==> if exists|i: int|
                    0 <= i < rs.len() && pat_matches(segments_of((#[trigger] rs[i]).path), segs) {
                    e@ == AppErrorV::RouteMethodNotAllowed(m)
                } else {
                    e@ == AppErrorV::RoutePathNotFound(path@)
                })
            }),
    {
        let m_vec = upper_chars(&to_chars(method));
        let m_str = from_chars(&m_vec);
        let path_chars = to_chars(path);
        let segs = split_chars(&path_chars, '/');
        let ghost rs = self@.routes;
        let ghost m = spec_upper(method@);
        let ghost gsegs = segments_of(path@);

        let mut have_best = false;
        let mut best: usize = 0;
        let mut best_lit: usize = 0;
        let mut any_path = false;
        let mut i: usize = 0;
        while i < self.routes.len()
            invariant
                i <= self.routes.len(),
                rs == self@.routes,
                rs.len() == self.routes.len(),
                m == m_str@,
                segs_view(segs@) == gsegs,
                any_path <==> exists|k: int|
                    0 <= k < i && pat_matches(segments_of((#[trigger] rs[k]).path), gsegs),
                have_best <==> best_upto(rs, m, gsegs, i as int) >= 0,
                have_best ==> best == best_upto(rs, m, gsegs, i as int),
                have_best ==> 0 <= best < i,
                have_best ==> best_lit == lit_prefix(segments_of(rs[best as int].path)),
            decreases self.routes.len() - i,
        {
            let ghost prev_have = have_best;
            let ghost prev_best = best as int;
            let pat = split_chars(&to_chars(self.routes[i].path.as_str()), '/');
            proof {
                assert(rs[i as int] == self.routes@[i as int]@);
                assert(segs_view(pat@) == segments_of(rs[i as int].path));
            }
            let path_hit = pat_matches_exec(&pat, &segs);
            let mut full_hit = false;
            if path_hit {
                any_path = true;
                if self.routes[i].method.eq(&m_str) {
                    full_hit = true;
                    let lp = lit_prefix_exec(&pat);
                    if !have_best || lp > best_lit {
                        have_best = true;
                        best = i;
                        best_lit = lp;
                    }
                }
            }
            proof {
                lemma_best_upto(rs, m, gsegs, i as int);
                let prev = best_upto(rs, m, gsegs, i as int);
                assert(prev_have ==> prev == prev_best);
                assert(!prev_have ==> prev == -1);
                assert(full_hit == route_matches(rs[i as int], m, gsegs));
                if path_hit {
                    assert(pat_matches(segments_of(rs[i as int].path), gsegs));
                    assert(exists|k: int|
                        0 <= k < i + 1 && pat_matches(
                            segments_of((#[trigger] rs[k]).path),
                            gsegs,
                        ));
                }
                assert(best_upto(rs, m, gsegs, i + 1) == (if route_matches(rs[i as int], m, gsegs)
                    && (prev == -1 || lit_prefix(segments_of(rs[i as int].path)) > lit_prefix(
                    segments_of(rs[prev].path),
                )) {
                    i as int
                } else {
                    prev
                }));
            }
            i += 1;
        }
        proof {
            lemma_best_upto(rs, m, gsegs, rs.len() as int);
        }
        if have_best {
            let pat = split_chars(&to_chars(self.routes[best].path.as_str()), '/');
            proof {
                assert(rs[best as int] == self.routes@[best as int]@);
                assert(segs_view(pat@) == segments_of(rs[best as int].path));
                assert(route_matches(rs[best as int], m, gsegs));
                assert(segs_view(pat@).len() == pat@.len());
                assert(segs_view(segs@).len() == segs@.len());
            }
            let params = bindings_exec(&pat, &segs);
            let handler = self.routes[best].handler.clone();
            Result::Ok(MatchedRoute { handler, params })
        } else if any_path {
            Result::Err(AppError::RouteMethodNotAllowed(m_str))
        } else {
            Result::Err(AppError::RoutePathNotFound(path.to_owned()))
        }
    }

    /// An identical copy of this table.
    pub fn clone_of(&self) -> (r: AppRouter)
        ensures
            r@ == self@,
    {
        let mut routes: Vec<ProjectRoute> = Vec::new();
        let mut i: usize = 0;
        while i < self.routes.len()
            invariant
                i <= self.routes.len(),
                routes@.len() == i,
                forall|k: int| 0 <= k < i ==> #[trigger] routes@[k]@ == self.routes@[k]@,
            decreases self.routes.len() - i,
        {
            let r = ProjectRoute {
                method: self.routes[i].method.clone(),
                path: self.routes[i].path.clone(),
                handler: self.routes[i].handler.clone(),
            };
            proof {
                assert(r@ == self.routes@[i as int]@);
            }
            routes.push(r);
            i += 1;
        }
        proof {
            assert(routes_view(routes@) =~= routes_view(self.routes@));
        }
        AppRouter { code: self.code.clone(), routes }
    }
}

/// A handle to the current table. A swap replaces the whole value at once;
/// a load yields a snapshot whose lifetime is independent of later swaps.
#[derive(Debug)]
pub struct SwappableAppRouter {
    pub inner: AppRouter,
}

impl View for SwappableAppRouter {
    type V = AppRouterV;

    open spec fn view(&self) -> AppRouterV {
        self.inner@
    }
}

/// What one swap attempt does to the table: a well-formed route list
/// replaces code and routes together; a malformed one leaves the old table
/// authoritative.
pub open spec fn apply_swap(t: AppRouterV, code: Seq<char>, routes: Seq<RouteV>) -> AppRouterV {
    if all_patterns_valid(routes) {
        AppRouterV { code, routes: normalize_routes(routes) }
    } else {
        t
    }
}

/// The table after a whole sequence of swap attempts.
pub open spec fn apply_swaps(t: AppRouterV, swaps: Seq<(Seq<char>, Seq<RouteV>)>) -> AppRouterV
    decreases swaps.len(),
{
    if swaps.len() == 0 {
        t
    } else {
        apply_swaps(apply_swap(t, swaps[0].0, swaps[0].1), swaps.drop_first())
    }
}

/// Normalizing an accepted route list yields a well-formed table.
pub proof fn lemma_normalize_wf(rs: Seq<RouteV>)
    requires
        all_patterns_valid(rs),
    ensures
        table_wf(normalize_routes(rs)),
{
    assert forall|k: int| 0 <= k < normalize_routes(rs).len() implies valid_route(
        #[trigger] normalize_routes(rs)[k],
    ) by {
        assert(normalize_routes(rs)[k] == normalize_route(rs[k]));
        crate::text::lemma_upper_idempotent(rs[k].method);
    }
}

/// A reader holding a snapshot observes a consistent pair even under
/// arbitrarily many swaps: starting from a well-formed table, every table
/// the router passes through -- and hence every snapshot any reader can
/// hold -- is a complete, well-formed `(code, routes)` pair.
pub proof fn lemma_swap_chain_consistent(t: AppRouterV, swaps: Seq<(Seq<char>, Seq<RouteV>)>)
    requires
        table_wf(t.routes),
    ensures
        table_wf(apply_swaps(t, swaps).routes),
    decreases swaps.len(),
{
    if swaps.len() > 0 {
        let t2 = apply_swap(t, swaps[0].0, swaps[0].1);
        if all_patterns_valid(swaps[0].1) {
            lemma_normalize_wf(swaps[0].1);
        }
        lemma_swap_chain_consistent(t2, swaps.drop_first());
    }
}

impl SwappableAppRouter {
    /// Build the initial table; fails exactly on a malformed route list.
    pub fn try_new(code: String, routes: Vec<ProjectRoute>) -> (r: Result<
        SwappableAppRouter,
        AppError,
    >)
        ensures
            r is Ok <==> all_patterns_valid(routes_view(routes@)),
            r matches Ok(t) ==> t@ == (AppRouterV {
                code: code@,
                routes: normalize_routes(routes_view(routes@)),
            }),
            r matches Ok(t) ==> table_wf(t@.routes),
            r matches Err(e) ==> e@ matches AppErrorV::Internal(_),
    {
        match AppRouter::try_new(code, routes) {
            Result::Ok(inner) => Result::Ok(SwappableAppRouter { inner }),
            Result::Err(e) => Result::Err(e),
        }
    }

    /// A complete snapshot of the current table, unaffected by later swaps.
    pub fn load(&self) -> (snap: AppRouter)
        ensures
            snap@ == self@,
    {
        self.inner.clone_of()
    }

    /// Atomically replace code and routes together. A malformed route list
    /// is rejected and the previous table stays authoritative.
    pub fn swap(&mut self, code: String, routes: Vec<ProjectRoute>) -> (r: Result<(), AppError>)
        ensures
            final(self)@ == apply_swap(old(self)@, code@, routes_view(routes@)),
            r is Ok <==> all_patterns_valid(routes_view(routes@)),
            r is Err ==> final(self)@ == old(self)@,
            r matches Err(e) ==> e@ matches AppErrorV::Internal(_),
    {
        match AppRouter::try_new(code, routes) {
            Result::Ok(inner) => {
                self.inner = inner;
                Result::Ok(())
            },
            Result::Err(e) => Result::Err(e),
        }
    }
}

} // verus!
