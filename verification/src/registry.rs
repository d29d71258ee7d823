//! The host registry: per-tenant routers keyed by virtual host, and the
//! dispatcher's host resolution (strip the port, look the host up).

use vstd::prelude::*;

use crate::error::{AppError, AppErrorV};
use crate::model::kvs_view;
use crate::router::{
    best_upto, route_matches, segments_of, spec_bindings, AppRouter, AppRouterV, pat_matches,
    SwappableAppRouter,
};
use crate::text::spec_upper;
use crate::text::{first_index, from_chars, lemma_first_index, lemma_first_index_is, to_chars};

verus! {

/// One tenant: a virtual host and its swappable router.
pub struct TenentRouter {
    pub host: String,
    pub router: SwappableAppRouter,
}

/// Ghost form of `TenentRouter`.
pub ghost struct TenentV {
    pub host: Seq<char>,
    pub router: AppRouterV,
}

impl View for TenentRouter {
    type V = TenentV;

    open spec fn view(&self) -> TenentV {
        TenentV { host: self.host@, router: self.router@ }
    }
}

pub open spec fn tenants_view(ts: Seq<TenentRouter>) -> Seq<TenentV> {
    ts.map_values(|t: TenentRouter| t@)
}

impl TenentRouter {
    pub fn new(host: String, router: SwappableAppRouter) -> (t: TenentRouter)
        ensures
            t@.host == host@,
            t@.router == router@,
    {
        TenentRouter { host, router }
    }
}

/// The dispatcher's shared state: the registry of tenants. Entries are added
/// at startup and read per request; later entries shadow earlier ones under
/// the same host.
pub struct AppState {
    pub routers: Vec<TenentRouter>,
}

impl View for AppState {
    type V = Seq<TenentV>;

    open spec fn view(&self) -> Seq<TenentV> {
        tenants_view(self.routers@)
    }
}

impl AppState {
    pub fn new(routers: Vec<TenentRouter>) -> (s: AppState)
        ensures
            s@ == tenants_view(routers@),
    {
        AppState { routers }
    }
}

/// The host with any `:port` suffix removed.
pub open spec fn spec_strip_port(h: Seq<char>) -> Seq<char> {
    if first_index(h, ':') >= 0 {
        h.take(first_index(h, ':'))
    } else {
        h
    }
}

/// Index of the last tenant under host `h` among the first `n`, or `-1`.
pub open spec fn last_host_upto(ts: Seq<TenentV>, h: Seq<char>, n: int) -> int
    decreases n,
{
    if n <= 0 {
        -1
    } else if ts[n - 1].host == h {
        n - 1
    } else {
        last_host_upto(ts, h, n - 1)
    }
}

pub proof fn lemma_last_host_upto(ts: Seq<TenentV>, h: Seq<char>, n: int)
    requires
        n <= ts.len(),
    ensures
        n >= 0 ==> -1 <= last_host_upto(ts, h, n) < n,
        last_host_upto(ts, h, n) == -1 ==> forall|k: int|
            0 <= k < n ==> (#[trigger] ts[k]).host != h,
        last_host_upto(ts, h, n) >= 0 ==> ts[last_host_upto(ts, h, n)].host == h,
    decreases n,
{
    if n > 0 {
        lemma_last_host_upto(ts, h, n - 1);
    }
}

/// Resolve the `Host` header to a snapshot of that tenant's router: strip
/// the port, look the remaining host up, and load a snapshot of the last
/// tenant registered under it; an unknown host is `HostNotFound`. The
/// comparison is exact: the stripped host is used verbatim as the registry
/// key, with no case folding.
pub fn get_router_by_host(host: String, state: &AppState) -> (r: Result<AppRouter, AppError>)
    ensures
        ({
            let ts = state@;
            let h = spec_strip_port(host@);
            let j = last_host_upto(ts, h, ts.len() as int);
            &&& (r is Ok <==> exists|k: int| 0 <= k < ts.len() && (#[trigger] ts[k]).host == h)
            &&& (r matches Ok(t) ==> 0 <= j < ts.len() && ts[j].host == h && t@ == ts[j].router)
            &&& (r matches Err(e) ==> e@ == AppErrorV::HostNotFound(h))
        }),
{
    let chars = to_chars(host.as_str());
    let ghost h = spec_strip_port(host@);

    let mut cut: usize = 0;
    while cut < chars.len() && chars[cut] != ':'
        invariant
            cut <= chars.len(),
            chars@ == host@,
            forall|k: int| 0 <= k < cut ==> host@[k] != ':',
        decreases chars.len() - cut,
    {
        cut += 1;
    }
    proof {
        lemma_first_index(host@, ':');
        if cut < chars@.len() {
            crate::text::lemma_first_index_is(host@, ':', cut as int);
        } else {
            assert(first_index(host@, ':') == -1) by {
                if first_index(host@, ':') >= 0 {
                    assert(host@[first_index(host@, ':')] == ':');
                }
            }
        }
        assert(h =~= host@.take(cut as int));
    }

    let mut stripped_chars: Vec<char> = Vec::new();
    let mut i: usize = 0;
    while i < cut
        invariant
            i <= cut,
            cut <= chars.len(),
            chars@ == host@,
            stripped_chars@ == host@.take(cut as int).take(i as int),
        decreases cut - i,
    {
        stripped_chars.push(chars[i]);
        proof {
            assert(host@.take(cut as int).take(i + 1) =~= host@.take(cut as int).take(
                i as int,
            ).push(host@[i as int]));
        }
        i += 1;
    }
    proof {
        assert(host@.take(cut as int).take(cut as int) =~= host@.take(cut as int));
    }
    let stripped = from_chars(&stripped_chars);

    let ghost ts = state@;
    let mut have = false;
    let mut found: usize = 0;
    let mut j: usize = 0;
    while j < state.routers.len()
        invariant
            j <= state.routers.len(),
            ts == state@,
            ts.len() == state.routers.len(),
            stripped@ == h,
            last_host_upto(ts, h, j as int) == (if have {
                found as int
            } else {
                -1
            }),
            have ==> found < j,
        decreases state.routers.len() - j,
    {
        proof {
            assert(ts[j as int] == state.routers@[j as int]@);
        }
        if state.routers[j].host.eq(&stripped) {
            have = true;
            found = j;
        }
        j += 1;
    }
    proof {
        lemma_last_host_upto(ts, h, ts.len() as int);
    }
    if have {
        Result::Ok(state.routers[found].router.load())
    } else {
        Result::Err(AppError::HostNotFound(stripped))
    }
}

/// Everything the dispatcher needs to submit a job: the code snapshot, the
/// matched handler name, and the captured path parameters.
#[derive(Debug)]
pub struct RoutePlan {
    pub code: String,
    pub handler: String,
    pub params: Vec<(String, String)>,
}

/// The dispatcher's whole routing decision for one request: resolve the
/// virtual host to a router snapshot, match method and path against it, and
/// hand back the snapshot's code with the winning handler and its bindings.
/// An unknown host is `HostNotFound`; on a known host the match errors are
/// exactly `match_it`'s.
pub fn route_request(state: &AppState, host: String, method: &str, path: &str) -> (r: Result<
    RoutePlan,
    AppError,
>)
    ensures
        ({
            let ts = state@;
            let h = spec_strip_port(host@);
            let j = last_host_upto(ts, h, ts.len() as int);
            let hosted = exists|k: int| 0 <= k < ts.len() && (#[trigger] ts[k]).host == h;
            &&& (!hosted ==> r is Err)
            &&& (!hosted ==> (r matches Err(e) ==> e@ == AppErrorV::HostNotFound(h)))
            &&& (hosted ==> ({
                let rt = ts[j].router;
                let m = spec_upper(method@);
                let segs = segments_of(path@);
                &&& (r is Ok <==> exists|i: int|
                    0 <= i < rt.routes.len() && route_matches(#[trigger] rt.routes[i], m, segs))
                &&& (r matches Ok(p) ==> ({
                    let b = best_upto(rt.routes, m, segs, rt.routes.len() as int);
                    &&& 0 <= b < rt.routes.len()
                    &&& p.code@ == rt.code
                    &&& p.handler@ == rt.routes[b].handler
                    &&& kvs_view(p.params@) == spec_bindings(segments_of(rt.routes[b].path), segs)
                }))
                &&& (r matches Err(e) ==> if exists|i: int|
                    0 <= i < rt.routes.len() && pat_matches(
                        segments_of((#[trigger] rt.routes[i]).path),
                        segs,
                    ) {
                    e@ == AppErrorV::RouteMethodNotAllowed(m)
                } else {
                    e@ == AppErrorV::RoutePathNotFound(path@)
                })
            }))
        }),
{
    let router = match get_router_by_host(host, state) {
        Result::Ok(r) => r,
        Result::Err(e) => {
            return Result::Err(e);
        },
    };
    match router.match_it(method, path) {
        Result::Ok(m) => Result::Ok(
            RoutePlan { code: router.code, handler: m.handler, params: m.params },
        ),
        Result::Err(e) => Result::Err(e),
    }
}

} // verus!
