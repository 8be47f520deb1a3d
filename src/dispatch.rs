//! The route table and the dispatcher: which handler a method and a path
//! reach, and what a request under `/api/` that reaches none gets.
use vstd::prelude::*;
use vstd::string::*;
use crate::text::pieces;
use crate::text::same_text;
use crate::text::split_on;
use crate::text::texts;

verus! {

/// The HTTP methods that the routes tell apart.
#[derive(PartialEq, Eq, Structural, Clone, Copy, Debug)]
pub enum Method {
    Get,
    Head,
    Post,
    Put,
    Delete,
    Patch,
    Options,
    Other,
}

/// The handlers that routes lead to.
#[derive(PartialEq, Eq, Structural, Clone, Copy, Debug)]
pub enum Target {
    Ping,
    Commit,
    Firewall,
    PutRule,
    DeleteRule,
    Templates,
    Template,
    PatchTemplate,
    PatchIncludes,
    Dns,
    PatchDns,
    Network,
    PatchNetwork,
    Ip,
    Link,
    Route,
    PingHost,
    Traceroute,
    Devices,
    Apk,
    World,
}

/// One segment of a route's path pattern: fixed text, or a named capture
/// that takes one non-empty path segment.
#[derive(Debug)]
pub enum Segment {
    Literal(String),
    Capture,
}

#[derive(Debug)]
pub struct Route {
    pub method: Method,
    pub pattern: Vec<Segment>,
    pub target: Target,
}

/// Where a request goes.
#[derive(Debug)]
pub enum Dispatch {
    /// The first route of the table that matches, and the path segment that
    /// its capture took.
    Found { index: usize, target: Target, param: Option<String> },
    /// No route matches a path under `/api/`.
    NotFound,
    /// No route matches and the path is outside `/api/`.
    Unrouted,
}

/// The segments of a path, the leading `/` dropped.
pub open spec fn path_parts(path: Seq<char>) -> Seq<Seq<char>> {
    if path.len() > 0 && path[0] == '/' {
        pieces(path.drop_first(), '/')
    } else {
        pieces(path, '/')
    }
}

/// Whether the segments lie under `/api/`, where the not-found fallback
/// answers.
pub open spec fn in_api(parts: Seq<Seq<char>>) -> bool {
    parts.len() >= 2 && parts[0] == "api"@
}

pub open spec fn segment_matches(s: Segment, part: Seq<char>) -> bool {
    match s {
        Segment::Literal(l) => l@ == part,
        Segment::Capture => part.len() > 0,
    }
}

pub open spec fn route_matches(r: Route, m: Method, parts: Seq<Seq<char>>) -> bool {
    &&& r.method == m
    &&& r.pattern@.len() == parts.len()
    &&& forall|k: int| 0 <= k < parts.len() ==> segment_matches(#[trigger] r.pattern@[k], parts[k])
}

/// The segment taken by the first capture of a pattern.
pub open spec fn captured(pattern: Seq<Segment>, parts: Seq<Seq<char>>) -> Option<Seq<char>>
    decreases pattern.len(),
{
    if pattern.len() == 0 || parts.len() == 0 {
        None
    } else if pattern[0] is Capture {
        Some(parts[0])
    } else {
        captured(pattern.drop_first(), parts.drop_first())
    }
}

pub open spec fn text_view(t: Option<String>) -> Option<Seq<char>> {
    match t {
        Some(s) => Some(s@),
        None => None,
    }
}

pub open spec fn no_match(table: Seq<Route>, m: Method, parts: Seq<Seq<char>>, upto: int) -> bool {
    forall|j: int| 0 <= j < upto ==> !route_matches(#[trigger] table[j], m, parts)
}

/// What dispatching a method and a path through a table yields: the first
/// matching route, else the not-found fallback under `/api/`, else nothing.
/// A `HEAD` request that no route takes is dispatched as a `GET`.
pub open spec fn dispatched(table: Seq<Route>, m: Method, path: Seq<char>, d: Dispatch) -> bool {
    if m == Method::Head && no_match(table, Method::Head, path_parts(path), table.len() as int) {
        dispatched_for(table, Method::Get, path, d)
    } else {
        dispatched_for(table, m, path, d)
    }
}

/// Dispatching for exactly one method, with no fallback between methods.
pub open spec fn dispatched_for(table: Seq<Route>, m: Method, path: Seq<char>, d: Dispatch) -> bool {
    let parts = path_parts(path);
    match d {
        Dispatch::Found { index, target, param } => {
            &&& index < table.len()
            &&& route_matches(table[index as int], m, parts)
            &&& no_match(table, m, parts, index as int)
            &&& target == table[index as int].target
            &&& text_view(param) == captured(table[index as int].pattern@, parts)
        },
        Dispatch::NotFound => no_match(table, m, parts, table.len() as int) && in_api(parts),
        Dispatch::Unrouted => no_match(table, m, parts, table.len() as int) && !in_api(parts),
    }
}

/// The segments of a request path.
pub fn split_path(path: &str) -> (r: Vec<String>)
    ensures
        texts(r@) == path_parts(path@),
{
    let n = path.unicode_len();
    if n > 0 && path.get_char(0) == '/' {
        let rest = path.substring_char(1, n);
        assert(rest@ =~= path@.drop_first());
        split_on(rest, '/')
    } else {
        split_on(path, '/')
    }
}

/// Whether one route matches a method and the segments of a path.
pub fn matches_route(route: &Route, m: Method, parts: &Vec<String>) -> (r: bool)
    ensures
        r == route_matches(*route, m, texts(parts@)),
{
    if route.method != m || route.pattern.len() != parts.len() {
        return false;
    }
    let mut k: usize = 0;
    while k < parts.len()
        invariant
            route.pattern@.len() == parts@.len(),
            route.method == m,
            k <= parts.len(),
            forall|i: int| 0 <= i < k ==> segment_matches(#[trigger] route.pattern@[i], texts(parts@)[i]),
        decreases parts.len() - k,
    {
        let ok = match &route.pattern[k] {
            Segment::Literal(l) => same_text(l.as_str(), parts[k].as_str()),
            Segment::Capture => parts[k].unicode_len() > 0,
        };
        if !ok {
            assert(!segment_matches(route.pattern@[k as int], texts(parts@)[k as int]));
            return false;
        }
        k = k + 1;
    }
    true
}

/// The segment that the first capture of a pattern takes, if any.
pub fn capture_of(pattern: &Vec<Segment>, parts: &Vec<String>) -> (r: Option<String>)
    ensures
        text_view(r) == captured(pattern@, texts(parts@)),
{
    let mut k: usize = 0;
    assert(pattern@.skip(0) =~= pattern@);
    assert(texts(parts@).skip(0) =~= texts(parts@));
    while k < pattern.len() && k < parts.len()
        invariant
            k <= pattern.len(),
            k <= parts.len(),
            captured(pattern@.skip(k as int), texts(parts@).skip(k as int)) == captured(pattern@, texts(parts@)),
        decreases pattern.len() - k,
    {
        assert(pattern@.skip(k as int).drop_first() =~= pattern@.skip(k + 1));
        assert(texts(parts@).skip(k as int).drop_first() =~= texts(parts@).skip(k + 1));
        assert(pattern@.skip(k as int)[0] == pattern@[k as int]);
        assert(texts(parts@).skip(k as int)[0] == parts@[k as int]@);
        if let Segment::Capture = &pattern[k] {
            return Some(parts[k].clone());
        }
        k = k + 1;
    }
    assert(pattern@.skip(k as int).len() == 0 || texts(parts@).skip(k as int).len() == 0);
    None
}

/// Dispatches a method and a path through a route table; a `HEAD` request
/// that no route takes is tried as a `GET`.
pub fn dispatch(table: &Vec<Route>, m: Method, path: &str) -> (r: Dispatch)
    ensures
        dispatched(table@, m, path@, r),
{
    let d = dispatch_for(table, m, path);
    match d {
        Dispatch::Found { .. } => {
            proof {
                if let Dispatch::Found { index, .. } = d {
                    assert(route_matches(table@[index as int], m, path_parts(path@)));
                }
            }
            d
        },
        _ => {
            if m == Method::Head {
                dispatch_for(table, Method::Get, path)
            } else {
                d
            }
        },
    }
}

/// Dispatches a method and a path through a route table, for that method
/// alone.
fn dispatch_for(table: &Vec<Route>, m: Method, path: &str) -> (r: Dispatch)
    ensures
        dispatched_for(table@, m, path@, r),
{
    let parts = split_path(path);
    let mut i: usize = 0;
    while i < table.len()
        invariant
            i <= table.len(),
            texts(parts@) == path_parts(path@),
            no_match(table@, m, path_parts(path@), i as int),
        decreases table.len() - i,
    {
        if matches_route(&table[i], m, &parts) {
            let param = capture_of(&table[i].pattern, &parts);
            return Dispatch::Found { index: i, target: table[i].target, param };
        }
        i = i + 1;
    }
    if parts.len() >= 2 && same_text(parts[0].as_str(), "api") {
        Dispatch::NotFound
    } else {
        Dispatch::Unrouted
    }
}

/// Whether two outcomes of dispatching are the same: the same route with the
/// same captured segment, or the same fallback.
pub open spec fn same_dispatch(a: Dispatch, b: Dispatch) -> bool {
    match (a, b) {
        (
            Dispatch::Found { index: i, target: t, param: p },
            Dispatch::Found { index: j, target: u, param: q },
        ) => i == j && t == u && text_view(p) == text_view(q),
        (Dispatch::NotFound, Dispatch::NotFound) => true,
        (Dispatch::Unrouted, Dispatch::Unrouted) => true,
        _ => false,
    }
}

/// Dispatching is deterministic: for one table, method and path, any two
/// outcomes that dispatching may give select the same route and capture, or
/// the same fallback.
pub proof fn lemma_dispatch_deterministic(
    table: Seq<Route>,
    m: Method,
    path: Seq<char>,
    a: Dispatch,
    b: Dispatch,
)
    requires
        dispatched(table, m, path, a),
        dispatched(table, m, path, b),
    ensures
        same_dispatch(a, b),
{
    if m == Method::Head && no_match(table, Method::Head, path_parts(path), table.len() as int) {
        lemma_dispatch_for_deterministic(table, Method::Get, path, a, b);
    } else {
        lemma_dispatch_for_deterministic(table, m, path, a, b);
    }
}

proof fn lemma_dispatch_for_deterministic(
    table: Seq<Route>,
    m: Method,
    path: Seq<char>,
    a: Dispatch,
    b: Dispatch,
)
    requires
        dispatched_for(table, m, path, a),
        dispatched_for(table, m, path, b),
    ensures
        same_dispatch(a, b),
{
    let parts = path_parts(path);
    match (a, b) {
        (Dispatch::Found { index: i, .. }, Dispatch::Found { index: j, .. }) => {
            if i < j {
                assert(!route_matches(table[i as int], m, parts));
            } else if j < i {
                assert(!route_matches(table[j as int], m, parts));
            }
        },
        (Dispatch::Found { index: i, .. }, _) => {
            assert(!route_matches(table[i as int], m, parts));
        },
        (_, Dispatch::Found { index: j, .. }) => {
            assert(!route_matches(table[j as int], m, parts));
        },
        _ => {},
    }
}

/// A pattern as text: each literal segment, or nothing for a capture.
pub open spec fn pattern_view(p: Seq<Segment>) -> Seq<Option<Seq<char>>> {
    p.map_values(
        |s: Segment|
            match s {
                Segment::Literal(l) => Some(l@),
                Segment::Capture => None,
            },
    )
}

pub open spec fn route_view(r: Route) -> (Method, Seq<Option<Seq<char>>>, Target) {
    (r.method, pattern_view(r.pattern@), r.target)
}

pub open spec fn api(rest: Seq<Option<Seq<char>>>) -> Seq<Option<Seq<char>>> {
    seq![Some("api"@)] + rest
}

/// The service's routes, in the order they are tried.
pub open spec fn api_table() -> Seq<(Method, Seq<Option<Seq<char>>>, Target)> {
    seq![
        (Method::Get, api(seq![Some("ping"@)]), Target::Ping),
        (Method::Post, api(seq![Some("commit"@)]), Target::Commit),
        (Method::Get, api(seq![Some("firewall"@)]), Target::Firewall),
        (Method::Put, api(seq![Some("firewall"@), Some("rule"@)]), Target::PutRule),
        (Method::Delete, api(seq![Some("firewall"@), Some("rule"@)]), Target::DeleteRule),
        (Method::Get, api(seq![Some("firewall"@), Some("templates"@)]), Target::Templates),
        (Method::Get, api(seq![Some("firewall"@), Some("template"@), None]), Target::Template),
        (Method::Patch, api(seq![Some("firewall"@), Some("template"@), None]), Target::PatchTemplate),
        (Method::Patch, api(seq![Some("firewall"@), Some("includes"@)]), Target::PatchIncludes),
        (Method::Get, api(seq![Some("dns"@)]), Target::Dns),
        (Method::Patch, api(seq![Some("dns"@)]), Target::PatchDns),
        (Method::Get, api(seq![Some("network"@)]), Target::Network),
        (Method::Patch, api(seq![Some("network"@)]), Target::PatchNetwork),
        (Method::Get, api(seq![Some("ip"@)]), Target::Ip),
        (Method::Get, api(seq![Some("link"@)]), Target::Link),
        (Method::Get, api(seq![Some("route"@)]), Target::Route),
        (Method::Get, api(seq![Some("ping"@), None]), Target::PingHost),
        (Method::Get, api(seq![Some("traceroute"@), None]), Target::Traceroute),
        (Method::Get, api(seq![Some("devices"@), None]), Target::Devices),
        (Method::Post, api(seq![Some("apk"@)]), Target::Apk),
        (Method::Get, api(seq![Some("world"@)]), Target::World),
    ]
}

fn literal(s: &str) -> (r: Segment)
    ensures
        r matches Segment::Literal(l) && l@ == s@,
{
    Segment::Literal(String::from_str(s))
}

/// The route `/api/<a>`.
fn route1(method: Method, a: &str, target: Target) -> (r: Route)
    ensures
        route_view(r) == (method, api(seq![Some(a@)]), target),
{
    let r = Route { method, pattern: vec![literal("api"), literal(a)], target };
    assert(pattern_view(r.pattern@) =~= api(seq![Some(a@)]));
    r
}

/// The route `/api/<a>/<b>`, or `/api/<a>/:capture` where `b` is `None`.
fn route2(method: Method, a: &str, b: Option<&str>, target: Target) -> (r: Route)
    ensures
        route_view(r) == (method, api(seq![Some(a@), match b {
            Some(t) => Some(t@),
            None => None,
        }]), target),
{
    let last = match b {
        Some(t) => literal(t),
        None => Segment::Capture,
    };
    let r = Route { method, pattern: vec![literal("api"), literal(a), last], target };
    assert(pattern_view(r.pattern@) =~= api(seq![Some(a@), match b {
        Some(t) => Some(t@),
        None => None,
    }]));
    r
}

/// The route `/api/<a>/<b>/:capture`.
fn route3(method: Method, a: &str, b: &str, target: Target) -> (r: Route)
    ensures
        route_view(r) == (method, api(seq![Some(a@), Some(b@), None]), target),
{
    let r = Route {
        method,
        pattern: vec![literal("api"), literal(a), literal(b), Segment::Capture],
        target,
    };
    assert(pattern_view(r.pattern@) =~= api(seq![Some(a@), Some(b@), None]));
    r
}

/// The service's route table.
#[verifier::rlimit(100)]
pub fn api_routes() -> (r: Vec<Route>)
    ensures
        r@.map_values(|x: Route| route_view(x)) == api_table(),
{
    let mut t: Vec<Route> = Vec::new();
    t.push(route1(Method::Get, "ping", Target::Ping));
    assert(route_view(t@[0]) == api_table()[0]);
    t.push(route1(Method::Post, "commit", Target::Commit));
    assert(route_view(t@[1]) == api_table()[1]);
    t.push(route1(Method::Get, "firewall", Target::Firewall));
    assert(route_view(t@[2]) == api_table()[2]);
    t.push(route2(Method::Put, "firewall", Some("rule"), Target::PutRule));
    assert(route_view(t@[3]) == api_table()[3]);
    t.push(route2(Method::Delete, "firewall", Some("rule"), Target::DeleteRule));
    assert(route_view(t@[4]) == api_table()[4]);
    t.push(route2(Method::Get, "firewall", Some("templates"), Target::Templates));
    assert(route_view(t@[5]) == api_table()[5]);
    t.push(route3(Method::Get, "firewall", "template", Target::Template));
    assert(route_view(t@[6]) == api_table()[6]);
    t.push(route3(Method::Patch, "firewall", "template", Target::PatchTemplate));
    assert(route_view(t@[7]) == api_table()[7]);
    t.push(route2(Method::Patch, "firewall", Some("includes"), Target::PatchIncludes));
    assert(route_view(t@[8]) == api_table()[8]);
    t.push(route1(Method::Get, "dns", Target::Dns));
    assert(route_view(t@[9]) == api_table()[9]);
    t.push(route1(Method::Patch, "dns", Target::PatchDns));
    assert(route_view(t@[10]) == api_table()[10]);
    t.push(route1(Method::Get, "network", Target::Network));
    assert(route_view(t@[11]) == api_table()[11]);
    t.push(route1(Method::Patch, "network", Target::PatchNetwork));
    assert(route_view(t@[12]) == api_table()[12]);
    t.push(route1(Method::Get, "ip", Target::Ip));
    assert(route_view(t@[13]) == api_table()[13]);
    t.push(route1(Method::Get, "link", Target::Link));
    assert(route_view(t@[14]) == api_table()[14]);
    t.push(route1(Method::Get, "route", Target::Route));
    assert(route_view(t@[15]) == api_table()[15]);
    t.push(route2(Method::Get, "ping", None, Target::PingHost));
    assert(route_view(t@[16]) == api_table()[16]);
    t.push(route2(Method::Get, "traceroute", None, Target::Traceroute));
    assert(route_view(t@[17]) == api_table()[17]);
    t.push(route2(Method::Get, "devices", None, Target::Devices));
    assert(route_view(t@[18]) == api_table()[18]);
    t.push(route1(Method::Post, "apk", Target::Apk));
    assert(route_view(t@[19]) == api_table()[19]);
    t.push(route1(Method::Get, "world", Target::World));
    assert(route_view(t@[20]) == api_table()[20]);
    assert(t@.len() == api_table().len());
    assert(t@.map_values(|x: Route| route_view(x)) =~= api_table());
    t
}

} // verus!
