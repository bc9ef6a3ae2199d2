//! Request routing: the registered HTTP and WebSocket handlers, kept in
//! priority order, and the choice of the handler that serves a request.
use vstd::prelude::*;

use crate::text::{owned, str_eq};

verus! {

broadcast use vstd::string::group_string_axioms;

/// The HTTP methods handlers are registered for.
#[derive(Debug, Clone, Copy, PartialEq, Eq, Structural)]
pub enum Method {
    Get,
    Post,
    Put,
    Delete,
    Patch,
    Head,
    Options,
}

/// How a handler's pattern matches request paths.
#[derive(Debug, Clone, Copy, PartialEq, Eq, Structural)]
pub enum PathMatch {
    /// The pattern itself or a path below it (`/` only itself)
    Segment,
    /// Any path that starts with the pattern
    Prefix,
    /// The pattern itself only
    Exact,
}

/// Whether `p` occurs at the start of `s`.
pub open spec fn starts_with(s: Seq<char>, p: Seq<char>) -> bool {
    p.len() <= s.len() && s.take(p.len() as int) == p
}

/// Whether a handler's pattern takes `path`.
pub open spec fn spec_matches_path(pattern: Seq<char>, path: Seq<char>, m: PathMatch) -> bool {
    match m {
        PathMatch::Segment => if pattern == "/"@ {
            path == "/"@
        } else {
            path == pattern || starts_with(path, pattern + "/"@)
        },
        PathMatch::Prefix => starts_with(path, pattern),
        PathMatch::Exact => path == pattern,
    }
}

fn starts_with_str(s: &str, p: &str) -> (b: bool)
    ensures
        b == starts_with(s@, p@),
{
    let v = crate::text::chars_of(s);
    let q = crate::text::chars_of(p);
    if q.len() > v.len() {
        return false;
    }
    let head = crate::text::chars_range(v.as_slice(), 0, q.len());
    assert(head@ =~= v@.take(q@.len() as int));
    crate::text::chars_eq(head.as_slice(), q.as_slice())
}

/// Check if the path matches a handler's pattern
pub fn matches_path(pattern: &str, path: &str, m: PathMatch) -> (b: bool)
    ensures
        b == spec_matches_path(pattern@, path@, m),
{
    match m {
        PathMatch::Segment => {
            if str_eq(pattern, "/") {
                str_eq(path, "/")
            } else {
                let mut with_slash = owned(pattern);
                crate::text::push_str(&mut with_slash, "/");
                str_eq(path, pattern) || starts_with_str(path, with_slash.as_str())
            }
        },
        PathMatch::Prefix => starts_with_str(path, pattern),
        PathMatch::Exact => str_eq(path, pattern),
    }
}

/// A registered HTTP handler: its route, its priority (lower first), how
/// it matches paths, and the number its owner knows it by.
pub struct HttpRoute {
    pub pattern: String,
    pub method: Method,
    pub priority: i32,
    pub matching: PathMatch,
    pub handler: usize,
}

/// What a route holds.
pub struct RouteView {
    pub pattern: Seq<char>,
    pub method: Method,
    pub priority: i32,
    pub matching: PathMatch,
    pub handler: usize,
}

impl View for HttpRoute {
    type V = RouteView;

    open spec fn view(&self) -> RouteView {
        RouteView {
            pattern: self.pattern@,
            method: self.method,
            priority: self.priority,
            matching: self.matching,
            handler: self.handler,
        }
    }
}

/// A registered WebSocket handler.
pub struct SocketRoute {
    pub path: String,
    pub priority: i32,
    pub handler: usize,
}

/// What a WebSocket route holds.
pub struct SocketView {
    pub path: Seq<char>,
    pub priority: i32,
    pub handler: usize,
}

impl View for SocketRoute {
    type V = SocketView;

    open spec fn view(&self) -> SocketView {
        SocketView { path: self.path@, priority: self.priority, handler: self.handler }
    }
}

pub open spec fn route_views(s: Seq<HttpRoute>) -> Seq<RouteView> {
    s.map_values(|r: HttpRoute| r@)
}

pub open spec fn socket_views(s: Seq<SocketRoute>) -> Seq<SocketView> {
    s.map_values(|r: SocketRoute| r@)
}

/// Whether a route takes a request for `path` with `method`.
pub open spec fn spec_can_handle(r: RouteView, path: Seq<char>, method: Method) -> bool {
    r.method == method && spec_matches_path(r.pattern, path, r.matching)
}

/// Routes in priority order.
pub open spec fn sorted_http(s: Seq<RouteView>) -> bool {
    forall|i: int, j: int| 0 <= i < j < s.len() ==> s[i].priority <= s[j].priority
}

pub open spec fn sorted_sockets(s: Seq<SocketView>) -> bool {
    forall|i: int, j: int| 0 <= i < j < s.len() ==> s[i].priority <= s[j].priority
}

/// Where a route of priority `p` goes: after every route of the same or a
/// lower number, as a stable sort by priority puts a newly added one.
pub open spec fn insert_position(prios: Seq<i32>, p: i32) -> int
    decreases prios.len(),
{
    if prios.len() == 0 {
        0
    } else if prios.last() <= p {
        prios.len() as int
    } else {
        insert_position(prios.drop_last(), p)
    }
}

pub open spec fn http_prios(s: Seq<RouteView>) -> Seq<i32> {
    s.map_values(|r: RouteView| r.priority)
}

pub open spec fn socket_prios(s: Seq<SocketView>) -> Seq<i32> {
    s.map_values(|r: SocketView| r.priority)
}

/// The first route that takes the request.
pub open spec fn first_handler(s: Seq<RouteView>, path: Seq<char>, method: Method) -> Option<int>
    decreases s.len(),
{
    if s.len() == 0 {
        None
    } else {
        match first_handler(s.drop_last(), path, method) {
            Some(i) => Some(i),
            None => if spec_can_handle(s.last(), path, method) {
                Some(s.len() - 1)
            } else {
                None
            },
        }
    }
}

/// The routes other than those for `path` and `method`, in order.
pub open spec fn without_route(s: Seq<RouteView>, path: Seq<char>, method: Method) -> Seq<RouteView>
    decreases s.len(),
{
    if s.len() == 0 {
        s
    } else if s.last().pattern == path && s.last().method == method {
        without_route(s.drop_last(), path, method)
    } else {
        without_route(s.drop_last(), path, method).push(s.last())
    }
}

/// The WebSocket routes other than those for `path`, in order.
pub open spec fn without_socket(s: Seq<SocketView>, path: Seq<char>) -> Seq<SocketView>
    decreases s.len(),
{
    if s.len() == 0 {
        s
    } else if s.last().path == path {
        without_socket(s.drop_last(), path)
    } else {
        without_socket(s.drop_last(), path).push(s.last())
    }
}

/// The first WebSocket route for `path`.
pub open spec fn first_socket(s: Seq<SocketView>, path: Seq<char>) -> Option<int>
    decreases s.len(),
{
    if s.len() == 0 {
        None
    } else {
        match first_socket(s.drop_last(), path) {
            Some(i) => Some(i),
            None => if s.last().path == path {
                Some(s.len() - 1)
            } else {
                None
            },
        }
    }
}

proof fn lemma_insert_position(prios: Seq<i32>, p: i32)
    ensures
        0 <= insert_position(prios, p) <= prios.len(),
        forall|k: int| insert_position(prios, p) <= k < prios.len() ==> prios[k] > p,
        insert_position(prios, p) > 0 ==> prios[insert_position(prios, p) - 1] <= p,
    decreases prios.len(),
{
    if prios.len() > 0 && prios.last() > p {
        lemma_insert_position(prios.drop_last(), p);
        assert forall|k: int| 0 <= k < prios.len() - 1 implies prios.drop_last()[k] == prios[k] by {}
    }
}

proof fn lemma_first_handler(s: Seq<RouteView>, path: Seq<char>, method: Method)
    ensures
        first_handler(s, path, method) matches Some(i) ==> 0 <= i < s.len() && spec_can_handle(
            s[i],
            path,
            method,
        ) && forall|k: int| 0 <= k < i ==> !spec_can_handle(s[k], path, method),
        first_handler(s, path, method) is None ==> forall|k: int|
            0 <= k < s.len() ==> !spec_can_handle(s[k], path, method),
    decreases s.len(),
{
    if s.len() > 0 {
        lemma_first_handler(s.drop_last(), path, method);
        assert forall|k: int| 0 <= k < s.len() - 1 implies s.drop_last()[k] == s[k] by {}
    }
}

proof fn lemma_first_socket(s: Seq<SocketView>, path: Seq<char>)
    ensures
        first_socket(s, path) matches Some(i) ==> 0 <= i < s.len() && s[i].path == path && forall|
            k: int,
        |
            0 <= k < i ==> s[k].path != path,
        first_socket(s, path) is None ==> forall|k: int| 0 <= k < s.len() ==> s[k].path != path,
    decreases s.len(),
{
    if s.len() > 0 {
        lemma_first_socket(s.drop_last(), path);
        assert forall|k: int| 0 <= k < s.len() - 1 implies s.drop_last()[k] == s[k] by {}
    }
}

/// A request goes to the first handler in priority order that takes it:
/// the chosen one takes it and no handler before it (of a lower or equal
/// priority number) does; with the routes sorted, every handler of a lower
/// number that is skipped does not take it.
pub proof fn lemma_request_goes_to_first_matching(s: Seq<RouteView>, path: Seq<char>, method: Method)
    requires
        sorted_http(s),
    ensures
        first_handler(s, path, method) matches Some(i) ==> spec_can_handle(s[i], path, method)
            && forall|k: int| 0 <= k < s.len() && s[k].priority < s[i].priority ==> !spec_can_handle(
            s[k],
            path,
            method,
        ),
        first_handler(s, path, method) is None ==> forall|k: int|
            0 <= k < s.len() ==> !spec_can_handle(s[k], path, method),
{
    lemma_first_handler(s, path, method);
    if let Some(i) = first_handler(s, path, method) {
        assert forall|k: int|
            0 <= k < s.len() && s[k].priority < s[i].priority implies !spec_can_handle(
            s[k],
            path,
            method,
        ) by {
            if k > i {
                assert(s[i].priority <= s[k].priority);
            }
        }
    }
}

/// Handler registry for managing HTTP and WebSocket handlers, each list
/// kept in priority order.
pub struct HandlerRegistry {
    http_handlers: Vec<HttpRoute>,
    websocket_handlers: Vec<SocketRoute>,
}

impl HandlerRegistry {
    pub closed spec fn http(&self) -> Seq<RouteView> {
        route_views(self.http_handlers@)
    }

    pub closed spec fn sockets(&self) -> Seq<SocketView> {
        socket_views(self.websocket_handlers@)
    }

    /// Create a new handler registry
    pub fn new() -> (r: Self)
        ensures
            r.http() == Seq::<RouteView>::empty(),
            r.sockets() == Seq::<SocketView>::empty(),
    {
        let r = Self { http_handlers: Vec::new(), websocket_handlers: Vec::new() };
        assert(r.http() =~= Seq::<RouteView>::empty());
        assert(r.sockets() =~= Seq::<SocketView>::empty());
        r
    }

    /// Register an HTTP handler: it goes after every handler of the same or
    /// a lower priority number, so the list stays in priority order.
    pub fn register_http_handler(&mut self, route: HttpRoute)
        requires
            sorted_http(old(self).http()),
        ensures
            sorted_http(final(self).http()),
            final(self).http() == old(self).http().insert(
                insert_position(http_prios(old(self).http()), route.priority),
                route@,
            ),
            final(self).sockets() == old(self).sockets(),
    {
        let ghost s = self.http();
        let ghost v = route@;
        let ghost prios = http_prios(s);
        proof {
            lemma_insert_position(prios, route.priority);
        }
        let mut k = self.http_handlers.len();
        assert(prios.take(k as int) =~= prios);
        while k > 0 && self.http_handlers[k - 1].priority > route.priority
            invariant
                k <= self.http_handlers@.len(),
                s == route_views(self.http_handlers@),
                prios == http_prios(s),
                insert_position(prios, route.priority) == insert_position(prios.take(k as int), route.priority),
            decreases k,
        {
            assert(prios.take(k as int).drop_last() =~= prios.take(k - 1));
            assert(prios.take(k as int).last() == self.http_handlers@[k - 1].priority);
            k -= 1;
        }
        proof {
            if k > 0 {
                assert(prios.take(k as int).last() == self.http_handlers@[k - 1].priority);
            }
            assert(insert_position(prios.take(k as int), route.priority) == k);
        }
        let mut handlers: Vec<HttpRoute> = Vec::new();
        std::mem::swap(&mut handlers, &mut self.http_handlers);
        handlers.insert(k, route);
        self.http_handlers = handlers;
        assert(self.http() =~= s.insert(k as int, v));
        assert(sorted_http(self.http())) by {
            assert forall|a: int, b: int| 0 <= a < b < self.http().len() implies self.http()[a].priority
                <= self.http()[b].priority by {
                let t = self.http();
                if b < k {
                } else if a > k {
                    assert(t[a] == s[a - 1] && t[b] == s[b - 1]);
                } else if a == k {
                    assert(t[b] == s[b - 1]);
                    assert(prios[b - 1] > route.priority);
                } else {
                    if b == k {
                        assert(prios[k - 1] <= route.priority);
                        assert(s[a].priority <= s[k - 1].priority);
                    } else {
                        assert(t[b] == s[b - 1]);
                    }
                }
            }
        }
    }

    /// Register a WebSocket handler, in priority order.
    pub fn register_websocket_handler(&mut self, route: SocketRoute)
        requires
            sorted_sockets(old(self).sockets()),
        ensures
            sorted_sockets(final(self).sockets()),
            final(self).sockets() == old(self).sockets().insert(
                insert_position(socket_prios(old(self).sockets()), route.priority),
                route@,
            ),
            final(self).http() == old(self).http(),
    {
        let ghost s = self.sockets();
        let ghost v = route@;
        let ghost prios = socket_prios(s);
        proof {
            lemma_insert_position(prios, route.priority);
        }
        let mut k = self.websocket_handlers.len();
        assert(prios.take(k as int) =~= prios);
        while k > 0 && self.websocket_handlers[k - 1].priority > route.priority
            invariant
                k <= self.websocket_handlers@.len(),
                s == socket_views(self.websocket_handlers@),
                prios == socket_prios(s),
                insert_position(prios, route.priority) == insert_position(prios.take(k as int), route.priority),
            decreases k,
        {
            assert(prios.take(k as int).drop_last() =~= prios.take(k - 1));
            assert(prios.take(k as int).last() == self.websocket_handlers@[k - 1].priority);
            k -= 1;
        }
        proof {
            if k > 0 {
                assert(prios.take(k as int).last() == self.websocket_handlers@[k - 1].priority);
            }
            assert(insert_position(prios.take(k as int), route.priority) == k);
        }
        let mut handlers: Vec<SocketRoute> = Vec::new();
        std::mem::swap(&mut handlers, &mut self.websocket_handlers);
        handlers.insert(k, route);
        self.websocket_handlers = handlers;
        assert(self.sockets() =~= s.insert(k as int, v));
        assert(sorted_sockets(self.sockets())) by {
            assert forall|a: int, b: int| 0 <= a < b < self.sockets().len() implies self.sockets()[a].priority
                <= self.sockets()[b].priority by {
                let t = self.sockets();
                if b < k {
                } else if a > k {
                    assert(t[a] == s[a - 1] && t[b] == s[b - 1]);
                } else if a == k {
                    assert(t[b] == s[b - 1]);
                    assert(prios[b - 1] > route.priority);
                } else {
                    if b == k {
                        assert(prios[k - 1] <= route.priority);
                        assert(s[a].priority <= s[k - 1].priority);
                    } else {
                        assert(t[b] == s[b - 1]);
                    }
                }
            }
        }
    }

    /// Unregister the HTTP handlers for `path` and `method`; whether any
    /// was registered comes back.
    pub fn unregister_http_handler(&mut self, path: &str, method: Method) -> (removed: bool)
        ensures
            final(self).http() == without_route(old(self).http(), path@, method),
            removed == (final(self).http().len() < old(self).http().len()),
            final(self).sockets() == old(self).sockets(),
            sorted_http(old(self).http()) ==> sorted_http(final(self).http()),
    {
        let ghost s = self.http();
        let mut handlers: Vec<HttpRoute> = Vec::new();
        std::mem::swap(&mut handlers, &mut self.http_handlers);
        let n = handlers.len();
        let mut kept: Vec<HttpRoute> = Vec::new();
        let mut i: usize = 0;
        while handlers.len() > 0
            invariant
                i + handlers@.len() == n,
                n == s.len(),
                route_views(handlers@) == s.skip(i as int),
                route_views(kept@) == without_route(s.take(i as int), path@, method),
                kept@.len() <= i,
            decreases handlers@.len(),
        {
            let ghost old_h = route_views(handlers@);
            let ghost old_vec = handlers@;
            let r = handlers.remove(0);
            assert(old_h[0] == r@);
            assert(s.skip(i as int)[0] == s[i as int]);
            assert(route_views(handlers@) =~= s.skip(i + 1)) by {
                assert forall|k: int| 0 <= k < handlers@.len() implies route_views(handlers@)[k] == s.skip(
                    i + 1,
                )[k] by {
                    assert(handlers@[k] == old_vec[k + 1]);
                    assert(old_h[k + 1] == s.skip(i as int)[k + 1]);
                };
            };
            assert(s.take(i + 1).drop_last() =~= s.take(i as int));
            let ghost before = route_views(kept@);
            if !(str_eq(r.pattern.as_str(), path) && r.method == method) {
                kept.push(r);
                assert(route_views(kept@) =~= before.push(s[i as int]));
            }
            i += 1;
        }
        assert(s.take(i as int) =~= s);
        self.http_handlers = kept;
        proof {
            lemma_without_route_sorted(s, path@, method);
        }
        self.http_handlers.len() < n
    }

    /// Unregister the WebSocket handlers for `path`; whether any was
    /// registered comes back.
    pub fn unregister_websocket_handler(&mut self, path: &str) -> (removed: bool)
        ensures
            final(self).sockets() == without_socket(old(self).sockets(), path@),
            removed == (final(self).sockets().len() < old(self).sockets().len()),
            final(self).http() == old(self).http(),
    {
        let ghost s = self.sockets();
        let mut handlers: Vec<SocketRoute> = Vec::new();
        std::mem::swap(&mut handlers, &mut self.websocket_handlers);
        let n = handlers.len();
        let mut kept: Vec<SocketRoute> = Vec::new();
        let mut i: usize = 0;
        while handlers.len() > 0
            invariant
                i + handlers@.len() == n,
                n == s.len(),
                socket_views(handlers@) == s.skip(i as int),
                socket_views(kept@) == without_socket(s.take(i as int), path@),
                kept@.len() <= i,
            decreases handlers@.len(),
        {
            let ghost old_h = socket_views(handlers@);
            let ghost old_vec = handlers@;
            let r = handlers.remove(0);
            assert(old_h[0] == r@);
            assert(s.skip(i as int)[0] == s[i as int]);
            assert(socket_views(handlers@) =~= s.skip(i + 1)) by {
                assert forall|k: int| 0 <= k < handlers@.len() implies socket_views(handlers@)[k] == s.skip(
                    i + 1,
                )[k] by {
                    assert(handlers@[k] == old_vec[k + 1]);
                    assert(old_h[k + 1] == s.skip(i as int)[k + 1]);
                };
            };
            assert(s.take(i + 1).drop_last() =~= s.take(i as int));
            let ghost before = socket_views(kept@);
            if !str_eq(r.path.as_str(), path) {
                kept.push(r);
                assert(socket_views(kept@) =~= before.push(s[i as int]));
            }
            i += 1;
        }
        assert(s.take(i as int) =~= s);
        self.websocket_handlers = kept;
        self.websocket_handlers.len() < n
    }

    /// Find the HTTP handler for a request: the first in priority order
    /// that takes it.
    pub fn find_http_handler(&self, path: &str, method: Method) -> (r: Option<usize>)
        ensures
            match first_handler(self.http(), path@, method) {
                Some(i) => r == Some(self.http()[i].handler),
                None => r is None,
            },
    {
        let ghost s = self.http();
        proof {
            lemma_first_handler(s, path@, method);
        }
        let mut i: usize = 0;
        while i < self.http_handlers.len()
            invariant
                s == route_views(self.http_handlers@),
                i <= s.len(),
                forall|k: int| 0 <= k < i ==> !spec_can_handle(s[k], path@, method),
                first_handler(s, path@, method) matches Some(j) ==> 0 <= j < s.len() && spec_can_handle(
                    s[j],
                    path@,
                    method,
                ) && forall|k: int| 0 <= k < j ==> !spec_can_handle(s[k], path@, method),
                first_handler(s, path@, method) is None ==> forall|k: int|
                    0 <= k < s.len() ==> !spec_can_handle(s[k], path@, method),
            decreases s.len() - i,
        {
            let h = &self.http_handlers[i];
            assert(s[i as int] == h@);
            if h.method == method && matches_path(h.pattern.as_str(), path, h.matching) {
                return Some(h.handler);
            }
            i += 1;
        }
        None
    }

    /// Find the WebSocket handler for a path: the first in priority order.
    pub fn find_websocket_handler(&self, path: &str) -> (r: Option<usize>)
        ensures
            match first_socket(self.sockets(), path@) {
                Some(i) => r == Some(self.sockets()[i].handler),
                None => r is None,
            },
    {
        let ghost s = self.sockets();
        proof {
            lemma_first_socket(s, path@);
        }
        let mut i: usize = 0;
        while i < self.websocket_handlers.len()
            invariant
                s == socket_views(self.websocket_handlers@),
                i <= s.len(),
                forall|k: int| 0 <= k < i ==> s[k].path != path@,
                first_socket(s, path@) matches Some(j) ==> 0 <= j < s.len() && s[j].path == path@
                    && forall|k: int| 0 <= k < j ==> s[k].path != path@,
                first_socket(s, path@) is None ==> forall|k: int| 0 <= k < s.len() ==> s[k].path != path@,
            decreases s.len() - i,
        {
            let h = &self.websocket_handlers[i];
            assert(s[i as int] == h@);
            if str_eq(h.path.as_str(), path) {
                return Some(h.handler);
            }
            i += 1;
        }
        None
    }

    /// List all registered HTTP handlers: pattern, method and priority, in
    /// priority order.
    pub fn list_http_handlers(&self) -> (r: Vec<(String, Method, i32)>)
        ensures
            r@.len() == self.http().len(),
            forall|k: int|
                0 <= k < r@.len() ==> (#[trigger] r@[k]).0@ == self.http()[k].pattern && r@[k].1
                    == self.http()[k].method && r@[k].2 == self.http()[k].priority,
    {
        let mut r: Vec<(String, Method, i32)> = Vec::new();
        let mut i: usize = 0;
        while i < self.http_handlers.len()
            invariant
                i <= self.http_handlers@.len(),
                r@.len() == i,
                forall|k: int|
                    0 <= k < i ==> (#[trigger] r@[k]).0@ == self.http()[k].pattern && r@[k].1
                        == self.http()[k].method && r@[k].2 == self.http()[k].priority,
            decreases self.http_handlers@.len() - i,
        {
            let h = &self.http_handlers[i];
            assert(self.http()[i as int] == h@);
            r.push((owned(h.pattern.as_str()), h.method, h.priority));
            i += 1;
        }
        r
    }

    /// List all registered WebSocket handlers: path and priority, in
    /// priority order.
    pub fn list_websocket_handlers(&self) -> (r: Vec<(String, i32)>)
        ensures
            r@.len() == self.sockets().len(),
            forall|k: int|
                0 <= k < r@.len() ==> (#[trigger] r@[k]).0@ == self.sockets()[k].path && r@[k].1
                    == self.sockets()[k].priority,
    {
        let mut r: Vec<(String, i32)> = Vec::new();
        let mut i: usize = 0;
        while i < self.websocket_handlers.len()
            invariant
                i <= self.websocket_handlers@.len(),
                r@.len() == i,
                forall|k: int|
                    0 <= k < i ==> (#[trigger] r@[k]).0@ == self.sockets()[k].path && r@[k].1
                        == self.sockets()[k].priority,
            decreases self.websocket_handlers@.len() - i,
        {
            let h = &self.websocket_handlers[i];
            assert(self.sockets()[i as int] == h@);
            r.push((owned(h.path.as_str()), h.priority));
            i += 1;
        }
        r
    }

    /// Clear all handlers
    pub fn clear_all_handlers(&mut self)
        ensures
            final(self).http() == Seq::<RouteView>::empty(),
            final(self).sockets() == Seq::<SocketView>::empty(),
    {
        self.http_handlers = Vec::new();
        self.websocket_handlers = Vec::new();
        assert(self.http() =~= Seq::<RouteView>::empty());
        assert(self.sockets() =~= Seq::<SocketView>::empty());
    }
}

/// Removing routes keeps the others, in their order: every kept route is
/// one of the list, and a sorted list stays sorted.
proof fn lemma_without_route_sorted(s: Seq<RouteView>, path: Seq<char>, method: Method)
    ensures
        forall|k: int|
            0 <= k < without_route(s, path, method).len() ==> exists|x: int|
                0 <= x < s.len() && s[x] == #[trigger] without_route(s, path, method)[k],
        sorted_http(s) ==> sorted_http(without_route(s, path, method)),
    decreases s.len(),
{
    if s.len() > 0 {
        let t = s.drop_last();
        lemma_without_route_sorted(t, path, method);
        let wt = without_route(t, path, method);
        assert forall|k: int| 0 <= k < without_route(s, path, method).len() implies exists|x: int|
            0 <= x < s.len() && s[x] == #[trigger] without_route(s, path, method)[k] by {
            if k < wt.len() {
                let x = choose|x: int| 0 <= x < t.len() && t[x] == #[trigger] wt[k];
                assert(s[x] == t[x]);
            } else {
                assert(without_route(s, path, method)[k] == s[s.len() - 1]);
            }
        }
        if sorted_http(s) {
            assert(sorted_http(t)) by {
                assert forall|i: int, j: int| 0 <= i < j < t.len() implies t[i].priority <= t[j].priority by {
                    assert(t[i] == s[i] && t[j] == s[j]);
                }
            }
            let w = without_route(s, path, method);
            assert forall|i: int, j: int| 0 <= i < j < w.len() implies w[i].priority <= w[j].priority by {
                if j >= wt.len() {
                    let x = choose|x: int| 0 <= x < t.len() && t[x] == #[trigger] wt[i];
                    assert(s[x] == t[x]);
                    assert(w[i] == wt[i]);
                    assert(w[j] == s.last());
                }
            }
        }
    }
}

} // verus!
