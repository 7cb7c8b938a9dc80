//! The route table: patterns registered under a method, and the lookup that
//! resolves a method and a path to a handler and the parameters it binds.
//!
//! Where several routes match one path, the route wins that has a literal
//! at the first place where the candidates differ in kind: a literal
//! segment takes precedence over a parameter.

use crate::method::Methods;
use crate::params::ParamMap;
use crate::pattern::{
    bindings, lemma_outranks_asymmetric, lemma_outranks_total, lemma_outranks_transitive,
    accepts, lemma_same_shape_reflexive, outranks, parse_pattern, path_segments, same_shape,
    RoutePattern, SegmentView, SLASH,
};
use crate::text::{rows, split_pieces};
use vstd::prelude::*;
use vstd::utf8::encode_utf8;

verus! {

/// An opaque reference to a handler. The table stores it and hands it back;
/// whoever runs the handlers gives the number its meaning.
#[derive(Clone, Copy, Debug, PartialEq, Eq, Structural)]
pub struct HandlerRef {
    pub id: u64,
}

/// Why a route was not registered.
#[derive(Clone, Copy, Debug, PartialEq, Eq, Structural)]
pub enum RouteError {
    /// The method already has a route that matches the same paths.
    Conflict,
}

/// A registered route, as a value of the model.
pub struct RouteView {
    pub pattern: Seq<SegmentView>,
    pub handler: HandlerRef,
}

/// A registered route.
#[derive(Clone, Debug)]
pub struct Route {
    pub pattern: RoutePattern,
    pub handler: HandlerRef,
}

impl View for Route {
    type V = RouteView;

    open spec fn view(&self) -> RouteView {
        RouteView { pattern: self.pattern@, handler: self.handler }
    }
}

/// The views of a list of routes.
pub open spec fn route_views(v: Seq<Route>) -> Seq<RouteView> {
    v.map_values(|r: Route| r@)
}

/// No two of the routes match the same paths.
pub open spec fn distinct_shapes(routes: Seq<RouteView>) -> bool {
    forall|i: int, j: int|
        0 <= i < routes.len() && 0 <= j < routes.len() && i != j ==> !same_shape(
            (#[trigger] routes[i]).pattern,
            (#[trigger] routes[j]).pattern,
        )
}

/// Whether one of the routes matches the same paths as `pattern`.
pub open spec fn conflicts(routes: Seq<RouteView>, pattern: Seq<SegmentView>) -> bool {
    exists|i: int| 0 <= i < routes.len() && same_shape((#[trigger] routes[i]).pattern, pattern)
}

/// Whether one of the routes matches the path.
pub open spec fn some_route_matches(routes: Seq<RouteView>, path: Seq<Seq<u8>>) -> bool {
    exists|i: int| 0 <= i < routes.len() && accepts((#[trigger] routes[i]).pattern, path)
}

/// Whether route `i` is the one that the path resolves to: it matches, and
/// it takes precedence over every other route that matches.
pub open spec fn is_best_match(routes: Seq<RouteView>, path: Seq<Seq<u8>>, i: int) -> bool {
    &&& 0 <= i < routes.len()
    &&& accepts(routes[i].pattern, path)
    &&& forall|j: int|
        0 <= j < routes.len() && j != i && accepts((#[trigger] routes[j]).pattern, path)
            ==> outranks(routes[i].pattern, routes[j].pattern)
}

/// The place of the route that the path resolves to, if there is one.
pub open spec fn best_match(routes: Seq<RouteView>, path: Seq<Seq<u8>>) -> Option<int> {
    if exists|i: int| is_best_match(routes, path, i) {
        Some(choose|i: int| is_best_match(routes, path, i))
    } else {
        None
    }
}

/// What a path, given by its segments, resolves to among the routes of one
/// method: the handler of the best match and the parameters it binds.
pub open spec fn resolve(routes: Seq<RouteView>, path: Seq<Seq<u8>>) -> Option<
    (HandlerRef, Seq<(Seq<u8>, Seq<u8>)>),
> {
    match best_match(routes, path) {
        Some(i) => Some((routes[i].handler, bindings(routes[i].pattern, path))),
        None => None,
    }
}

/// At most one route is the best match.
pub proof fn lemma_best_match_unique(
    routes: Seq<RouteView>,
    path: Seq<Seq<u8>>,
    i: int,
    j: int,
)
    requires
        is_best_match(routes, path, i),
        is_best_match(routes, path, j),
    ensures
        i == j,
{
    if i != j {
        let _ = routes[i];
        let _ = routes[j];
        lemma_outranks_asymmetric(routes[i].pattern, routes[j].pattern);
    }
}

/// The route table: for each method the routes registered under it, in the
/// order of registration.
pub struct RouteTable {
    get: Vec<Route>,
    post: Vec<Route>,
    put: Vec<Route>,
    patch: Vec<Route>,
    delete: Vec<Route>,
}

impl RouteTable {
    /// The routes registered under a method, in the order of registration.
    pub closed spec fn routes(&self, method: Methods) -> Seq<RouteView> {
        match method {
            Methods::GET => route_views(self.get@),
            Methods::POST => route_views(self.post@),
            Methods::PUT => route_views(self.put@),
            Methods::PATCH => route_views(self.patch@),
            Methods::DELETE => route_views(self.delete@),
        }
    }

    /// Under no method do two routes match the same paths.
    pub open spec fn wf(&self) -> bool {
        forall|method: Methods| distinct_shapes(#[trigger] self.routes(method))
    }

    /// A table without routes.
    pub fn new() -> (table: RouteTable)
        ensures
            table.wf(),
            forall|method: Methods| (#[trigger] table.routes(method)).len() == 0,
    {
        RouteTable {
            get: Vec::new(),
            post: Vec::new(),
            put: Vec::new(),
            patch: Vec::new(),
            delete: Vec::new(),
        }
    }

    fn bucket(&self, method: Methods) -> (bucket: &Vec<Route>)
        ensures
            route_views(bucket@) == self.routes(method),
    {
        match method {
            Methods::GET => &self.get,
            Methods::POST => &self.post,
            Methods::PUT => &self.put,
            Methods::PATCH => &self.patch,
            Methods::DELETE => &self.delete,
        }
    }

    /// The number of routes registered under a method.
    pub fn route_count(&self, method: Methods) -> (n: usize)
        ensures
            n == self.routes(method).len(),
    {
        self.bucket(method).len()
    }

    /// Registers a handler under a method and a pattern. A pattern that
    /// matches the same paths as one already registered under the method is
    /// refused, and the table stays as it was.
    #[verifier::loop_isolation(false)]
    pub fn add_route(&mut self, method: Methods, pattern: &[u8], handler: HandlerRef) -> (done:
        Result<(), RouteError>)
        requires
            old(self).wf(),
        ensures
            final(self).wf(),
            registers(*old(self), *final(self), method, pattern@, handler, done),
    {
        let parsed = RoutePattern::parse(pattern);
        let bucket = self.bucket(method);
        let mut i: usize = 0;
        while i < bucket.len()
            invariant
                i <= bucket.len(),
                route_views(bucket@) == self.routes(method),
                forall|k: int|
                    0 <= k < i ==> !same_shape(
                        (#[trigger] self.routes(method)[k]).pattern,
                        parsed@,
                    ),
            decreases bucket.len() - i,
        {
            assert(route_views(bucket@)[i as int] == bucket@[i as int]@);
            if bucket[i].pattern.same_shape(&parsed) {
                assert(same_shape(self.routes(method)[i as int].pattern, parsed@));
                return Err(RouteError::Conflict);
            }
            i += 1;
        }
        let ghost before = self.routes(method);
        let ghost added = RouteView { pattern: parsed@, handler };
        let route = Route { pattern: parsed, handler };
        match method {
            Methods::GET => self.get.push(route),
            Methods::POST => self.post.push(route),
            Methods::PUT => self.put.push(route),
            Methods::PATCH => self.patch.push(route),
            Methods::DELETE => self.delete.push(route),
        }
        proof {
            assert(self.routes(method) =~= before.push(added));
            let after = self.routes(method);
            assert forall|a: int, b: int|
                0 <= a < after.len() && 0 <= b < after.len() && a != b implies !same_shape(
                (#[trigger] after[a]).pattern,
                (#[trigger] after[b]).pattern,
            ) by {
                let last = before.len() as int;
                if a < last && b < last {
                    assert(after[a] == before[a]);
                    assert(after[b] == before[b]);
                } else if a == last {
                    assert(after[b] == before[b]);
                    if same_shape(after[a].pattern, after[b].pattern) {
                        lemma_same_shape_symmetric(after[a].pattern, after[b].pattern);
                    }
                } else {
                    assert(after[a] == before[a]);
                }
            }
            assert forall|other: Methods| distinct_shapes(#[trigger] self.routes(other)) by {
                if other != method {
                    assert(self.routes(other) == old(self).routes(other));
                }
            }
        }
        Ok(())
    }

    /// Resolves a method and a path to the handler registered for them and
    /// the parameters that its pattern binds on the path. Nothing is
    /// returned where no route of the method matches the path.
    pub fn lookup(&self, method: Methods, path: &[u8]) -> (found: Option<(HandlerRef, ParamMap)>)
        requires
            self.wf(),
        ensures
            match found {
                Some((handler, params)) => resolve(self.routes(method), path_segments(path@))
                    == Some((handler, params@)),
                None => resolve(self.routes(method), path_segments(path@)) is None,
            },
            found is Some <==> some_route_matches(self.routes(method), path_segments(path@)),
    {
        let segments = split_pieces(path, SLASH);
        let bucket = self.bucket(method);
        let ghost routes = self.routes(method);
        let ghost segs = path_segments(path@);
        let mut best: Option<usize> = None;
        let mut k: usize = 0;
        while k < bucket.len()
            invariant
                k <= bucket.len(),
                route_views(bucket@) == routes,
                distinct_shapes(routes),
                rows(segments@) == segs,
                match best {
                    None => forall|j: int|
                        0 <= j < k ==> !accepts((#[trigger] routes[j]).pattern, segs),
                    Some(b) => {
                        &&& b < k
                        &&& accepts(routes[b as int].pattern, segs)
                        &&& forall|j: int|
                            0 <= j < k && j != b && accepts((#[trigger] routes[j]).pattern, segs)
                                ==> outranks(routes[b as int].pattern, routes[j].pattern)
                    },
                },
            decreases bucket.len() - k,
        {
            assert(routes[k as int] == bucket@[k as int]@);
            if bucket[k].pattern.accepts(&segments) {
                match best {
                    None => {
                        best = Some(k);
                    },
                    Some(b) => {
                        assert(routes[b as int] == bucket@[b as int]@);
                        if bucket[k].pattern.outranks(&bucket[b].pattern) {
                            proof {
                                assert forall|j: int|
                                    0 <= j < k + 1 && j != k && accepts(
                                        (#[trigger] routes[j]).pattern,
                                        segs,
                                    ) implies outranks(
                                    routes[k as int].pattern,
                                    routes[j].pattern,
                                ) by {
                                    if j != b {
                                        lemma_outranks_transitive(
                                            routes[k as int].pattern,
                                            routes[b as int].pattern,
                                            routes[j].pattern,
                                        );
                                    }
                                }
                            }
                            best = Some(k);
                        } else {
                            proof {
                                lemma_outranks_total(
                                    routes[b as int].pattern,
                                    routes[k as int].pattern,
                                    segs,
                                );
                            }
                        }
                    },
                }
            }
            k += 1;
        }
        match best {
            None => {
                proof {
                    assert forall|i: int| !is_best_match(routes, segs, i) by {
                        if 0 <= i < routes.len() {
                            let _ = routes[i];
                        }
                    }
                }
                None
            },
            Some(b) => {
                assert(routes[b as int] == bucket@[b as int]@);
                assert(is_best_match(routes, segs, b as int));
                proof {
                    let chosen = choose|i: int| is_best_match(routes, segs, i);
                    lemma_best_match_unique(routes, segs, chosen, b as int);
                }
                let params = bucket[b].pattern.bind(&segments);
                Some((bucket[b].handler, params))
            },
        }
    }
}

/// What registering `handler` under `method` and the pattern written as
/// `route` does to a table: where the method has a route that matches the
/// same paths, the registration is refused and the table stays as it was;
/// otherwise the route is added behind those of its method. The routes of
/// the other methods stay as they were.
pub open spec fn registers(
    before: RouteTable,
    after: RouteTable,
    method: Methods,
    route: Seq<u8>,
    handler: HandlerRef,
    done: Result<(), RouteError>,
) -> bool {
    &&& forall|other: Methods|
        other != method ==> #[trigger] after.routes(other) == before.routes(other)
    &&& match done {
        Ok(()) => {
            &&& !conflicts(before.routes(method), parse_pattern(route))
            &&& after.routes(method) == before.routes(method).push(
                RouteView { pattern: parse_pattern(route), handler },
            )
        },
        Err(RouteError::Conflict) => {
            &&& conflicts(before.routes(method), parse_pattern(route))
            &&& after.routes(method) == before.routes(method)
        },
    }
}

/// Matching the same paths is symmetric.
pub proof fn lemma_same_shape_symmetric(p: Seq<SegmentView>, q: Seq<SegmentView>)
    requires
        same_shape(p, q),
    ensures
        same_shape(q, p),
{
    assert forall|i: int| 0 <= i < q.len() implies match (#[trigger] q[i], p[i]) {
        (SegmentView::Literal(a), SegmentView::Literal(b)) => a == b,
        (SegmentView::Param(_), SegmentView::Param(_)) => true,
        _ => false,
    } by {
        let _ = p[i];
    }
}

/// Registers a handler for the requests of `method` whose path matches
/// `route`. The handler is called once such a request has come in, with the
/// context of that request.
pub fn new_route(
    table: &mut RouteTable,
    route: String,
    method: Methods,
    callback: HandlerRef,
) -> (done: Result<(), RouteError>)
    requires
        old(table).wf(),
    ensures
        final(table).wf(),
        registers(*old(table), *final(table), method, encode_utf8(route@), callback, done),
{
    table.add_route(method, route.as_str().as_bytes(), callback)
}

/// Registers a handler for GET requests.
pub fn get(table: &mut RouteTable, route: String, callback: HandlerRef) -> (done: Result<
    (),
    RouteError,
>)
    requires
        old(table).wf(),
    ensures
        final(table).wf(),
        registers(*old(table), *final(table), Methods::GET, encode_utf8(route@), callback, done),
{
    new_route(table, route, Methods::GET, callback)
}

/// Registers a handler for POST requests.
pub fn post(table: &mut RouteTable, route: String, callback: HandlerRef) -> (done: Result<
    (),
    RouteError,
>)
    requires
        old(table).wf(),
    ensures
        final(table).wf(),
        registers(*old(table), *final(table), Methods::POST, encode_utf8(route@), callback, done),
{
    new_route(table, route, Methods::POST, callback)
}

/// Registers a handler for PUT requests.
pub fn put(table: &mut RouteTable, route: String, callback: HandlerRef) -> (done: Result<
    (),
    RouteError,
>)
    requires
        old(table).wf(),
    ensures
        final(table).wf(),
        registers(*old(table), *final(table), Methods::PUT, encode_utf8(route@), callback, done),
{
    new_route(table, route, Methods::PUT, callback)
}

/// Registers a handler for PATCH requests.
pub fn patch(table: &mut RouteTable, route: String, callback: HandlerRef) -> (done: Result<
    (),
    RouteError,
>)
    requires
        old(table).wf(),
    ensures
        final(table).wf(),
        registers(*old(table), *final(table), Methods::PATCH, encode_utf8(route@), callback, done),
{
    new_route(table, route, Methods::PATCH, callback)
}

/// Where some route matches a path, one of the matching routes takes
/// precedence over all the others.
pub proof fn lemma_best_match_exists(routes: Seq<RouteView>, path: Seq<Seq<u8>>)
    requires
        distinct_shapes(routes),
        some_route_matches(routes, path),
    ensures
        best_match(routes, path) is Some,
        is_best_match(routes, path, best_match(routes, path)->0),
    decreases routes.len(),
{
    let last = routes.len() - 1;
    let front = routes.drop_last();
    assert forall|i: int, j: int|
        0 <= i < front.len() && 0 <= j < front.len() && i != j implies !same_shape(
        (#[trigger] front[i]).pattern,
        (#[trigger] front[j]).pattern,
    ) by {
        assert(front[i] == routes[i]);
        assert(front[j] == routes[j]);
    }
    if some_route_matches(front, path) {
        lemma_best_match_exists(front, path);
        let b = best_match(front, path)->0;
        assert(front[b] == routes[b]);
        if accepts(routes[last].pattern, path) {
            lemma_outranks_total(routes[b].pattern, routes[last].pattern, path);
            if outranks(routes[last].pattern, routes[b].pattern) {
                assert forall|j: int|
                    0 <= j < routes.len() && j != last && accepts(
                        (#[trigger] routes[j]).pattern,
                        path,
                    ) implies outranks(routes[last].pattern, routes[j].pattern) by {
                    assert(front[j] == routes[j]);
                    if j != b {
                        lemma_outranks_transitive(
                            routes[last].pattern,
                            routes[b].pattern,
                            routes[j].pattern,
                        );
                    }
                }
                assert(is_best_match(routes, path, last));
            } else {
                assert forall|j: int|
                    0 <= j < routes.len() && j != b && accepts(
                        (#[trigger] routes[j]).pattern,
                        path,
                    ) implies outranks(routes[b].pattern, routes[j].pattern) by {
                    if j != last {
                        assert(front[j] == routes[j]);
                    }
                }
                assert(is_best_match(routes, path, b));
            }
        } else {
            assert forall|j: int|
                0 <= j < routes.len() && j != b && accepts((#[trigger] routes[j]).pattern, path)
                implies outranks(routes[b].pattern, routes[j].pattern) by {
                assert(front[j] == routes[j]);
            }
            assert(is_best_match(routes, path, b));
        }
    } else {
        let w = choose|i: int|
            0 <= i < routes.len() && accepts((#[trigger] routes[i]).pattern, path);
        if w != last {
            assert(front[w] == routes[w]);
            assert(false);
        }
        assert forall|j: int|
            0 <= j < routes.len() && j != last && accepts((#[trigger] routes[j]).pattern, path)
            implies outranks(routes[last].pattern, routes[j].pattern) by {
            assert(front[j] == routes[j]);
        }
        assert(is_best_match(routes, path, last));
    }
}

/// A path resolves to nothing exactly where no route matches it.
pub proof fn law_resolves_iff_some_route_matches(routes: Seq<RouteView>, path: Seq<Seq<u8>>)
    requires
        distinct_shapes(routes),
    ensures
        resolve(routes, path) is Some <==> some_route_matches(routes, path),
{
    if some_route_matches(routes, path) {
        lemma_best_match_exists(routes, path);
    }
    if resolve(routes, path) is Some {
        let b = best_match(routes, path)->0;
        assert(is_best_match(routes, path, b));
        let _ = routes[b];
    }
}

/// A registered route whose pattern matches a path gets that path, with the
/// parameters that its pattern binds on it, unless another route that
/// matches the path takes precedence over it.
pub proof fn law_registered_route_resolves(routes: Seq<RouteView>, path: Seq<Seq<u8>>, i: int)
    requires
        distinct_shapes(routes),
        0 <= i < routes.len(),
        accepts(routes[i].pattern, path),
        forall|j: int|
            0 <= j < routes.len() && accepts((#[trigger] routes[j]).pattern, path) ==> !outranks(
                routes[j].pattern,
                routes[i].pattern,
            ),
    ensures
        resolve(routes, path) == Some((routes[i].handler, bindings(routes[i].pattern, path))),
{
    assert forall|j: int|
        0 <= j < routes.len() && j != i && accepts((#[trigger] routes[j]).pattern, path)
        implies outranks(routes[i].pattern, routes[j].pattern) by {
        let _ = routes[i];
        lemma_outranks_total(routes[i].pattern, routes[j].pattern, path);
    }
    assert(is_best_match(routes, path, i));
    lemma_best_match_unique(routes, path, best_match(routes, path)->0, i);
}

/// A route whose pattern holds no parameter gets every path that it
/// matches, whatever else is registered.
pub proof fn law_literal_route_wins(routes: Seq<RouteView>, path: Seq<Seq<u8>>, i: int)
    requires
        distinct_shapes(routes),
        0 <= i < routes.len(),
        accepts(routes[i].pattern, path),
        forall|k: int| 0 <= k < routes[i].pattern.len() ==> routes[i].pattern[k] is Literal,
    ensures
        resolve(routes, path) == Some((routes[i].handler, Seq::<(Seq<u8>, Seq<u8>)>::empty())),
{
    law_registered_route_resolves(routes, path, i);
    lemma_literals_bind_nothing(routes[i].pattern, path);
}

/// A route never gets a path that another matching route takes precedence
/// over it for.
pub proof fn law_outranked_route_loses(routes: Seq<RouteView>, path: Seq<Seq<u8>>, i: int, j: int)
    requires
        0 <= i < routes.len(),
        0 <= j < routes.len(),
        accepts(routes[i].pattern, path),
        accepts(routes[j].pattern, path),
        outranks(routes[i].pattern, routes[j].pattern),
    ensures
        best_match(routes, path) != Some(j),
{
    if best_match(routes, path) == Some(j) {
        assert(is_best_match(routes, path, j));
        let _ = routes[i];
        lemma_outranks_asymmetric(routes[i].pattern, routes[j].pattern);
    }
}

/// A pattern that is registered under a method is refused there ever
/// after, whatever its parameters are called.
pub proof fn law_registered_pattern_conflicts(
    routes: Seq<RouteView>,
    i: int,
    pattern: Seq<SegmentView>,
)
    requires
        0 <= i < routes.len(),
        same_shape(routes[i].pattern, pattern),
    ensures
        conflicts(routes, pattern),
        conflicts(routes, routes[i].pattern),
{
    lemma_same_shape_reflexive(routes[i].pattern);
}

/// A pattern without parameters binds nothing.
pub proof fn lemma_literals_bind_nothing(pattern: Seq<SegmentView>, path: Seq<Seq<u8>>)
    requires
        forall|k: int| 0 <= k < pattern.len() ==> pattern[k] is Literal,
    ensures
        bindings(pattern, path) == Seq::<(Seq<u8>, Seq<u8>)>::empty(),
    decreases pattern.len(),
{
    if pattern.len() > 0 {
        let front = pattern.drop_last();
        assert forall|k: int| 0 <= k < front.len() implies front[k] is Literal by {
            assert(front[k] == pattern[k]);
        }
        lemma_literals_bind_nothing(front, path);
    }
}

} // verus!
