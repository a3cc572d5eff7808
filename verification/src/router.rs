//! The route registry: a mapping from (method, path) pairs to handler
//! references, with insert-or-overwrite registration and exact-match
//! lookup.
//!
//! A router's abstract value is the map from registered (method, path)
//! keys to their handlers; `add` inserts into that map (the latest
//! registration wins) and `get_callback` reads it.

use vstd::prelude::*;
use crate::request::{Method, Request};

verus! {

/// One registered route: a (method, path) key and its handler.
pub struct Route<H> {
    pub method: Method,
    pub path: Vec<u8>,
    pub handler: H,
}

/// The registry. Handlers are stored by value under the invariant-free
/// first-match discipline: lookup takes the first entry whose key
/// matches, and registration overwrites that entry in place.
pub struct Router<H> {
    pub routes: Vec<Route<H>>,
}

/// The handler of the first route in `s` keyed (m, p), if any.
pub open spec fn find_route<H>(s: Seq<Route<H>>, m: Method, p: Seq<u8>) -> Option<H>
    decreases s.len(),
{
    if s.len() == 0 {
        None
    } else if s[0].method == m && s[0].path@ == p {
        Some(s[0].handler)
    } else {
        find_route(s.drop_first(), m, p)
    }
}

impl<H> View for Router<H> {
    type V = Map<(Method, Seq<u8>), H>;

    /// The registry as a map: each registered key to its handler.
    open spec fn view(&self) -> Map<(Method, Seq<u8>), H> {
        Map::new(
            |k: (Method, Seq<u8>)| find_route(self.routes@, k.0, k.1) is Some,
            |k: (Method, Seq<u8>)| find_route(self.routes@, k.0, k.1).unwrap(),
        )
    }
}

proof fn lemma_find_route_at<H>(s: Seq<Route<H>>, i: int)
    requires
        0 <= i < s.len(),
        forall|j: int| 0 <= j < i ==> !(s[j].method == s[i].method && s[j].path@ == s[i].path@),
    ensures
        find_route(s, s[i].method, s[i].path@) == Some(s[i].handler),
    decreases i,
{
    if i > 0 {
        lemma_find_route_at(s.drop_first(), i - 1);
    }
}

proof fn lemma_find_route_none<H>(s: Seq<Route<H>>, m: Method, p: Seq<u8>)
    requires
        forall|j: int| 0 <= j < s.len() ==> !(s[j].method == m && s[j].path@ == p),
    ensures
        find_route(s, m, p) is None,
    decreases s.len(),
{
    if s.len() > 0 {
        lemma_find_route_none(s.drop_first(), m, p);
    }
}

proof fn lemma_find_route_update<H>(s: Seq<Route<H>>, i: int, r: Route<H>)
    requires
        0 <= i < s.len(),
        s[i].method == r.method && s[i].path@ == r.path@,
        forall|j: int| 0 <= j < i ==> !(s[j].method == r.method && s[j].path@ == r.path@),
    ensures
        forall|m: Method, p: Seq<u8>|
            #![auto]
            find_route(s.update(i, r), m, p) == if m == r.method && p == r.path@ {
                Some(r.handler)
            } else {
                find_route(s, m, p)
            },
    decreases i,
{
    let t = s.update(i, r);
    if i == 0 {
        assert(t.drop_first() =~= s.drop_first());
        assert forall|m: Method, p: Seq<u8>|
            #![auto]
            find_route(t, m, p) == if m == r.method && p == r.path@ {
                Some(r.handler)
            } else {
                find_route(s, m, p)
            } by {
            assert(t[0] == r);
            if m == r.method && p == r.path@ {
                assert(find_route(t, m, p) == Some(r.handler));
            } else {
                assert(find_route(t, m, p) == find_route(t.drop_first(), m, p));
                assert(find_route(s, m, p) == find_route(s.drop_first(), m, p));
            }
        }
    } else {
        lemma_find_route_update(s.drop_first(), i - 1, r);
        assert(t.drop_first() =~= s.drop_first().update(i - 1, r));
        assert forall|m: Method, p: Seq<u8>|
            #![auto]
            find_route(t, m, p) == if m == r.method && p == r.path@ {
                Some(r.handler)
            } else {
                find_route(s, m, p)
            } by {
            assert(t[0] == s[0]);
            if s[0].method == m && s[0].path@ == p {
                assert(find_route(t, m, p) == Some(s[0].handler));
                assert(find_route(s, m, p) == Some(s[0].handler));
            } else {
                assert(find_route(t, m, p) == find_route(t.drop_first(), m, p));
                assert(find_route(s, m, p) == find_route(s.drop_first(), m, p));
            }
        }
    }
}

proof fn lemma_find_route_push<H>(s: Seq<Route<H>>, r: Route<H>)
    requires
        forall|j: int| 0 <= j < s.len() ==> !(s[j].method == r.method && s[j].path@ == r.path@),
    ensures
        forall|m: Method, p: Seq<u8>|
            #![auto]
            find_route(s.push(r), m, p) == if m == r.method && p == r.path@ {
                Some(r.handler)
            } else {
                find_route(s, m, p)
            },
    decreases s.len(),
{
    let t = s.push(r);
    if s.len() == 0 {
        assert(t[0] == r);
        assert(t.drop_first() =~= Seq::<Route<H>>::empty());
        assert forall|m: Method, p: Seq<u8>|
            #![auto]
            find_route(t, m, p) == if m == r.method && p == r.path@ {
                Some(r.handler)
            } else {
                find_route(s, m, p)
            } by {
            if m == r.method && p == r.path@ {
                assert(find_route(t, m, p) == Some(r.handler));
            } else {
                assert(find_route(t, m, p) == find_route(t.drop_first(), m, p));
                assert(find_route(t.drop_first(), m, p) is None);
                assert(find_route(s, m, p) is None);
            }
        }
    } else {
        lemma_find_route_push(s.drop_first(), r);
        assert(t.drop_first() =~= s.drop_first().push(r));
        assert forall|m: Method, p: Seq<u8>|
            #![auto]
            find_route(t, m, p) == if m == r.method && p == r.path@ {
                Some(r.handler)
            } else {
                find_route(s, m, p)
            } by {
            assert(t[0] == s[0]);
            if s[0].method == m && s[0].path@ == p {
                assert(find_route(t, m, p) == Some(s[0].handler));
                assert(find_route(s, m, p) == Some(s[0].handler));
            } else {
                assert(find_route(t, m, p) == find_route(t.drop_first(), m, p));
                assert(find_route(s, m, p) == find_route(s.drop_first(), m, p));
            }
        }
    }
}

/// Byte-for-byte equality of two buffers.
fn bytes_eq(a: &Vec<u8>, b: &Vec<u8>) -> (r: bool)
    ensures
        r == (a@ == b@),
{
    if a.len() != b.len() {
        return false;
    }
    let mut i: usize = 0;
    while i < a.len()
        invariant
            i <= a@.len(),
            a@.len() == b@.len(),
            forall|j: int| 0 <= j < i ==> a@[j] == b@[j],
        decreases a@.len() - i,
    {
        if a[i] != b[i] {
            return false;
        }
        i = i + 1;
    }
    proof {
        assert(a@ =~= b@);
    }
    true
}

impl<H: Copy> Router<H> {
    /// An empty registry: no key has a handler.
    pub fn new() -> (r: Router<H>)
        ensures
            r@ == Map::<(Method, Seq<u8>), H>::empty(),
    {
        let r = Router { routes: Vec::new() };
        proof {
            assert forall|m: Method, p: Seq<u8>| find_route(r.routes@, m, p) is None by {
                lemma_find_route_none(r.routes@, m, p);
            }
            assert(r@ =~= Map::<(Method, Seq<u8>), H>::empty());
        }
        r
    }

    /// Register a handler for (method, path), overwriting any earlier
    /// registration of the same key: the latest registration wins.
    #[verifier::loop_isolation(false)]
    pub fn add(&mut self, method: Method, path: Vec<u8>, handler: H)
        ensures
            final(self)@ == old(self)@.insert((method, path@), handler),
    {
        let n: usize = self.routes.len();
        let mut i: usize = 0;
        while i < n
            invariant
                i <= n,
                self == old(self),
                forall|j: int|
                    0 <= j < i ==> !(self.routes@[j].method == method && self.routes@[j].path@
                        == path@),
            decreases n - i,
        {
            if self.routes[i].method == method && bytes_eq(&self.routes[i].path, &path) {
                let ghost s = self.routes@;
                let route = Route { method, path, handler };
                let ghost route_g = route;
                self.routes[i] = route;
                proof {
                    lemma_find_route_update(s, i as int, route_g);
                    assert(self@ =~= old(self)@.insert((method, route_g.path@), handler));
                }
                return ;
            }
            i = i + 1;
        }
        let ghost s = self.routes@;
        let route = Route { method, path, handler };
        let ghost route_g = route;
        self.routes.push(route);
        proof {
            lemma_find_route_push(s, route_g);
            assert(self@ =~= old(self)@.insert((method, route_g.path@), handler));
        }
    }

    /// Exact-match lookup: the handler registered for the request's
    /// (method, path) key, or nothing when that key was never
    /// registered. Read-only.
    #[verifier::loop_isolation(false)]
    pub fn get_callback(&self, request: &Request) -> (r: Option<H>)
        ensures
            match r {
                Some(h) => {
                    &&& self@.contains_key((request.method, request.path@))
                    &&& self@[(request.method, request.path@)] == h
                },
                None => !self@.contains_key((request.method, request.path@)),
            },
    {
        let n: usize = self.routes.len();
        let mut i: usize = 0;
        while i < n
            invariant
                i <= n,
                forall|j: int|
                    0 <= j < i ==> !(self.routes@[j].method == request.method
                        && self.routes@[j].path@ == request.path@),
            decreases n - i,
        {
            if self.routes[i].method == request.method && bytes_eq(
                &self.routes[i].path,
                &request.path,
            ) {
                proof {
                    lemma_find_route_at(self.routes@, i as int);
                }
                return Some(self.routes[i].handler);
            }
            i = i + 1;
        }
        proof {
            lemma_find_route_none(self.routes@, request.method, request.path@);
        }
        None
    }
}

/// Law: a registered route is found. Inserting (m, p) -> h into a
/// registry makes lookup of (m, p) yield exactly h, leaves every other
/// key's binding untouched, and an empty registry holds no key at all.
pub proof fn lemma_registered_route_found<H>(
    routes: Map<(Method, Seq<u8>), H>,
    m: Method,
    p: Seq<u8>,
    h: H,
)
    ensures
        routes.insert((m, p), h).contains_key((m, p)),
        routes.insert((m, p), h)[(m, p)] == h,
        forall|k: (Method, Seq<u8>)|
            #![auto]
            k != (m, p) ==> routes.insert((m, p), h).contains_key(k) == routes.contains_key(k),
        forall|k: (Method, Seq<u8>)|
            #![auto]
            k != (m, p) && routes.contains_key(k) ==> routes.insert((m, p), h)[k] == routes[k],
        !Map::<(Method, Seq<u8>), H>::empty().contains_key((m, p)),
{
}

/// Law: the latest registration wins. Registering (m, p) with h1 and
/// then with h2 leaves the registry exactly as registering h2 alone
/// would have.
pub proof fn lemma_overwrite_latest_wins<H>(
    routes: Map<(Method, Seq<u8>), H>,
    m: Method,
    p: Seq<u8>,
    h1: H,
    h2: H,
)
    ensures
        routes.insert((m, p), h1).insert((m, p), h2)[(m, p)] == h2,
        routes.insert((m, p), h1).insert((m, p), h2) == routes.insert((m, p), h2),
{
    assert(routes.insert((m, p), h1).insert((m, p), h2) =~= routes.insert((m, p), h2));
}

} // verus!
