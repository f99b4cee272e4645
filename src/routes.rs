use vstd::prelude::*;

use crate::assoc::{
    keys_unique, lemma_pairs_map_at, lemma_pairs_map_push, lemma_pairs_map_update, pairs_map,
};
use crate::http_request::HttpRequest;
use crate::http_response::{HttpResponse, HttpStatus};

verus! {

/// The handlers of a server, each under its route key (method, path), matched
/// exactly: no wildcards, no parameters, no normalisation of the path.
pub struct RouteTable<H> {
    routes: Vec<(String, String, H)>,
}

impl<H> RouteTable<H> {
    /// The (key, handler) pairs in the order in which they are kept.
    pub closed spec fn pairs(&self) -> Seq<((Seq<char>, Seq<char>), H)> {
        self.routes@.map_values(|r: (String, String, H)| ((r.0@, r.1@), r.2))
    }

    #[verifier::type_invariant]
    spec fn inv(&self) -> bool {
        keys_unique(self.pairs())
    }

    /// The handler that a request for `method` and `path` goes to, if one is
    /// registered under that key.
    pub open spec fn route_spec(&self, method: Seq<char>, path: Seq<char>) -> Option<H> {
        if self@.contains_key((method, path)) {
            Some(self@[(method, path)])
        } else {
            None
        }
    }

    /// A table without routes.
    pub fn new() -> (r: RouteTable<H>)
        ensures
            r@ == Map::<(Seq<char>, Seq<char>), H>::empty(),
    {
        let r = RouteTable { routes: Vec::new() };
        assert(r@ =~= Map::<(Seq<char>, Seq<char>), H>::empty());
        r
    }

    /// The position of the key (`method`, `path`), if it is registered.
    fn position(&self, method: &String, path: &String) -> (r: Option<usize>)
        ensures
            match r {
                Some(i) => i < self.pairs().len() && self.pairs()[i as int].0 == (method@, path@),
                None => !self@.contains_key((method@, path@)),
            },
    {
        let mut i: usize = 0;
        while i < self.routes.len()
            invariant
                i <= self.routes.len(),
                forall|j: int| 0 <= j < i ==> self.pairs()[j].0 != (method@, path@),
            decreases self.routes.len() - i,
        {
            if self.routes[i].0 == *method && self.routes[i].1 == *path {
                return Some(i);
            }
            i += 1;
        }
        None
    }

    /// Registers `handler` under (`method`, `path`), in place of any handler
    /// registered there before.
    pub fn register(&mut self, method: &str, path: &str, handler: H)
        ensures
            final(self)@ == old(self)@.insert((method@, path@), handler),
    {
        proof {
            use_type_invariant(&*self);
        }
        let m = method.to_owned();
        let p = path.to_owned();
        let ghost s = self.pairs();
        let found = self.position(&m, &p);
        let mut taken = RouteTable { routes: Vec::new() };
        std::mem::swap(self, &mut taken);
        let RouteTable { routes: mut routes } = taken;
        assert(routes@.map_values(|r: (String, String, H)| ((r.0@, r.1@), r.2)) == s);
        match found {
            Some(i) => {
                routes.set(i, (m, p, handler));
                proof {
                    lemma_pairs_map_update(s, i as int, handler);
                    assert(routes@.map_values(|r: (String, String, H)| ((r.0@, r.1@), r.2)) =~= s.update(
                        i as int,
                        ((method@, path@), handler),
                    ));
                }
            },
            None => {
                routes.push((m, p, handler));
                proof {
                    lemma_pairs_map_push(s, (method@, path@), handler);
                    assert(routes@.map_values(|r: (String, String, H)| ((r.0@, r.1@), r.2)) =~= s.push(
                        ((method@, path@), handler),
                    ));
                }
            },
        }
        *self = RouteTable { routes };
    }

    /// Registers `handler` for GET requests to `path`.
    pub fn get(&mut self, path: &str, handler: H)
        ensures
            final(self)@ == old(self)@.insert(("GET"@, path@), handler),
    {
        self.register("GET", path, handler);
    }

    /// The handler registered under (`method`, `path`), if there is one.
    pub fn lookup(&self, method: &str, path: &str) -> (r: Option<&H>)
        ensures
            match r {
                Some(h) => self.route_spec(method@, path@) == Some(*h),
                None => self.route_spec(method@, path@) == None::<H>,
            },
    {
        let m = method.to_owned();
        let p = path.to_owned();
        match self.position(&m, &p) {
            Some(i) => {
                proof {
                    use_type_invariant(self);
                    lemma_pairs_map_at(self.pairs(), i as int);
                }
                Some(&self.routes[i].2)
            },
            None => None,
        }
    }

    /// Answers `request`: the handler registered under its method and path
    /// makes the response; without one, the response is "not found".
    pub fn respond<B>(&self, request: &HttpRequest<B>) -> (r: HttpResponse) where
        H: Fn(&HttpRequest<B>) -> HttpResponse,

        requires
            forall|h: H| #[trigger] self.route_spec(request.method_spec(), request.path_spec()) == Some(h)
                ==> h.requires((request,)),
        ensures
            match self.route_spec(request.method_spec(), request.path_spec()) {
                Some(h) => h.ensures((request,), r),
                None => is_not_found(r),
            },
    {
        match self.lookup(request.method(), request.path()) {
            Some(handler) => handler(request),
            None => HttpResponse::http_404(),
        }
    }
}

/// The response that a request without a route gets: status 404, no headers,
/// no body.
pub open spec fn is_not_found(r: HttpResponse) -> bool {
    &&& r.status_spec() == HttpStatus::NotFound
    &&& r.headers_spec()@ == Map::<Seq<char>, Seq<char>>::empty()
    &&& r.body_spec() == None::<Seq<char>>
}

impl<H> View for RouteTable<H> {
    type V = Map<(Seq<char>, Seq<char>), H>;

    open spec fn view(&self) -> Map<(Seq<char>, Seq<char>), H> {
        pairs_map(self.pairs())
    }
}

/// After registering `handler` under (`method`, `path`), a request for that
/// key goes to `handler`, and a request for a key that was never registered
/// goes to no handler (it is answered "not found").
pub proof fn lemma_register_then_route<H>(
    before: RouteTable<H>,
    after: RouteTable<H>,
    method: Seq<char>,
    path: Seq<char>,
    handler: H,
    other: (Seq<char>, Seq<char>),
)
    requires
        after@ == before@.insert((method, path), handler),
        !before@.contains_key(other),
        other != (method, path),
    ensures
        after.route_spec(method, path) == Some(handler),
        after.route_spec(other.0, other.1) == None::<H>,
{
}

/// Registering twice under one key leaves the second handler there, as if
/// the first registration had not been made.
pub proof fn lemma_last_registration_wins<H>(
    first: RouteTable<H>,
    second: RouteTable<H>,
    third: RouteTable<H>,
    method: Seq<char>,
    path: Seq<char>,
    h1: H,
    h2: H,
)
    requires
        second@ == first@.insert((method, path), h1),
        third@ == second@.insert((method, path), h2),
    ensures
        third.route_spec(method, path) == Some(h2),
        third@ == first@.insert((method, path), h2),
{
    assert(third@ =~= first@.insert((method, path), h2));
}

} // verus!
