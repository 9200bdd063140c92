//! Endpoints of a provider file: which backend serves a host.
use vstd::prelude::*;
use crate::text::{chars_of, same_chars};

verus! {

/// An endpoint: a host name, its routes and its backends.
pub struct Endpoint {
    pub id: String,
    pub hostname: String,
    pub routing: Vec<Routing>,
    pub backend: Vec<Backend>,
}

/// A route of an endpoint.
pub struct Routing {
    pub path: String,
    pub rank: i32,
    pub backend_name: String,
    pub regex: bool,
    pub rewritepath_regex: String,
    pub rewritepath_replace: String,
}

/// A backend of an endpoint.
pub struct Backend {
    pub name: String,
    pub location: String,
    pub override_host: String,
    pub default: bool,
}

/// The endpoints of a provider.
pub struct Provider {
    endpoints: Vec<Endpoint>,
}

/// The index of the first item of `s` that `p` accepts.
pub open spec fn first_index<T>(s: Seq<T>, p: spec_fn(T) -> bool) -> Option<int>
    decreases s.len(),
{
    if s.len() == 0 {
        None
    } else if p(s[0]) {
        Some(0)
    } else {
        match first_index(s.drop_first(), p) {
            Some(i) => Some(i + 1),
            None => None,
        }
    }
}

/// Accepts a default backend.
pub open spec fn is_default() -> spec_fn(Backend) -> bool {
    |b: Backend| b.default
}

/// Accepts an endpoint for `hostname`.
pub open spec fn serves(hostname: Seq<char>) -> spec_fn(Endpoint) -> bool {
    |e: Endpoint| e.hostname@ == hostname
}

impl Endpoint {
    /// The backend of a route: the first default backend, whatever the route.
    pub fn get_backend(&self, route: String) -> (r: Option<&Backend>)
        ensures
            match first_index(self.backend@, is_default()) {
                Some(i) => r matches Some(b) && *b == self.backend@[i],
                None => r is None,
            },
    {
        let ghost all = self.backend@;
        let mut i: usize = 0;
        proof {
            assert(all.subrange(0, all.len() as int) =~= all);
        }
        while i < self.backend.len()
            invariant
                i <= all.len(),
                all == self.backend@,
                first_index(all, is_default()) == match first_index(
                    all.subrange(i as int, all.len() as int),
                    is_default(),
                ) {
                    Some(j) => Some(j + i),
                    None => None,
                },
            decreases all.len() - i,
        {
            proof {
                let rest = all.subrange(i as int, all.len() as int);
                assert(rest.drop_first() =~= all.subrange(i + 1, all.len() as int));
                assert(rest[0] == all[i as int]);
            }
            if self.backend[i].default {
                return Some(&self.backend[i]);
            }
            i = i + 1;
        }
        None
    }
}

impl Provider {
    /// A provider with these endpoints.
    pub fn new(endpoints: Vec<Endpoint>) -> (r: Provider)
        ensures
            r.endpoints() == endpoints@,
    {
        Provider { endpoints }
    }

    /// The endpoints of the provider.
    pub closed spec fn endpoints(&self) -> Seq<Endpoint> {
        self.endpoints@
    }

    /// The first endpoint for `hostname`.
    pub fn get(&self, hostname: String) -> (r: Option<&Endpoint>)
        ensures
            match first_index(self.endpoints(), serves(hostname@)) {
                Some(i) => r matches Some(e) && *e == self.endpoints()[i],
                None => r is None,
            },
    {
        let h = chars_of(hostname.as_str());
        let ghost all = self.endpoints@;
        let mut i: usize = 0;
        proof {
            assert(all.subrange(0, all.len() as int) =~= all);
        }
        while i < self.endpoints.len()
            invariant
                i <= all.len(),
                all == self.endpoints@,
                h@ == hostname@,
                first_index(all, serves(hostname@)) == match first_index(
                    all.subrange(i as int, all.len() as int),
                    serves(hostname@),
                ) {
                    Some(j) => Some(j + i),
                    None => None,
                },
            decreases all.len() - i,
        {
            proof {
                let rest = all.subrange(i as int, all.len() as int);
                assert(rest.drop_first() =~= all.subrange(i + 1, all.len() as int));
                assert(rest[0] == all[i as int]);
            }
            let n = chars_of(self.endpoints[i].hostname.as_str());
            if same_chars(&n, &h) {
                return Some(&self.endpoints[i]);
            }
            i = i + 1;
        }
        None
    }
}

} // verus!
