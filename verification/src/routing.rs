//! The backend of a request, and the path it is sent there with, from the
//! routing rules of its domain.
use vstd::prelude::*;
use crate::config::{BackendConfiguration, RoutingConfiguration, RoutingRulesConfiguration};
use crate::text::{chars_of, has_prefix, same_chars, starts_with, string_of, slice_chars};
use crate::models::opt_view;

verus! {

/// Whether `pattern` compiles as a regular expression (`regex::Regex::new`).
pub uninterp spec fn regex_valid(pattern: Seq<char>) -> bool;

/// Whether the regular expression `pattern` matches somewhere in `text`
/// (`Regex::is_match`).
pub uninterp spec fn regex_matches(pattern: Seq<char>, text: Seq<char>) -> bool;

/// `text` with the first match of `pattern` replaced by `replacement`
/// (`Regex::replacen` with a limit of one, `$` references expanded).
pub uninterp spec fn regex_replace_first(pattern: Seq<char>, text: Seq<char>, replacement: Seq<char>) -> Seq<
    char,
>;

/// The path and query that `http::uri::PathAndQuery::from_str` makes of a
/// text, `None` when it refuses it.
pub uninterp spec fn parsed_path(s: Seq<char>) -> Option<Seq<char>>;

/// Where a request goes.
#[derive(Debug, Clone)]
pub struct RoutingContext {
    pub backend: BackendConfiguration,
    pub path: String,
}

/// The first backend marked default.
pub open spec fn default_backend(bs: Seq<BackendConfiguration>) -> Option<int>
    decreases bs.len(),
{
    if bs.len() == 0 {
        None
    } else if bs[0].default {
        Some(0)
    } else {
        match default_backend(bs.drop_first()) {
            Some(i) => Some(i + 1),
            None => None,
        }
    }
}

/// The first backend named `name`.
pub open spec fn backend_named(bs: Seq<BackendConfiguration>, name: Seq<char>) -> Option<int>
    decreases bs.len(),
{
    if bs.len() == 0 {
        None
    } else if bs[0].name@ == name {
        Some(0)
    } else {
        match backend_named(bs.drop_first(), name) {
            Some(i) => Some(i + 1),
            None => None,
        }
    }
}

/// The first routing for the domain `host`.
pub open spec fn routing_for(rs: Seq<RoutingConfiguration>, host: Seq<char>) -> Option<int>
    decreases rs.len(),
{
    if rs.len() == 0 {
        None
    } else if rs[0].domain@ == host {
        Some(0)
    } else {
        match routing_for(rs.drop_first(), host) {
            Some(i) => Some(i + 1),
            None => None,
        }
    }
}

/// Whether a rule applies to the path and query `pq`: its exact path, else
/// its prefix, else its regular expression decides.
pub open spec fn rule_applies(rule: RoutingRulesConfiguration, pq: Seq<char>) -> bool {
    match (rule.path, rule.path_prefix, rule.path_regexp) {
        (Some(p), _, _) => pq == p@,
        (None, Some(prefix), _) => starts_with(pq, prefix@),
        (None, None, Some(pattern)) => regex_matches(pattern@, pq),
        (None, None, None) => false,
    }
}

/// The path a rule sends the request with, `None` when its rewrite is not a
/// valid path.
pub open spec fn rule_path(rule: RoutingRulesConfiguration, pq: Seq<char>) -> Option<Seq<char>> {
    match (rule.path, rule.path_prefix, rule.path_regexp) {
        (Some(p), _, _) => match rule.rewrite {
            Some(r) => parsed_path(r@),
            None => parsed_path(p@),
        },
        (None, Some(prefix), _) => match rule.rewrite {
            Some(r) => parsed_path(r@ + pq.subrange(prefix@.len() as int, pq.len() as int)),
            None => Some(pq),
        },
        (None, None, Some(pattern)) => match rule.rewrite {
            Some(r) => parsed_path(regex_replace_first(pattern@, pq, r@)),
            None => parsed_path(pq),
        },
        (None, None, None) => None,
    }
}

/// The backend a rule sends the request to: the one it names, or the default
/// one when it names none; `None` when it names one that does not exist.
pub open spec fn rule_backend(rule: RoutingRulesConfiguration, bs: Seq<BackendConfiguration>, default: int) -> Option<
    int,
> {
    match rule.backend {
        Some(name) => backend_named(bs, name@),
        None => Some(default),
    }
}

/// The first rule that applies.
pub open spec fn first_rule(rules: Seq<RoutingRulesConfiguration>, pq: Seq<char>) -> Option<int>
    decreases rules.len(),
{
    if rules.len() == 0 {
        None
    } else if rule_applies(rules[0], pq) {
        Some(0)
    } else {
        match first_rule(rules.drop_first(), pq) {
            Some(i) => Some(i + 1),
            None => None,
        }
    }
}

/// A rule decided by its regular expression alone.
pub open spec fn is_regex_rule(rule: RoutingRulesConfiguration) -> bool {
    rule.path is None && rule.path_prefix is None && rule.path_regexp is Some
}

/// The matching reaches rule `i`: no rule before it applies.
pub open spec fn reached(rules: Seq<RoutingRulesConfiguration>, pq: Seq<char>, i: int) -> bool {
    forall|j: int| 0 <= j < i ==> !rule_applies(#[trigger] rules[j], pq)
}

/// The regular expression of every rule that the matching of `pq` reaches is
/// valid.
pub open spec fn reached_patterns_valid(rules: Seq<RoutingRulesConfiguration>, pq: Seq<char>) -> bool {
    forall|i: int|
        0 <= i < rules.len() && is_regex_rule(#[trigger] rules[i]) && reached(rules, pq, i) ==> regex_valid(
            rules[i].path_regexp.unwrap()@,
        )
}

/// The routing of `host` exists, has a default backend, and the matching of
/// `pq` reaches a rule whose regular expression does not compile.
pub open spec fn reaches_invalid_pattern(rs: Seq<RoutingConfiguration>, host: Seq<char>, pq: Seq<char>) -> bool {
    host_routing(rs, host) matches Some(h) && default_backend(h.backends@) is Some
        && !reached_patterns_valid(h.rules@, pq)
}

/// Where the request to `host` with path and query `pq` goes: the routing of
/// its domain and the default backend of that routing must exist; the first
/// rule that applies chooses the backend (the default one when it names none
/// or one that does not exist) and the path (the request's when its rewrite is
/// not valid); without a rule, the default backend and the request's path.
pub open spec fn route(rs: Seq<RoutingConfiguration>, host: Seq<char>, pq: Seq<char>) -> Option<(int, Seq<char>)> {
    match routing_for(rs, host) {
        None => None,
        Some(ri) => {
            let routing = rs[ri];
            match default_backend(routing.backends@) {
                None => None,
                Some(d) => match first_rule(routing.rules@, pq) {
                    None => Some((d, pq)),
                    Some(k) => {
                        let rule = routing.rules@[k];
                        let b = match rule_backend(rule, routing.backends@, d) {
                            Some(b) => b,
                            None => d,
                        };
                        let p = match rule_path(rule, pq) {
                            Some(p) => p,
                            None => pq,
                        };
                        Some((b, p))
                    },
                },
            }
        },
    }
}

/// The routing the request's host has, if any.
pub open spec fn host_routing(rs: Seq<RoutingConfiguration>, host: Seq<char>) -> Option<RoutingConfiguration> {
    match routing_for(rs, host) {
        Some(i) => Some(rs[i]),
        None => None,
    }
}

impl RoutingContext {
    /// The backend and path of a request to `host` with path and query `pq`
    /// (see `route`).
    pub fn from_request(routing: &Vec<RoutingConfiguration>, host: &str, pq: &str) -> (r: Option<
        RoutingContext,
    >)
        requires
            !reaches_invalid_pattern(routing@, host@, pq@),
        ensures
            match route(routing@, host@, pq@) {
                None => r is None,
                Some((b, p)) => r matches Some(ctx) && ctx.path@ == p && ctx.backend
                    == routing@[routing_for(routing@, host@).unwrap()].backends@[b],
            },
    {
        let found = find_routing(routing, host);
        let ri = match found {
            Some(i) => i,
            None => return None,
        };
        proof {
            assert(routing_for(routing@, host@) == Some(ri as int));
        }
        let rc = &routing[ri];
        proof {
            assert(host_routing(routing@, host@) == Some(*rc));
        }
        let d = match find_default(&rc.backends) {
            Some(d) => d,
            None => return None,
        };
        let pqv = chars_of(pq);
        let mut k: usize = 0;
        let ghost rules = rc.rules@;
        proof {
            assert(rules.subrange(0, rules.len() as int) =~= rules);
        }
        while k < rc.rules.len()
            invariant
                k <= rules.len(),
                rules == rc.rules@,
                d < rc.backends@.len(),
                default_backend(rc.backends@) == Some(d as int),
                ri < routing@.len(),
                routing_for(routing@, host@) == Some(ri as int),
                *rc == routing@[ri as int],
                pqv@ == pq@,
                reached_patterns_valid(rules, pq@),
                forall|j: int| 0 <= j < k ==> !rule_applies(#[trigger] rules[j], pq@),
                first_rule(rules, pq@) == match first_rule(
                    rules.subrange(k as int, rules.len() as int),
                    pq@,
                ) {
                    Some(j) => Some(j + k),
                    None => None,
                },
            decreases rules.len() - k,
        {
            proof {
                let rest = rules.subrange(k as int, rules.len() as int);
                assert(rest.drop_first() =~= rules.subrange(k + 1, rules.len() as int));
                assert(rest[0] == rules[k as int]);
            }
            let rule = &rc.rules[k];
            proof {
                assert(reached(rules, pq@, k as int));
                if is_regex_rule(rules[k as int]) {
                    assert(regex_valid(rules[k as int].path_regexp.unwrap()@));
                }
            }
            if applies(rule, &pqv, pq) {
                let b = match &rule.backend {
                    Some(name) => match find_named(&rc.backends, name) {
                        Some(b) => b,
                        None => d,
                    },
                    None => d,
                };
                let p = match path_for(rule, &pqv, pq) {
                    Some(p) => p,
                    None => pq.to_string(),
                };
                return Some(RoutingContext { backend: rc.backends[b].clone_config(), path: p });
            }
            k = k + 1;
        }
        Some(RoutingContext { backend: rc.backends[d].clone_config(), path: pq.to_string() })
    }
}

impl BackendConfiguration {
    /// A copy of the backend.
    pub fn clone_config(&self) -> (r: BackendConfiguration)
        ensures
            r == *self,
    {
        BackendConfiguration {
            name: self.name.clone(),
            default: self.default,
            address: self.address.clone(),
            enable_ssl: self.enable_ssl,
        }
    }
}

proof fn lemma_routing_in_range(rs: Seq<RoutingConfiguration>, host: Seq<char>)
    ensures
        routing_for(rs, host) matches Some(j) ==> 0 <= j < rs.len(),
    decreases rs.len(),
{
    if rs.len() > 0 {
        lemma_routing_in_range(rs.drop_first(), host);
    }
}

fn find_routing(rs: &Vec<RoutingConfiguration>, host: &str) -> (r: Option<usize>)
    ensures
        match r {
            Some(k) => routing_for(rs@, host@) == Some(k as int) && k < rs@.len(),
            None => routing_for(rs@, host@) is None,
        },
{
    proof {
        lemma_routing_in_range(rs@, host@);
    }
    let h = chars_of(host);
    let mut i: usize = 0;
    proof {
        assert(rs@.subrange(0, rs@.len() as int) =~= rs@);
    }
    while i < rs.len()
        invariant
            i <= rs@.len(),
            h@ == host@,
            routing_for(rs@, host@) matches Some(j) ==> 0 <= j < rs@.len(),
            routing_for(rs@, host@) == match routing_for(rs@.subrange(i as int, rs@.len() as int), host@) {
                Some(j) => Some(j + i),
                None => None,
            },
        decreases rs@.len() - i,
    {
        proof {
            let rest = rs@.subrange(i as int, rs@.len() as int);
            assert(rest.drop_first() =~= rs@.subrange(i + 1, rs@.len() as int));
        }
        let d = chars_of(rs[i].domain.as_str());
        if same_chars(&d, &h) {
            return Some(i);
        }
        i = i + 1;
    }
    None
}

fn find_default(bs: &Vec<BackendConfiguration>) -> (r: Option<usize>)
    ensures
        match r {
            Some(k) => default_backend(bs@) == Some(k as int) && k < bs@.len(),
            None => default_backend(bs@) is None,
        },
{
    let mut i: usize = 0;
    proof {
        assert(bs@.subrange(0, bs@.len() as int) =~= bs@);
        lemma_default_in_range(bs@);
    }
    while i < bs.len()
        invariant
            i <= bs@.len(),
            default_backend(bs@) == match default_backend(bs@.subrange(i as int, bs@.len() as int)) {
                Some(j) => Some(j + i),
                None => None,
            },
            default_backend(bs@) matches Some(j) ==> 0 <= j < bs@.len(),
        decreases bs@.len() - i,
    {
        proof {
            let rest = bs@.subrange(i as int, bs@.len() as int);
            assert(rest.drop_first() =~= bs@.subrange(i + 1, bs@.len() as int));
        }
        if bs[i].default {
            return Some(i);
        }
        i = i + 1;
    }
    None
}

proof fn lemma_default_in_range(bs: Seq<BackendConfiguration>)
    ensures
        default_backend(bs) matches Some(j) ==> 0 <= j < bs.len(),
    decreases bs.len(),
{
    if bs.len() > 0 {
        lemma_default_in_range(bs.drop_first());
    }
}

proof fn lemma_named_in_range(bs: Seq<BackendConfiguration>, name: Seq<char>)
    ensures
        backend_named(bs, name) matches Some(j) ==> 0 <= j < bs.len(),
    decreases bs.len(),
{
    if bs.len() > 0 {
        lemma_named_in_range(bs.drop_first(), name);
    }
}

fn find_named(bs: &Vec<BackendConfiguration>, name: &String) -> (r: Option<usize>)
    ensures
        match r {
            Some(k) => backend_named(bs@, name@) == Some(k as int) && k < bs@.len(),
            None => backend_named(bs@, name@) is None,
        },
{
    let n = chars_of(name.as_str());
    let mut i: usize = 0;
    proof {
        assert(bs@.subrange(0, bs@.len() as int) =~= bs@);
        lemma_named_in_range(bs@, name@);
    }
    while i < bs.len()
        invariant
            i <= bs@.len(),
            n@ == name@,
            backend_named(bs@, name@) == match backend_named(bs@.subrange(i as int, bs@.len() as int), name@) {
                Some(j) => Some(j + i),
                None => None,
            },
            backend_named(bs@, name@) matches Some(j) ==> 0 <= j < bs@.len(),
        decreases bs@.len() - i,
    {
        proof {
            let rest = bs@.subrange(i as int, bs@.len() as int);
            assert(rest.drop_first() =~= bs@.subrange(i + 1, bs@.len() as int));
        }
        let b = chars_of(bs[i].name.as_str());
        if same_chars(&b, &n) {
            return Some(i);
        }
        i = i + 1;
    }
    None
}

fn applies(rule: &RoutingRulesConfiguration, pqv: &Vec<char>, pq: &str) -> (r: bool)
    requires
        pqv@ == pq@,
        rule.path is None && rule.path_prefix is None && rule.path_regexp is Some ==> regex_valid(
            rule.path_regexp.unwrap()@,
        ),
    ensures
        r == rule_applies(*rule, pq@),
{
    match (&rule.path, &rule.path_prefix, &rule.path_regexp) {
        (Some(p), _, _) => {
            let pv = chars_of(p.as_str());
            same_chars(pqv, &pv)
        },
        (None, Some(prefix), _) => {
            let pv = chars_of(prefix.as_str());
            has_prefix(pqv.as_slice(), pv.as_slice())
        },
        (None, None, Some(pattern)) => regex_is_match(pattern.as_str(), pq),
        (None, None, None) => false,
    }
}

fn path_for(rule: &RoutingRulesConfiguration, pqv: &Vec<char>, pq: &str) -> (r: Option<String>)
    requires
        pqv@ == pq@,
        rule_applies(*rule, pq@),
        rule.path is None && rule.path_prefix is None && rule.path_regexp is Some ==> regex_valid(
            rule.path_regexp.unwrap()@,
        ),
    ensures
        opt_view(r) == rule_path(*rule, pq@),
{
    match (&rule.path, &rule.path_prefix, &rule.path_regexp) {
        (Some(p), _, _) => match &rule.rewrite {
            Some(rw) => parse_path(rw.as_str()),
            None => parse_path(p.as_str()),
        },
        (None, Some(prefix), _) => match &rule.rewrite {
            Some(rw) => {
                let n = pqv.len();
                let plen = chars_of(prefix.as_str()).len();
                let rest = slice_chars(pqv.as_slice(), plen, n);
                let mut v = chars_of(rw.as_str());
                let mut i: usize = 0;
                while i < rest.len()
                    invariant
                        i <= rest@.len(),
                        v@ == rw@ + rest@.subrange(0, i as int),
                    decreases rest@.len() - i,
                {
                    v.push(rest[i]);
                    i = i + 1;
                    proof {
                        assert(v@ =~= rw@ + rest@.subrange(0, i as int));
                    }
                }
                proof {
                    assert(rest@.subrange(0, rest@.len() as int) =~= rest@);
                }
                let s = string_of(&v);
                parse_path(s.as_str())
            },
            None => Some(pq.to_string()),
        },
        (None, None, Some(pattern)) => match &rule.rewrite {
            Some(rw) => {
                let replaced = regex_replace(pattern.as_str(), pq, rw.as_str());
                parse_path(replaced.as_str())
            },
            None => parse_path(pq),
        },
        (None, None, None) => None,
    }
}

/// `regex::Regex::new(pattern)` and `Regex::is_match`.
#[verifier::external_body]
fn regex_is_match(pattern: &str, text: &str) -> (r: bool)
    requires
        regex_valid(pattern@),
    ensures
        r == regex_matches(pattern@, text@),
{
    regex::Regex::new(pattern).unwrap().is_match(text)
}

/// `regex::Regex::new(pattern)` and `Regex::replacen(text, 1, replacement)`.
#[verifier::external_body]
fn regex_replace(pattern: &str, text: &str, replacement: &str) -> (r: String)
    requires
        regex_valid(pattern@),
    ensures
        r@ == regex_replace_first(pattern@, text@, replacement@),
{
    regex::Regex::new(pattern).unwrap().replacen(text, 1, replacement).to_string()
}

/// Whether `regex::Regex::new(pattern)` succeeds.
#[verifier::external_body]
fn regex_compiles(pattern: &str) -> (r: bool)
    ensures
        r == regex_valid(pattern@),
{
    regex::Regex::new(pattern).is_ok()
}

/// `http::uri::PathAndQuery::from_str` written back as text.
#[verifier::external_body]
fn parse_path(s: &str) -> (r: Option<String>)
    ensures
        opt_view(r) == parsed_path(s@),
{
    match s.parse::<http::uri::PathAndQuery>() {
        Ok(p) => Some(p.to_string()),
        Err(_) => None,
    }
}

/// Whether the regular expression of every rule that the matching of `pq`
/// reaches compiles.
pub fn reached_patterns_compile(rules: &Vec<RoutingRulesConfiguration>, pq: &str) -> (r: bool)
    ensures
        r == reached_patterns_valid(rules@, pq@),
{
    let pqv = chars_of(pq);
    let mut k: usize = 0;
    while k < rules.len()
        invariant
            k <= rules@.len(),
            pqv@ == pq@,
            forall|j: int| 0 <= j < k ==> !rule_applies(#[trigger] rules@[j], pq@),
            forall|j: int|
                0 <= j < k && is_regex_rule(#[trigger] rules@[j]) ==> regex_valid(rules@[j].path_regexp.unwrap()@),
        decreases rules@.len() - k,
    {
        let rule = &rules[k];
        match (&rule.path, &rule.path_prefix, &rule.path_regexp) {
            (None, None, Some(p)) => {
                if !regex_compiles(p.as_str()) {
                    proof {
                        assert(reached(rules@, pq@, k as int));
                        assert(is_regex_rule(rules@[k as int]));
                    }
                    return false;
                }
            },
            _ => {},
        }
        if applies(rule, &pqv, pq) {
            proof {
                assert forall|i: int|
                    0 <= i < rules@.len() && is_regex_rule(#[trigger] rules@[i]) && reached(
                        rules@,
                        pq@,
                        i,
                    ) implies regex_valid(rules@[i].path_regexp.unwrap()@) by {
                    if i > k {
                        assert(!rule_applies(rules@[k as int], pq@));
                    }
                }
            }
            return true;
        }
        k = k + 1;
    }
    true
}

impl RoutingContext {
    /// `from_request` where the matching reaches only valid regular
    /// expressions; `None` where it reaches an invalid one (on which the
    /// routing of the request has no answer).
    pub fn from_request_checked(routing: &Vec<RoutingConfiguration>, host: &str, pq: &str) -> (r: Option<
        Option<RoutingContext>,
    >)
        ensures
            r is None <==> reaches_invalid_pattern(routing@, host@, pq@),
            r matches Some(x) ==> match route(routing@, host@, pq@) {
                None => x is None,
                Some((b, p)) => x matches Some(ctx) && ctx.path@ == p && ctx.backend
                    == routing@[routing_for(routing@, host@).unwrap()].backends@[b],
            },
    {
        let found = find_routing(routing, host);
        match found {
            Some(i) => {
                proof {
                    assert(routing_for(routing@, host@) == Some(i as int));
                    assert(host_routing(routing@, host@) == Some(routing@[i as int]));
                }
                if find_default(&routing[i].backends).is_some() && !reached_patterns_compile(&routing[i].rules, pq) {
                    return None;
                }
            },
            None => {},
        }
        Some(RoutingContext::from_request(routing, host, pq))
    }
}


proof fn lemma_routing_for_at(rs: Seq<RoutingConfiguration>, host: Seq<char>, i: int)
    requires
        0 <= i < rs.len(),
        rs[i].domain@ == host,
        forall|x: int| 0 <= x < i ==> (#[trigger] rs[x]).domain@ != host,
    ensures
        routing_for(rs, host) == Some(i),
    decreases i,
{
    if i > 0 {
        let t = rs.drop_first();
        assert forall|x: int| 0 <= x < i - 1 implies (#[trigger] t[x]).domain@ != host by {
            assert(t[x] == rs[x + 1]);
        }
        assert(rs[0].domain@ != host);
        lemma_routing_for_at(t, host, i - 1);
    }
}

proof fn lemma_routing_for_none(rs: Seq<RoutingConfiguration>, host: Seq<char>)
    requires
        forall|x: int| 0 <= x < rs.len() ==> (#[trigger] rs[x]).domain@ != host,
    ensures
        routing_for(rs, host) is None,
    decreases rs.len(),
{
    if rs.len() > 0 {
        let t = rs.drop_first();
        assert forall|x: int| 0 <= x < t.len() implies (#[trigger] t[x]).domain@ != host by {
            assert(t[x] == rs[x + 1]);
        }
        assert(rs[0].domain@ != host);
        lemma_routing_for_none(t, host);
    }
}

proof fn lemma_first_rule_at(rules: Seq<RoutingRulesConfiguration>, pq: Seq<char>, k: int)
    requires
        0 <= k < rules.len(),
        rule_applies(rules[k], pq),
        forall|x: int| 0 <= x < k ==> !rule_applies(#[trigger] rules[x], pq),
    ensures
        first_rule(rules, pq) == Some(k),
    decreases k,
{
    if k > 0 {
        let t = rules.drop_first();
        assert forall|x: int| 0 <= x < k - 1 implies !rule_applies(#[trigger] t[x], pq) by {
            assert(t[x] == rules[x + 1]);
        }
        assert(!rule_applies(rules[0], pq));
        assert(t[k - 1] == rules[k]);
        lemma_first_rule_at(t, pq, k - 1);
    }
}

proof fn lemma_first_rule_none(rules: Seq<RoutingRulesConfiguration>, pq: Seq<char>)
    requires
        forall|x: int| 0 <= x < rules.len() ==> !rule_applies(#[trigger] rules[x], pq),
    ensures
        first_rule(rules, pq) is None,
    decreases rules.len(),
{
    if rules.len() > 0 {
        let t = rules.drop_first();
        assert forall|x: int| 0 <= x < t.len() implies !rule_applies(#[trigger] t[x], pq) by {
            assert(t[x] == rules[x + 1]);
        }
        assert(!rule_applies(rules[0], pq));
        lemma_first_rule_none(t, pq);
    }
}

proof fn lemma_backend_named_found(bs: Seq<BackendConfiguration>, name: Seq<char>, j: int)
    requires
        0 <= j < bs.len(),
        bs[j].name@ == name,
    ensures
        backend_named(bs, name) matches Some(b) && 0 <= b < bs.len() && bs[b].name@ == name,
    decreases j,
{
    if bs[0].name@ != name {
        let t = bs.drop_first();
        assert(t[j - 1] == bs[j]);
        lemma_backend_named_found(t, name, j - 1);
        let b = backend_named(t, name).unwrap();
        assert(t[b] == bs[b + 1]);
    }
}

proof fn lemma_default_found(bs: Seq<BackendConfiguration>, j: int)
    requires
        0 <= j < bs.len(),
        bs[j].default,
    ensures
        default_backend(bs) matches Some(d) && 0 <= d < bs.len() && bs[d].default,
    decreases j,
{
    if !bs[0].default {
        let t = bs.drop_first();
        assert(t[j - 1] == bs[j]);
        lemma_default_found(t, j - 1);
        let d = default_backend(t).unwrap();
        assert(t[d] == bs[d + 1]);
    }
}

/// How a request to `host` with path and query `pq` is routed, by the first
/// routing for `host` (`rs[i]`, with a default backend):
/// - when the first rule that applies names a backend that exists, the
///   request goes to a backend of that name, whatever the rule matches by
///   (exact path, prefix or regular expression);
/// - when that rule names no backend, it goes to the default backend;
/// - when no rule applies, it goes to the default backend with its own path
///   and query;
/// - without a routing for `host`, it is not routed.
pub proof fn lemma_routing_laws(rs: Seq<RoutingConfiguration>, host: Seq<char>, pq: Seq<char>, i: int, k: int)
    requires
        0 <= i < rs.len(),
        rs[i].domain@ == host,
        forall|x: int| 0 <= x < i ==> (#[trigger] rs[x]).domain@ != host,
        exists|d: int| 0 <= d < rs[i].backends@.len() && (#[trigger] rs[i].backends@[d]).default,
    ensures
        0 <= k < rs[i].rules@.len() && rule_applies(rs[i].rules@[k], pq) && (forall|x: int|
            0 <= x < k ==> !rule_applies(#[trigger] rs[i].rules@[x], pq)) && (exists|j: int|
            0 <= j < rs[i].backends@.len() && rs[i].rules@[k].backend is Some
                && (#[trigger] rs[i].backends@[j]).name@ == rs[i].rules@[k].backend.unwrap()@) ==> (route(rs, host, pq) matches Some(
            (b, p),
        ) && 0 <= b < rs[i].backends@.len() && rs[i].backends@[b].name@
            == rs[i].rules@[k].backend.unwrap()@),
        0 <= k < rs[i].rules@.len() && rule_applies(rs[i].rules@[k], pq) && (forall|x: int|
            0 <= x < k ==> !rule_applies(#[trigger] rs[i].rules@[x], pq)) && rs[i].rules@[k].backend is None
            ==> (route(rs, host, pq) matches Some((b, p)) && 0 <= b < rs[i].backends@.len()
            && rs[i].backends@[b].default),
        (forall|x: int| 0 <= x < rs[i].rules@.len() ==> !rule_applies(#[trigger] rs[i].rules@[x], pq))
            ==> (route(rs, host, pq) matches Some((b, p)) && 0 <= b < rs[i].backends@.len()
            && rs[i].backends@[b].default && p == pq),
{
    lemma_routing_for_at(rs, host, i);
    let bs = rs[i].backends@;
    let rules = rs[i].rules@;
    let d0 = choose|d: int| 0 <= d < bs.len() && (#[trigger] bs[d]).default;
    lemma_default_found(bs, d0);
    if 0 <= k < rules.len() && rule_applies(rules[k], pq) && (forall|x: int|
        0 <= x < k ==> !rule_applies(#[trigger] rules[x], pq)) {
        lemma_first_rule_at(rules, pq, k);
        if rules[k].backend is Some {
            if exists|j: int| 0 <= j < bs.len() && (#[trigger] bs[j]).name@ == rules[k].backend.unwrap()@ {
                let j = choose|j: int| 0 <= j < bs.len() && (#[trigger] bs[j]).name@ == rules[k].backend.unwrap()@;
                lemma_backend_named_found(bs, rules[k].backend.unwrap()@, j);
            }
        }
    }
    if forall|x: int| 0 <= x < rules.len() ==> !rule_applies(#[trigger] rules[x], pq) {
        lemma_first_rule_none(rules, pq);
    }
}

/// A request to a host that no routing is for is not routed.
pub proof fn lemma_unknown_host(rs: Seq<RoutingConfiguration>, host: Seq<char>, pq: Seq<char>)
    requires
        forall|x: int| 0 <= x < rs.len() ==> (#[trigger] rs[x]).domain@ != host,
    ensures
        route(rs, host, pq) is None,
{
    lemma_routing_for_none(rs, host);
}

} // verus!
