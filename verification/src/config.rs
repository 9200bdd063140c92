//! The proxy's configuration and its validation.
use vstd::prelude::*;
use std::collections::HashMap;
use crate::text::{owned, same_chars, chars_of};

verus! {

/// A check of a configuration: the messages of what is wrong, if anything.
pub trait Validate {
    fn validate(&self) -> (r: Result<(), Vec<String>>);
}

/// The proxy's configuration.
#[derive(Debug, Clone)]
pub struct StaticConfiguration {
    pub log: Option<LogConfiguration>,
    pub http: HttpConfiguration,
    pub https: HttpsConfiguration,
    pub monitor: Option<MonitorConfiguration>,
    pub routing: Vec<RoutingConfiguration>,
    pub security: SecurityConfiguration,
    pub destinations: DestinationConfiguration,
}

#[derive(Debug, Clone)]
pub struct LogConfiguration {
    pub level: String,
}

#[derive(Debug, Clone)]
pub struct HttpConfiguration {
    pub address: String,
    pub force_https: bool,
}

#[derive(Debug, Clone)]
pub struct HttpsConfiguration {
    pub address: String,
    pub cert: String,
    pub key: String,
}

#[derive(Debug, Clone)]
pub struct MonitorConfiguration {
    pub address: String,
}

/// The routing of one domain: its rules and backends.
#[derive(Debug, Clone)]
pub struct RoutingConfiguration {
    pub domain: String,
    pub rules: Vec<RoutingRulesConfiguration>,
    pub backends: Vec<BackendConfiguration>,
}

/// A routing rule: the request's path and query, matched exactly, by prefix or
/// by regular expression, optionally rewritten and sent to a named backend.
#[derive(Debug, Clone)]
pub struct RoutingRulesConfiguration {
    pub path: Option<String>,
    pub path_prefix: Option<String>,
    pub path_regexp: Option<String>,
    pub rewrite: Option<String>,
    pub backend: Option<String>,
    pub max_compressed_body_size: Option<u64>,
    pub max_decompressed_body_size: Option<u64>,
}

impl Default for RoutingRulesConfiguration {
    /// A rule that matches every path (prefix `/`).
    fn default() -> (r: RoutingRulesConfiguration)
        ensures
            r.path is None,
            r.path_prefix matches Some(p) && p@ == "/"@,
            r.path_regexp is None && r.rewrite is None && r.backend is None,
            r.max_compressed_body_size is None && r.max_decompressed_body_size is None,
    {
        RoutingRulesConfiguration {
            path: None,
            path_prefix: Some(owned("/")),
            path_regexp: None,
            rewrite: None,
            backend: None,
            max_compressed_body_size: None,
            max_decompressed_body_size: None,
        }
    }
}

#[derive(Debug, Clone)]
pub struct BackendConfiguration {
    pub name: String,
    pub default: bool,
    pub address: String,
    pub enable_ssl: bool,
}

#[derive(Debug, Clone)]
pub struct DestinationConfiguration {
    pub data_collection: Vec<DataCollectionConfiguration>,
}

impl Default for DestinationConfiguration {
    fn default() -> (r: DestinationConfiguration)
        ensures
            r.data_collection@.len() == 0,
    {
        DestinationConfiguration { data_collection: Vec::new() }
    }
}

#[derive(Debug, Clone)]
pub struct DataCollectionConfiguration {
    pub name: String,
    pub component: String,
    pub credentials: HashMap<String, String>,
}

/// The name of the visitor cookie and the key and initialisation vector that
/// encrypt it.
#[derive(Debug, Clone)]
pub struct SecurityConfiguration {
    pub cookie_name: String,
    pub aes_key: String,
    pub aes_iv: String,
}

impl Default for SecurityConfiguration {
    fn default() -> (r: SecurityConfiguration)
        ensures
            r.cookie_name@ == "edgee"@,
            r.aes_key@ == "_key.edgee.cloud"@,
            r.aes_iv@ == "__iv.edgee.cloud"@,
    {
        SecurityConfiguration {
            cookie_name: owned("edgee"),
            aes_key: owned("_key.edgee.cloud"),
            aes_iv: owned("__iv.edgee.cloud"),
        }
    }
}

/// Whether two routings of the configuration are for the same domain.
pub open spec fn has_duplicate_domains(routing: Seq<RoutingConfiguration>) -> bool {
    exists|i: int, j: int|
        0 <= i < j < routing.len() && #[trigger] routing[i].domain@ == #[trigger] routing[j].domain@
}

/// `format!("{:?}", s)`: the text as Rust writes a string for debugging, in
/// double quotes with its special characters escaped.
pub uninterp spec fn debug_quoted(s: Seq<char>) -> Seq<char>;

/// The domain of each routing, in order.
pub open spec fn domains_of(routing: Seq<RoutingConfiguration>) -> Seq<Seq<char>> {
    routing.map_values(|r: RoutingConfiguration| r.domain@)
}

/// The domains among the first `n` that occur more than once, each named
/// once, in the order in which they repeat.
pub open spec fn repeated_domains(ds: Seq<Seq<char>>, n: int) -> Seq<Seq<char>>
    decreases n,
{
    if n <= 0 {
        seq![]
    } else {
        let before = repeated_domains(ds, n - 1);
        let d = ds[n - 1];
        if ds.subrange(0, n - 1).contains(d) && !before.contains(d) {
            before.push(d)
        } else {
            before
        }
    }
}

/// A domain is named in `repeated_domains` exactly when it occurs twice
/// among the first `n`, and none is named twice.
pub proof fn lemma_repeated_domains(ds: Seq<Seq<char>>, n: int)
    requires
        0 <= n <= ds.len(),
    ensures
        forall|d: Seq<char>|
            #[trigger] repeated_domains(ds, n).contains(d) <==> exists|a: int, b: int|
                0 <= a < b < n && ds[a] == d && ds[b] == d,
        repeated_domains(ds, n).no_duplicates(),
    decreases n,
{
    if n > 0 {
        lemma_repeated_domains(ds, n - 1);
        let before = repeated_domains(ds, n - 1);
        let last = ds[n - 1];
        let prefix = ds.subrange(0, n - 1);
        assert forall|d: Seq<char>|
            #[trigger] repeated_domains(ds, n).contains(d) <==> exists|a: int, b: int|
                0 <= a < b < n && ds[a] == d && ds[b] == d by {
            if repeated_domains(ds, n).contains(d) {
                if before.contains(d) {
                    let (a, b) = choose|a: int, b: int| 0 <= a < b < n - 1 && ds[a] == d && ds[b] == d;
                    assert(0 <= a < b < n && ds[a] == d && ds[b] == d);
                } else {
                    let k = choose|k: int| 0 <= k < repeated_domains(ds, n).len() && repeated_domains(ds, n)[k] == d;
                    assert(repeated_domains(ds, n) == before.push(last));
                    assert(d == last);
                    let a = choose|a: int| 0 <= a < prefix.len() && prefix[a] == last;
                    assert(0 <= a < n - 1 < n && ds[a] == d && ds[n - 1] == d);
                }
            }
            if exists|a: int, b: int| 0 <= a < b < n && ds[a] == d && ds[b] == d {
                let (a, b) = choose|a: int, b: int| 0 <= a < b < n && ds[a] == d && ds[b] == d;
                if b < n - 1 {
                    assert(before.contains(d));
                    if repeated_domains(ds, n) == before.push(last) {
                        assert(before.push(last)[before.index_of(d)] == d);
                    }
                } else {
                    assert(prefix[a] == d);
                    assert(prefix.contains(d));
                    if !before.contains(d) {
                        assert(repeated_domains(ds, n) == before.push(last));
                        assert(before.push(last)[before.len() as int] == d);
                    }
                }
            }
        }
        if prefix.contains(last) && !before.contains(last) {
            assert forall|i: int, j: int|
                0 <= i < before.push(last).len() && 0 <= j < before.push(last).len() && i != j implies before.push(
                    last,
                )[i] != before.push(last)[j] by {
                if i < before.len() && j < before.len() {
                } else if i == before.len() as int {
                    assert(before[j] == before.push(last)[j]);
                } else {
                    assert(before[i] == before.push(last)[i]);
                }
            }
        }
    }
}

/// The quoted domains, separated by `, `.
pub open spec fn quoted_list(items: Seq<Seq<char>>) -> Seq<char>
    decreases items.len(),
{
    if items.len() == 0 {
        seq![]
    } else if items.len() == 1 {
        debug_quoted(items[0])
    } else {
        quoted_list(items.drop_last()) + ", "@ + debug_quoted(items.last())
    }
}

/// The message that names the repeated domains, written as a set.
pub open spec fn duplicates_message(repeated: Seq<Seq<char>>) -> Seq<char> {
    "duplicate domains found: {"@ + quoted_list(repeated) + "}"@
}

/// `format!("{:?}", s)`.
#[verifier::external_body]
fn debug_text(s: &str) -> (r: String)
    ensures
        r@ == debug_quoted(s@),
{
    format!("{:?}", s)
}

fn duplicates_text(items: &Vec<String>) -> (r: String)
    ensures
        r@ == duplicates_message(items@.map_values(|d: String| d@)),
{
    let ghost v = items@.map_values(|d: String| d@);
    let mut out = String::new();
    crate::text::push_str(&mut out, "duplicate domains found: {");
    let ghost start = out@;
    let mut i: usize = 0;
    while i < items.len()
        invariant
            i <= items@.len(),
            v == items@.map_values(|d: String| d@),
            out@ == start + quoted_list(v.subrange(0, i as int)),
        decreases items@.len() - i,
    {
        let q = debug_text(items[i].as_str());
        let ghost before = out@;
        if i > 0 {
            crate::text::push_str(&mut out, ", ");
        }
        crate::text::push_str(&mut out, q.as_str());
        proof {
            let w = v.subrange(0, i + 1);
            assert(w.drop_last() =~= v.subrange(0, i as int));
            assert(w.last() == v[i as int]);
            if i == 0 {
                assert(v.subrange(0, 0).len() == 0);
                assert(out@ =~= start + quoted_list(w));
            } else {
                assert(out@ =~= start + quoted_list(w));
            }
        }
        i = i + 1;
    }
    crate::text::push_str(&mut out, "}");
    proof {
        assert(v.subrange(0, v.len() as int) =~= v);
        assert(out@ =~= duplicates_message(v));
    }
    out
}

impl StaticConfiguration {
    /// Refuses a configuration with two routings for one domain; the message
    /// names each repeated domain once.
    pub fn validate_no_duplicate_domains(&self) -> (r: Result<(), String>)
        ensures
            r is Err <==> has_duplicate_domains(self.routing@),
            r matches Err(m) ==> m@ == duplicates_message(
                repeated_domains(domains_of(self.routing@), self.routing@.len() as int),
            ),
    {
        let n = self.routing.len();
        let ghost ds = domains_of(self.routing@);
        let mut duplicates: Vec<String> = Vec::new();
        let mut i: usize = 0;
        while i < n
            invariant
                n == self.routing@.len(),
                ds == domains_of(self.routing@),
                i <= n,
                (duplicates@.len() > 0) <==> exists|a: int, b: int|
                    0 <= a < b < i && #[trigger] self.routing@[a].domain@
                        == #[trigger] self.routing@[b].domain@,
                duplicates@.map_values(|d: String| d@) == repeated_domains(ds, i as int),
            decreases n - i,
        {
            let di = chars_of(self.routing[i].domain.as_str());
            let mut j: usize = 0;
            let mut seen = false;
            while j < i
                invariant
                    n == self.routing@.len(),
                    j <= i < n,
                    di@ == self.routing@[i as int].domain@,
                    seen <==> exists|a: int|
                        0 <= a < j && #[trigger] self.routing@[a].domain@ == self.routing@[i as int].domain@,
                decreases i - j,
            {
                let dj = chars_of(self.routing[j].domain.as_str());
                if same_chars(&dj, &di) {
                    seen = true;
                }
                j = j + 1;
            }
            let ghost dv = duplicates@.map_values(|d: String| d@);
            let mut listed = false;
            let mut k: usize = 0;
            while k < duplicates.len()
                invariant
                    k <= duplicates@.len(),
                    dv == duplicates@.map_values(|d: String| d@),
                    di@ == self.routing@[i as int].domain@,
                    listed <==> exists|m: int| 0 <= m < k && #[trigger] dv[m] == di@,
                decreases duplicates@.len() - k,
            {
                let dk = chars_of(duplicates[k].as_str());
                proof {
                    assert(dv[k as int] == duplicates@[k as int]@);
                }
                if same_chars(&dk, &di) {
                    listed = true;
                }
                k = k + 1;
            }
            proof {
                let prefix = ds.subrange(0, i as int);
                assert(ds[i as int] == di@);
                assert(seen ==> prefix.contains(di@)) by {
                    if seen {
                        let a = choose|a: int|
                            0 <= a < i && #[trigger] self.routing@[a].domain@ == self.routing@[i as int].domain@;
                        assert(prefix[a] == di@);
                    }
                }
                assert(prefix.contains(di@) ==> seen) by {
                    if prefix.contains(di@) {
                        let a = choose|a: int| 0 <= a < prefix.len() && prefix[a] == di@;
                        assert(self.routing@[a].domain@ == self.routing@[i as int].domain@);
                    }
                }
                assert(listed == dv.contains(di@));
            }
            if seen && !listed {
                duplicates.push(self.routing[i].domain.clone());
                proof {
                    assert(duplicates@.map_values(|d: String| d@) =~= dv.push(di@));
                }
            }
            proof {
                if seen {
                    assert(exists|a: int, b: int|
                        0 <= a < b < i + 1 && #[trigger] self.routing@[a].domain@
                            == #[trigger] self.routing@[b].domain@);
                }
            }
            i = i + 1;
        }
        if duplicates.len() > 0 {
            Err(duplicates_text(&duplicates))
        } else {
            Ok(())
        }
    }
}

impl Validate for StaticConfiguration {
    /// Every rule's message, or nothing when all pass.
    fn validate(&self) -> (r: Result<(), Vec<String>>)
        ensures
            r is Err <==> has_duplicate_domains(self.routing@),
            r matches Err(es) ==> es@.len() == 1,
    {
        let mut errors: Vec<String> = Vec::new();
        match self.validate_no_duplicate_domains() {
            Ok(()) => {},
            Err(e) => errors.push(e),
        }
        if errors.len() == 0 {
            Ok(())
        } else {
            Err(errors)
        }
    }
}

/// The configuration with its security settings: the default ones, with the
/// key and vector that the environment gives in their place.
pub fn with_security(config: StaticConfiguration, aes_key: Option<String>, aes_iv: Option<String>) -> (r:
    StaticConfiguration)
    ensures
        r.routing == config.routing,
        r.http == config.http,
        r.security.cookie_name@ == "edgee"@,
        r.security.aes_key@ == match aes_key {
            Some(k) => k@,
            None => "_key.edgee.cloud"@,
        },
        r.security.aes_iv@ == match aes_iv {
            Some(v) => v@,
            None => "__iv.edgee.cloud"@,
        },
{
    let mut c = config;
    c.security = SecurityConfiguration::default();
    match aes_key {
        Some(k) => c.security.aes_key = k,
        None => {},
    }
    match aes_iv {
        Some(v) => c.security.aes_iv = v,
        None => {},
    }
    c
}

/// The configuration of the tests: local addresses, no routing, the default
/// security settings.
pub fn init_test_config() -> (r: StaticConfiguration)
    ensures
        r.log matches Some(l) && l.level@ == "debug"@,
        r.http.address@ == "127.0.0.1:8080"@,
        r.http.force_https == false,
        r.https.address@ == "127.0.0.1:8443"@,
        r.https.cert@ == "cert.pem"@,
        r.https.key@ == "key.pem"@,
        r.monitor matches Some(m) && m.address@ == "127.0.0.1:9090"@,
        r.routing@.len() == 0,
        r.security.cookie_name@ == "edgee"@,
        r.security.aes_key@ == "_key.edgee.cloud"@,
        r.security.aes_iv@ == "__iv.edgee.cloud"@,
        r.destinations.data_collection@.len() == 0,
{
    StaticConfiguration {
        log: Some(LogConfiguration { level: owned("debug") }),
        http: HttpConfiguration { address: owned("127.0.0.1:8080"), force_https: false },
        https: HttpsConfiguration {
            address: owned("127.0.0.1:8443"),
            cert: owned("cert.pem"),
            key: owned("key.pem"),
        },
        monitor: Some(MonitorConfiguration { address: owned("127.0.0.1:9090") }),
        routing: Vec::new(),
        security: SecurityConfiguration::default(),
        destinations: DestinationConfiguration::default(),
    }
}

} // verus!
