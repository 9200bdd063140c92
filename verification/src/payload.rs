//! The data-collection payload: what the page's data layer or a client event
//! says, completed by the proxy with what it knows of the request and the
//! visitor.
//!
//! Instants are kept as seconds and nanoseconds since the Unix epoch.
use vstd::prelude::*;
use std::collections::HashMap;

verus! {

/// An instant, as seconds and nanoseconds since the Unix epoch (UTC).
#[derive(Debug, Clone, Copy, PartialEq, Eq, Structural)]
pub struct Instant {
    pub secs: i64,
    pub nanos: u32,
}

impl Instant {
    /// The instant in nanoseconds since the epoch.
    pub open spec fn total_nanos(self) -> int {
        self.secs * 1_000_000_000 + self.nanos
    }
}

/// Kind of a data-collection event.
#[derive(Debug, Clone, Copy, PartialEq, Eq, Structural)]
pub enum EventType {
    Page,
    Identify,
    Track,
}

impl Default for EventType {
    fn default() -> (r: EventType)
        ensures
            r == EventType::Page,
    {
        EventType::Page
    }
}

/// The page being viewed.
#[derive(Debug, Clone)]
pub struct Page {
    pub name: Option<String>,
    pub category: Option<String>,
    pub keywords: Option<Vec<String>>,
    pub title: Option<String>,
    pub url: Option<String>,
    pub path: Option<String>,
    pub search: Option<String>,
    pub referrer: Option<String>,
    pub properties: Option<HashMap<String, serde_json::Value>>,
}

impl Default for Page {
    fn default() -> (r: Page)
        ensures
            r.name is None && r.category is None && r.keywords is None && r.title is None,
            r.url is None && r.path is None && r.search is None && r.referrer is None,
            r.properties is None,
    {
        Page {
            name: None,
            category: None,
            keywords: None,
            title: None,
            url: None,
            path: None,
            search: None,
            referrer: None,
            properties: None,
        }
    }
}

/// The visitor.
#[derive(Debug, Clone)]
pub struct User {
    pub user_id: Option<String>,
    pub anonymous_id: Option<String>,
    pub edgee_id: String,
    pub properties: Option<HashMap<String, serde_json::Value>>,
}

impl Default for User {
    fn default() -> (r: User)
        ensures
            r.user_id is None && r.anonymous_id is None && r.edgee_id@.len() == 0,
            r.properties is None,
    {
        User { user_id: None, anonymous_id: None, edgee_id: String::new(), properties: None }
    }
}

/// The campaign the visit comes from.
#[derive(Debug, Clone)]
pub struct Campaign {
    pub name: Option<String>,
    pub source: Option<String>,
    pub medium: Option<String>,
    pub term: Option<String>,
    pub content: Option<String>,
    pub creative_format: Option<String>,
    pub marketing_tactic: Option<String>,
}

impl Default for Campaign {
    fn default() -> (r: Campaign)
        ensures
            r.name is None && r.source is None && r.medium is None && r.term is None,
            r.content is None && r.creative_format is None && r.marketing_tactic is None,
    {
        Campaign {
            name: None,
            source: None,
            medium: None,
            term: None,
            content: None,
            creative_format: None,
            marketing_tactic: None,
        }
    }
}

/// The visitor's browser and device.
#[derive(Debug, Clone)]
pub struct Client {
    pub ip: Option<String>,
    pub x_forwarded_for: Option<String>,
    pub locale: Option<String>,
    pub timezone: Option<String>,
    pub user_agent: Option<String>,
    pub user_agent_architecture: Option<String>,
    pub user_agent_bitness: Option<String>,
    pub user_agent_full_version_list: Option<String>,
    pub user_agent_mobile: Option<String>,
    pub user_agent_model: Option<String>,
    pub os_name: Option<String>,
    pub os_version: Option<String>,
    pub screen_width: Option<i32>,
    pub screen_height: Option<i32>,
    pub screen_density: Option<i32>,
    pub continent: Option<String>,
    pub country_code: Option<String>,
    pub country_name: Option<String>,
    pub region: Option<String>,
    pub city: Option<String>,
}

impl Default for Client {
    fn default() -> (r: Client)
        ensures
            r.ip is None && r.x_forwarded_for is None && r.locale is None && r.timezone is None,
            r.user_agent is None && r.user_agent_architecture is None,
            r.user_agent_bitness is None && r.user_agent_full_version_list is None,
            r.user_agent_mobile is None && r.user_agent_model is None,
            r.os_name is None && r.os_version is None,
            r.screen_width is None && r.screen_height is None && r.screen_density is None,
            r.continent is None && r.country_code is None && r.country_name is None,
            r.region is None && r.city is None,
    {
        Client {
            ip: None,
            x_forwarded_for: None,
            locale: None,
            timezone: None,
            user_agent: None,
            user_agent_architecture: None,
            user_agent_bitness: None,
            user_agent_full_version_list: None,
            user_agent_mobile: None,
            user_agent_model: None,
            os_name: None,
            os_version: None,
            screen_width: None,
            screen_height: None,
            screen_density: None,
            continent: None,
            country_code: None,
            country_name: None,
            region: None,
            city: None,
        }
    }
}

/// The visitor's session, as the proxy's cookie records it.
#[derive(Debug, Clone)]
pub struct Session {
    pub session_id: String,
    pub previous_session_id: Option<String>,
    pub session_count: u32,
    pub session_start: bool,
    pub first_seen: Instant,
    pub last_seen: Instant,
}

/// What the events of a payload share.
#[derive(Debug, Clone)]
pub struct Context {
    pub page: Option<Page>,
    pub user: Option<User>,
    pub client: Option<Client>,
    pub campaign: Option<Campaign>,
    pub session: Option<Session>,
}

impl Default for Context {
    fn default() -> (r: Context)
        ensures
            r.page is None && r.user is None && r.client is None && r.campaign is None,
            r.session is None,
    {
        Context { page: None, user: None, client: None, campaign: None, session: None }
    }
}

/// One data-collection event.
#[derive(Debug, Clone)]
pub struct Event {
    pub uuid: String,
    pub timestamp: Instant,
    pub event_type: EventType,
    pub context: Option<Context>,
    pub components: Option<HashMap<String, bool>>,
}

/// The events of a payload and their shared context.
#[derive(Debug, Clone)]
pub struct DataCollection {
    pub events: Option<Vec<Event>>,
    pub context: Option<Context>,
    pub components: Option<HashMap<String, bool>>,
}

impl Default for DataCollection {
    fn default() -> (r: DataCollection)
        ensures
            r.events is None && r.context is None && r.components is None,
    {
        DataCollection { events: None, context: None, components: None }
    }
}

/// A data-collection payload.
#[derive(Debug, Clone)]
pub struct Payload {
    pub data_collection: Option<DataCollection>,
}

impl Default for Payload {
    fn default() -> (r: Payload)
        ensures
            r.data_collection is None,
    {
        Payload { data_collection: None }
    }
}

/// `b` holds the same properties as `a` (the same map, key by key).
pub open spec fn same_properties(
    a: Option<HashMap<String, serde_json::Value>>,
    b: Option<HashMap<String, serde_json::Value>>,
) -> bool {
    match a {
        None => b is None,
        Some(x) => b matches Some(y) && y@ == x@,
    }
}

/// `b` holds the same keywords as `a`, in the same order.
pub open spec fn same_keywords(a: Option<Vec<String>>, b: Option<Vec<String>>) -> bool {
    match a {
        None => b is None,
        Some(x) => b matches Some(y) && y@ == x@,
    }
}

/// `b` is a copy of the page `a`: every field the same.
pub open spec fn page_copied(a: Page, b: Page) -> bool {
    &&& b.name == a.name
    &&& b.category == a.category
    &&& same_keywords(a.keywords, b.keywords)
    &&& b.title == a.title
    &&& b.url == a.url
    &&& b.path == a.path
    &&& b.search == a.search
    &&& b.referrer == a.referrer
    &&& same_properties(a.properties, b.properties)
}

/// `b` is a copy of the user `a`: every field the same.
pub open spec fn user_copied(a: User, b: User) -> bool {
    &&& b.user_id == a.user_id
    &&& b.anonymous_id == a.anonymous_id
    &&& b.edgee_id == a.edgee_id
    &&& same_properties(a.properties, b.properties)
}

/// `b` is a copy of the context `a`: every part the same.
pub open spec fn context_copied(a: Context, b: Context) -> bool {
    &&& match a.page {
        None => b.page is None,
        Some(p) => b.page matches Some(q) && page_copied(p, q),
    }
    &&& match a.user {
        None => b.user is None,
        Some(u) => b.user matches Some(v) && user_copied(u, v),
    }
    &&& b.client == a.client
    &&& b.campaign == a.campaign
    &&& b.session == a.session
}

pub(crate) fn copy_text(o: &Option<String>) -> (r: Option<String>)
    ensures
        r == *o,
{
    match o {
        Some(s) => Some(s.clone()),
        None => None,
    }
}

fn copy_keywords(o: &Option<Vec<String>>) -> (r: Option<Vec<String>>)
    ensures
        same_keywords(*o, r),
{
    match o {
        None => None,
        Some(words) => {
            let mut out: Vec<String> = Vec::new();
            let mut i: usize = 0;
            while i < words.len()
                invariant
                    i <= words@.len(),
                    out@ == words@.subrange(0, i as int),
                decreases words@.len() - i,
            {
                out.push(words[i].clone());
                i = i + 1;
                proof {
                    assert(out@ =~= words@.subrange(0, i as int));
                }
            }
            proof {
                assert(words@.subrange(0, words@.len() as int) =~= words@);
            }
            Some(out)
        },
    }
}

fn copy_properties(o: &Option<HashMap<String, serde_json::Value>>) -> (r: Option<
    HashMap<String, serde_json::Value>,
>)
    ensures
        same_properties(*o, r),
{
    match o {
        None => None,
        Some(m) => Some(m.clone()),
    }
}

fn copy_page(p: &Page) -> (r: Page)
    ensures
        page_copied(*p, r),
{
    Page {
        name: copy_text(&p.name),
        category: copy_text(&p.category),
        keywords: copy_keywords(&p.keywords),
        title: copy_text(&p.title),
        url: copy_text(&p.url),
        path: copy_text(&p.path),
        search: copy_text(&p.search),
        referrer: copy_text(&p.referrer),
        properties: copy_properties(&p.properties),
    }
}

fn copy_user(u: &User) -> (r: User)
    ensures
        user_copied(*u, r),
{
    User {
        user_id: copy_text(&u.user_id),
        anonymous_id: copy_text(&u.anonymous_id),
        edgee_id: u.edgee_id.clone(),
        properties: copy_properties(&u.properties),
    }
}

fn copy_client(c: &Client) -> (r: Client)
    ensures
        r == *c,
{
    Client {
        ip: copy_text(&c.ip),
        x_forwarded_for: copy_text(&c.x_forwarded_for),
        locale: copy_text(&c.locale),
        timezone: copy_text(&c.timezone),
        user_agent: copy_text(&c.user_agent),
        user_agent_architecture: copy_text(&c.user_agent_architecture),
        user_agent_bitness: copy_text(&c.user_agent_bitness),
        user_agent_full_version_list: copy_text(&c.user_agent_full_version_list),
        user_agent_mobile: copy_text(&c.user_agent_mobile),
        user_agent_model: copy_text(&c.user_agent_model),
        os_name: copy_text(&c.os_name),
        os_version: copy_text(&c.os_version),
        screen_width: c.screen_width,
        screen_height: c.screen_height,
        screen_density: c.screen_density,
        continent: copy_text(&c.continent),
        country_code: copy_text(&c.country_code),
        country_name: copy_text(&c.country_name),
        region: copy_text(&c.region),
        city: copy_text(&c.city),
    }
}

fn copy_campaign(c: &Campaign) -> (r: Campaign)
    ensures
        r == *c,
{
    Campaign {
        name: copy_text(&c.name),
        source: copy_text(&c.source),
        medium: copy_text(&c.medium),
        term: copy_text(&c.term),
        content: copy_text(&c.content),
        creative_format: copy_text(&c.creative_format),
        marketing_tactic: copy_text(&c.marketing_tactic),
    }
}

fn copy_session(s: &Session) -> (r: Session)
    ensures
        r == *s,
{
    Session {
        session_id: s.session_id.clone(),
        previous_session_id: copy_text(&s.previous_session_id),
        session_count: s.session_count,
        session_start: s.session_start,
        first_seen: s.first_seen,
        last_seen: s.last_seen,
    }
}

/// A copy of the context, part by part.
pub(crate) fn copy_of_context(c: &Context) -> (r: Context)
    ensures
        context_copied(*c, r),
{
    Context {
        page: match &c.page {
            Some(p) => Some(copy_page(p)),
            None => None,
        },
        user: match &c.user {
            Some(u) => Some(copy_user(u)),
            None => None,
        },
        client: match &c.client {
            Some(x) => Some(copy_client(x)),
            None => None,
        },
        campaign: match &c.campaign {
            Some(x) => Some(copy_campaign(x)),
            None => None,
        },
        session: match &c.session {
            Some(x) => Some(copy_session(x)),
            None => None,
        },
    }
}

} // verus!
