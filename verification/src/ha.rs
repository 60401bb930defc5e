//! Home Assistant REST endpoints used by the daemon.
//!
//! The application owns the HTTP client and sends the requests; this module
//! holds the server address and token and decides the URLs, the
//! authorization header, and whether an answer counts as accepted.
use vstd::prelude::*;
use crate::text::push_str;

verus! {

/// Event type fired on Home Assistant's bus when a zone changes state.
pub fn zone_update_event() -> (e: &'static str)
    ensures
        e@ == "waterpi_sprinkler_update"@,
{
    "waterpi_sprinkler_update"
}

/// Event type fired when a physical switch changes state.
pub fn switch_update_event() -> (e: &'static str)
    ensures
        e@ == "waterpi_switch_update"@,
{
    "waterpi_switch_update"
}

/// Event type fired for each pulse of a meter.
pub fn meter_pulse_event() -> (e: &'static str)
    ensures
        e@ == "waterpi_meter_pulse"@,
{
    "waterpi_meter_pulse"
}

/// Time allowed for reading an entity's state, in seconds.
pub const STATE_TIMEOUT_SECS: u64 = 10;

/// Where Home Assistant listens and how to authenticate.
pub struct HaClient {
    base_url: String,
    token: String,
}

pub struct HaClientView {
    pub base_url: Seq<char>,
    pub token: Seq<char>,
}

impl View for HaClient {
    type V = HaClientView;

    closed spec fn view(&self) -> HaClientView {
        HaClientView { base_url: self.base_url@, token: self.token@ }
    }
}

/// `s` without its trailing slashes (`str::trim_end_matches('/')`).
pub open spec fn without_trailing_slashes(s: Seq<char>) -> Seq<char>
    decreases s.len(),
{
    if s.len() > 0 && s.last() == '/' {
        without_trailing_slashes(s.drop_last())
    } else {
        s
    }
}

/// Whether an HTTP status is a success (`StatusCode::is_success`: 200-299).
pub open spec fn is_success(status: u16) -> bool {
    200 <= status && status <= 299
}

impl HaClient {
    /// A client for the server at `url` (trailing slashes dropped).
    pub fn new(url: &str, token: &str) -> (c: HaClient)
        ensures
            c@.base_url == without_trailing_slashes(url@),
            c@.token == token@,
    {
        let mut n = url.unicode_len();
        proof {
            assert(url@.subrange(0, n as int) =~= url@);
        }
        while n > 0 && url.get_char(n - 1) == '/'
            invariant
                n <= url@.len(),
                without_trailing_slashes(url@) == without_trailing_slashes(url@.subrange(0, n as int)),
            decreases n,
        {
            proof {
                assert(url@.subrange(0, n as int).drop_last() =~= url@.subrange(0, n - 1));
            }
            n = n - 1;
        }
        proof {
            assert(url@.subrange(0, url@.len() as int) =~= url@);
        }
        let mut base_url = String::new();
        push_str(&mut base_url, url.substring_char(0, n));
        let mut t = String::new();
        push_str(&mut t, token);
        proof {
            assert(base_url@ =~= url@.subrange(0, n as int));
            assert(t@ =~= token@);
        }
        HaClient { base_url, token: t }
    }

    /// URL that fires an event of type `event_type`.
    pub fn event_url(&self, event_type: &str) -> (u: String)
        ensures
            u@ == self@.base_url + "/api/events/"@ + event_type@,
    {
        let mut u = String::new();
        push_str(&mut u, self.base_url.as_str());
        push_str(&mut u, "/api/events/");
        push_str(&mut u, event_type);
        proof {
            assert(u@ =~= self@.base_url + "/api/events/"@ + event_type@);
        }
        u
    }

    /// URL that reads the state of the entity `entity_id`.
    pub fn state_url(&self, entity_id: &str) -> (u: String)
        ensures
            u@ == self@.base_url + "/api/states/"@ + entity_id@,
    {
        let mut u = String::new();
        push_str(&mut u, self.base_url.as_str());
        push_str(&mut u, "/api/states/");
        push_str(&mut u, entity_id);
        proof {
            assert(u@ =~= self@.base_url + "/api/states/"@ + entity_id@);
        }
        u
    }

    /// Value of the `Authorization` header.
    pub fn authorization(&self) -> (h: String)
        ensures
            h@ == "Bearer "@ + self@.token,
    {
        let mut h = String::new();
        push_str(&mut h, "Bearer ");
        push_str(&mut h, self.token.as_str());
        proof {
            assert(h@ =~= "Bearer "@ + self@.token);
        }
        h
    }
}

/// Whether Home Assistant accepted an event, given the HTTP status of its
/// answer.
pub fn event_accepted(status: u16) -> (ok: bool)
    ensures
        ok == is_success(status),
{
    200 <= status && status <= 299
}

/// A base URL built by `HaClient::new` never ends with a slash, so the
/// request paths never hold a doubled slash at the join.
pub proof fn base_url_has_no_trailing_slash(url: Seq<char>)
    ensures
        without_trailing_slashes(url).len() == 0 || without_trailing_slashes(url).last() != '/',
    decreases url.len(),
{
    if url.len() > 0 && url.last() == '/' {
        base_url_has_no_trailing_slash(url.drop_last());
    }
}

} // verus!
