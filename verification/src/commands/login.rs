//! The dashboard login: the addresses it uses, the code it is handed, and
//! what each answer to a poll means.
use vstd::prelude::*;

use crate::text::str_equals;

verus! {

/// What the command line keeps once a user has authorized it.
pub struct KrystaConfig {
    pub user_id: String,
    pub dashboard: String,
}

/// Where the command line asks the dashboard for an authorization code.
pub open spec fn auth_start_url_view(dashboard: Seq<char>) -> Seq<char> {
    dashboard + "/api/auth/cli"@
}

/// The page where the user authorizes the code.
pub open spec fn authorize_url_view(dashboard: Seq<char>, code: Seq<char>) -> Seq<char> {
    dashboard + "/auth/cli?code="@ + code
}

/// Where the command line asks whether the code was authorized.
pub open spec fn poll_url_view(dashboard: Seq<char>, code: Seq<char>) -> Seq<char> {
    dashboard + "/api/auth/cli?code="@ + code
}

/// The number of polls after which the login gives up.
pub const MAX_POLLS: u32 = 90;

/// What the command line does after an answer to a poll.
pub enum PollDecision {
    /// Not authorized yet: poll again.
    Wait,
    /// Authorized, for this user.
    Authorized(String),
    /// The login failed, for this reason.
    Fail(String),
}

/// What an answer with the status `status` (and the user `user_id`) means.
pub open spec fn poll_outcome(status: Option<Seq<char>>, user_id: Option<Seq<char>>) -> PollView {
    match status {
        Some(s) => if s == "pending"@ {
            PollView::Wait
        } else if s == "authorized"@ {
            PollView::Authorized(
                match user_id {
                    Some(u) => u,
                    None => seq![],
                },
            )
        } else if s == "expired"@ {
            PollView::Fail("Auth code expired. Please run krysta login again."@)
        } else {
            PollView::Fail("Unexpected response from dashboard."@)
        },
        None => PollView::Fail("Unexpected response from dashboard."@),
    }
}

/// A poll decision as text.
pub enum PollView {
    Wait,
    Authorized(Seq<char>),
    Fail(Seq<char>),
}

impl PollDecision {
    /// The decision with its texts as character sequences.
    pub open spec fn view_as(&self) -> PollView {
        match self {
            PollDecision::Wait => PollView::Wait,
            PollDecision::Authorized(u) => PollView::Authorized(u@),
            PollDecision::Fail(m) => PollView::Fail(m@),
        }
    }
}

fn joined3(a: &str, b: &str, c: &str) -> (s: String)
    ensures
        s@ == a@ + b@ + c@,
{
    let mut s = a.to_owned();
    s.append(b);
    s.append(c);
    s
}

/// Where to ask the dashboard `dashboard` for an authorization code.
pub fn auth_start_url(dashboard: &str) -> (r: String)
    ensures
        r@ == auth_start_url_view(dashboard@),
{
    let mut s = dashboard.to_owned();
    s.append("/api/auth/cli");
    s
}

/// The page where the user authorizes `code`.
pub fn authorize_url(dashboard: &str, code: &str) -> (r: String)
    ensures
        r@ == authorize_url_view(dashboard@, code@),
{
    joined3(dashboard, "/auth/cli?code=", code)
}

/// Where to ask whether `code` was authorized.
pub fn poll_url(dashboard: &str, code: &str) -> (r: String)
    ensures
        r@ == poll_url_view(dashboard@, code@),
{
    joined3(dashboard, "/api/auth/cli?code=", code)
}

/// The authorization code the dashboard handed out: its `code` field, read
/// as empty where it is missing or not a string; an empty code is an error.
pub fn auth_code(code: Option<String>) -> (r: Result<String, String>)
    ensures
        match code {
            Some(c) if c@.len() > 0 => r matches Ok(v) && v@ == c@,
            _ => r matches Err(e) && e@ == "Failed to get auth code from dashboard"@,
        },
{
    match code {
        Some(c) => {
            if c.as_str().unicode_len() > 0 {
                Ok(c)
            } else {
                Err("Failed to get auth code from dashboard".to_owned())
            }
        },
        None => Err("Failed to get auth code from dashboard".to_owned()),
    }
}

/// Counts one more poll: the new number of polls, or the time-out once it
/// would pass `MAX_POLLS`.
pub fn next_poll(attempts: u32) -> (r: Result<u32, String>)
    ensures
        attempts + 1 > MAX_POLLS ==> (r matches Err(e) && e@
            == "Authorization timed out. Please try again."@),
        attempts + 1 <= MAX_POLLS ==> (r matches Ok(n) && n == attempts + 1),
{
    if attempts >= MAX_POLLS {
        Err("Authorization timed out. Please try again.".to_owned())
    } else {
        Ok(attempts + 1)
    }
}

/// What the answer to a poll means: `status` and `user_id` are its
/// `status` and `userId` fields, where they are strings.
pub fn poll_decision(status: Option<&str>, user_id: Option<&str>) -> (r: PollDecision)
    ensures
        r.view_as() == poll_outcome(
            match status {
                Some(s) => Some(s@),
                None => None,
            },
            match user_id {
                Some(u) => Some(u@),
                None => None,
            },
        ),
{
    match status {
        Some(s) => {
            if str_equals(s, "pending") {
                PollDecision::Wait
            } else if str_equals(s, "authorized") {
                match user_id {
                    Some(u) => PollDecision::Authorized(u.to_owned()),
                    None => {
                        let empty = String::new();
                        assert(empty@ =~= Seq::<char>::empty());
                        PollDecision::Authorized(empty)
                    },
                }
            } else if str_equals(s, "expired") {
                PollDecision::Fail("Auth code expired. Please run krysta login again.".to_owned())
            } else {
                PollDecision::Fail("Unexpected response from dashboard.".to_owned())
            }
        },
        None => PollDecision::Fail("Unexpected response from dashboard.".to_owned()),
    }
}

impl KrystaConfig {
    /// The configuration kept for `user_id` on `dashboard`.
    pub fn new(user_id: String, dashboard: &str) -> (c: Self)
        ensures
            c.user_id@ == user_id@,
            c.dashboard@ == dashboard@,
    {
        KrystaConfig { user_id: user_id, dashboard: dashboard.to_owned() }
    }
}

} // verus!
