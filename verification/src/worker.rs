//! The worker that talks to the service on behalf of the interface: which
//! token it uses, and how it turns the service's answers into messages for the
//! interface.
use vstd::prelude::*;
use vstd::view::View as _;
use crate::models::{ApiError, ApiResponse, Conference, ConferenceDetails, ConferenceView, YandexUser,
    error_text};
use crate::stamp::{format_timestamp, timestamp_text};
use crate::api::{HttpRequest, Method, USER_INFO_URL, conferences_url, conference_url, cohosts_url,
    is_plain_request, is_payload_request, user_info_request, create_conference_request,
    update_conference_request, read_conference_request, read_cohosts_request};
use crate::models::AppAction;
use crate::state::AppActionView;
use crate::text::texts;
use chrono::{Datelike, Timelike};

verus! {

/// The local date and time now: year, month, day, hour and minute.
///
/// Calls `chrono::Local::now()` and reads its `year`, `month`, `day`, `hour`
/// and `minute`. Which time comes back depends on the clock and the time
/// zone; what is stated is the range that chrono documents for each part.
#[verifier::external_body]
fn local_now_parts() -> (r: (i32, u32, u32, u32, u32))
    ensures
        -262144 <= r.0 <= 262143,
        1 <= r.1 <= 12,
        1 <= r.2 <= 31,
        r.3 <= 23,
        r.4 <= 59,
{
    let now = chrono::Local::now();
    (now.year(), now.month(), now.day(), now.hour(), now.minute())
}

/// `t` is a time as `YYYY-MM-DD HH:MM` of some valid date and time.
pub open spec fn is_time_stamp(t: Seq<char>) -> bool {
    exists|year: int, month: nat, day: nat, hour: nat, minute: nat|
        {
            &&& 1 <= month <= 12
            &&& 1 <= day <= 31
            &&& hour <= 23
            &&& minute <= 59
            &&& t == #[trigger] timestamp_text(year, month, day, hour, minute)
        }
}

/// The conference the service created, as kept in the list: the service's
/// title and description when it gave them, the requested ones otherwise.
pub open spec fn created_conference(
    d: ConferenceDetails,
    title: Seq<char>,
    desc: Seq<char>,
    cohosts: Seq<Seq<char>>,
    created_at: Seq<char>,
) -> ConferenceView {
    ConferenceView {
        id: d.id@,
        title: match d.live_stream.title {
            Some(t) => t@,
            None => title,
        },
        description: match d.live_stream.description {
            Some(t) => t@,
            None => desc,
        },
        join_url: d.join_url@,
        watch_url: d.live_stream.watch_url@,
        cohosts,
        created_at,
    }
}

/// The message for the interface that reports `e`.
pub open spec fn reports_error(r: ApiResponse, e: ApiError) -> bool {
    r matches ApiResponse::Error(m) && m@ == error_text(e)
}

/// The conference the service created from `d`, kept with the time `created_at`.
pub fn conference_from_details(
    d: ConferenceDetails,
    title: String,
    desc: String,
    cohosts: Vec<String>,
    created_at: String,
) -> (c: Conference)
    ensures
        c@ == created_conference(d, title@, desc@, texts(cohosts@), created_at@),
{
    Conference {
        id: d.id,
        title: match d.live_stream.title {
            Some(t) => t,
            None => title,
        },
        description: match d.live_stream.description {
            Some(t) => t,
            None => desc,
        },
        join_url: d.join_url,
        watch_url: d.live_stream.watch_url,
        cohosts,
        created_at,
    }
}

/// A copy of the strings.
fn copy_strings(v: &Vec<String>) -> (out: Vec<String>)
    ensures
        texts(out@) == texts(v@),
{
    let mut out: Vec<String> = Vec::new();
    let mut i: usize = 0;
    while i < v.len()
        invariant
            i <= v.len(),
            texts(out@) == texts(v@).take(i as int),
        decreases v.len() - i,
    {
        let ghost prev = out@;
        out.push(v[i].clone());
        assert(texts(out@) =~= texts(prev).push(v@[i as int]@));
        assert(texts(v@).take(i + 1) =~= texts(v@).take(i as int).push(v@[i as int]@));
        i = i + 1;
    }
    assert(texts(v@).take(v.len() as int) =~= texts(v@));
    out
}

/// The requests that carry out `action` for a worker holding `token`: a
/// sign-in checks the action's own token; the other requests carry `token`.
pub open spec fn requests_fit(r: Seq<HttpRequest>, action: AppActionView, token: Seq<char>) -> bool {
    match action {
        AppActionView::Login { token: t } => r.len() == 1 && is_plain_request(
            r[0],
            Method::Get,
            USER_INFO_URL@,
            t,
        ),
        AppActionView::Create { title, desc, cohosts } => r.len() == 1 && is_payload_request(
            r[0],
            Method::Post,
            conferences_url(),
            token,
            title,
            desc,
            cohosts,
        ),
        AppActionView::Update { id, index: _, title, desc, cohosts } => r.len() == 1
            && is_payload_request(
            r[0],
            Method::Patch,
            conference_url(id),
            token,
            title,
            desc,
            cohosts,
        ),
        AppActionView::FetchDetails { id, index: _ } => {
            &&& r.len() == 2
            &&& is_plain_request(r[0], Method::Get, conference_url(id), token)
            &&& is_plain_request(r[1], Method::Get, cohosts_url(id), token)
        },
    }
}

/// The worker's own state: the token it sends with requests.
pub struct Worker {
    pub active_token: String,
}

impl Worker {
    /// A worker that starts with the stored token, or an empty one.
    pub fn new(stored_token: Option<String>) -> (w: Worker)
        ensures
            w.active_token@ == (match stored_token {
                Some(t) => t@,
                None => Seq::<char>::empty(),
            }),
    {
        match stored_token {
            Some(t) => Worker { active_token: t },
            None => Worker { active_token: String::new() },
        }
    }

    /// The requests to send, in order, to carry out `action`.
    pub fn requests_for(&self, action: &AppAction) -> (r: Vec<HttpRequest>)
        ensures
            requests_fit(r@, action@, self.active_token@),
    {
        let mut r: Vec<HttpRequest> = Vec::new();
        match action {
            AppAction::Login { token } => {
                r.push(user_info_request(token.as_str()));
            },
            AppAction::Create { title, desc, cohosts } => {
                r.push(create_conference_request(
                    self.active_token.as_str(),
                    title.as_str(),
                    desc.as_str(),
                    copy_strings(cohosts),
                ));
            },
            AppAction::Update { id, index: _, title, desc, cohosts } => {
                r.push(update_conference_request(
                    self.active_token.as_str(),
                    id.as_str(),
                    title.as_str(),
                    desc.as_str(),
                    copy_strings(cohosts),
                ));
            },
            AppAction::FetchDetails { id, index: _ } => {
                r.push(read_conference_request(self.active_token.as_str(), id.as_str()));
                r.push(read_cohosts_request(self.active_token.as_str(), id.as_str()));
            },
        }
        r
    }

    /// The service answered the check of `token`: on success the worker takes
    /// the token for its next requests and the interface learns the login.
    pub fn finish_login(&mut self, token: String, result: Result<YandexUser, ApiError>) -> (r:
        ApiResponse)
        ensures
            match result {
                Ok(user) => {
                    &&& final(self).active_token@ == token@
                    &&& r matches ApiResponse::LoginSuccess { token: t, login } && t@ == token@
                        && login@ == user.login@
                },
                Err(e) => {
                    &&& final(self).active_token@ == old(self).active_token@
                    &&& reports_error(r, e)
                },
            },
    {
        match result {
            Ok(user) => {
                self.active_token = token.clone();
                ApiResponse::LoginSuccess { token, login: user.login }
            },
            Err(e) => ApiResponse::Error(e.to_message()),
        }
    }

    /// The service answered the creation of a conference: on success the
    /// interface gets the new conference, stamped with the local time now as
    /// `YYYY-MM-DD HH:MM`.
    pub fn finish_create(
        &self,
        title: String,
        desc: String,
        cohosts: Vec<String>,
        result: Result<ConferenceDetails, ApiError>,
    ) -> (r: ApiResponse)
        ensures
            match result {
                Ok(d) => r matches ApiResponse::CreateSuccess(c) && c@ == created_conference(
                    d,
                    title@,
                    desc@,
                    texts(cohosts@),
                    c@.created_at,
                ) && is_time_stamp(c@.created_at),
                Err(e) => reports_error(r, e),
            },
    {
        match result {
            Ok(d) => {
                let (year, month, day, hour, minute) = local_now_parts();
                let created_at = format_timestamp(year, month, day, hour, minute);
                ApiResponse::CreateSuccess(conference_from_details(d, title, desc, cohosts, created_at))
            },
            Err(e) => ApiResponse::Error(e.to_message()),
        }
    }

    /// The service answered the change of conference `id` (at `index` in the
    /// list): on success the interface gets the service's details with what was sent.
    pub fn finish_update(
        &self,
        id: String,
        index: usize,
        title: String,
        desc: String,
        cohosts: Vec<String>,
        result: Result<ConferenceDetails, ApiError>,
    ) -> (r: ApiResponse)
        ensures
            match result {
                Ok(d) => r == ApiResponse::UpdateSuccess {
                    index,
                    conference_partial: (id, d, cohosts, title, desc),
                },
                Err(e) => reports_error(r, e),
            },
    {
        match result {
            Ok(d) => ApiResponse::UpdateSuccess {
                index,
                conference_partial: (id, d, cohosts, title, desc),
            },
            Err(e) => ApiResponse::Error(e.to_message()),
        }
    }

    /// The service answered the two reads for conference `index`: both
    /// succeeded, or the first failure is reported.
    pub fn finish_fetch(
        &self,
        index: usize,
        details: Result<ConferenceDetails, ApiError>,
        cohosts: Result<Vec<crate::models::Cohost>, ApiError>,
    ) -> (r: ApiResponse)
        ensures
            match (details, cohosts) {
                (Ok(d), Ok(c)) => r == ApiResponse::DetailsFetched { index, details: d, cohosts: c },
                (Err(e), _) => reports_error(r, e),
                (Ok(_), Err(e)) => reports_error(r, e),
            },
    {
        match (details, cohosts) {
            (Ok(d), Ok(c)) => ApiResponse::DetailsFetched { index, details: d, cohosts: c },
            (Err(e), _) => ApiResponse::Error(e.to_message()),
            (_, Err(e)) => ApiResponse::Error(e.to_message()),
        }
    }
}

} // verus!
