//! The requests made to the Telemost service and the reading of its answers.
//! Sending the requests and decoding JSON is left to the caller; this module
//! says what is sent and what an answer means.
use vstd::prelude::*;
use vstd::string::StringExecFns;
use crate::models::{ApiError, Cohost, ConferenceRequest, LiveStreamRequest, YandexErrorResponse};
use crate::text::texts;

verus! {

broadcast use vstd::string::group_string_axioms;

/// The root of the Telemost API.
pub const TELEMOST_BASE_URL: &'static str = "https://cloud-api.yandex.net/v1/telemost-api";

/// Where the signed-in user's profile is read.
pub const USER_INFO_URL: &'static str = "https://login.yandex.ru/info";

/// The HTTP method of a request.
#[derive(Clone, Copy, PartialEq, Eq, Structural, Debug)]
pub enum Method {
    Get,
    Post,
    Patch,
}

/// A request to send: method, address, the value of the `Authorization`
/// header, and the JSON body if there is one.
#[derive(Debug)]
pub struct HttpRequest {
    pub method: Method,
    pub url: String,
    pub authorization: String,
    pub payload: Option<ConferenceRequest>,
}

/// The body of a request to create or change a conference, as plain values:
/// title, description, and the cohosts' e-mails.
pub open spec fn payload_of(p: ConferenceRequest) -> (Seq<char>, Seq<char>, Seq<Seq<char>>) {
    (
        p.live_stream.title@,
        p.live_stream.description@,
        p.cohosts@.map_values(|c: Cohost| c.email@),
    )
}

/// The value of the `Authorization` header for `token`.
pub open spec fn authorization_for(token: Seq<char>) -> Seq<char> {
    "OAuth "@ + token
}

/// The address of the list of conferences.
pub open spec fn conferences_url() -> Seq<char> {
    TELEMOST_BASE_URL@ + "/conferences"@
}

/// The address of conference `id`.
pub open spec fn conference_url(id: Seq<char>) -> Seq<char> {
    TELEMOST_BASE_URL@ + "/conferences/"@ + id
}

/// The address of the cohosts of conference `id`.
pub open spec fn cohosts_url(id: Seq<char>) -> Seq<char> {
    TELEMOST_BASE_URL@ + "/conferences/"@ + id + "/cohosts"@
}

/// The request is `method` on `url` with `token`, and carries no body.
pub open spec fn is_plain_request(r: HttpRequest, method: Method, url: Seq<char>, token: Seq<char>) -> bool {
    &&& r.method == method
    &&& r.url@ == url
    &&& r.authorization@ == authorization_for(token)
    &&& r.payload is None
}

/// The request is `method` on `url` with `token`, and carries the given
/// title, description and cohosts.
pub open spec fn is_payload_request(
    r: HttpRequest,
    method: Method,
    url: Seq<char>,
    token: Seq<char>,
    title: Seq<char>,
    desc: Seq<char>,
    cohosts: Seq<Seq<char>>,
) -> bool {
    &&& r.method == method
    &&& r.url@ == url
    &&& r.authorization@ == authorization_for(token)
    &&& r.payload matches Some(p) && payload_of(p) == (title, desc, cohosts)
}

/// A status in 200..=299 means success.
pub open spec fn is_success(status: u16) -> bool {
    200 <= status < 300
}

/// Whether `status` is a success status (200 to 299).
pub fn is_success_status(status: u16) -> (b: bool)
    ensures
        b == is_success(status),
{
    200 <= status && status < 300
}

/// The value of the `Authorization` header for `token`.
pub fn authorization_header(token: &str) -> (out: String)
    ensures
        out@ == authorization_for(token@),
{
    let mut out = String::from_str("OAuth ");
    out.append(token);
    out
}

/// The body of a request to create or change a conference.
pub fn conference_request(title: &str, desc: &str, cohosts: Vec<String>) -> (req: ConferenceRequest)
    ensures
        payload_of(req) == (title@, desc@, texts(cohosts@)),
{
    let mut list: Vec<Cohost> = Vec::new();
    let mut cohosts = cohosts;
    let ghost all = texts(cohosts@);
    let mut k: usize = 0;
    let n = cohosts.len();
    assert(all.take(0) =~= Seq::<Seq<char>>::empty());
    while cohosts.len() > 0
        invariant
            k + cohosts.len() == n,
            n == all.len(),
            texts(cohosts@) == all.skip(k as int),
            list@.map_values(|c: Cohost| c.email@) == all.take(k as int),
        decreases cohosts.len(),
    {
        let ghost before = cohosts@;
        let email = cohosts.remove(0);
        assert(email@ == all[k as int]) by {
            assert(texts(before)[0] == all.skip(k as int)[0]);
        }
        assert(texts(cohosts@) =~= all.skip(k + 1)) by {
            assert(all.skip(k as int).drop_first() =~= all.skip(k + 1));
        }
        let ghost prev = list@;
        list.push(Cohost { email });
        assert(list@.map_values(|c: Cohost| c.email@) =~= prev.map_values(|c: Cohost| c.email@).push(
            all[k as int],
        ));
        assert(all.take(k + 1) =~= all.take(k as int).push(all[k as int]));
        k = k + 1;
    }
    assert(all.take(n as int) =~= all);
    let title = String::from_str(title);
    let description = String::from_str(desc);
    ConferenceRequest { live_stream: LiveStreamRequest { title, description }, cohosts: list }
}

/// The request for the signed-in user's profile.
pub fn user_info_request(token: &str) -> (r: HttpRequest)
    ensures
        is_plain_request(r, Method::Get, USER_INFO_URL@, token@),
{
    HttpRequest {
        method: Method::Get,
        url: String::from_str(USER_INFO_URL),
        authorization: authorization_header(token),
        payload: None,
    }
}

/// The request that creates a conference.
pub fn create_conference_request(token: &str, title: &str, desc: &str, cohosts: Vec<String>) -> (r:
    HttpRequest)
    ensures
        is_payload_request(
            r,
            Method::Post,
            conferences_url(),
            token@,
            title@,
            desc@,
            texts(cohosts@),
        ),
{
    let mut url = String::from_str(TELEMOST_BASE_URL);
    url.append("/conferences");
    HttpRequest {
        method: Method::Post,
        url,
        authorization: authorization_header(token),
        payload: Some(conference_request(title, desc, cohosts)),
    }
}

/// The request that reads conference `id`.
pub fn read_conference_request(token: &str, id: &str) -> (r: HttpRequest)
    ensures
        is_plain_request(r, Method::Get, conference_url(id@), token@),
{
    let mut url = String::from_str(TELEMOST_BASE_URL);
    url.append("/conferences/");
    url.append(id);
    HttpRequest {
        method: Method::Get,
        url,
        authorization: authorization_header(token),
        payload: None,
    }
}

/// The request that reads the cohosts of conference `id`.
pub fn read_cohosts_request(token: &str, id: &str) -> (r: HttpRequest)
    ensures
        is_plain_request(r, Method::Get, cohosts_url(id@), token@),
{
    let mut url = String::from_str(TELEMOST_BASE_URL);
    url.append("/conferences/");
    url.append(id);
    url.append("/cohosts");
    HttpRequest {
        method: Method::Get,
        url,
        authorization: authorization_header(token),
        payload: None,
    }
}

/// The request that changes conference `id`.
pub fn update_conference_request(
    token: &str,
    id: &str,
    title: &str,
    desc: &str,
    cohosts: Vec<String>,
) -> (r: HttpRequest)
    ensures
        is_payload_request(
            r,
            Method::Patch,
            conference_url(id@),
            token@,
            title@,
            desc@,
            texts(cohosts@),
        ),
{
    let mut url = String::from_str(TELEMOST_BASE_URL);
    url.append("/conferences/");
    url.append(id);
    HttpRequest {
        method: Method::Patch,
        url,
        authorization: authorization_header(token),
        payload: Some(conference_request(title, desc, cohosts)),
    }
}

/// The body of an answer, decoded as the caller could: the expected data (or
/// why it could not be decoded) for a success status, the service's error body
/// (if it could be decoded) otherwise.
pub enum AnswerBody<T> {
    Expected(Result<T, String>),
    Failure(Option<YandexErrorResponse>),
}

/// The body was decoded the way the status asks for.
pub open spec fn body_fits<T>(status: u16, body: AnswerBody<T>) -> bool {
    is_success(status) <==> body is Expected
}

/// What the answer with `status` (shown as `status_text`) and `body` means.
pub fn settle_answer<T>(status: u16, status_text: String, body: AnswerBody<T>) -> (r: Result<
    T,
    ApiError,
>)
    requires
        body_fits(status, body),
    ensures
        match body {
            AnswerBody::Expected(Ok(v)) => r == Ok::<T, ApiError>(v),
            AnswerBody::Expected(Err(e)) => r == Err::<T, ApiError>(ApiError::Deserialization(e)),
            AnswerBody::Failure(Some(y)) => r == Err::<T, ApiError>(ApiError::Yandex(y)),
            AnswerBody::Failure(None) => r matches Err(ApiError::Network(m)) && m@
                == "API returned status "@ + status_text@,
        },
{
    match body {
        AnswerBody::Expected(Ok(v)) => Ok(v),
        AnswerBody::Expected(Err(e)) => Err(ApiError::Deserialization(e)),
        AnswerBody::Failure(Some(y)) => Err(ApiError::Yandex(y)),
        AnswerBody::Failure(None) => {
            let mut m = String::from_str("API returned status ");
            m.append(status_text.as_str());
            Err(ApiError::Network(m))
        },
    }
}

} // verus!
