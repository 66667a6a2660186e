//! The data the application works with: conferences, the service's replies,
//! the state of the interface, and the messages between the interface and
//! the worker that talks to the service.
use vstd::prelude::*;
use vstd::view::View as _;
use vstd::string::StringExecFns;
use crate::text::texts;

verus! {

broadcast use vstd::string::group_string_axioms;

/// The error body the service sends with a failed request.
#[derive(Debug)]
pub struct YandexErrorResponse {
    pub message: String,
    pub description: Option<String>,
}

/// Why a request to the service did not give what was asked for.
#[derive(Debug)]
pub enum ApiError {
    /// The service answered with an error body.
    Yandex(YandexErrorResponse),
    /// The request did not get through, or the answer was an error without a body.
    Network(String),
    /// The answer could not be read as the expected data.
    Deserialization(String),
}

/// The text shown to the user for an error.
pub open spec fn error_text(e: ApiError) -> Seq<char> {
    match e {
        ApiError::Yandex(y) => y.message@ + " - "@ + match y.description {
            Some(d) => d@,
            None => "No info"@,
        },
        ApiError::Network(s) => "Network: "@ + s@,
        ApiError::Deserialization(s) => "JSON: "@ + s@,
    }
}

impl ApiError {
    /// The text shown to the user for this error.
    pub fn to_message(&self) -> (out: String)
        ensures
            out@ == error_text(*self),
    {
        match self {
            ApiError::Yandex(y) => {
                let mut out = y.message.clone();
                out.append(" - ");
                match &y.description {
                    Some(d) => out.append(d.as_str()),
                    None => out.append("No info"),
                }
                out
            },
            ApiError::Network(s) => {
                let mut out = String::from_str("Network: ");
                out.append(s.as_str());
                out
            },
            ApiError::Deserialization(s) => {
                let mut out = String::from_str("JSON: ");
                out.append(s.as_str());
                out
            },
        }
    }
}

/// A conference that this application created and remembers.
#[derive(Clone)]
pub struct Conference {
    pub id: String,
    pub title: String,
    pub description: String,
    pub join_url: String,
    pub watch_url: String,
    pub cohosts: Vec<String>,
    pub created_at: String,
}

/// A conference as plain values.
pub struct ConferenceView {
    pub id: Seq<char>,
    pub title: Seq<char>,
    pub description: Seq<char>,
    pub join_url: Seq<char>,
    pub watch_url: Seq<char>,
    pub cohosts: Seq<Seq<char>>,
    pub created_at: Seq<char>,
}

impl vstd::view::View for Conference {
    type V = ConferenceView;

    open spec fn view(&self) -> ConferenceView {
        ConferenceView {
            id: self.id@,
            title: self.title@,
            description: self.description@,
            join_url: self.join_url@,
            watch_url: self.watch_url@,
            cohosts: texts(self.cohosts@),
            created_at: self.created_at@,
        }
    }
}

/// The conferences as plain values.
pub open spec fn conference_views(s: Seq<Conference>) -> Seq<ConferenceView> {
    s.map_values(|c: Conference| c@)
}

/// The signed-in user as the service describes them.
#[derive(Debug)]
pub struct YandexUser {
    pub login: String,
}

/// A cohost of a conference, named by e-mail.
#[derive(Debug, Clone)]
pub struct Cohost {
    pub email: String,
}

/// What is sent to the service to create or change a conference.
#[derive(Debug)]
pub struct ConferenceRequest {
    pub live_stream: LiveStreamRequest,
    pub cohosts: Vec<Cohost>,
}

/// The stream part of a [`ConferenceRequest`].
#[derive(Debug)]
pub struct LiveStreamRequest {
    pub title: String,
    pub description: String,
}

/// A conference as the service describes it.
#[derive(Debug)]
pub struct ConferenceDetails {
    pub id: String,
    pub join_url: String,
    pub live_stream: LiveStreamResponse,
}

/// The stream part of [`ConferenceDetails`].
#[derive(Debug)]
pub struct LiveStreamResponse {
    pub watch_url: String,
    pub title: Option<String>,
    pub description: Option<String>,
}

/// The cohosts of a conference as the service lists them.
#[derive(Debug)]
pub struct CohostListResponse {
    pub cohosts: Vec<Cohost>,
}

/// The e-mails of a list of cohosts.
pub open spec fn cohost_emails(s: Seq<Cohost>) -> Seq<Seq<char>> {
    s.map_values(|c: Cohost| c.email@)
}

/// The screen the interface shows.
#[derive(Clone, Copy, PartialEq, Eq, Structural, Debug)]
pub enum View {
    Login,
    Main,
    Edit { index: Option<usize>, is_fetching: bool },
}

impl Default for View {
    fn default() -> (v: View)
        ensures
            v == View::Login,
    {
        View::Login
    }
}

/// Everything the interface shows and edits.
pub struct AppState {
    pub current_view: View,
    pub conferences: Vec<Conference>,
    pub token: String,
    pub api_error: Option<String>,
    pub is_waiting: bool,
    pub edit_title: String,
    pub edit_description: String,
    pub edit_cohosts: String,
}

/// The state of the interface as plain values.
pub struct AppStateView {
    pub current_view: View,
    pub conferences: Seq<ConferenceView>,
    pub token: Seq<char>,
    pub api_error: Option<Seq<char>>,
    pub is_waiting: bool,
    pub edit_title: Seq<char>,
    pub edit_description: Seq<char>,
    pub edit_cohosts: Seq<char>,
}

/// An optional text as a plain value.
pub open spec fn opt_text(o: Option<String>) -> Option<Seq<char>> {
    match o {
        Some(s) => Some(s@),
        None => None,
    }
}

impl vstd::view::View for AppState {
    type V = AppStateView;

    open spec fn view(&self) -> AppStateView {
        AppStateView {
            current_view: self.current_view,
            conferences: conference_views(self.conferences@),
            token: self.token@,
            api_error: opt_text(self.api_error),
            is_waiting: self.is_waiting,
            edit_title: self.edit_title@,
            edit_description: self.edit_description@,
            edit_cohosts: self.edit_cohosts@,
        }
    }
}

/// The state the interface starts from before anything is loaded.
pub open spec fn empty_state() -> AppStateView {
    AppStateView {
        current_view: View::Login,
        conferences: Seq::empty(),
        token: Seq::empty(),
        api_error: None,
        is_waiting: false,
        edit_title: Seq::empty(),
        edit_description: Seq::empty(),
        edit_cohosts: Seq::empty(),
    }
}

impl Default for AppState {
    fn default() -> (s: AppState)
        ensures
            s@ == empty_state(),
    {
        let s = AppState {
            current_view: View::Login,
            conferences: Vec::new(),
            token: String::new(),
            api_error: None,
            is_waiting: false,
            edit_title: String::new(),
            edit_description: String::new(),
            edit_cohosts: String::new(),
        };
        assert(s@.conferences =~= Seq::<ConferenceView>::empty());
        s
    }
}

/// A request from the interface to the worker that talks to the service.
pub enum AppAction {
    Login { token: String },
    Create { title: String, desc: String, cohosts: Vec<String> },
    Update { id: String, index: usize, title: String, desc: String, cohosts: Vec<String> },
    FetchDetails { id: String, index: usize },
}

/// The worker's answer to an [`AppAction`].
pub enum ApiResponse {
    LoginSuccess { token: String, login: String },
    CreateSuccess(Conference),
    UpdateSuccess {
        index: usize,
        conference_partial: (String, ConferenceDetails, Vec<String>, String, String),
    },
    DetailsFetched { index: usize, details: ConferenceDetails, cohosts: Vec<Cohost> },
    Error(String),
}

} // verus!
