//! How the interface state changes: when it is restored at start, when the
//! worker answers, and when the user acts on a screen.
use vstd::prelude::*;
use vstd::view::View as _;
use crate::listing::{is_newest_first, newest_first, sort_newest_first, lemma_newest_first_is_ordered};
use crate::models::{ApiResponse, AppAction, AppState, AppStateView, Cohost, Conference,
    ConferenceDetails, ConferenceView, View, cohost_emails, conference_views, empty_state, opt_text};
use crate::text::{comma_list, joined, split_comma_list, join_texts, texts, clean_entries,
    lemma_comma_list_of_joined};

verus! {

broadcast use vstd::string::group_string_axioms;

/// What has to be written to storage after a change of the state.
pub enum StorageWrite {
    /// The access token, to the credential store.
    Token(String),
    /// The login of the signed-in user.
    Login(String),
    /// The whole list of conferences as it now stands in the state.
    Conferences,
}

/// A [`StorageWrite`] as a plain value.
pub enum StorageWriteView {
    Token(Seq<char>),
    Login(Seq<char>),
    Conferences,
}

impl vstd::view::View for StorageWrite {
    type V = StorageWriteView;

    open spec fn view(&self) -> StorageWriteView {
        match self {
            StorageWrite::Token(t) => StorageWriteView::Token(t@),
            StorageWrite::Login(l) => StorageWriteView::Login(l@),
            StorageWrite::Conferences => StorageWriteView::Conferences,
        }
    }
}

/// The writes as plain values.
pub open spec fn write_views(s: Seq<StorageWrite>) -> Seq<StorageWriteView> {
    s.map_values(|w: StorageWrite| w@)
}

/// An [`AppAction`] as plain values.
pub enum AppActionView {
    Login { token: Seq<char> },
    Create { title: Seq<char>, desc: Seq<char>, cohosts: Seq<Seq<char>> },
    Update {
        id: Seq<char>,
        index: usize,
        title: Seq<char>,
        desc: Seq<char>,
        cohosts: Seq<Seq<char>>,
    },
    FetchDetails { id: Seq<char>, index: usize },
}

impl vstd::view::View for AppAction {
    type V = AppActionView;

    open spec fn view(&self) -> AppActionView {
        match self {
            AppAction::Login { token } => AppActionView::Login { token: token@ },
            AppAction::Create { title, desc, cohosts } => AppActionView::Create {
                title: title@,
                desc: desc@,
                cohosts: texts(cohosts@),
            },
            AppAction::Update { id, index, title, desc, cohosts } => AppActionView::Update {
                id: id@,
                index: *index,
                title: title@,
                desc: desc@,
                cohosts: texts(cohosts@),
            },
            AppAction::FetchDetails { id, index } => AppActionView::FetchDetails {
                id: id@,
                index: *index,
            },
        }
    }
}

// ---------------------------------------------------------------------------
// Specifications
// ---------------------------------------------------------------------------

/// The state at start, from what storage gave back: the conferences newest
/// first; signed in (on the main screen, with the stored token) only when both
/// a token and a login were stored.
pub open spec fn restored_state(
    conferences: Seq<ConferenceView>,
    stored_token: Option<Seq<char>>,
    has_login: bool,
) -> AppStateView {
    let signed_in = stored_token is Some && has_login;
    AppStateView {
        current_view: if signed_in { View::Main } else { View::Login },
        conferences: newest_first(conferences),
        token: if signed_in { stored_token->0 } else { Seq::empty() },
        ..empty_state()
    }
}

/// The text of `o` when it is there and not empty, else `fallback`.
pub open spec fn nonblank_or(o: Option<String>, fallback: Seq<char>) -> Seq<char> {
    match o {
        Some(t) => if t@.len() > 0 {
            t@
        } else {
            fallback
        },
        None => fallback,
    }
}

/// A conference after the service confirmed a change: the service's values
/// where it gave them (a title or description only when not empty), the
/// values sent otherwise, and the old creation time.
pub open spec fn revised_conference(
    old: ConferenceView,
    id: String,
    d: ConferenceDetails,
    cohosts: Vec<String>,
    title: String,
    desc: String,
) -> ConferenceView {
    ConferenceView {
        id: id@,
        title: nonblank_or(d.live_stream.title, title@),
        description: nonblank_or(d.live_stream.description, desc@),
        join_url: d.join_url@,
        watch_url: d.live_stream.watch_url@,
        cohosts: texts(cohosts@),
        created_at: old.created_at,
    }
}

/// The separator between the cohosts in the editor.
pub open spec fn cohost_separator() -> Seq<char> {
    seq![',', ' ']
}

/// The state after the worker's answer `r`.
pub open spec fn respond(m: AppStateView, r: ApiResponse) -> AppStateView {
    let m = AppStateView { is_waiting: false, ..m };
    match r {
        ApiResponse::LoginSuccess { token, login } => AppStateView {
            token: token@,
            current_view: View::Main,
            ..m
        },
        ApiResponse::CreateSuccess(c) => AppStateView {
            conferences: newest_first(m.conferences.push(c@)),
            current_view: View::Main,
            ..m
        },
        ApiResponse::UpdateSuccess { index, conference_partial } => {
            let (id, d, cohosts, title, desc) = conference_partial;
            AppStateView {
                conferences: m.conferences.update(
                    index as int,
                    revised_conference(m.conferences[index as int], id, d, cohosts, title, desc),
                ),
                current_view: View::Main,
                ..m
            }
        },
        ApiResponse::DetailsFetched { index, details, cohosts } => {
            let known = index < m.conferences.len();
            let emails = cohost_emails(cohosts@);
            AppStateView {
                edit_title: match details.live_stream.title {
                    Some(t) if t@.len() > 0 => t@,
                    _ => if known {
                        m.conferences[index as int].title
                    } else {
                        m.edit_title
                    },
                },
                edit_description: match details.live_stream.description {
                    Some(t) if t@.len() > 0 => t@,
                    _ => if known {
                        m.conferences[index as int].description
                    } else {
                        m.edit_description
                    },
                },
                edit_cohosts: joined(emails, cohost_separator()),
                conferences: if known {
                    m.conferences.update(
                        index as int,
                        ConferenceView { cohosts: emails, ..m.conferences[index as int] },
                    )
                } else {
                    m.conferences
                },
                current_view: match m.current_view {
                    View::Edit { index: i, is_fetching: _ } => View::Edit {
                        index: i,
                        is_fetching: false,
                    },
                    v => v,
                },
                ..m
            }
        },
        ApiResponse::Error(e) => AppStateView { api_error: Some(e@), ..m },
    }
}

/// What must be written to storage after the worker's answer `r` to a state
/// with `count` conferences.
pub open spec fn writes_after(count: nat, r: ApiResponse) -> Seq<StorageWriteView> {
    match r {
        ApiResponse::LoginSuccess { token, login } => seq![
            StorageWriteView::Token(token@),
            StorageWriteView::Login(login@),
        ],
        ApiResponse::CreateSuccess(_) => seq![StorageWriteView::Conferences],
        ApiResponse::UpdateSuccess { .. } => seq![StorageWriteView::Conferences],
        ApiResponse::DetailsFetched { index, .. } => if index < count {
            seq![StorageWriteView::Conferences]
        } else {
            Seq::empty()
        },
        ApiResponse::Error(_) => Seq::empty(),
    }
}

/// The worker's answer can be applied: a confirmed change names a conference
/// that is in the list.
pub open spec fn response_fits(m: AppStateView, r: ApiResponse) -> bool {
    match r {
        ApiResponse::UpdateSuccess { index, .. } => index < m.conferences.len(),
        _ => true,
    }
}

// ---------------------------------------------------------------------------
// Laws
// ---------------------------------------------------------------------------

/// Law: whatever the worker answers, a list that was newest first stays newest first.
pub proof fn lemma_respond_keeps_order(m: AppStateView, r: ApiResponse)
    requires
        is_newest_first(m.conferences),
        response_fits(m, r),
    ensures
        is_newest_first(respond(m, r).conferences),
{
    let n = respond(m, r).conferences;
    match r {
        ApiResponse::CreateSuccess(c) => {
            lemma_newest_first_is_ordered(m.conferences.push(c@));
        },
        ApiResponse::UpdateSuccess { index, .. } => {
            assert forall|i: int, j: int| 0 <= i < j < n.len() implies !crate::listing::created_before(
                #[trigger] n[i],
                #[trigger] n[j],
            ) by {
                assert(n[i].created_at == m.conferences[i].created_at);
                assert(n[j].created_at == m.conferences[j].created_at);
                assert(!crate::listing::created_before(m.conferences[i], m.conferences[j]));
            }
        },
        ApiResponse::DetailsFetched { index, .. } => {
            assert forall|i: int, j: int| 0 <= i < j < n.len() implies !crate::listing::created_before(
                #[trigger] n[i],
                #[trigger] n[j],
            ) by {
                assert(n[i].created_at == m.conferences[i].created_at);
                assert(n[j].created_at == m.conferences[j].created_at);
                assert(!crate::listing::created_before(m.conferences[i], m.conferences[j]));
            }
        },
        _ => {},
    }
}

/// Law: after a successful sign-in the state keeps the token that was checked,
/// and that same token is the first thing written to storage.
pub proof fn lemma_login_keeps_checked_token(m: AppStateView, token: String, login: String)
    ensures
        respond(m, ApiResponse::LoginSuccess { token, login }).token == token@,
        respond(m, ApiResponse::LoginSuccess { token, login }).current_view == View::Main,
        writes_after(m.conferences.len(), ApiResponse::LoginSuccess { token, login })[0]
            == StorageWriteView::Token(token@),
{
}

/// Law: a created conference is added to the list, and nothing else is added
/// or lost.
pub proof fn lemma_create_adds_one(m: AppStateView, c: Conference)
    ensures
        respond(m, ApiResponse::CreateSuccess(c)).conferences.to_multiset()
            == m.conferences.to_multiset().insert(c@),
        respond(m, ApiResponse::CreateSuccess(c)).conferences.len() == m.conferences.len() + 1,
{
    broadcast use vstd::seq_lib::to_multiset_build;

    crate::listing::lemma_newest_first_keeps_all(m.conferences.push(c@));
}

/// Law: a confirmed change of a conference neither changes when it was created
/// nor how many conferences there are, and leaves the other conferences alone.
pub proof fn lemma_update_keeps_creation_time(
    m: AppStateView,
    index: usize,
    partial: (String, ConferenceDetails, Vec<String>, String, String),
)
    requires
        index < m.conferences.len(),
    ensures
        ({
            let n = respond(m, ApiResponse::UpdateSuccess { index, conference_partial: partial }).conferences;
            &&& n.len() == m.conferences.len()
            &&& n[index as int].created_at == m.conferences[index as int].created_at
            &&& forall|i: int| 0 <= i < n.len() && i != index ==> n[i] == m.conferences[i]
        }),
{
}

/// Law: a confirmed change stores, for the changed conference, the service's
/// title and description where the service gave a non-empty one, and otherwise
/// the title and description that were sent (never the ones stored before);
/// the id, addresses and cohosts are the ones of the change.
pub proof fn lemma_update_stores_sent_or_service_text(
    m: AppStateView,
    index: usize,
    id: String,
    d: ConferenceDetails,
    cohosts: Vec<String>,
    title: String,
    desc: String,
)
    requires
        index < m.conferences.len(),
    ensures
        ({
            let c = respond(
                m,
                ApiResponse::UpdateSuccess {
                    index,
                    conference_partial: (id, d, cohosts, title, desc),
                },
            ).conferences[index as int];
            &&& (d.live_stream.title is None || d.live_stream.title->0@.len() == 0) ==> c.title
                == title@
            &&& (d.live_stream.title matches Some(t) && t@.len() > 0) ==> c.title
                == d.live_stream.title->0@
            &&& (d.live_stream.description is None || d.live_stream.description->0@.len() == 0)
                ==> c.description == desc@
            &&& (d.live_stream.description matches Some(t) && t@.len() > 0) ==> c.description
                == d.live_stream.description->0@
            &&& c.id == id@
            &&& c.join_url == d.join_url@
            &&& c.watch_url == d.live_stream.watch_url@
            &&& c.cohosts == texts(cohosts@)
        }),
{
}

/// Law: opening a conference fills the editor's title and description with the
/// service's ones where they are not empty; otherwise with the ones stored for
/// that conference when it is in the list; otherwise the editor keeps what it had.
pub proof fn lemma_fetched_details_fill_editor(
    m: AppStateView,
    index: usize,
    details: ConferenceDetails,
    cohosts: Vec<Cohost>,
)
    ensures
        ({
            let n = respond(m, ApiResponse::DetailsFetched { index, details, cohosts });
            let title = details.live_stream.title;
            let desc = details.live_stream.description;
            &&& (title matches Some(t) && t@.len() > 0) ==> n.edit_title == title->0@
            &&& (title is None || title->0@.len() == 0) && index < m.conferences.len()
                ==> n.edit_title == m.conferences[index as int].title
            &&& (title is None || title->0@.len() == 0) && index >= m.conferences.len()
                ==> n.edit_title == m.edit_title
            &&& (desc matches Some(t) && t@.len() > 0) ==> n.edit_description == desc->0@
            &&& (desc is None || desc->0@.len() == 0) && index < m.conferences.len()
                ==> n.edit_description == m.conferences[index as int].description
            &&& (desc is None || desc->0@.len() == 0) && index >= m.conferences.len()
                ==> n.edit_description == m.edit_description
        }),
{
}

/// Law: opening a conference that is in the list gives that conference, and
/// only that one, the fetched e-mails as cohosts; its other fields and every
/// other conference stay as they were. For an index outside the list the list
/// is unchanged.
pub proof fn lemma_fetched_cohosts_go_to_that_conference(
    m: AppStateView,
    index: usize,
    details: ConferenceDetails,
    cohosts: Vec<Cohost>,
)
    ensures
        ({
            let n = respond(m, ApiResponse::DetailsFetched { index, details, cohosts }).conferences;
            let o = m.conferences;
            &&& n.len() == o.len()
            &&& forall|i: int| 0 <= i < n.len() && i != index ==> n[i] == o[i]
            &&& index < o.len() ==> {
                &&& n[index as int].cohosts == cohost_emails(cohosts@)
                &&& n[index as int].id == o[index as int].id
                &&& n[index as int].title == o[index as int].title
                &&& n[index as int].description == o[index as int].description
                &&& n[index as int].join_url == o[index as int].join_url
                &&& n[index as int].watch_url == o[index as int].watch_url
                &&& n[index as int].created_at == o[index as int].created_at
            }
            &&& index >= o.len() ==> n == o
        }),
{
}

/// Law: an error answer is shown, and changes nothing but the error shown and
/// the end of the wait.
pub proof fn lemma_error_only_shows(m: AppStateView, e: String)
    ensures
        respond(m, ApiResponse::Error(e)) == (AppStateView {
            api_error: Some(e@),
            is_waiting: false,
            ..m
        }),
        writes_after(m.conferences.len(), ApiResponse::Error(e)).len() == 0,
{
}

/// The state after the answers `rs`, handled one at a time in order.
pub open spec fn respond_all(m: AppStateView, rs: Seq<ApiResponse>) -> AppStateView
    decreases rs.len(),
{
    if rs.len() == 0 {
        m
    } else {
        respond(respond_all(m, rs.drop_last()), rs.last())
    }
}

/// The storage writes after the answers `rs`, handled one at a time in order.
pub open spec fn writes_all(m: AppStateView, rs: Seq<ApiResponse>) -> Seq<StorageWriteView>
    decreases rs.len(),
{
    if rs.len() == 0 {
        Seq::empty()
    } else {
        writes_all(m, rs.drop_last()) + writes_after(
            respond_all(m, rs.drop_last()).conferences.len(),
            rs.last(),
        )
    }
}

/// Law: answers handled in one go give the same state and the same storage
/// writes as the same answers handled in two goes, the first part and then the
/// rest (so it does not matter how the queued answers are split between frames).
pub proof fn lemma_respond_all_in_parts(m: AppStateView, a: Seq<ApiResponse>, b: Seq<ApiResponse>)
    ensures
        respond_all(m, a + b) == respond_all(respond_all(m, a), b),
        writes_all(m, a + b) == writes_all(m, a) + writes_all(respond_all(m, a), b),
    decreases b.len(),
{
    if b.len() == 0 {
        assert(a + b =~= a);
        assert(writes_all(m, a) + Seq::<StorageWriteView>::empty() =~= writes_all(m, a));
    } else {
        lemma_respond_all_in_parts(m, a, b.drop_last());
        assert((a + b).drop_last() =~= a + b.drop_last());
        assert((a + b).last() == b.last());
        let mid = respond_all(m, a);
        assert(writes_all(m, a) + writes_all(mid, b.drop_last()) + writes_after(
            respond_all(mid, b.drop_last()).conferences.len(),
            b.last(),
        ) =~= writes_all(m, a) + (writes_all(mid, b.drop_last()) + writes_after(
            respond_all(mid, b.drop_last()).conferences.len(),
            b.last(),
        )));
    }
}

/// Law: one answer handled on its own is one step of handling answers in order.
pub proof fn lemma_respond_all_single(m: AppStateView, r: ApiResponse)
    ensures
        respond_all(m, seq![r]) == respond(m, r),
        writes_all(m, seq![r]) == writes_after(m.conferences.len(), r),
{
    let e = Seq::<ApiResponse>::empty();
    assert(seq![r].drop_last() =~= e);
    assert(seq![r].last() == r);
    assert(respond_all(m, e) == m);
    assert(writes_all(m, e) == Seq::<StorageWriteView>::empty());
    assert(Seq::<StorageWriteView>::empty() + writes_after(m.conferences.len(), r) =~= writes_after(
        m.conferences.len(),
        r,
    ));
}

/// Law: the cohosts fetched into the editor come back as the same list when the
/// editor is submitted unchanged.
pub proof fn lemma_fetched_cohosts_round_trip(
    m: AppStateView,
    index: usize,
    details: ConferenceDetails,
    cohosts: Vec<Cohost>,
)
    requires
        clean_entries(cohost_emails(cohosts@)),
    ensures
        comma_list(
            respond(m, ApiResponse::DetailsFetched { index, details, cohosts }).edit_cohosts,
        ) == cohost_emails(cohosts@),
{
    lemma_comma_list_of_joined(cohost_emails(cohosts@));
}

// ---------------------------------------------------------------------------
// Executable transitions
// ---------------------------------------------------------------------------

/// The text of `o` when it is there and not empty, else `fallback`.
fn nonblank_or_exec(o: Option<String>, fallback: String) -> (r: String)
    ensures
        r@ == nonblank_or(o, fallback@),
{
    match o {
        Some(t) => if t.as_str().is_empty() {
            fallback
        } else {
            t
        },
        None => fallback,
    }
}

/// The e-mails of the cohosts, in order.
fn emails_of(cohosts: &Vec<Cohost>) -> (out: Vec<String>)
    ensures
        texts(out@) == cohost_emails(cohosts@),
{
    let mut out: Vec<String> = Vec::new();
    let mut i: usize = 0;
    while i < cohosts.len()
        invariant
            i <= cohosts.len(),
            texts(out@) == cohost_emails(cohosts@).take(i as int),
        decreases cohosts.len() - i,
    {
        let e = cohosts[i].email.clone();
        assert(e@ == cohost_emails(cohosts@)[i as int]);
        let ghost prev = out@;
        out.push(e);
        assert(texts(out@) =~= texts(prev).push(e@));
        assert(texts(out@) =~= cohost_emails(cohosts@).take(i + 1));
        i = i + 1;
    }
    assert(cohost_emails(cohosts@).take(cohosts.len() as int) =~= cohost_emails(cohosts@));
    out
}

impl AppState {
    /// The state at start, from the stored conferences, token and login.
    pub fn restore(
        conferences: Vec<Conference>,
        stored_token: Option<String>,
        stored_login: Option<String>,
    ) -> (s: AppState)
        ensures
            s@ == restored_state(
                conference_views(conferences@),
                opt_text(stored_token),
                stored_login is Some,
            ),
            is_newest_first(s@.conferences),
    {
        let ghost given = conference_views(conferences@);
        let mut state = AppState::default();
        let mut conferences = conferences;
        sort_newest_first(&mut conferences);
        state.conferences = conferences;
        if let (Some(token), Some(_)) = (stored_token, stored_login) {
            state.token = token;
            state.current_view = View::Main;
        }
        proof {
            lemma_newest_first_is_ordered(given);
        }
        state
    }

    /// Takes in the worker's answer; returns what has to be written to storage,
    /// in order.
    pub fn apply_response(&mut self, res: ApiResponse) -> (writes: Vec<StorageWrite>)
        requires
            response_fits(old(self)@, res),
        ensures
            final(self)@ == respond(old(self)@, res),
            write_views(writes@) == writes_after(old(self)@.conferences.len(), res),
            !final(self)@.is_waiting,
            is_newest_first(old(self)@.conferences) ==> is_newest_first(final(self)@.conferences),
    {
        proof {
            if is_newest_first(self@.conferences) {
                lemma_respond_keeps_order(self@, res);
            }
        }
        let ghost m = AppStateView { is_waiting: false, ..self@ };
        self.is_waiting = false;
        let mut writes: Vec<StorageWrite> = Vec::new();
        match res {
            ApiResponse::LoginSuccess { token, login } => {
                self.token = token.clone();
                writes.push(StorageWrite::Token(token));
                writes.push(StorageWrite::Login(login));
                self.current_view = View::Main;
            },
            ApiResponse::CreateSuccess(c) => {
                self.conferences.push(c);
                assert(conference_views(self.conferences@) =~= m.conferences.push(c@));
                sort_newest_first(&mut self.conferences);
                writes.push(StorageWrite::Conferences);
                self.current_view = View::Main;
            },
            ApiResponse::UpdateSuccess { index, conference_partial } => {
                let (id, d, cohosts, orig_title, orig_desc) = conference_partial;
                let old_conf = self.conferences.remove(index);
                let title = nonblank_or_exec(d.live_stream.title, orig_title);
                let description = nonblank_or_exec(d.live_stream.description, orig_desc);
                let updated = Conference {
                    id,
                    title,
                    description,
                    join_url: d.join_url,
                    watch_url: d.live_stream.watch_url,
                    cohosts,
                    created_at: old_conf.created_at,
                };
                self.conferences.insert(index, updated);
                assert(conference_views(self.conferences@) =~= m.conferences.update(
                    index as int,
                    updated@,
                ));
                writes.push(StorageWrite::Conferences);
                self.current_view = View::Main;
            },
            ApiResponse::DetailsFetched { details, cohosts, index } => {
                let known = index < self.conferences.len();
                match details.live_stream.title {
                    Some(t) if !t.as_str().is_empty() => {
                        self.edit_title = t;
                    },
                    _ => {
                        if known {
                            self.edit_title = self.conferences[index].title.clone();
                        }
                    },
                }
                match details.live_stream.description {
                    Some(d) if !d.as_str().is_empty() => {
                        self.edit_description = d;
                    },
                    _ => {
                        if known {
                            self.edit_description = self.conferences[index].description.clone();
                        }
                    },
                }
                let emails = emails_of(&cohosts);
                proof {
                    reveal_strlit(", ");
                }
                assert(", "@ =~= cohost_separator());
                self.edit_cohosts = join_texts(&emails, ", ");
                if known {
                    let old_conf = self.conferences.remove(index);
                    let updated = Conference { cohosts: emails, ..old_conf };
                    self.conferences.insert(index, updated);
                    assert(conference_views(self.conferences@) =~= m.conferences.update(
                        index as int,
                        updated@,
                    ));
                    writes.push(StorageWrite::Conferences);
                }
                match self.current_view {
                    View::Edit { index: i, is_fetching: _ } => {
                        self.current_view = View::Edit { index: i, is_fetching: false };
                    },
                    _ => {},
                }
            },
            ApiResponse::Error(e) => {
                self.api_error = Some(e);
            },
        }
        assert(write_views(writes@) =~= writes_after(m.conferences.len(), res));
        writes
    }

    /// The user asks to sign in with the token typed in: the state waits for
    /// the answer, and the worker is asked to check the token.
    pub fn begin_login(&mut self) -> (action: AppAction)
        ensures
            final(self)@ == (AppStateView { is_waiting: true, ..old(self)@ }),
            action@ == (AppActionView::Login { token: old(self)@.token }),
    {
        self.is_waiting = true;
        AppAction::Login { token: self.token.clone() }
    }

    /// The user signs out: the login screen is shown again.
    pub fn logout(&mut self)
        ensures
            final(self)@ == (AppStateView { current_view: View::Login, ..old(self)@ }),
    {
        self.current_view = View::Login;
    }

    /// The user goes back to the list of conferences.
    pub fn show_main(&mut self)
        ensures
            final(self)@ == (AppStateView { current_view: View::Main, ..old(self)@ }),
    {
        self.current_view = View::Main;
    }

    /// The user starts a new conference: an empty editor, no error shown.
    pub fn begin_create(&mut self)
        ensures
            final(self)@ == (AppStateView {
                api_error: None,
                edit_title: Seq::empty(),
                edit_description: Seq::empty(),
                edit_cohosts: Seq::empty(),
                current_view: View::Edit { index: None, is_fetching: false },
                ..old(self)@
            }),
    {
        self.api_error = None;
        self.edit_title = String::new();
        self.edit_description = String::new();
        self.edit_cohosts = String::new();
        self.current_view = View::Edit { index: None, is_fetching: false };
    }

    /// The user opens conference `index` for editing: the editor waits for the
    /// service's details, and the worker is asked for them.
    pub fn begin_edit(&mut self, index: usize) -> (action: AppAction)
        requires
            index < old(self)@.conferences.len(),
        ensures
            final(self)@ == (AppStateView {
                api_error: None,
                current_view: View::Edit { index: Some(index), is_fetching: true },
                ..old(self)@
            }),
            action@ == (AppActionView::FetchDetails {
                id: old(self)@.conferences[index as int].id,
                index,
            }),
    {
        self.api_error = None;
        self.current_view = View::Edit { index: Some(index), is_fetching: true };
        AppAction::FetchDetails { id: self.conferences[index].id.clone(), index }
    }

    /// The user deletes conference `index` from the list.
    pub fn delete_conference(&mut self, index: usize)
        requires
            index < old(self)@.conferences.len(),
        ensures
            final(self)@ == (AppStateView {
                conferences: old(self)@.conferences.remove(index as int),
                ..old(self)@
            }),
            is_newest_first(old(self)@.conferences) ==> is_newest_first(final(self)@.conferences),
    {
        let ghost before = self@.conferences;
        self.conferences.remove(index);
        assert(self@.conferences =~= before.remove(index as int));
        proof {
            let after = before.remove(index as int);
            if is_newest_first(before) {
                assert forall|i: int, j: int| 0 <= i < j < after.len() implies !crate::listing::created_before(
                    #[trigger] after[i],
                    #[trigger] after[j],
                ) by {
                    let bi = if i < index { i } else { i + 1 };
                    let bj = if j < index { j } else { j + 1 };
                    assert(after[i] == before[bi] && after[j] == before[bj]);
                }
            }
        }
    }

    /// The user submits the editor: the state waits for the answer, and the
    /// worker is asked to create a conference (`index` is `None`) or to change
    /// conference `index`, with the cohosts read from the comma separated list.
    pub fn submit_editor(&mut self, index: Option<usize>) -> (action: AppAction)
        requires
            index matches Some(i) ==> i < old(self)@.conferences.len(),
        ensures
            final(self)@ == (AppStateView { is_waiting: true, ..old(self)@ }),
            action@ == (match index {
                Some(i) => AppActionView::Update {
                    id: old(self)@.conferences[i as int].id,
                    index: i,
                    title: old(self)@.edit_title,
                    desc: old(self)@.edit_description,
                    cohosts: comma_list(old(self)@.edit_cohosts),
                },
                None => AppActionView::Create {
                    title: old(self)@.edit_title,
                    desc: old(self)@.edit_description,
                    cohosts: comma_list(old(self)@.edit_cohosts),
                },
            }),
    {
        self.is_waiting = true;
        let cohosts = split_comma_list(self.edit_cohosts.as_str());
        match index {
            Some(i) => AppAction::Update {
                id: self.conferences[i].id.clone(),
                index: i,
                title: self.edit_title.clone(),
                desc: self.edit_description.clone(),
                cohosts,
            },
            None => AppAction::Create {
                title: self.edit_title.clone(),
                desc: self.edit_description.clone(),
                cohosts,
            },
        }
    }
}

} // verus!
