use chrono::NaiveDate;
use telemost::stamp::format_timestamp;
use telemost::api::{
    authorization_header, conference_request, create_conference_request, is_success_status,
    read_cohosts_request, read_conference_request, settle_answer, update_conference_request,
    user_info_request, AnswerBody, Method, TELEMOST_BASE_URL, USER_INFO_URL,
};
use telemost::listing::sort_newest_first;
use telemost::models::{
    ApiError, ApiResponse, AppAction, AppState, Cohost, Conference, ConferenceDetails,
    LiveStreamResponse, View, YandexErrorResponse, YandexUser,
};
use telemost::state::StorageWrite;
use telemost::storage::{Storage, ACCOUNT, APP_NAME, SERVICE};
use telemost::text::{is_white_space_char, join_texts, split_comma_list, text_precedes};
use telemost::worker::{conference_from_details, Worker};

fn s(x: &str) -> String {
    x.to_string()
}

fn conf(id: &str, created_at: &str) -> Conference {
    Conference {
        id: s(id),
        title: format!("title {}", id),
        description: format!("desc {}", id),
        join_url: format!("https://join/{}", id),
        watch_url: format!("https://watch/{}", id),
        cohosts: vec![],
        created_at: s(created_at),
    }
}

fn ids(v: &[Conference]) -> Vec<String> {
    v.iter().map(|c| c.id.clone()).collect()
}

fn details(id: &str, title: Option<&str>, desc: Option<&str>) -> ConferenceDetails {
    ConferenceDetails {
        id: s(id),
        join_url: format!("https://join/{}", id),
        live_stream: LiveStreamResponse {
            watch_url: format!("https://watch/{}", id),
            title: title.map(s),
            description: desc.map(s),
        },
    }
}

fn emails(list: &[&str]) -> Vec<Cohost> {
    list.iter().map(|e| Cohost { email: s(e) }).collect()
}

// ---------------------------------------------------------------- text

#[test]
fn split_comma_list_trims_and_drops_empty() {
    let out = split_comma_list(" a@x.ru, b@y.ru ,, ,c@z.ru,");
    assert_eq!(out, vec![s("a@x.ru"), s("b@y.ru"), s("c@z.ru")]);
}

#[test]
fn split_comma_list_of_empty_text_is_empty() {
    assert!(split_comma_list("").is_empty());
    assert!(split_comma_list("  \t\n ").is_empty());
    assert!(split_comma_list(",,,").is_empty());
}

#[test]
fn split_comma_list_keeps_inner_spaces_and_unicode() {
    let out = split_comma_list("\u{3000}имя фамилия\u{a0}, x y");
    assert_eq!(out, vec![s("имя фамилия"), s("x y")]);
}

#[test]
fn split_comma_list_matches_std() {
    for input in ["a,b", " , a ,", "a", "\u{2003}a\u{2003},\u{85}b", "x,,y, ,z "] {
        let expected: Vec<String> = input
            .split(',')
            .map(|p| p.trim().to_string())
            .filter(|p| !p.is_empty())
            .collect();
        assert_eq!(split_comma_list(input), expected, "input {:?}", input);
    }
}

#[test]
fn join_texts_matches_std() {
    let parts = vec![s("a@x.ru"), s("b@y.ru"), s("c")];
    assert_eq!(join_texts(&parts, ", "), parts.join(", "));
    assert_eq!(join_texts(&vec![], ", "), "");
    assert_eq!(join_texts(&vec![s("only")], ", "), "only");
}

#[test]
fn joined_list_reads_back_the_same() {
    let parts = vec![s("a@x.ru"), s("b@y.ru"), s("c@z.ru")];
    let text = join_texts(&parts, ", ");
    assert_eq!(split_comma_list(&text), parts);
}

#[test]
fn reading_a_list_again_gives_the_same_entries() {
    let first = split_comma_list("  a@b.c ,,\t d e@f.g , \u{2003}h@i.j\u{2003},");
    assert_eq!(first, vec![s("a@b.c"), s("d e@f.g"), s("h@i.j")]);
    for entry in &first {
        assert!(!entry.is_empty() && !entry.contains(','));
        assert_eq!(entry.trim(), entry);
    }
    let again = split_comma_list(&join_texts(&first, ", "));
    assert_eq!(again, first);
}

#[test]
fn white_space_matches_std() {
    for c in ['\t', '\n', ' ', '\u{85}', '\u{a0}', '\u{1680}', '\u{2000}', '\u{200a}', '\u{2028}',
        '\u{2029}', '\u{202f}', '\u{205f}', '\u{3000}', 'a', '\u{200b}', '\u{feff}', '_', '\u{1f}']
    {
        assert_eq!(is_white_space_char(c), c.is_whitespace(), "char {:?}", c);
    }
}

#[test]
fn text_precedes_matches_string_order() {
    let cases = [
        ("2024-01-02 10:00", "2024-01-02 10:01"),
        ("2024-01-02", "2024-01-02 10:01"),
        ("", "a"),
        ("b", "a"),
        ("same", "same"),
        ("я", "z"),
        ("é", "e"),
    ];
    for (a, b) in cases {
        assert_eq!(text_precedes(a, b), a < b, "{:?} {:?}", a, b);
    }
}

// ---------------------------------------------------------------- listing

#[test]
fn sort_is_newest_first_and_stable() {
    let mut v = vec![
        conf("a", "2024-01-01 10:00"),
        conf("b", "2024-03-01 09:00"),
        conf("c", "2024-01-01 10:00"),
        conf("d", "2025-01-01 00:00"),
        conf("e", "2024-03-01 09:00"),
    ];
    sort_newest_first(&mut v);
    assert_eq!(ids(&v), vec!["d", "b", "e", "a", "c"]);
}

#[test]
fn sort_matches_std_sort_by() {
    let mut v = vec![
        conf("1", "2023-05-05 05:05"),
        conf("2", "2023-05-05 05:04"),
        conf("3", "2023-05-05 05:05"),
        conf("4", ""),
        conf("5", "2024"),
    ];
    let mut w = v.clone();
    w.sort_by(|a, b| b.created_at.cmp(&a.created_at));
    sort_newest_first(&mut v);
    assert_eq!(ids(&v), ids(&w));
}

#[test]
fn sort_of_sorted_list_changes_nothing() {
    let mut v = vec![conf("x", "2024-02-02 02:02"), conf("y", "2024-02-02 02:02"), conf("z", "2001")];
    sort_newest_first(&mut v);
    assert_eq!(ids(&v), vec!["x", "y", "z"]);
    sort_newest_first(&mut v);
    assert_eq!(ids(&v), vec!["x", "y", "z"]);
}

#[test]
fn sort_of_empty_list() {
    let mut v: Vec<Conference> = vec![];
    sort_newest_first(&mut v);
    assert!(v.is_empty());
}

// ---------------------------------------------------------------- models

#[test]
fn error_messages() {
    let y = ApiError::Yandex(YandexErrorResponse { message: s("Forbidden"), description: Some(s("bad token")) });
    assert_eq!(y.to_message(), "Forbidden - bad token");
    let y = ApiError::Yandex(YandexErrorResponse { message: s("Oops"), description: None });
    assert_eq!(y.to_message(), "Oops - No info");
    assert_eq!(ApiError::Network(s("timeout")).to_message(), "Network: timeout");
    assert_eq!(ApiError::Deserialization(s("eof")).to_message(), "JSON: eof");
}

#[test]
fn default_state_is_signed_out_and_empty() {
    let st = AppState::default();
    assert_eq!(st.current_view, View::Login);
    assert!(st.conferences.is_empty());
    assert!(st.token.is_empty());
    assert!(st.api_error.is_none());
    assert!(!st.is_waiting);
    assert_eq!(View::default(), View::Login);
}

// ---------------------------------------------------------------- state

#[test]
fn restore_signs_in_only_with_token_and_login() {
    let confs = vec![conf("old", "2020-01-01 00:00"), conf("new", "2024-01-01 00:00")];
    let st = AppState::restore(confs.clone(), Some(s("tok")), Some(s("me")));
    assert_eq!(st.current_view, View::Main);
    assert_eq!(st.token, "tok");
    assert_eq!(ids(&st.conferences), vec!["new", "old"]);

    let st = AppState::restore(confs.clone(), Some(s("tok")), None);
    assert_eq!(st.current_view, View::Login);
    assert_eq!(st.token, "");

    let st = AppState::restore(confs, None, Some(s("me")));
    assert_eq!(st.current_view, View::Login);
    assert_eq!(st.token, "");
}

#[test]
fn login_success_switches_to_main_and_asks_to_store() {
    let mut st = AppState::default();
    st.is_waiting = true;
    let writes = st.apply_response(ApiResponse::LoginSuccess { token: s("t0k"), login: s("user") });
    assert_eq!(st.token, "t0k");
    assert_eq!(st.current_view, View::Main);
    assert!(!st.is_waiting);
    assert_eq!(writes.len(), 2);
    assert!(matches!(&writes[0], StorageWrite::Token(t) if t == "t0k"));
    assert!(matches!(&writes[1], StorageWrite::Login(l) if l == "user"));
}

#[test]
fn create_success_inserts_in_order() {
    let mut st = AppState::restore(
        vec![conf("a", "2024-01-01 00:00"), conf("b", "2022-01-01 00:00")],
        None,
        None,
    );
    st.is_waiting = true;
    st.current_view = View::Edit { index: None, is_fetching: false };
    let writes = st.apply_response(ApiResponse::CreateSuccess(conf("c", "2023-06-01 12:00")));
    assert_eq!(ids(&st.conferences), vec!["a", "c", "b"]);
    assert_eq!(st.current_view, View::Main);
    assert!(!st.is_waiting);
    assert!(matches!(writes.as_slice(), [StorageWrite::Conferences]));
}

#[test]
fn update_success_keeps_creation_time_and_falls_back_on_blank() {
    let mut st = AppState::restore(vec![conf("a", "2024-01-01 00:00"), conf("b", "2022-01-01 00:00")], None, None);
    let d = details("b2", Some(""), Some("service desc"));
    let writes = st.apply_response(ApiResponse::UpdateSuccess {
        index: 1,
        conference_partial: (s("b"), d, vec![s("x@y.z")], s("my title"), s("my desc")),
    });
    let c = &st.conferences[1];
    assert_eq!(c.id, "b");
    assert_eq!(c.title, "my title");
    assert_eq!(c.description, "service desc");
    assert_eq!(c.join_url, "https://join/b2");
    assert_eq!(c.watch_url, "https://watch/b2");
    assert_eq!(c.cohosts, vec![s("x@y.z")]);
    assert_eq!(c.created_at, "2022-01-01 00:00");
    assert_eq!(st.conferences[0].id, "a");
    assert_eq!(st.current_view, View::Main);
    assert!(matches!(writes.as_slice(), [StorageWrite::Conferences]));
}

#[test]
fn details_fetched_fills_editor() {
    let mut st = AppState::restore(vec![conf("a", "2024-01-01 00:00")], None, None);
    st.current_view = View::Edit { index: Some(0), is_fetching: true };
    let writes = st.apply_response(ApiResponse::DetailsFetched {
        index: 0,
        details: details("a", Some("New title"), None),
        cohosts: emails(&["p@q.r", "s@t.u"]),
    });
    assert_eq!(st.edit_title, "New title");
    assert_eq!(st.edit_description, "desc a");
    assert_eq!(st.edit_cohosts, "p@q.r, s@t.u");
    assert_eq!(st.conferences[0].cohosts, vec![s("p@q.r"), s("s@t.u")]);
    assert_eq!(st.current_view, View::Edit { index: Some(0), is_fetching: false });
    assert!(matches!(writes.as_slice(), [StorageWrite::Conferences]));
}

#[test]
fn details_fetched_for_missing_index_changes_no_conference() {
    let mut st = AppState::restore(vec![conf("a", "2024-01-01 00:00")], None, None);
    st.edit_title = s("kept");
    st.edit_description = s("kept too");
    st.current_view = View::Main;
    let writes = st.apply_response(ApiResponse::DetailsFetched {
        index: 5,
        details: details("zz", None, Some("")),
        cohosts: emails(&["a@b.c"]),
    });
    assert_eq!(st.edit_title, "kept");
    assert_eq!(st.edit_description, "kept too");
    assert_eq!(st.edit_cohosts, "a@b.c");
    assert!(st.conferences[0].cohosts.is_empty());
    assert_eq!(st.current_view, View::Main);
    assert!(writes.is_empty());
}

#[test]
fn error_response_is_shown() {
    let mut st = AppState::default();
    st.is_waiting = true;
    let writes = st.apply_response(ApiResponse::Error(s("Network: down")));
    assert_eq!(st.api_error.as_deref(), Some("Network: down"));
    assert!(!st.is_waiting);
    assert_eq!(st.current_view, View::Login);
    assert!(writes.is_empty());
}

#[test]
fn screens_and_actions() {
    let mut st = AppState::restore(vec![conf("a", "2024-01-01 00:00"), conf("b", "2020-01-01 00:00")], None, None);
    st.token = s("abc");
    match st.begin_login() {
        AppAction::Login { token } => assert_eq!(token, "abc"),
        _ => panic!("expected a login"),
    }
    assert!(st.is_waiting);

    st.api_error = Some(s("old error"));
    st.edit_title = s("leftover");
    st.begin_create();
    assert!(st.api_error.is_none());
    assert_eq!(st.edit_title, "");
    assert_eq!(st.current_view, View::Edit { index: None, is_fetching: false });

    match st.begin_edit(1) {
        AppAction::FetchDetails { id, index } => {
            assert_eq!(id, "b");
            assert_eq!(index, 1);
        }
        _ => panic!("expected a fetch"),
    }
    assert_eq!(st.current_view, View::Edit { index: Some(1), is_fetching: true });

    st.edit_title = s("T");
    st.edit_description = s("D");
    st.edit_cohosts = s(" x@y.z , ,w@v.u");
    match st.submit_editor(Some(1)) {
        AppAction::Update { id, index, title, desc, cohosts } => {
            assert_eq!((id.as_str(), index, title.as_str(), desc.as_str()), ("b", 1, "T", "D"));
            assert_eq!(cohosts, vec![s("x@y.z"), s("w@v.u")]);
        }
        _ => panic!("expected an update"),
    }
    match st.submit_editor(None) {
        AppAction::Create { title, desc, cohosts } => {
            assert_eq!((title.as_str(), desc.as_str()), ("T", "D"));
            assert_eq!(cohosts.len(), 2);
        }
        _ => panic!("expected a create"),
    }

    st.show_main();
    assert_eq!(st.current_view, View::Main);
    st.delete_conference(0);
    assert_eq!(ids(&st.conferences), vec!["b"]);
    st.logout();
    assert_eq!(st.current_view, View::Login);
}

// ---------------------------------------------------------------- api

#[test]
fn request_addresses_and_headers() {
    assert_eq!(authorization_header("xyz"), "OAuth xyz");
    let r = user_info_request("tok");
    assert_eq!(r.method, Method::Get);
    assert_eq!(r.url, USER_INFO_URL);
    assert_eq!(r.url, "https://login.yandex.ru/info");
    assert_eq!(r.authorization, "OAuth tok");
    assert!(r.payload.is_none());

    let r = read_conference_request("tok", "42");
    assert_eq!(r.url, "https://cloud-api.yandex.net/v1/telemost-api/conferences/42");
    assert_eq!(r.method, Method::Get);
    let r = read_cohosts_request("tok", "42");
    assert_eq!(r.url, "https://cloud-api.yandex.net/v1/telemost-api/conferences/42/cohosts");
    assert_eq!(TELEMOST_BASE_URL, "https://cloud-api.yandex.net/v1/telemost-api");
}

#[test]
fn create_and_update_requests_carry_payload() {
    let r = create_conference_request("t", "Title", "Desc", vec![s("a@b.c"), s("d@e.f")]);
    assert_eq!(r.method, Method::Post);
    assert_eq!(r.url, "https://cloud-api.yandex.net/v1/telemost-api/conferences");
    assert_eq!(r.authorization, "OAuth t");
    let p = r.payload.expect("payload");
    assert_eq!(p.live_stream.title, "Title");
    assert_eq!(p.live_stream.description, "Desc");
    let got: Vec<String> = p.cohosts.iter().map(|c| c.email.clone()).collect();
    assert_eq!(got, vec![s("a@b.c"), s("d@e.f")]);

    let r = update_conference_request("t", "77", "T2", "D2", vec![]);
    assert_eq!(r.method, Method::Patch);
    assert_eq!(r.url, "https://cloud-api.yandex.net/v1/telemost-api/conferences/77");
    let p = r.payload.expect("payload");
    assert_eq!(p.live_stream.title, "T2");
    assert!(p.cohosts.is_empty());

    let p = conference_request("x", "y", vec![s("z")]);
    assert_eq!(p.cohosts[0].email, "z");
}

#[test]
fn success_statuses() {
    assert!(!is_success_status(199));
    assert!(is_success_status(200));
    assert!(is_success_status(204));
    assert!(is_success_status(299));
    assert!(!is_success_status(300));
    assert!(!is_success_status(404));
}

#[test]
fn settling_answers() {
    let r: Result<u32, ApiError> = settle_answer(200, s("200 OK"), AnswerBody::Expected(Ok(7)));
    assert!(matches!(r, Ok(7)));
    let r: Result<u32, ApiError> = settle_answer(201, s("201 Created"), AnswerBody::Expected(Err(s("bad json"))));
    assert!(matches!(r, Err(ApiError::Deserialization(m)) if m == "bad json"));
    let y = YandexErrorResponse { message: s("Not found"), description: None };
    let r: Result<u32, ApiError> = settle_answer(404, s("404 Not Found"), AnswerBody::Failure(Some(y)));
    assert!(matches!(r, Err(ApiError::Yandex(e)) if e.message == "Not found"));
    let r: Result<u32, ApiError> = settle_answer(500, s("500 Internal Server Error"), AnswerBody::Failure(None));
    assert!(matches!(r, Err(ApiError::Network(m)) if m == "API returned status 500 Internal Server Error"));
}

// ---------------------------------------------------------------- worker

#[test]
fn worker_starts_with_stored_token() {
    assert_eq!(Worker::new(Some(s("abc"))).active_token, "abc");
    assert_eq!(Worker::new(None).active_token, "");
}

#[test]
fn worker_login() {
    let mut w = Worker::new(Some(s("old")));
    let r = w.finish_login(s("new"), Err(ApiError::Network(s("down"))));
    assert!(matches!(r, ApiResponse::Error(m) if m == "Network: down"));
    assert_eq!(w.active_token, "old");
    let r = w.finish_login(s("new"), Ok(YandexUser { login: s("me") }));
    assert!(matches!(r, ApiResponse::LoginSuccess { token, login } if token == "new" && login == "me"));
    assert_eq!(w.active_token, "new");
}

#[test]
fn worker_create() {
    let w = Worker::new(None);
    let r = w.finish_create(s("T"), s("D"), vec![s("a@b.c")], Ok(details("9", None, Some("svc"))));
    match r {
        ApiResponse::CreateSuccess(c) => {
            assert_eq!(c.id, "9");
            assert_eq!(c.title, "T");
            assert_eq!(c.description, "svc");
            assert_eq!(c.join_url, "https://join/9");
            assert_eq!(c.watch_url, "https://watch/9");
            assert_eq!(c.cohosts, vec![s("a@b.c")]);
            let b = c.created_at.as_bytes();
            assert_eq!(b.len(), 16);
            assert_eq!((b[4], b[7], b[10], b[13]), (b'-', b'-', b' ', b':'));
        }
        _ => panic!("expected a created conference"),
    }
    let r = w.finish_create(s("T"), s("D"), vec![], Err(ApiError::Deserialization(s("x"))));
    assert!(matches!(r, ApiResponse::Error(m) if m == "JSON: x"));
}

#[test]
fn conference_from_details_prefers_service_values() {
    let c = conference_from_details(details("1", Some(""), None), s("T"), s("D"), vec![], s("2024-01-01 00:00"));
    assert_eq!(c.title, "");
    assert_eq!(c.description, "D");
    assert_eq!(c.created_at, "2024-01-01 00:00");
}

#[test]
fn worker_update_and_fetch() {
    let w = Worker::new(None);
    let r = w.finish_update(s("1"), 3, s("T"), s("D"), vec![], Ok(details("1", None, None)));
    match r {
        ApiResponse::UpdateSuccess { index, conference_partial: (id, d, cohosts, t, ds) } => {
            assert_eq!((index, id.as_str(), d.id.as_str(), t.as_str(), ds.as_str()), (3, "1", "1", "T", "D"));
            assert!(cohosts.is_empty());
        }
        _ => panic!("expected an update"),
    }
    let y = ApiError::Yandex(YandexErrorResponse { message: s("M"), description: Some(s("D")) });
    let r = w.finish_update(s("1"), 3, s("T"), s("D"), vec![], Err(y));
    assert!(matches!(r, ApiResponse::Error(m) if m == "M - D"));

    let r = w.finish_fetch(2, Ok(details("1", None, None)), Ok(emails(&["a"])));
    assert!(matches!(r, ApiResponse::DetailsFetched { index: 2, ref cohosts, .. } if cohosts.len() == 1));
    let r = w.finish_fetch(2, Err(ApiError::Network(s("one"))), Err(ApiError::Network(s("two"))));
    assert!(matches!(r, ApiResponse::Error(m) if m == "Network: one"));
    let r = w.finish_fetch(2, Ok(details("1", None, None)), Err(ApiError::Network(s("two"))));
    assert!(matches!(r, ApiResponse::Error(m) if m == "Network: two"));
}

// ---------------------------------------------------------------- storage

#[test]
fn storage_names() {
    assert_eq!(APP_NAME, "telemost-app");
    assert_eq!(SERVICE, "telemost-app-auth");
    assert_eq!(ACCOUNT, "current_user_token");
    let _storage = Storage;
}

// ---------------------------------------------------------------- time stamps

#[test]
fn timestamp_examples() {
    assert_eq!(format_timestamp(2024, 3, 7, 9, 5), "2024-03-07 09:05");
    assert_eq!(format_timestamp(999, 12, 31, 23, 59), "0999-12-31 23:59");
    assert_eq!(format_timestamp(0, 1, 1, 0, 0), "0000-01-01 00:00");
    assert_eq!(format_timestamp(-1, 1, 1, 0, 0), "-0001-01-01 00:00");
    assert_eq!(format_timestamp(12345, 6, 15, 12, 30), "+12345-06-15 12:30");
    assert_eq!(format_timestamp(-262144, 1, 1, 0, 0), "-262144-01-01 00:00");
}

#[test]
fn timestamp_matches_chrono_format() {
    for (y, m, d, h, mi) in [
        (2024, 3, 7, 9, 5),
        (1, 1, 1, 0, 0),
        (0, 2, 29, 1, 1),
        (-5, 7, 4, 13, 45),
        (-12345, 1, 31, 22, 10),
        (10000, 10, 10, 10, 10),
        (262142, 12, 31, 23, 59),
        (9999, 12, 31, 23, 59),
    ] {
        let expected = NaiveDate::from_ymd_opt(y, m, d)
            .unwrap()
            .and_hms_opt(h, mi, 0)
            .unwrap()
            .format("%Y-%m-%d %H:%M")
            .to_string();
        assert_eq!(format_timestamp(y, m, d, h, mi), expected);
    }
}

#[test]
fn created_conference_has_a_time_stamp() {
    let w = Worker::new(None);
    let before = chrono::Local::now().format("%Y-%m-%d %H:%M").to_string();
    let r = w.finish_create(s("T"), s("D"), vec![], Ok(details("9", None, None)));
    let after = chrono::Local::now().format("%Y-%m-%d %H:%M").to_string();
    match r {
        ApiResponse::CreateSuccess(c) => {
            assert!(c.created_at == before || c.created_at == after, "{}", c.created_at);
        }
        _ => panic!("expected a created conference"),
    }
}

// ---------------------------------------------------------------- planned requests

#[test]
fn worker_plans_requests() {
    let w = Worker::new(Some(s("held")));
    let r = w.requests_for(&AppAction::Login { token: s("typed") });
    assert_eq!(r.len(), 1);
    assert_eq!(r[0].url, "https://login.yandex.ru/info");
    assert_eq!(r[0].authorization, "OAuth typed");

    let r = w.requests_for(&AppAction::Create { title: s("T"), desc: s("D"), cohosts: vec![s("a@b.c")] });
    assert_eq!(r.len(), 1);
    assert_eq!(r[0].method, Method::Post);
    assert_eq!(r[0].url, "https://cloud-api.yandex.net/v1/telemost-api/conferences");
    assert_eq!(r[0].authorization, "OAuth held");
    let p = r[0].payload.as_ref().expect("payload");
    assert_eq!(p.cohosts[0].email, "a@b.c");
    assert_eq!(p.live_stream.title, "T");

    let r = w.requests_for(&AppAction::Update {
        id: s("5"),
        index: 0,
        title: s("T"),
        desc: s("D"),
        cohosts: vec![],
    });
    assert_eq!(r.len(), 1);
    assert_eq!(r[0].method, Method::Patch);
    assert_eq!(r[0].url, "https://cloud-api.yandex.net/v1/telemost-api/conferences/5");

    let r = w.requests_for(&AppAction::FetchDetails { id: s("5"), index: 0 });
    assert_eq!(r.len(), 2);
    assert_eq!(r[0].url, "https://cloud-api.yandex.net/v1/telemost-api/conferences/5");
    assert_eq!(r[1].url, "https://cloud-api.yandex.net/v1/telemost-api/conferences/5/cohosts");
    assert!(r.iter().all(|q| q.method == Method::Get && q.authorization == "OAuth held"));
}

#[test]
fn token_credential_names() {
    assert_eq!(Storage::token_credential(), ("telemost-app-auth", "current_user_token"));
}

#[test]
fn answers_in_one_go_or_two_agree() {
    let answers = || {
        vec![
            ApiResponse::LoginSuccess { token: s("t"), login: s("me") },
            ApiResponse::CreateSuccess(conf("n", "2024-05-05 05:05")),
            ApiResponse::Error(s("boom")),
        ]
    };
    let mut one = AppState::default();
    let mut writes_one = 0;
    for a in answers() {
        writes_one += one.apply_response(a).len();
    }
    let mut two = AppState::default();
    let mut writes_two = 0;
    let mut all = answers();
    let rest = all.split_off(1);
    for a in all {
        writes_two += two.apply_response(a).len();
    }
    for a in rest {
        writes_two += two.apply_response(a).len();
    }
    assert_eq!(writes_one, writes_two);
    assert_eq!(ids(&one.conferences), ids(&two.conferences));
    assert_eq!(one.token, two.token);
    assert_eq!(one.api_error, two.api_error);
    assert_eq!(one.current_view, two.current_view);
}
