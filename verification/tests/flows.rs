use jil_im::api_client::{delete_entry_path, entries_path, user_agent, ApiClient, ApiError, CreateEntryApiResponse};
use jil_im::create::submit_form::{
    invalid_password_alert, public_link, random_shortname, shortname_from_bytes, FormData,
};
use jil_im::create::FormValues;
use jil_im::list::submit_form::{editing_alert, FormAction, FormData as ListFormData};
use jil_im::redirect::{RedirectResponse, ResolveError, Resolution};
use jil_im::state::sync::sync_stats_reply;
use jil_im::state::{Link, State, Timestamp};
use jil_im::util::flash::{flash_keys_key, keys_to_clear, register_flash_key, Alert, FlashType};
use jil_im::util::html_template::render_failure_body;
use jil_im::util::redirect_to_referer_or::redirect_to_referer_or;

fn link(shortname: &str, longurl: &str, clicks: usize) -> Link {
    Link {
        shortname: shortname.to_string(),
        longurl: longurl.to_string(),
        created_at: Timestamp { secs: 1_700_000_000, nanos: 0 },
        clicks,
    }
}

fn state_with(links: &[(&str, &str, usize)]) -> State {
    let mut state = State::new();
    let items: Vec<Link> = links.iter().map(|(s, u, c)| link(s, u, *c)).collect();
    state.load(&items, "pw").unwrap();
    state
}

#[test]
fn following_a_link_redirects_and_counts_a_visit() {
    let mut state = state_with(&[("home", "https://example.com/", 4), ("docs", "https://docs.example.com", 0)]);
    match state.redirect("/home") {
        Some(RedirectResponse::Redirect(url)) => assert_eq!(url, "https://example.com/"),
        other => panic!("unexpected {:?}", other),
    }
    assert_eq!(state.links().get("home").unwrap().clicks, 5);
    assert_eq!(state.links().get("docs").unwrap().clicks, 0);
}

#[test]
fn following_a_link_appends_the_rest_of_the_path() {
    let mut state = state_with(&[("docs", "https://docs.example.com", 0)]);
    match state.redirect("/docs/getting-started") {
        Some(RedirectResponse::Redirect(url)) => assert_eq!(url, "https://docs.example.com/getting-started"),
        other => panic!("unexpected {:?}", other),
    }
    assert_eq!(state.links().get("docs").unwrap().clicks, 1);
}

#[test]
fn a_path_ending_in_plus_shows_the_metadata() {
    let mut state = state_with(&[("home", "https://example.com/", 4)]);
    match state.redirect("/home+") {
        Some(RedirectResponse::Metadata(l)) => {
            assert_eq!(l.shortname, "home");
            assert_eq!(l.clicks, 4);
        }
        other => panic!("unexpected {:?}", other),
    }
    assert_eq!(state.links().get("home").unwrap().clicks, 4);
}

#[test]
fn metadata_of_an_unknown_link_is_not_answered() {
    let mut state = state_with(&[("home", "https://example.com/", 4)]);
    assert!(state.redirect("/nope+").is_none());
}

#[test]
fn an_unknown_link_is_flashed_as_an_error() {
    let mut state = state_with(&[("home", "https://example.com/", 4)]);
    match state.redirect("/nope") {
        Some(RedirectResponse::Failed(Alert::Error(m))) => assert_eq!(m, "Shortlink 'nope' not found"),
        other => panic!("unexpected {:?}", other),
    }
    assert_eq!(state.links().get("home").unwrap().clicks, 4);
}

#[test]
fn a_visit_that_would_overflow_the_count_is_not_answered() {
    let mut state = state_with(&[("home", "https://example.com/", usize::MAX)]);
    assert!(state.redirect("/home").is_none());
    assert_eq!(state.links().get("home").unwrap().clicks, usize::MAX);
}

#[test]
fn apply_resolution_answers_each_outcome() {
    let mut state = state_with(&[("home", "https://example.com/", 0)]);
    let r = state.apply_resolution(Ok(Resolution::Redirect {
        url: "https://example.com/x".to_string(),
        shortlink: "home".to_string(),
    }));
    assert!(matches!(r, RedirectResponse::Redirect(ref u) if u == "https://example.com/x"));
    assert_eq!(state.links().get("home").unwrap().clicks, 1);
    let r = state.apply_resolution(Err(ResolveError::InvalidInput));
    assert!(matches!(r, RedirectResponse::Failed(Alert::Error(ref m)) if m == "Invalid input"));
    let r = state.apply_resolution(Err(ResolveError::TemplateError("bad".to_string())));
    assert!(matches!(r, RedirectResponse::Failed(Alert::Error(ref m)) if m == "Template error: bad"));
    let r = state.apply_resolution(Ok(Resolution::Metadata("home".to_string())));
    assert!(matches!(r, RedirectResponse::Metadata(ref l) if l.clicks == 1));
}

#[test]
fn resolve_errors_display_their_text() {
    assert_eq!(ResolveError::InvalidInput.to_string(), "Invalid input");
    assert_eq!(ResolveError::NotFound("x".to_string()).to_string(), "Shortlink 'x' not found");
    assert_eq!(ResolveError::TemplateError("t".to_string()).to_string(), "Template error: t");
}

fn approved_state() -> (State, jil_im::state::Approval) {
    let mut state = State::new();
    state.set_password("pw").unwrap();
    let approval = state.approve("pw").unwrap().unwrap();
    (state, approval)
}

#[test]
fn a_created_link_is_stored_with_no_visits() {
    let (mut state, approval) = approved_state();
    let created = link("abc", "https://example.com", 17);
    let alert = state.record_create_response(
        approval,
        "https://jil.im",
        "abc",
        Ok(CreateEntryApiResponse::Success(created)),
    );
    match alert {
        Alert::Success(m) => assert_eq!(m, "https://jil.im/abc"),
        other => panic!("unexpected {:?}", other),
    }
    let stored = state.links().get("abc").unwrap();
    assert_eq!(stored.clicks, 0);
    assert_eq!(stored.longurl, "https://example.com");
}

#[test]
fn a_refused_creation_shows_the_api_message() {
    let (mut state, approval) = approved_state();
    let alert = state.record_create_response(
        approval,
        "https://jil.im",
        "abc",
        Ok(CreateEntryApiResponse::Error(ApiError {
            error: true,
            code: "conflict".to_string(),
            message: "Shortname taken".to_string(),
        })),
    );
    assert!(matches!(alert, Alert::Error(ref m) if m == "Shortname taken"));
    assert!(state.links().get("abc").is_none());
    let approval = state.approve("pw").unwrap().unwrap();
    let alert = state.record_create_response(approval, "https://jil.im", "abc", Err("timeout".to_string()));
    assert!(matches!(alert, Alert::Error(ref m) if m == "Unexpected error: timeout"));
}

#[test]
fn a_form_without_a_shortname_gets_a_generated_one() {
    let form = FormData {
        shortname: String::new(),
        longurl: "https://example.com".to_string(),
        password: "pw".to_string(),
    };
    let form = form.with_shortname().unwrap();
    assert_eq!(form.shortname.chars().count(), 6);
    assert!(form.shortname.chars().all(|c| c.is_ascii_lowercase() || c.is_ascii_digit()));
    assert_eq!(form.longurl, "https://example.com");
    assert_eq!(form.password, "pw");
    let kept = FormData { shortname: "mine".to_string(), longurl: String::new(), password: String::new() };
    assert_eq!(kept.with_shortname().unwrap().shortname, "mine");
}

#[test]
fn fill_shortname_only_fills_an_empty_one() {
    let empty = FormData { shortname: String::new(), longurl: "u".to_string(), password: "p".to_string() };
    assert_eq!(empty.fill_shortname("gen".to_string()).shortname, "gen");
    let set = FormData { shortname: "s".to_string(), longurl: "u".to_string(), password: "p".to_string() };
    assert_eq!(set.fill_shortname("gen".to_string()).shortname, "s");
}

#[test]
fn generated_shortnames_are_lower_case() {
    assert_eq!(shortname_from_bytes(&b"AbZ09z".to_vec()), "abz09z");
    let s = random_shortname().unwrap();
    assert_eq!(s.len(), 6);
    assert!(s.bytes().all(|b| b.is_ascii_lowercase() || b.is_ascii_digit()));
}

#[test]
fn form_values_from_a_submitted_form() {
    let form = FormData { shortname: "s".to_string(), longurl: "u".to_string(), password: "p".to_string() };
    let values = FormValues::from(&form);
    assert_eq!(values.shortname, "s");
    assert_eq!(values.longurl, "u");
    assert!(!values.shortname_is_disabled);
    let d = FormValues::default();
    assert!(d.shortname.is_empty() && d.longurl.is_empty() && !d.shortname_is_disabled);
}

#[test]
fn alerts_of_the_forms() {
    assert!(matches!(invalid_password_alert(), Alert::Error(ref m) if m == "Password was invalid."));
    assert_eq!(public_link("https://jil.im", "x"), "https://jil.im/x");
    assert!(matches!(editing_alert("https://jil.im", "x"), Alert::Info(ref m) if m == "Editing link for https://jil.im/x"));
}

#[test]
fn editing_fills_the_form_with_the_link() {
    let state = state_with(&[("home", "https://example.com/", 4)]);
    let v = state.edit_form_values("home");
    assert_eq!(v.shortname, "home");
    assert_eq!(v.longurl, "https://example.com/");
    assert!(v.shortname_is_disabled);
}

#[test]
fn a_deletion_drops_the_link_only_when_the_api_deleted_it() {
    let mut state = state_with(&[("home", "https://example.com/", 4), ("docs", "https://d.example", 0)]);
    let approval = state.approve("pw").unwrap().unwrap();
    let alert = state.record_delete_response(approval, "home", Err("502".to_string()));
    assert!(matches!(alert, Alert::Error(ref m) if m == "Unexpected error: 502"));
    assert!(state.links().get("home").is_some());
    let approval = state.approve("pw").unwrap().unwrap();
    let alert = state.record_delete_response(approval, "home", Ok(()));
    assert!(matches!(alert, Alert::Success(ref m) if m == "Link deleted successfully."));
    assert!(state.links().get("home").is_none());
    assert!(state.links().get("docs").is_some());
}

#[test]
fn the_delete_password_defaults_to_empty() {
    let with = ListFormData { action: FormAction::Delete, password: Some("pw".to_string()), shortname: "x".to_string() };
    assert_eq!(with.password_or_empty(), "pw");
    let without = ListFormData { action: FormAction::Edit, password: None, shortname: "x".to_string() };
    assert_eq!(without.password_or_empty(), "");
}

#[test]
fn flash_keys_are_recorded_once() {
    let keys = register_flash_key(Vec::new(), FlashType::Alert);
    assert_eq!(keys, vec!["Alert".to_string()]);
    let keys = register_flash_key(keys, FlashType::Alert);
    assert_eq!(keys, vec!["Alert".to_string()]);
    let keys = register_flash_key(keys, FlashType::CreateFormUserValues);
    assert_eq!(keys, vec!["Alert".to_string(), "CreateFormUserValues".to_string()]);
    assert_eq!(
        keys_to_clear(keys),
        vec!["Alert".to_string(), "CreateFormUserValues".to_string(), "__flash_keys".to_string()]
    );
    assert_eq!(flash_keys_key(), "__flash_keys");
    assert_eq!(FlashType::CreateFormUserValues.to_string(), "CreateFormUserValues");
}

#[test]
fn api_requests_are_addressed_and_authenticated() {
    let client = ApiClient::new("https://api.example".to_string(), "tok".to_string());
    assert_eq!(client.url(&entries_path()), "https://api.example/shortener/entries");
    assert_eq!(client.url(&delete_entry_path("abc")), "https://api.example/shortener/entries/abc/delete");
    assert_eq!(client.authorization(), "Bearer tok");
    assert_eq!(user_agent(), "jil-im/0.1.0");
    let ok = ApiClient::create_entry_result(CreateEntryApiResponse::Success(link("a", "u", 0)));
    assert_eq!(ok.unwrap().shortname, "a");
    let err = ApiClient::create_entry_result(CreateEntryApiResponse::Error(ApiError {
        error: true,
        code: "c".to_string(),
        message: "m".to_string(),
    }));
    assert_eq!(err.unwrap_err(), "m");
}

#[test]
fn small_replies() {
    assert_eq!(sync_stats_reply(Ok(())), (200, "success".to_string()));
    assert_eq!(sync_stats_reply(Err("down".to_string())), (500, "down".to_string()));
    assert_eq!(render_failure_body("oops"), "Failed to render template. Error: oops");
    assert_eq!(redirect_to_referer_or("/", Some("/-/list")), "/-/list");
    assert_eq!(redirect_to_referer_or("/", None), "/");
}

#[test]
fn creation_times_are_written_out() {
    let l = Link {
        shortname: "a".to_string(),
        longurl: "u".to_string(),
        created_at: Timestamp { secs: 1431648000, nanos: 0 },
        clicks: 0,
    };
    assert_eq!(l.created_at_iso8601().unwrap(), "2015-05-15T00:00:00+00:00");
    let day_later = Timestamp { secs: 1431648000 + 3600 * 24, nanos: 0 };
    assert_eq!(l.created_at_timeago_at(day_later).unwrap(), "1 day ago");
    assert_eq!(l.created_at_timeago_at(Timestamp { secs: 1431647000, nanos: 0 }).unwrap(), "???");
    assert!(l.created_at_timeago().unwrap().ends_with("ago"));
    let out_of_range = Link { created_at: Timestamp { secs: i64::MAX, nanos: 0 }, ..l };
    assert!(out_of_range.created_at_iso8601().is_none());
}

#[test]
fn requests_raise_the_total_by_at_most_one_each() {
    let mut state = state_with(&[("home", "https://example.com/", 4), ("docs", "https://docs.example.com", 7)]);
    let total = |s: &State| s.links_to_sync().iter().map(|l| l.clicks).sum::<usize>();
    let start = total(&state);
    for (i, path) in ["/home", "/docs/x", "/nope", "/home+", "/home", "/"].iter().enumerate() {
        let before = total(&state);
        let _ = state.redirect(path);
        let after = total(&state);
        assert!(before <= after && after <= before + 1);
        assert!(after <= start + i + 1);
    }
    assert_eq!(state.links().get("home").unwrap().clicks, 6);
    assert_eq!(state.links().get("docs").unwrap().clicks, 8);
    assert_eq!(state.links().len(), 2);
}
