use jil_im::create::submit_form::{CreateError, CreatePlan, FormData};
use jil_im::list::submit_form::{FormAction, FormData as ListFormData, ListPlan};
use jil_im::state::{Link, PasswordError, State, Timestamp};
use jil_im::util::flash::Alert;

fn state_with_password(password: &str) -> State {
    let mut state = State::new();
    let items = vec![Link {
        shortname: "home".to_string(),
        longurl: "https://example.com/".to_string(),
        created_at: Timestamp { secs: 0, nanos: 0 },
        clicks: 0,
    }];
    state.load(&items, password).unwrap();
    state
}

#[test]
fn a_creation_with_the_password_is_sent() {
    let state = state_with_password("pw");
    let form = FormData { shortname: String::new(), longurl: "https://x.example".to_string(), password: "pw".to_string() };
    let start = state.start_create(form).unwrap();
    assert!(matches!(start.plan, CreatePlan::Send(_)));
    assert_eq!(start.form.shortname.len(), 6);
    assert_eq!(start.remembered.shortname, start.form.shortname);
    assert_eq!(start.remembered.longurl, "https://x.example");
    assert!(!start.remembered.shortname_is_disabled);
}

#[test]
fn a_creation_with_a_wrong_password_is_refused() {
    let state = state_with_password("pw");
    let form = FormData { shortname: "mine".to_string(), longurl: "u".to_string(), password: "nope".to_string() };
    let start = state.start_create(form).unwrap();
    assert_eq!(start.form.shortname, "mine");
    assert!(matches!(start.plan, CreatePlan::Refuse(Alert::Error(ref m)) if m == "Password was invalid."));
}

#[test]
fn a_creation_without_a_readable_hash_is_an_error() {
    let state = State::new();
    let form = FormData { shortname: "mine".to_string(), longurl: "u".to_string(), password: "pw".to_string() };
    assert!(matches!(state.start_create(form), Err(CreateError::Password(PasswordError::UnreadableHash))));
}

#[test]
fn the_edit_button_fills_the_form() {
    let state = state_with_password("pw");
    let form = ListFormData { action: FormAction::Edit, password: None, shortname: "home".to_string() };
    match state.start_list_action("https://jil.im", &form).unwrap() {
        ListPlan::Edit { alert, values } => {
            assert!(matches!(alert, Alert::Info(ref m) if m == "Editing link for https://jil.im/home"));
            assert_eq!(values.longurl, "https://example.com/");
            assert!(values.shortname_is_disabled);
        }
        other => panic!("unexpected {:?}", other),
    }
}

#[test]
fn the_delete_button_checks_the_password() {
    let state = state_with_password("pw");
    let good = ListFormData { action: FormAction::Delete, password: Some("pw".to_string()), shortname: "home".to_string() };
    assert!(matches!(state.start_list_action("b", &good), Ok(ListPlan::Delete(_))));
    let bad = ListFormData { action: FormAction::Delete, password: None, shortname: "home".to_string() };
    assert!(matches!(state.start_list_action("b", &bad), Ok(ListPlan::Refuse(Alert::Error(ref m))) if m == "Password was invalid."));
}

#[test]
fn approve_gives_an_approval_only_for_the_password() {
    let state = state_with_password("pw");
    assert!(state.approve("pw").unwrap().is_some());
    assert!(state.approve("wrong").unwrap().is_none());
    assert!(matches!(State::new().approve("pw"), Err(PasswordError::UnreadableHash)));
}

#[test]
fn the_state_is_read_through_its_accessors() {
    let state = state_with_password("pw");
    assert_eq!(state.links().len(), 1);
    assert!(state.password_hash().starts_with("$2b$12$"));
}
