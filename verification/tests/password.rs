use jil_im::state::store::LinkStore;
use jil_im::state::{Link, PasswordError, State, Timestamp};

#[test]
fn a_set_password_is_accepted_and_another_refused() {
    let mut state = State::new();
    assert_eq!(state.set_password("hunter2"), Ok(()));
    assert!(state.password_hash().starts_with("$2b$12$"));
    assert_eq!(state.password_hash().chars().count(), 60);
    assert_eq!(state.password_matches("hunter2"), Ok(true));
    assert_eq!(state.password_matches("hunter3"), Ok(false));
}

#[test]
fn an_unset_password_cannot_be_checked() {
    let state = State::new();
    assert_eq!(state.password_matches("anything"), Err(PasswordError::UnreadableHash));
}

#[test]
fn load_takes_in_the_links_and_the_password() {
    let mut state = State::new();
    let items = vec![
        Link {
            shortname: "foo".to_string(),
            longurl: "https://example.com".to_string(),
            created_at: Timestamp { secs: 1, nanos: 0 },
            clicks: 2,
        },
        Link {
            shortname: "bar".to_string(),
            longurl: "https://example.org".to_string(),
            created_at: Timestamp { secs: 2, nanos: 0 },
            clicks: 0,
        },
    ];
    assert_eq!(state.load(&items, "secret"), Ok(()));
    assert_eq!(state.links().get("foo").unwrap().clicks, 2);
    assert_eq!(state.links().get("bar").unwrap().longurl, "https://example.org");
    assert_eq!(state.password_matches("secret"), Ok(true));
    assert!(state.password_hash().starts_with("$2b$12$"));
    let _ = LinkStore::new();
}
