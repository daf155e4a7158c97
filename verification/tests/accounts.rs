use limusic::auth::{
    auth_for, confirm_identity, save_error, Auth, SignIn, SignInOutcome, SignInPlan,
};
use limusic::identity::{
    identity_selection_key, persisted_data_sync_id, selected_identity_from_db, Account,
    AccountIdentity, AccountInfo, SelectedIdentity,
};
use limusic::settings::Db;
use limusic::state::AppState;
use std::collections::hash_map::DefaultHasher;
use std::hash::{Hash, Hasher};

fn info(name: Option<&str>) -> AccountInfo {
    AccountInfo {
        name: name.map(Into::into),
        handle: Some("@fresh".into()),
        email: None,
        thumbnail: None,
        channel_id: None,
        data_sync_id: Some("own".into()),
        visitor_data: Some("visitor".into()),
    }
}

fn identity(id: &str) -> AccountIdentity {
    AccountIdentity {
        name: format!("Channel {id}"),
        handle: Some("@old".into()),
        email: Some("mail".into()),
        thumbnail: None,
        channel_id: None,
        data_sync_id: id.into(),
        is_selected: id == "default",
    }
}

fn selected(id: Option<&str>, name: Option<&str>) -> SelectedIdentity {
    SelectedIdentity {
        data_sync_id: id.map(Into::into),
        name: name.map(Into::into),
        handle: None,
        email: None,
        thumbnail: None,
        channel_id: None,
        has_multiple_identities: true,
    }
}

fn previous() -> Auth {
    Auth { cookie: Some("old".into()), data_sync_id: Some("before".into()) }
}

fn settings(pairs: &[(&str, &str)]) -> Db {
    let mut db = Db::new();
    for (key, value) in pairs {
        db.set_setting(key, value);
    }
    db
}

fn begun(persisted: Option<SelectedIdentity>, db: &Db) -> SignIn {
    AppState::new().sign_in(" new \n", true, previous(), persisted, db).ok().unwrap()
}

#[test]
fn a_sign_in_needs_a_session() {
    let state = AppState::new();
    let refused = state.sign_in("c", false, previous(), None, &Db::new());
    assert_eq!(
        refused.err().unwrap(),
        "Sign-in didn't complete — try signing in again."
    );
    let s = begun(None, &settings(&[("data_sync_id", "stored")]));
    assert_eq!(s.cookie, "new");
    assert_eq!(s.persisted_id.as_deref(), Some("stored"));
    // The new cookie acts as nobody until the identities are known.
    let auth = s.discovery();
    assert_eq!((auth.cookie.as_deref(), auth.data_sync_id), (Some("new"), None));
}

#[test]
fn a_refused_sign_in_puts_everything_back() {
    let s = begun(None, &Db::new());
    let no = s.menu(Ok(info(None))).err().unwrap();
    assert_eq!(no.error, "That session didn't authenticate — sign in again.");
    assert_eq!(no.transport.cookie.as_deref(), Some("old"));
    assert_eq!(no.transport.data_sync_id.as_deref(), Some("before"));
    let no = s.menu(Err("offline".into())).err().unwrap();
    assert_eq!(no.error, "Sign-in failed: offline");
    assert_eq!(no.transport.cookie.as_deref(), Some("old"));
    assert!(s.menu(Ok(info(Some("N")))).is_ok());
    let (transport, cookie) = s.rollback();
    assert_eq!(transport.data_sync_id.as_deref(), Some("before"));
    assert_eq!(cookie.as_deref(), Some("old"));
}

#[test]
fn a_stored_channel_wins_over_the_default() {
    let s = begun(Some(selected(Some("b"), Some("B"))), &Db::new());
    let plan = s.plan(info(Some("N")), &vec![identity("a"), identity("b")]);
    assert_eq!(plan.outcome(), SignInOutcome::Complete);
    match plan {
        SignInPlan::Activate(i, multiple) => {
            assert_eq!(i.data_sync_id, "b");
            assert!(multiple);
        },
        _ => panic!("the stored channel is in the list"),
    }
    // Alone in the list, it is saved with the header that was fetched already.
    match s.plan(info(Some("N")), &vec![identity("b")]) {
        SignInPlan::Save(choice, visitor) => {
            assert_eq!(choice.data_sync_id.as_deref(), Some("b"));
            assert_eq!(choice.name.as_deref(), Some("N"));
            assert_eq!(choice.handle.as_deref(), Some("@fresh"));
            assert_eq!(choice.email.as_deref(), Some("mail"));
            assert!(!choice.has_multiple_identities);
            assert_eq!(visitor.as_deref(), Some("visitor"));
        },
        _ => panic!("there is one channel"),
    }
}

#[test]
fn a_foreign_account_is_not_forced_onto_the_stored_channel() {
    let s = begun(Some(selected(Some("gone"), None)), &Db::new());
    let plan = s.plan(info(Some("N")), &vec![identity("a"), identity("b")]);
    assert_eq!(plan.outcome(), SignInOutcome::SelectionRequired);
    match s.plan(info(Some("N")), &vec![identity("a")]) {
        SignInPlan::Save(choice, _) => {
            assert_eq!(choice.data_sync_id.as_deref(), Some("own"));
        },
        _ => panic!("one channel goes ahead"),
    }
}

#[test]
fn a_lost_list_revalidates_the_stored_channel() {
    let s = begun(Some(selected(Some("b"), Some("B"))), &Db::new());
    match s.plan(info(Some("N")), &vec![]) {
        SignInPlan::Activate(i, multiple) => {
            assert_eq!((i.data_sync_id.as_str(), i.name.as_str()), ("b", "B"));
            assert!(multiple);
        },
        _ => panic!("the stored channel is tried"),
    }
    // Only the id was stored.
    let s = begun(None, &settings(&[("data_sync_id", "bare")]));
    match s.plan(info(Some("N")), &vec![]) {
        SignInPlan::Activate(i, multiple) => {
            assert_eq!((i.data_sync_id.as_str(), i.name.as_str()), ("bare", ""));
            assert!(!multiple);
        },
        _ => panic!("the stored channel is tried"),
    }
    // Nothing was stored: the account itself.
    let s = begun(None, &Db::new());
    assert!(matches!(s.plan(info(Some("N")), &vec![]), SignInPlan::Save(_, _)));
}

#[test]
fn an_identity_is_confirmed_or_refused() {
    let done = confirm_identity(&identity("a"), Ok(info(Some("N"))), true).ok().unwrap();
    assert_eq!(done.0.data_sync_id.as_deref(), Some("a"));
    assert_eq!(done.1.as_deref(), Some("visitor"));
    assert_eq!(
        confirm_identity(&identity("a"), Ok(info(None)), true).err().unwrap(),
        "YouTube did not confirm that channel. Try signing in again."
    );
    assert_eq!(
        confirm_identity(&identity("a"), Err("offline".into()), true).err().unwrap(),
        "Couldn't switch YouTube channel: offline"
    );
    let next = auth_for(previous(), &selected(Some("a"), None)).ok().unwrap();
    assert_eq!((next.cookie.as_deref(), next.data_sync_id.as_deref()), (Some("old"), Some("a")));
    let out = AppState::new().sign_out();
    assert!(out.cookie.is_none() && out.data_sync_id.is_none());
    assert_eq!(
        auth_for(out, &selected(Some("a"), None)).err().unwrap(),
        "The YouTube session expired before the channel could be saved."
    );
    assert_eq!(save_error("full"), "Couldn't save the selected YouTube channel: full");
}

#[test]
fn switching_needs_a_login_and_a_known_channel() {
    let state = AppState::new();
    assert_eq!(
        state.may_switch(false, true).err().unwrap(),
        "Sign in before switching channels."
    );
    assert_eq!(state.may_switch(true, false).err().unwrap(), "metadata client missing");
    assert!(state.may_switch(true, true).is_ok());
    let list = vec![identity("a"), identity("b")];
    let (found, others) =
        state.switch_account(&list, &identity_selection_key("b")).ok().unwrap();
    assert_eq!(found.data_sync_id, "b");
    assert!(others);
    assert_eq!(
        state.switch_account(&list, "identity-0").err().unwrap(),
        "That YouTube channel is no longer available. Refresh the list and try again."
    );
}

#[test]
fn a_selector_is_a_hash_and_gives_nothing_away() {
    let mut hasher = DefaultHasher::new();
    "limusic-account-identity-v1".hash(&mut hasher);
    "secret".hash(&mut hasher);
    assert_eq!(identity_selection_key("secret"), format!("identity-{:016x}", hasher.finish()));
    assert_ne!(identity_selection_key("a"), identity_selection_key("b"));
}

#[test]
fn the_picker_marks_what_requests_act_as() {
    let state = AppState::new();
    let list = vec![identity("default"), identity("b")];
    let marks = |acting: Option<&str>, db: &Db| {
        state
            .account_identities(&list, &acting.map(Into::into), db)
            .iter()
            .map(|row| row.selected)
            .collect::<Vec<_>>()
    };
    assert_eq!(marks(Some("b"), &Db::new()), [false, true]);
    assert_eq!(marks(None, &Db::new()), [true, false]);
    // Nothing is picked yet.
    let pending = settings(&[("account_selection_pending", "true")]);
    assert_eq!(marks(Some("b"), &pending), [false, false]);
    let rows = state.account_identities(&list, &None, &Db::new());
    assert_eq!(rows[1].name, "Channel b");
    assert_eq!(rows[1].selection_key, identity_selection_key("b"));
}

#[test]
fn an_older_account_record_is_still_read() {
    let record = r#"{"name": "N", "handle": "", "email": 3, "channelId": "UC"}"#;
    let db = settings(&[("account_json", record), ("data_sync_id", "d")]);
    let s = selected_identity_from_db(&db, None).unwrap();
    assert_eq!((s.name.as_deref(), s.data_sync_id.as_deref()), (Some("N"), Some("d")));
    assert_eq!((s.handle, s.email), (None, None));
    assert_eq!(s.channel_id.as_deref(), Some("UC"));
    assert!(s.has_multiple_identities);
    let db = settings(&[("account_json", r#"{"canSwitch": false}"#)]);
    assert!(!selected_identity_from_db(&db, None).unwrap().has_multiple_identities);
    assert!(selected_identity_from_db(&settings(&[("account_json", "{")]), None).is_none());
    assert!(selected_identity_from_db(&Db::new(), None).is_none());
    // The canonical record wins where it says anything.
    let s = selected_identity_from_db(&db, Some(selected(None, Some("C")))).unwrap();
    assert_eq!(s.name.as_deref(), Some("C"));
    let s = selected_identity_from_db(&db, Some(selected(None, None))).unwrap();
    assert!(!s.has_multiple_identities);

    let db = settings(&[("data_sync_id", "legacy")]);
    assert_eq!(persisted_data_sync_id(&db, None).as_deref(), Some("legacy"));
    let choice = Some(selected(Some("x"), None));
    assert_eq!(persisted_data_sync_id(&db, choice).as_deref(), Some("x"));
    assert_eq!(persisted_data_sync_id(&settings(&[("data_sync_id", "")]), None), None);
}

#[test]
fn the_account_shown_is_the_chosen_one() {
    let state = AppState::new();
    let pending = settings(&[("account_selection_pending", "true")]);
    assert!(matches!(
        state.account_snapshot(&pending, None, true),
        Account::SelectionRequired
    ));
    assert!(matches!(state.account_snapshot(&pending, None, false), Account::Bare(false)));
    match state.account_snapshot(&Db::new(), Some(selected(Some("x"), Some("N"))), true) {
        Account::Chosen(details) => {
            assert!(details.signed_in && details.can_switch);
            assert_eq!(details.name.as_deref(), Some("N"));
        },
        _ => panic!("an identity is chosen"),
    }
    assert_eq!(selected(Some("x"), None).as_account_identity().unwrap().name, "");
    assert!(selected(None, Some("N")).as_account_identity().is_none());
    assert!(SelectedIdentity::from_account_info(info(None), false).is_none());
}
