use playtak_ws::bridge::{addressed_to, filter_own};
use playtak_ws::hub::Hub;
use playtak_ws::player::Player;
use playtak_ws::proto::{
    Input, InputParcel, Output, OutputError, OutputParcel, PostInput, RegisterInput, SignInInput,
};

fn sign_in(name: &str, password: &str) -> Input {
    Input::SignIn(SignInInput { name: name.to_string(), password: password.to_string() })
}

fn post(body: &str) -> Input {
    Input::Post(PostInput { body: body.to_string() })
}

fn expect_error(out: &[OutputParcel], cid: u128, code: OutputError) {
    assert_eq!(out.len(), 1);
    assert_eq!(out[0].client_id, cid);
    match &out[0].output {
        Output::Error(e) => assert_eq!(*e, code),
        other => panic!("expected an error output, got {other:?}"),
    }
}

fn expect_joined(out: &[OutputParcel], cid: u128) {
    assert_eq!(out.len(), 1);
    assert_eq!(out[0].client_id, cid);
    match &out[0].output {
        Output::Joined(j) => assert!(j.success),
        other => panic!("expected a joined output, got {other:?}"),
    }
}

#[test]
fn register_with_invalid_name_is_rejected() {
    let mut hub = Hub::new();
    let out = hub.process(InputParcel::new(
        7,
        Input::Register(RegisterInput {
            name: "x1".to_string(),
            password: "secret".to_string(),
            email: "a@b.com".to_string(),
        }),
    ));
    expect_error(&out, 7, OutputError::InvalidName);
}

#[test]
fn register_with_partly_symbolic_name_is_rejected() {
    let mut hub = Hub::new();
    // four letters in a row do not save a name whose whole shape is wrong
    let out = hub.process(InputParcel::new(
        8,
        Input::Register(RegisterInput {
            name: "abcd!".to_string(),
            password: "secret".to_string(),
            email: "a@b.com".to_string(),
        }),
    ));
    expect_error(&out, 8, OutputError::InvalidName);
}

#[test]
fn sign_in_with_partly_symbolic_name_is_rejected() {
    let mut hub = Hub::new();
    let out = hub.process(InputParcel::new(8, sign_in("abcd!", "pw")));
    expect_error(&out, 8, OutputError::InvalidName);
}

#[test]
fn register_with_overlong_name_is_rejected() {
    let mut hub = Hub::new();
    let out = hub.process(InputParcel::new(
        8,
        Input::Register(RegisterInput {
            name: "abcdefghijklmnopqrstuvwxy".to_string(),
            password: "secret".to_string(),
            email: "a@b.com".to_string(),
        }),
    ));
    expect_error(&out, 8, OutputError::InvalidName);
}

#[test]
fn register_with_invalid_email_is_rejected() {
    let mut hub = Hub::new();
    let out = hub.process(InputParcel::new(
        7,
        Input::Register(RegisterInput {
            name: "Good Name".to_string(),
            password: "secret".to_string(),
            email: "not an email".to_string(),
        }),
    ));
    expect_error(&out, 7, OutputError::InvalidEmail);
}

#[test]
fn sign_in_with_invalid_name_is_rejected() {
    let mut hub = Hub::new();
    let out = hub.process(InputParcel::new(9, sign_in("x", "whatever")));
    expect_error(&out, 9, OutputError::InvalidName);
}

#[test]
fn guest_signs_in_with_empty_password() {
    let mut hub = Hub::new();
    let out = hub.process(InputParcel::new(3, sign_in("Guest1234", "")));
    expect_joined(&out, 3);
}

#[test]
fn guest_signs_in_with_any_password() {
    let mut hub = Hub::new();
    let out = hub.process(InputParcel::new(4, sign_in("Guest7", "anything at all")));
    expect_joined(&out, 4);
}

#[test]
fn sign_in_with_unknown_account_is_not_found() {
    let mut hub = Hub::new();
    // a name no store plausibly holds; the lookup must miss
    let out = hub.process(InputParcel::new(2, sign_in("zzqy vwx kjqz zvvq", "pw")));
    expect_error(&out, 2, OutputError::PlayerNotFound);
}

#[test]
fn post_without_session_is_not_joined() {
    let mut hub = Hub::new();
    let out = hub.process(InputParcel::new(5, post("hello")));
    expect_error(&out, 5, OutputError::NotJoined);
}

#[test]
fn post_body_length_bounds() {
    let mut hub = Hub::new();
    expect_joined(&hub.process(InputParcel::new(6, sign_in("Guest99", ""))), 6);

    let out = hub.process(InputParcel::new(6, post("")));
    expect_error(&out, 6, OutputError::InvalidMessageBody);

    let long = "x".repeat(257);
    let out = hub.process(InputParcel::new(6, post(&long)));
    expect_error(&out, 6, OutputError::InvalidMessageBody);

    let out = hub.process(InputParcel::new(6, post("y")));
    assert_eq!(out.len(), 1);
    assert_eq!(out[0].client_id, 6);
    match &out[0].output {
        Output::Message(m) => assert_eq!(m.message, "y"),
        other => panic!("expected a message output, got {other:?}"),
    }

    let max = "z".repeat(256);
    let out = hub.process(InputParcel::new(6, post(&max)));
    match &out[0].output {
        Output::Message(m) => assert_eq!(m.message.len(), 256),
        other => panic!("expected a message output, got {other:?}"),
    }
}

#[test]
fn disconnect_frees_a_guest_name() {
    let mut hub = Hub::new();
    expect_joined(&hub.process(InputParcel::new(11, sign_in("Guest55", ""))), 11);
    hub.on_disconnect(11);
    // the freed name joins again on a new connection
    expect_joined(&hub.process(InputParcel::new(12, sign_in("Guest55", ""))), 12);
}

#[test]
fn disconnect_is_idempotent() {
    let mut hub = Hub::new();
    expect_joined(&hub.process(InputParcel::new(21, sign_in("Guest8", ""))), 21);
    hub.on_disconnect(21);
    hub.on_disconnect(21);
    let out = hub.process(InputParcel::new(21, post("hi")));
    expect_error(&out, 21, OutputError::NotJoined);
}

#[test]
fn heartbeat_reaches_every_active_session_once() {
    let mut hub = Hub::new();
    expect_joined(&hub.process(InputParcel::new(31, sign_in("Guest31", ""))), 31);
    expect_joined(&hub.process(InputParcel::new(32, sign_in("Guest32", ""))), 32);
    let out = hub.heartbeat();
    assert_eq!(out.len(), 2);
    let mut ids: Vec<u128> = out
        .iter()
        .map(|p| {
            assert!(matches!(p.output, Output::Alive));
            p.client_id
        })
        .collect();
    ids.sort();
    assert_eq!(ids, vec![31, 32]);
}

#[test]
fn heartbeat_skips_disconnected_sessions() {
    let mut hub = Hub::new();
    expect_joined(&hub.process(InputParcel::new(41, sign_in("Guest41", ""))), 41);
    expect_joined(&hub.process(InputParcel::new(42, sign_in("Guest42", ""))), 42);
    hub.on_disconnect(41);
    let out = hub.heartbeat();
    assert_eq!(out.len(), 1);
    assert_eq!(out[0].client_id, 42);
}

#[test]
fn bridge_keeps_only_its_own_parcels_in_order() {
    let stream = vec![
        OutputParcel::new(1, Output::Alive),
        OutputParcel::new(2, Output::Alive),
        OutputParcel::new(1, Output::Joined(playtak_ws::proto::JoinedOutput::new(true))),
        OutputParcel::new(3, Output::Alive),
        OutputParcel::new(1, Output::Message(playtak_ws::proto::MessageOutput::new(
            "first".to_string(),
        ))),
    ];
    assert!(addressed_to(&stream[0], 1));
    assert!(!addressed_to(&stream[1], 1));
    let own = filter_own(stream, 1);
    assert_eq!(own.len(), 3);
    assert!(matches!(own[0].output, Output::Alive));
    assert!(matches!(own[1].output, Output::Joined(_)));
    match &own[2].output {
        Output::Message(m) => assert_eq!(m.message, "first"),
        other => panic!("expected a message output, got {other:?}"),
    }
}

#[test]
fn sign_in_record_with_correct_password_joins() {
    let mut hub = Hub::new();
    let digest = Player::hash_password("open sesame".to_string()).expect("hashing works");
    let record = Player::existing(1, "Real Player".to_string(), digest, "rp@x.co".to_string());
    let out = hub.sign_in_with_record(70, "Real Player", "open sesame".to_string(), record);
    expect_joined(&out, 70);
}

#[test]
fn sign_in_record_with_wrong_password_is_rejected() {
    let mut hub = Hub::new();
    let digest = Player::hash_password("open sesame".to_string()).expect("hashing works");
    let record = Player::existing(1, "Real Player".to_string(), digest, "rp@x.co".to_string());
    let out = hub.sign_in_with_record(70, "Real Player", "shut sesame".to_string(), record);
    expect_error(&out, 70, OutputError::InvalidPassword);
}

#[test]
fn sign_in_record_with_unreadable_digest_cannot_verify() {
    let mut hub = Hub::new();
    let record = Player::existing(1, "Real Player".to_string(), "junk".to_string(), "rp@x.co".to_string());
    let out = hub.sign_in_with_record(70, "Real Player", "whatever".to_string(), record);
    expect_error(&out, 70, OutputError::UnableToVerifyPassword);
}

#[test]
fn sign_in_record_with_stored_binding_is_on_another_client() {
    let mut hub = Hub::new();
    let digest = Player::hash_password("pw".to_string()).expect("hashing works");
    let mut bound = Player::existing(1, "Real Player".to_string(), digest, "rp@x.co".to_string());
    bound.set_client(77);
    let out = hub.sign_in_with_record(70, "Real Player", "pw".to_string(), bound);
    expect_error(&out, 70, OutputError::LoginOnOtherClient);
}

#[test]
fn sign_in_record_with_active_name_is_taken() {
    let mut hub = Hub::new();
    expect_joined(&hub.process(InputParcel::new(80, sign_in("Guest500", ""))), 80);
    let digest = Player::hash_password("pw".to_string()).expect("hashing works");
    let record = Player::existing(2, "Guest500".to_string(), digest, "g@x.co".to_string());
    let out = hub.sign_in_with_record(81, "Guest500", "pw".to_string(), record);
    expect_error(&out, 81, OutputError::NameTaken);
}

#[test]
fn confirmed_write_commits_the_session() {
    let mut hub = Hub::new();
    let player = Player::new("Fresh Name", "pw", "f@x.co", 90, false);
    let out = hub.finish_register(90, player, true);
    expect_joined(&out, 90);
    // the session is really there: a post now goes through
    let out = hub.process(InputParcel::new(90, post("hello")));
    match &out[0].output {
        Output::Message(m) => assert_eq!(m.message, "hello"),
        other => panic!("expected a message output, got {other:?}"),
    }
}

#[test]
fn unconfirmed_write_commits_nothing() {
    let mut hub = Hub::new();
    let player = Player::new("Fresh Name", "pw", "f@x.co", 91, false);
    let out = hub.finish_register(91, player, false);
    expect_error(&out, 91, OutputError::FailedWritingPlayer);
    let out = hub.process(InputParcel::new(91, post("hello")));
    expect_error(&out, 91, OutputError::NotJoined);
}

#[test]
fn loaded_row_carries_its_fields() {
    let row = (
        "00000000-0000-0000-0000-00000000002a".to_string(),
        "Row Name".to_string(),
        "row-digest".to_string(),
        "row@x.co".to_string(),
    );
    let p = playtak_ws::database::Database::load_account(row).expect("readable identity");
    assert_eq!(p.id, 42);
    assert_eq!(p.name, "Row Name");
    assert_eq!(p.password, "row-digest");
    assert_eq!(p.email, "row@x.co");
    assert_eq!(p.get_client(), None);
    assert!(!p.is_guest);
}

#[test]
fn unreadable_identity_is_refused() {
    let row = (
        "not an identity".to_string(),
        "Row Name".to_string(),
        "row-digest".to_string(),
        "row@x.co".to_string(),
    );
    assert!(playtak_ws::database::Database::load_account(row).is_err());
}

#[test]
fn password_hash_verifies_and_rejects() {
    let digest = Player::hash_password("correct horse".to_string()).expect("hashing works");
    assert_eq!(
        Player::verify_password("correct horse".to_string(), digest.as_str()).unwrap(),
        true
    );
    assert_eq!(
        Player::verify_password("wrong pony".to_string(), digest.as_str()).unwrap(),
        false
    );
    assert!(Player::verify_password("any".to_string(), "not a digest").is_err());
}

#[test]
fn loaded_account_is_unbound_and_persistent() {
    let p = Player::existing(99, "Some One".to_string(), "digest".to_string(), "a@b.co".to_string());
    assert_eq!(p.get_client(), None);
    assert!(!p.is_guest);
    let mut q = Player::new("Some One", "pw", "a@b.co", 5, false);
    assert_eq!(q.get_client(), Some(5));
    q.set_client(8);
    assert_eq!(q.get_client(), Some(8));
}
