use playtak_ws::codec::{decode_input, decode_output, encode_input, encode_output};
use playtak_ws::proto::{
    Input, JoinedOutput, MessageOutput, Output, OutputError, PostInput, RegisterInput, SignInInput,
};

fn register(name: &str, password: &str, email: &str) -> Input {
    Input::Register(RegisterInput {
        name: name.to_string(),
        password: password.to_string(),
        email: email.to_string(),
    })
}

fn sign_in(name: &str, password: &str) -> Input {
    Input::SignIn(SignInInput { name: name.to_string(), password: password.to_string() })
}

fn post(body: &str) -> Input {
    Input::Post(PostInput { body: body.to_string() })
}

fn input_eq(a: &Input, b: &Input) -> bool {
    match (a, b) {
        (Input::Register(x), Input::Register(y)) => {
            x.name == y.name && x.password == y.password && x.email == y.email
        }
        (Input::Post(x), Input::Post(y)) => x.body == y.body,
        (Input::SignIn(x), Input::SignIn(y)) => x.name == y.name && x.password == y.password,
        _ => false,
    }
}

fn output_eq(a: &Output, b: &Output) -> bool {
    match (a, b) {
        (Output::Error(x), Output::Error(y)) => x == y,
        (Output::Alive, Output::Alive) => true,
        (Output::Joined(x), Output::Joined(y)) => x.success == y.success,
        (Output::Message(x), Output::Message(y)) => x.message == y.message,
        _ => false,
    }
}

fn assert_input_round_trip(v: Input) {
    let text = encode_input(&v);
    let back = decode_input(text.as_str()).expect("canonical text must decode");
    assert!(input_eq(&v, &back), "decoded input differs for {text}");
}

fn assert_output_round_trip(v: Output) {
    let text = encode_output(&v);
    let back = decode_output(text.as_str()).expect("canonical text must decode");
    assert!(output_eq(&v, &back), "decoded output differs for {text}");
}

#[test]
fn encode_register_exact_text() {
    let v = register("Some Name", "hunter2", "a@b.com");
    assert_eq!(
        encode_input(&v),
        "{\"type\":\"register\",\"payload\":{\"name\":\"Some Name\",\"password\":\"hunter2\",\"email\":\"a@b.com\"}}"
    );
}

#[test]
fn encode_sign_in_exact_text() {
    let v = sign_in("Some Name", "hunter2");
    assert_eq!(
        encode_input(&v),
        "{\"type\":\"signIn\",\"payload\":{\"name\":\"Some Name\",\"password\":\"hunter2\"}}"
    );
}

#[test]
fn encode_post_exact_text() {
    assert_eq!(
        encode_input(&post("hello")),
        "{\"type\":\"post\",\"payload\":{\"body\":\"hello\"}}"
    );
}

#[test]
fn encode_outputs_exact_text() {
    assert_eq!(encode_output(&Output::Alive), "{\"type\":\"alive\"}");
    assert_eq!(
        encode_output(&Output::Joined(JoinedOutput { success: true })),
        "{\"type\":\"joined\",\"payload\":{\"success\":true}}"
    );
    assert_eq!(
        encode_output(&Output::Joined(JoinedOutput { success: false })),
        "{\"type\":\"joined\",\"payload\":{\"success\":false}}"
    );
    assert_eq!(
        encode_output(&Output::Error(OutputError::NameTaken)),
        "{\"type\":\"error\",\"payload\":{\"code\":\"name-taken\"}}"
    );
    assert_eq!(
        encode_output(&Output::Message(MessageOutput { message: "hi".to_string() })),
        "{\"type\":\"message\",\"payload\":{\"message\":\"hi\"}}"
    );
}

#[test]
fn escaping_quotes_and_backslashes() {
    let v = post("say \"hi\" \\ there");
    let text = encode_input(&v);
    assert_eq!(
        text,
        "{\"type\":\"post\",\"payload\":{\"body\":\"say \\\"hi\\\" \\\\ there\"}}"
    );
    assert_input_round_trip(v);
}

#[test]
fn escaping_control_characters() {
    let v = post("line\nbreak\tand\rmore\u{1}");
    let text = encode_input(&v);
    assert_eq!(
        text,
        "{\"type\":\"post\",\"payload\":{\"body\":\"line\\u000abreak\\u0009and\\u000dmore\\u0001\"}}"
    );
    assert_input_round_trip(v);
}

#[test]
fn round_trip_every_input_shape() {
    assert_input_round_trip(register("Player One", "p4ss w0rd", "one@example.org"));
    assert_input_round_trip(register("", "", ""));
    assert_input_round_trip(sign_in("Guest42", ""));
    assert_input_round_trip(sign_in("Nobody Here", "wrong"));
    assert_input_round_trip(post(""));
    assert_input_round_trip(post("unicode: \u{e9}\u{3042} ok"));
    assert_input_round_trip(post("edge \\\"\\ cases \"\""));
}

#[test]
fn round_trip_every_output_shape() {
    for e in [
        OutputError::NameTaken,
        OutputError::InvalidName,
        OutputError::NotJoined,
        OutputError::InvalidMessageBody,
        OutputError::InvalidPassword,
        OutputError::InvalidEmail,
        OutputError::PlayerNotFound,
        OutputError::UnableToVerifyPassword,
        OutputError::LoginOnOtherClient,
        OutputError::FailedWritingPlayer,
    ] {
        assert_output_round_trip(Output::Error(e));
    }
    assert_output_round_trip(Output::Alive);
    assert_output_round_trip(Output::Joined(JoinedOutput { success: true }));
    assert_output_round_trip(Output::Joined(JoinedOutput { success: false }));
    assert_output_round_trip(Output::Message(MessageOutput { message: "all good".to_string() }));
    assert_output_round_trip(Output::Message(MessageOutput { message: "\"\\\n".to_string() }));
}

#[test]
fn decode_rejects_malformed_text() {
    assert!(decode_input("").is_none());
    assert!(decode_input("{\"type\":\"nonsense\",\"payload\":{}}").is_none());
    assert!(decode_input("{\"type\":\"post\",\"payload\":{\"body\":\"unterminated").is_none());
    assert!(decode_input("{\"type\":\"post\",\"payload\":{\"body\":\"bad\\escape\"}}").is_none());
    assert!(decode_input("{\"type\":\"post\",\"payload\":{\"body\":\"x\"}} trailing").is_none());
    assert!(decode_output("").is_none());
    assert!(decode_output("{\"type\":\"error\",\"payload\":{\"code\":\"no-such-code\"}}").is_none());
    assert!(decode_output("{\"type\":\"alive\"} ").is_none());
}
