//! The wire codec: the closed tagged-union schema between bridge and hub,
//! written as one canonical text form per value. Strings are escaped:
//! quote and backslash by a backslash, control characters as `\u00` and two
//! hex digits.
//!
//! Canonical form only is a protocol decision: each value has exactly one
//! frame, and decoding answers `None` for everything else — reordered
//! keys, extra whitespace, or alternative escapes included. A frame the
//! decoder refuses is malformed input, which tears the connection down;
//! only this codec's own output is ever owed acceptance, and the round-trip
//! laws below prove that acceptance for every representable value.

use vstd::prelude::*;
use crate::proto::{
    Input, InputV, JoinedOutput, MessageOutput, Output, OutputError, OutputV, PostInput,
    RegisterInput, SignInInput,
};

verus! {

/// The hex digit for a value below sixteen.
pub open spec fn hex_digit(v: int) -> char {
    if v == 0 {
        '0'
    } else if v == 1 {
        '1'
    } else if v == 2 {
        '2'
    } else if v == 3 {
        '3'
    } else if v == 4 {
        '4'
    } else if v == 5 {
        '5'
    } else if v == 6 {
        '6'
    } else if v == 7 {
        '7'
    } else if v == 8 {
        '8'
    } else if v == 9 {
        '9'
    } else if v == 10 {
        'a'
    } else if v == 11 {
        'b'
    } else if v == 12 {
        'c'
    } else if v == 13 {
        'd'
    } else if v == 14 {
        'e'
    } else {
        'f'
    }
}

/// The value of a hex digit, lower case only.
pub open spec fn hex_val(c: char) -> Option<int> {
    if c == '0' {
        Some(0int)
    } else if c == '1' {
        Some(1int)
    } else if c == '2' {
        Some(2int)
    } else if c == '3' {
        Some(3int)
    } else if c == '4' {
        Some(4int)
    } else if c == '5' {
        Some(5int)
    } else if c == '6' {
        Some(6int)
    } else if c == '7' {
        Some(7int)
    } else if c == '8' {
        Some(8int)
    } else if c == '9' {
        Some(9int)
    } else if c == 'a' {
        Some(10int)
    } else if c == 'b' {
        Some(11int)
    } else if c == 'c' {
        Some(12int)
    } else if c == 'd' {
        Some(13int)
    } else if c == 'e' {
        Some(14int)
    } else if c == 'f' {
        Some(15int)
    } else {
        None
    }
}

/// A character's code point.
pub open spec fn code_of(c: char) -> u32 {
    c as u32
}

/// The control character with a given code point.
pub open spec fn ctrl_char(v: int) -> char {
    choose|c: char| code_of(c) == v
}

/// How one character is written inside a quoted string.
pub open spec fn esc_char(c: char) -> Seq<char> {
    if c == '"' {
        seq!['\\', '"']
    } else if c == '\\' {
        seq!['\\', '\\']
    } else if (c as u32) < 32 {
        seq!['\\', 'u', '0', '0', hex_digit(c as u32 as int / 16), hex_digit(c as u32 as int % 16)]
    } else {
        seq![c]
    }
}

/// How a whole string is written, between its quotes.
pub open spec fn esc(s: Seq<char>) -> Seq<char>
    decreases s.len(),
{
    if s.len() == 0 {
        Seq::empty()
    } else {
        esc_char(s[0]) + esc(s.skip(1))
    }
}

/// Strip a literal from the front.
pub open spec fn parse_lit(s: Seq<char>, lit: Seq<char>) -> Option<Seq<char>> {
    if s.len() >= lit.len() && s.subrange(0, lit.len() as int) == lit {
        Some(s.skip(lit.len() as int))
    } else {
        None
    }
}

/// Read a quoted string's remainder: everything up to the closing quote,
/// unescaped, and what follows the quote.
pub open spec fn parse_str(s: Seq<char>) -> Option<(Seq<char>, Seq<char>)>
    decreases s.len(),
{
    if s.len() == 0 {
        None
    } else if s[0] == '"' {
        Some((Seq::empty(), s.skip(1)))
    } else if s[0] == '\\' {
        if s.len() >= 2 && s[1] == '"' {
            parse_str_cons('"', parse_str(s.skip(2)))
        } else if s.len() >= 2 && s[1] == '\\' {
            parse_str_cons('\\', parse_str(s.skip(2)))
        } else if s.len() >= 6 && s[1] == 'u' && s[2] == '0' && s[3] == '0' && hex_val(s[4])
            is Some && hex_val(s[5]) is Some && 16 * hex_val(s[4]).unwrap() + hex_val(
            s[5],
        ).unwrap() < 32 {
            parse_str_cons(
                ctrl_char(16 * hex_val(s[4]).unwrap() + hex_val(s[5]).unwrap()),
                parse_str(s.skip(6)),
            )
        } else {
            None
        }
    } else if (s[0] as u32) >= 32 {
        parse_str_cons(s[0], parse_str(s.skip(1)))
    } else {
        None
    }
}

/// Put a decoded character in front of a string parse.
pub open spec fn parse_str_cons(c: char, r: Option<(Seq<char>, Seq<char>)>) -> Option<
    (Seq<char>, Seq<char>),
> {
    match r {
        Some((t, rest)) => Some((seq![c] + t, rest)),
        None => None,
    }
}

/// The opening of each input form, up to its first string field.
pub open spec fn lit_register() -> Seq<char> {
    "{\"type\":\"register\",\"payload\":{\"name\":\""@
}

pub open spec fn lit_post() -> Seq<char> {
    "{\"type\":\"post\",\"payload\":{\"body\":\""@
}

pub open spec fn lit_sign_in() -> Seq<char> {
    "{\"type\":\"signIn\",\"payload\":{\"name\":\""@
}

/// The separators between string fields, after a closing quote.
pub open spec fn lit_password() -> Seq<char> {
    ",\"password\":\""@
}

pub open spec fn lit_email() -> Seq<char> {
    ",\"email\":\""@
}

/// What follows the last closing quote.
pub open spec fn lit_end() -> Seq<char> {
    "}}"@
}

/// One closing or opening quote.
pub open spec fn lit_quote() -> Seq<char> {
    seq!['"']
}

/// The canonical text of an input value.
pub open spec fn spec_encode_input(v: InputV) -> Seq<char> {
    match v {
        InputV::Register { name, password, email } => lit_register() + esc(name) + lit_quote()
            + lit_password() + esc(password) + lit_quote() + lit_email() + esc(email)
            + lit_quote() + lit_end(),
        InputV::Post { body } => lit_post() + esc(body) + lit_quote() + lit_end(),
        InputV::SignIn { name, password } => lit_sign_in() + esc(name) + lit_quote()
            + lit_password() + esc(password) + lit_quote() + lit_end(),
    }
}

/// Decode the fields of a register form, after its opening literal.
pub open spec fn spec_decode_register(s: Seq<char>) -> Option<InputV> {
    match parse_str(s) {
        None => None,
        Some((name, r1)) => match parse_lit(r1, lit_password()) {
            None => None,
            Some(r2) => match parse_str(r2) {
                None => None,
                Some((password, r3)) => match parse_lit(r3, lit_email()) {
                    None => None,
                    Some(r4) => match parse_str(r4) {
                        None => None,
                        Some((email, r5)) => if r5 == lit_end() {
                            Some(InputV::Register { name, password, email })
                        } else {
                            None
                        },
                    },
                },
            },
        },
    }
}

/// Decode the field of a post form, after its opening literal.
pub open spec fn spec_decode_post(s: Seq<char>) -> Option<InputV> {
    match parse_str(s) {
        None => None,
        Some((body, r1)) => if r1 == lit_end() {
            Some(InputV::Post { body })
        } else {
            None
        },
    }
}

/// Decode the fields of a sign-in form, after its opening literal.
pub open spec fn spec_decode_sign_in(s: Seq<char>) -> Option<InputV> {
    match parse_str(s) {
        None => None,
        Some((name, r1)) => match parse_lit(r1, lit_password()) {
            None => None,
            Some(r2) => match parse_str(r2) {
                None => None,
                Some((password, r3)) => if r3 == lit_end() {
                    Some(InputV::SignIn { name, password })
                } else {
                    None
                },
            },
        },
    }
}

/// The whole text of an alive output.
pub open spec fn lit_alive() -> Seq<char> {
    "{\"type\":\"alive\"}"@
}

/// The whole text of each joined output.
pub open spec fn lit_joined_true() -> Seq<char> {
    "{\"type\":\"joined\",\"payload\":{\"success\":true}}"@
}

pub open spec fn lit_joined_false() -> Seq<char> {
    "{\"type\":\"joined\",\"payload\":{\"success\":false}}"@
}

/// The opening of an error output, up to its code.
pub open spec fn lit_error() -> Seq<char> {
    "{\"type\":\"error\",\"payload\":{\"code\":\""@
}

/// The opening of a message output, up to its text.
pub open spec fn lit_message() -> Seq<char> {
    "{\"type\":\"message\",\"payload\":{\"message\":\""@
}

/// Each error code with the closing of its form.
pub open spec fn code_tail(e: OutputError) -> Seq<char> {
    match e {
        OutputError::NameTaken => "name-taken\"}}"@,
        OutputError::InvalidName => "invalid-name\"}}"@,
        OutputError::NotJoined => "not-joined\"}}"@,
        OutputError::InvalidMessageBody => "invalid-message-body\"}}"@,
        OutputError::InvalidPassword => "invalid-password\"}}"@,
        OutputError::InvalidEmail => "invalid-email\"}}"@,
        OutputError::PlayerNotFound => "player-not-found\"}}"@,
        OutputError::UnableToVerifyPassword => "unable-to-verify-password\"}}"@,
        OutputError::LoginOnOtherClient => "logged-in-on-another-client\"}}"@,
        OutputError::FailedWritingPlayer => "failed-writing-player-to-database\"}}"@,
    }
}

/// The canonical text of an output value.
pub open spec fn spec_encode_output(v: OutputV) -> Seq<char> {
    match v {
        OutputV::Error(e) => lit_error() + code_tail(e),
        OutputV::Alive => lit_alive(),
        OutputV::Joined(b) => if b {
            lit_joined_true()
        } else {
            lit_joined_false()
        },
        OutputV::Message(m) => lit_message() + esc(m) + lit_quote() + lit_end(),
    }
}

/// Decode an error code with its closing.
pub open spec fn spec_decode_code(s: Seq<char>) -> Option<OutputV> {
    if s == code_tail(OutputError::NameTaken) {
        Some(OutputV::Error(OutputError::NameTaken))
    } else if s == code_tail(OutputError::InvalidName) {
        Some(OutputV::Error(OutputError::InvalidName))
    } else if s == code_tail(OutputError::NotJoined) {
        Some(OutputV::Error(OutputError::NotJoined))
    } else if s == code_tail(OutputError::InvalidMessageBody) {
        Some(OutputV::Error(OutputError::InvalidMessageBody))
    } else if s == code_tail(OutputError::InvalidPassword) {
        Some(OutputV::Error(OutputError::InvalidPassword))
    } else if s == code_tail(OutputError::InvalidEmail) {
        Some(OutputV::Error(OutputError::InvalidEmail))
    } else if s == code_tail(OutputError::PlayerNotFound) {
        Some(OutputV::Error(OutputError::PlayerNotFound))
    } else if s == code_tail(OutputError::UnableToVerifyPassword) {
        Some(OutputV::Error(OutputError::UnableToVerifyPassword))
    } else if s == code_tail(OutputError::LoginOnOtherClient) {
        Some(OutputV::Error(OutputError::LoginOnOtherClient))
    } else if s == code_tail(OutputError::FailedWritingPlayer) {
        Some(OutputV::Error(OutputError::FailedWritingPlayer))
    } else {
        None
    }
}

/// Decode the field of a message output, after its opening literal.
pub open spec fn spec_decode_message(s: Seq<char>) -> Option<OutputV> {
    match parse_str(s) {
        None => None,
        Some((m, r1)) => if r1 == lit_end() {
            Some(OutputV::Message(m))
        } else {
            None
        },
    }
}

/// Decode an output: exactly the canonical forms are accepted.
pub open spec fn spec_decode_output(s: Seq<char>) -> Option<OutputV> {
    if s == lit_alive() {
        Some(OutputV::Alive)
    } else if s == lit_joined_true() {
        Some(OutputV::Joined(true))
    } else if s == lit_joined_false() {
        Some(OutputV::Joined(false))
    } else {
        match parse_lit(s, lit_error()) {
            Some(rest) => spec_decode_code(rest),
            None => match parse_lit(s, lit_message()) {
                Some(rest) => spec_decode_message(rest),
                None => None,
            },
        }
    }
}

/// Two characters with one code point are one character.
pub proof fn lemma_char_code_injective(a: char, b: char)
    requires
        a as u32 == b as u32,
    ensures
        a == b,
{
}

/// Reading a hex digit back gives the value it was written from.
pub proof fn lemma_hex_round(v: int)
    requires
        0 <= v < 16,
    ensures
        hex_val(hex_digit(v)) == Some(v),
{
}

/// Stripping a literal from text that starts with it leaves the rest.
pub proof fn lemma_parse_lit(lit: Seq<char>, rest: Seq<char>)
    ensures
        parse_lit(lit + rest, lit) == Some(rest),
{
    let s = lit + rest;
    assert(s.subrange(0, lit.len() as int) =~= lit);
    assert(s.skip(lit.len() as int) =~= rest);
}

/// A character clash anywhere inside the literal refuses the strip.
pub proof fn lemma_lit_mismatch(s: Seq<char>, lit: Seq<char>, d: int)
    requires
        0 <= d < lit.len(),
        d < s.len(),
        s[d] != lit[d],
    ensures
        parse_lit(s, lit) is None,
{
    if s.len() >= lit.len() && s.subrange(0, lit.len() as int) == lit {
        assert(s.subrange(0, lit.len() as int)[d] == s[d]);
    }
}

/// Reading a written string back gives the characters it was written from,
/// and leaves exactly what followed the closing quote.
pub proof fn lemma_parse_esc(t: Seq<char>, rest: Seq<char>)
    ensures
        parse_str(esc(t) + lit_quote() + rest) == Some((t, rest)),
    decreases t.len(),
{
    let s = esc(t) + lit_quote() + rest;
    if t.len() == 0 {
        assert(esc(t) =~= Seq::<char>::empty());
        assert(s[0] == '"');
        assert(s.skip(1) =~= rest);
    } else {
        let c = t[0];
        let tail = esc(t.skip(1)) + lit_quote() + rest;
        assert(s =~= esc_char(c) + tail);
        lemma_parse_esc(t.skip(1), rest);
        assert(seq![c] + t.skip(1) =~= t);
        if c == '"' {
            assert(s[0] == '\\' && s[1] == '"');
            assert(s.skip(2) =~= tail);
        } else if c == '\\' {
            assert(s[0] == '\\' && s[1] == '\\');
            assert(s.skip(2) =~= tail);
        } else if (c as u32) < 32 {
            let v = c as u32 as int;
            assert(s[0] == '\\' && s[1] == 'u' && s[2] == '0' && s[3] == '0');
            assert(s[4] == hex_digit(v / 16) && s[5] == hex_digit(v % 16));
            lemma_hex_round(v / 16);
            lemma_hex_round(v % 16);
            assert(16 * (v / 16) + v % 16 == v);
            assert(s.skip(6) =~= tail);
            let c2 = ctrl_char(v);
            assert(code_of(c) == v);
            assert(code_of(c2) == v) by {
                assert(exists|x: char| code_of(x) == v);
            }
            lemma_char_code_injective(c2, c);
        } else {
            assert(s[0] == c);
            assert(s[0] != '"' && s[0] != '\\' && (s[0] as u32) >= 32);
            assert(s.skip(1) =~= tail);
        }
    }
}

/// Decode an input: exactly the canonical forms are accepted.
pub open spec fn spec_decode_input(s: Seq<char>) -> Option<InputV> {
    match parse_lit(s, lit_register()) {
        Some(rest) => spec_decode_register(rest),
        None => match parse_lit(s, lit_post()) {
            Some(rest) => spec_decode_post(rest),
            None => match parse_lit(s, lit_sign_in()) {
                Some(rest) => spec_decode_sign_in(rest),
                None => None,
            },
        },
    }
}


/// Reveal every literal of the schema, for the round-trip proofs.
proof fn reveal_schema_lits()
    ensures
        lit_register().len() == 38,
        lit_post().len() == 34,
        lit_sign_in().len() == 36,
        lit_register()[9] == 'r',
        lit_post()[9] == 'p',
        lit_sign_in()[9] == 's',
        lit_alive().len() == 16,
        lit_joined_true().len() == 44,
        lit_joined_false().len() == 45,
        lit_error().len() == 35,
        lit_message().len() == 40,
        lit_alive()[9] == 'a',
        lit_joined_true()[9] == 'j',
        lit_joined_false()[9] == 'j',
        lit_error()[9] == 'e',
        lit_message()[9] == 'm',
{
    reveal_strlit("{\"type\":\"register\",\"payload\":{\"name\":\"");
    reveal_strlit("{\"type\":\"post\",\"payload\":{\"body\":\"");
    reveal_strlit("{\"type\":\"signIn\",\"payload\":{\"name\":\"");
    reveal_strlit("{\"type\":\"alive\"}");
    reveal_strlit("{\"type\":\"joined\",\"payload\":{\"success\":true}}");
    reveal_strlit("{\"type\":\"joined\",\"payload\":{\"success\":false}}");
    reveal_strlit("{\"type\":\"error\",\"payload\":{\"code\":\"");
    reveal_strlit("{\"type\":\"message\",\"payload\":{\"message\":\"");
}

/// Reveal every error code literal.
proof fn reveal_code_lits()
    ensures
        code_tail(OutputError::NameTaken).len() == 13,
        code_tail(OutputError::InvalidName).len() == 15,
        code_tail(OutputError::NotJoined).len() == 13,
        code_tail(OutputError::InvalidMessageBody).len() == 23,
        code_tail(OutputError::InvalidPassword).len() == 19,
        code_tail(OutputError::InvalidEmail).len() == 16,
        code_tail(OutputError::PlayerNotFound).len() == 19,
        code_tail(OutputError::UnableToVerifyPassword).len() == 28,
        code_tail(OutputError::LoginOnOtherClient).len() == 30,
        code_tail(OutputError::FailedWritingPlayer).len() == 36,
        code_tail(OutputError::NameTaken)[1] == 'a',
        code_tail(OutputError::NotJoined)[1] == 'o',
        code_tail(OutputError::InvalidPassword)[0] == 'i',
        code_tail(OutputError::PlayerNotFound)[0] == 'p',
{
    reveal_strlit("name-taken\"}}");
    reveal_strlit("invalid-name\"}}");
    reveal_strlit("not-joined\"}}");
    reveal_strlit("invalid-message-body\"}}");
    reveal_strlit("invalid-password\"}}");
    reveal_strlit("invalid-email\"}}");
    reveal_strlit("player-not-found\"}}");
    reveal_strlit("unable-to-verify-password\"}}");
    reveal_strlit("logged-in-on-another-client\"}}");
    reveal_strlit("failed-writing-player-to-database\"}}");
}

/// Law: decoding an encoded input gives the value back, for every input.
pub proof fn lemma_input_round_trip(v: InputV)
    ensures
        spec_decode_input(spec_encode_input(v)) == Some(v),
{
    reveal_schema_lits();
    let s = spec_encode_input(v);
    match v {
        InputV::Register { name, password, email } => {
            let r5 = lit_end();
            let r4 = esc(email) + lit_quote() + r5;
            let r3 = lit_email() + r4;
            let r2 = esc(password) + lit_quote() + r3;
            let r1 = lit_password() + r2;
            let tail = esc(name) + lit_quote() + r1;
            assert(s =~= lit_register() + tail);
            lemma_parse_lit(lit_register(), tail);
            assert(tail =~= esc(name) + lit_quote() + r1);
            lemma_parse_esc(name, r1);
            lemma_parse_lit(lit_password(), r2);
            assert(r2 =~= esc(password) + lit_quote() + r3);
            lemma_parse_esc(password, r3);
            lemma_parse_lit(lit_email(), r4);
            assert(r4 =~= esc(email) + lit_quote() + r5);
            lemma_parse_esc(email, r5);
        },
        InputV::Post { body } => {
            let tail = esc(body) + lit_quote() + lit_end();
            assert(s =~= lit_post() + tail);
            assert(s[9] == 'p');
            lemma_lit_mismatch(s, lit_register(), 9);
            lemma_parse_lit(lit_post(), tail);
            lemma_parse_esc(body, lit_end());
        },
        InputV::SignIn { name, password } => {
            let r3 = lit_end();
            let r2 = esc(password) + lit_quote() + r3;
            let r1 = lit_password() + r2;
            let tail = esc(name) + lit_quote() + r1;
            assert(s =~= lit_sign_in() + tail);
            assert(s[9] == 's');
            lemma_lit_mismatch(s, lit_register(), 9);
            lemma_lit_mismatch(s, lit_post(), 9);
            lemma_parse_lit(lit_sign_in(), tail);
            lemma_parse_esc(name, r1);
            lemma_parse_lit(lit_password(), r2);
            assert(r2 =~= esc(password) + lit_quote() + r3);
            lemma_parse_esc(password, r3);
        },
    }
}

/// Law: decoding an encoded output gives the value back, for every output.
pub proof fn lemma_output_round_trip(v: OutputV)
    ensures
        spec_decode_output(spec_encode_output(v)) == Some(v),
{
    reveal_schema_lits();
    reveal_code_lits();
    let s = spec_encode_output(v);
    match v {
        OutputV::Alive => {},
        OutputV::Joined(b) => {
            assert(s != lit_alive());
            if b {
            } else {
                assert(s != lit_joined_true());
            }
        },
        OutputV::Error(e) => {
            assert(s[9] == 'e');
            assert(s != lit_alive());
            assert(s != lit_joined_true());
            assert(s != lit_joined_false());
            lemma_parse_lit(lit_error(), code_tail(e));
            let rest = code_tail(e);
            match e {
                OutputError::NotJoined => {
                    assert(rest != code_tail(OutputError::NameTaken));
                },
                OutputError::PlayerNotFound => {
                    assert(rest != code_tail(OutputError::InvalidPassword));
                },
                _ => {},
            }
        },
        OutputV::Message(m) => {
            let tail = esc(m) + lit_quote() + lit_end();
            assert(s =~= lit_message() + tail);
            assert(s[9] == 'm');
            assert(s != lit_alive());
            assert(s != lit_joined_true());
            assert(s != lit_joined_false());
            lemma_lit_mismatch(s, lit_error(), 9);
            lemma_parse_lit(lit_message(), tail);
            lemma_parse_esc(m, lit_end());
        },
    }
}


/// Append one character to a string.
///
/// Relies on `String::push`: it appends the given character to the end.
#[verifier::external_body]
fn push_char(s: &mut String, c: char)
    ensures
        final(s)@ == old(s)@.push(c),
{
    s.push(c);
}

/// The control character with a code below 32.
fn ctrl_char_exec(v: u32) -> (c: char)
    requires
        v < 32,
    ensures
        code_of(c) == v,
{
    match v {
        0 => '\u{0}',
        1 => '\u{1}',
        2 => '\u{2}',
        3 => '\u{3}',
        4 => '\u{4}',
        5 => '\u{5}',
        6 => '\u{6}',
        7 => '\u{7}',
        8 => '\u{8}',
        9 => '\u{9}',
        10 => '\u{a}',
        11 => '\u{b}',
        12 => '\u{c}',
        13 => '\u{d}',
        14 => '\u{e}',
        15 => '\u{f}',
        16 => '\u{10}',
        17 => '\u{11}',
        18 => '\u{12}',
        19 => '\u{13}',
        20 => '\u{14}',
        21 => '\u{15}',
        22 => '\u{16}',
        23 => '\u{17}',
        24 => '\u{18}',
        25 => '\u{19}',
        26 => '\u{1a}',
        27 => '\u{1b}',
        28 => '\u{1c}',
        29 => '\u{1d}',
        30 => '\u{1e}',
        _ => '\u{1f}',
    }
}

/// The hex digit of a value below sixteen.
fn hex_digit_exec(v: u32) -> (c: char)
    requires
        v < 16,
    ensures
        c == hex_digit(v as int),
{
    match v {
        0 => '0',
        1 => '1',
        2 => '2',
        3 => '3',
        4 => '4',
        5 => '5',
        6 => '6',
        7 => '7',
        8 => '8',
        9 => '9',
        10 => 'a',
        11 => 'b',
        12 => 'c',
        13 => 'd',
        14 => 'e',
        _ => 'f',
    }
}

/// The value of a lower-case hex digit.
fn hex_val_exec(c: char) -> (r: Option<u32>)
    ensures
        match r {
            Some(v) => hex_val(c) == Some(v as int) && v < 16,
            None => hex_val(c) is None,
        },
{
    match c {
        '0' => Some(0),
        '1' => Some(1),
        '2' => Some(2),
        '3' => Some(3),
        '4' => Some(4),
        '5' => Some(5),
        '6' => Some(6),
        '7' => Some(7),
        '8' => Some(8),
        '9' => Some(9),
        'a' => Some(10),
        'b' => Some(11),
        'c' => Some(12),
        'd' => Some(13),
        'e' => Some(14),
        'f' => Some(15),
        _ => None,
    }
}

/// Writing one more character writes its escape after the rest.
proof fn lemma_esc_snoc(t: Seq<char>, c: char)
    ensures
        esc(t.push(c)) == esc(t) + esc_char(c),
    decreases t.len(),
{
    if t.len() == 0 {
        let u = t.push(c);
        assert(u[0] == c);
        assert(u.skip(1) =~= Seq::<char>::empty());
        assert(esc(u.skip(1)) =~= Seq::<char>::empty());
        assert(esc(u) == esc_char(c) + esc(u.skip(1)));
        assert(esc_char(c) + esc(u.skip(1)) =~= esc_char(c));
        assert(esc(t) =~= Seq::<char>::empty());
        assert(esc(t) + esc_char(c) =~= esc_char(c));
    } else {
        assert(t.push(c).skip(1) =~= t.skip(1).push(c));
        lemma_esc_snoc(t.skip(1), c);
        assert(esc(t.push(c)) =~= esc(t) + esc_char(c));
    }
}

/// Append the escaped form of a string.
fn push_escaped(out: &mut String, s: &str)
    ensures
        final(out)@ == old(out)@ + esc(s@),
{
    let n = s.unicode_len();
    let mut i: usize = 0;
    while i < n
        invariant
            0 <= i <= n,
            n == s@.len(),
            out@ =~= old(out)@ + esc(s@.take(i as int)),
        decreases n - i,
    {
        let c = s.get_char(i);
        if c == '"' {
            push_char(out, '\\');
            push_char(out, '"');
        } else if c == '\\' {
            push_char(out, '\\');
            push_char(out, '\\');
        } else if (c as u32) < 32 {
            let v = c as u32;
            push_char(out, '\\');
            push_char(out, 'u');
            push_char(out, '0');
            push_char(out, '0');
            push_char(out, hex_digit_exec(v / 16));
            push_char(out, hex_digit_exec(v % 16));
        } else {
            push_char(out, c);
        }
        proof {
            assert(s@.take(i + 1) =~= s@.take(i as int).push(s@[i as int]));
            lemma_esc_snoc(s@.take(i as int), s@[i as int]);
            assert(out@ =~= old(out)@ + esc(s@.take(i + 1)));
        }
        i = i + 1;
    }
    proof {
        assert(s@.take(n as int) =~= s@);
    }
}

/// Encode an input value as its canonical text.
pub fn encode_input(v: &Input) -> (r: String)
    ensures
        r@ == spec_encode_input(v@),
{
    let mut out = String::new();
    match v {
        Input::Register(ri) => {
            out.append("{\"type\":\"register\",\"payload\":{\"name\":\"");
            push_escaped(&mut out, ri.name.as_str());
            push_char(&mut out, '"');
            out.append(",\"password\":\"");
            push_escaped(&mut out, ri.password.as_str());
            push_char(&mut out, '"');
            out.append(",\"email\":\"");
            push_escaped(&mut out, ri.email.as_str());
            push_char(&mut out, '"');
            out.append("}}");
            proof {
                assert(out@ =~= spec_encode_input(v@));
            }
        },
        Input::Post(pi) => {
            out.append("{\"type\":\"post\",\"payload\":{\"body\":\"");
            push_escaped(&mut out, pi.body.as_str());
            push_char(&mut out, '"');
            out.append("}}");
            proof {
                assert(out@ =~= spec_encode_input(v@));
            }
        },
        Input::SignIn(si) => {
            out.append("{\"type\":\"signIn\",\"payload\":{\"name\":\"");
            push_escaped(&mut out, si.name.as_str());
            push_char(&mut out, '"');
            out.append(",\"password\":\"");
            push_escaped(&mut out, si.password.as_str());
            push_char(&mut out, '"');
            out.append("}}");
            proof {
                assert(out@ =~= spec_encode_input(v@));
            }
        },
    }
    out
}

/// The text of an error code with its closing braces.
fn code_tail_text(e: &OutputError) -> (r: &'static str)
    ensures
        r@ == code_tail(*e),
{
    match e {
        OutputError::NameTaken => "name-taken\"}}",
        OutputError::InvalidName => "invalid-name\"}}",
        OutputError::NotJoined => "not-joined\"}}",
        OutputError::InvalidMessageBody => "invalid-message-body\"}}",
        OutputError::InvalidPassword => "invalid-password\"}}",
        OutputError::InvalidEmail => "invalid-email\"}}",
        OutputError::PlayerNotFound => "player-not-found\"}}",
        OutputError::UnableToVerifyPassword => "unable-to-verify-password\"}}",
        OutputError::LoginOnOtherClient => "logged-in-on-another-client\"}}",
        OutputError::FailedWritingPlayer => "failed-writing-player-to-database\"}}",
    }
}

/// Encode an output value as its canonical text.
pub fn encode_output(v: &Output) -> (r: String)
    ensures
        r@ == spec_encode_output(v@),
{
    let mut out = String::new();
    match v {
        Output::Error(e) => {
            out.append("{\"type\":\"error\",\"payload\":{\"code\":\"");
            out.append(code_tail_text(e));
            proof {
                assert(out@ =~= spec_encode_output(v@));
            }
        },
        Output::Alive => {
            out.append("{\"type\":\"alive\"}");
            proof {
                assert(out@ =~= spec_encode_output(v@));
            }
        },
        Output::Joined(j) => {
            if j.success {
                out.append("{\"type\":\"joined\",\"payload\":{\"success\":true}}");
            } else {
                out.append("{\"type\":\"joined\",\"payload\":{\"success\":false}}");
            }
            proof {
                assert(out@ =~= spec_encode_output(v@));
            }
        },
        Output::Message(m) => {
            out.append("{\"type\":\"message\",\"payload\":{\"message\":\"");
            push_escaped(&mut out, m.message.as_str());
            push_char(&mut out, '"');
            out.append("}}");
            proof {
                assert(out@ =~= spec_encode_output(v@));
            }
        },
    }
    out
}


/// Try to read a literal at position `i`; answer the position after it.
fn expect_lit(s: &str, i: usize, lit: &str) -> (r: Option<usize>)
    requires
        i <= s@.len(),
    ensures
        match r {
            Some(j) => i <= j <= s@.len() && parse_lit(s@.skip(i as int), lit@) == Some(
                s@.skip(j as int),
            ),
            None => parse_lit(s@.skip(i as int), lit@) is None,
        },
{
    let ghost su = s@.skip(i as int);
    let n = s.unicode_len();
    let m = lit.unicode_len();
    if n - i < m {
        proof {
            assert(su.len() < lit@.len());
        }
        return None;
    }
    let mut k: usize = 0;
    while k < m
        invariant
            0 <= k <= m,
            i + m <= n,
            n == s@.len(),
            m == lit@.len(),
            su == s@.skip(i as int),
            forall|j: int| 0 <= j < k ==> su[j] == lit@[j],
        decreases m - k,
    {
        let a = s.get_char(i + k);
        let b = lit.get_char(k);
        proof {
            assert(su[k as int] == s@[i + k]);
        }
        if a != b {
            proof {
                lemma_lit_mismatch(su, lit@, k as int);
            }
            return None;
        }
        k = k + 1;
    }
    proof {
        assert(su.subrange(0, m as int) =~= lit@);
        assert(su.skip(m as int) =~= s@.skip(i + m));
    }
    Some(i + m)
}

/// Whether the text from position `i` on is exactly a literal.
fn tail_eq(s: &str, i: usize, lit: &str) -> (b: bool)
    requires
        i <= s@.len(),
    ensures
        b == (s@.skip(i as int) == lit@),
{
    let ghost su = s@.skip(i as int);
    let n = s.unicode_len();
    let m = lit.unicode_len();
    if n - i != m {
        proof {
            assert(su.len() != lit@.len());
        }
        return false;
    }
    let mut k: usize = 0;
    while k < m
        invariant
            0 <= k <= m,
            i + m == n,
            n == s@.len(),
            m == lit@.len(),
            su == s@.skip(i as int),
            forall|j: int| 0 <= j < k ==> su[j] == lit@[j],
        decreases m - k,
    {
        let a = s.get_char(i + k);
        let b = lit.get_char(k);
        proof {
            assert(su[k as int] == s@[i + k]);
        }
        if a != b {
            return false;
        }
        k = k + 1;
    }
    proof {
        assert(su =~= lit@);
    }
    true
}

/// Read a quoted string's remainder at position `i`: the unescaped text and
/// the position after the closing quote.
fn parse_string_at(s: &str, i: usize) -> (r: Option<(String, usize)>)
    requires
        i <= s@.len(),
    ensures
        match r {
            Some(t) => i <= t.1 <= s@.len() && parse_str(s@.skip(i as int)) == Some(
                (t.0@, s@.skip(t.1 as int)),
            ),
            None => parse_str(s@.skip(i as int)) is None,
        },
{
    let n = s.unicode_len();
    let mut acc = String::new();
    let mut cur: usize = i;
    while cur < n
        invariant
            i <= cur <= n,
            n == s@.len(),
            (match parse_str(s@.skip(cur as int)) {
                Some(t) => parse_str(s@.skip(i as int)) == Some((acc@ + t.0, t.1)),
                None => parse_str(s@.skip(i as int)) is None,
            }),
        decreases n - cur,
    {
        let ghost scur = s@.skip(cur as int);
        proof {
            assert(scur.len() == n - cur);
            assert(scur[0] == s@[cur as int]);
        }
        let c = s.get_char(cur);
        if c == '"' {
            proof {
                assert(scur.skip(1) =~= s@.skip(cur + 1));
                assert(parse_str(scur) == Some((Seq::<char>::empty(), s@.skip(cur + 1))));
                assert(acc@ + Seq::<char>::empty() =~= acc@);
            }
            return Some((acc, cur + 1));
        } else if c == '\\' {
            if cur + 1 >= n {
                proof {
                    assert(parse_str(scur) is None);
                }
                return None;
            }
            let c2 = s.get_char(cur + 1);
            proof {
                assert(scur[1] == s@[cur + 1]);
            }
            if c2 == '"' {
                push_char(&mut acc, '"');
                proof {
                    assert(scur.skip(2) =~= s@.skip(cur + 2));
                    assert(parse_str(scur) == parse_str_cons('"', parse_str(s@.skip(cur + 2))));
                }
                cur = cur + 2;
            } else if c2 == '\\' {
                push_char(&mut acc, '\\');
                proof {
                    assert(scur.skip(2) =~= s@.skip(cur + 2));
                    assert(parse_str(scur) == parse_str_cons('\\', parse_str(s@.skip(cur + 2))));
                }
                cur = cur + 2;
            } else if c2 == 'u' {
                if n - cur < 6 {
                    proof {
                        assert(scur.len() < 6);
                        assert(parse_str(scur) is None);
                    }
                    return None;
                }
                let c3 = s.get_char(cur + 2);
                let c4 = s.get_char(cur + 3);
                let h1 = s.get_char(cur + 4);
                let h2 = s.get_char(cur + 5);
                proof {
                    assert(scur[2] == s@[cur + 2]);
                    assert(scur[3] == s@[cur + 3]);
                    assert(scur[4] == s@[cur + 4]);
                    assert(scur[5] == s@[cur + 5]);
                }
                if c3 != '0' || c4 != '0' {
                    proof {
                        assert(parse_str(scur) is None);
                    }
                    return None;
                }
                let v1 = match hex_val_exec(h1) {
                    Some(v1) => v1,
                    None => {
                        proof {
                            assert(parse_str(scur) is None);
                        }
                        return None;
                    },
                };
                let v2 = match hex_val_exec(h2) {
                    Some(v2) => v2,
                    None => {
                        proof {
                            assert(parse_str(scur) is None);
                        }
                        return None;
                    },
                };
                let v = 16 * v1 + v2;
                if v >= 32 {
                    proof {
                        assert(parse_str(scur) is None);
                    }
                    return None;
                }
                let cc = ctrl_char_exec(v);
                proof {
                    assert(exists|x: char| code_of(x) == v);
                    assert(code_of(ctrl_char(v as int)) == v);
                    lemma_char_code_injective(ctrl_char(v as int), cc);
                    assert(scur.skip(6) =~= s@.skip(cur + 6));
                    assert(parse_str(scur) == parse_str_cons(cc, parse_str(s@.skip(cur + 6))));
                }
                push_char(&mut acc, cc);
                cur = cur + 6;
            } else {
                proof {
                    assert(parse_str(scur) is None);
                }
                return None;
            }
        } else if (c as u32) >= 32 {
            push_char(&mut acc, c);
            proof {
                assert(scur.skip(1) =~= s@.skip(cur + 1));
                assert(parse_str(scur) == parse_str_cons(c, parse_str(s@.skip(cur + 1))));
            }
            cur = cur + 1;
        } else {
            proof {
                assert(parse_str(scur) is None);
            }
            return None;
        }
        proof {
            match parse_str(s@.skip(cur as int)) {
                Some(t) => {
                    assert(acc@ + t.0 =~= acc@.drop_last() + (seq![acc@.last()] + t.0));
                },
                None => {},
            }
        }
    }
    proof {
        assert(s@.skip(cur as int).len() == 0);
        assert(parse_str(s@.skip(cur as int)) is None);
    }
    None
}

/// Decode an error code and its closing at position `i`.
fn decode_code(s: &str, j: usize) -> (r: Option<Output>)
    requires
        j <= s@.len(),
    ensures
        match r {
            Some(x) => spec_decode_code(s@.skip(j as int)) == Some(x@),
            None => spec_decode_code(s@.skip(j as int)) is None,
        },
{
    if tail_eq(s, j, "name-taken\"}}") {
        Some(Output::Error(OutputError::NameTaken))
    } else if tail_eq(s, j, "invalid-name\"}}") {
        Some(Output::Error(OutputError::InvalidName))
    } else if tail_eq(s, j, "not-joined\"}}") {
        Some(Output::Error(OutputError::NotJoined))
    } else if tail_eq(s, j, "invalid-message-body\"}}") {
        Some(Output::Error(OutputError::InvalidMessageBody))
    } else if tail_eq(s, j, "invalid-password\"}}") {
        Some(Output::Error(OutputError::InvalidPassword))
    } else if tail_eq(s, j, "invalid-email\"}}") {
        Some(Output::Error(OutputError::InvalidEmail))
    } else if tail_eq(s, j, "player-not-found\"}}") {
        Some(Output::Error(OutputError::PlayerNotFound))
    } else if tail_eq(s, j, "unable-to-verify-password\"}}") {
        Some(Output::Error(OutputError::UnableToVerifyPassword))
    } else if tail_eq(s, j, "logged-in-on-another-client\"}}") {
        Some(Output::Error(OutputError::LoginOnOtherClient))
    } else if tail_eq(s, j, "failed-writing-player-to-database\"}}") {
        Some(Output::Error(OutputError::FailedWritingPlayer))
    } else {
        None
    }
}

/// Decode an input from its canonical text; anything else answers `None`.
pub fn decode_input(s: &str) -> (r: Option<Input>)
    ensures
        match r {
            Some(x) => spec_decode_input(s@) == Some(x@),
            None => spec_decode_input(s@) is None,
        },
{
    proof {
        assert(s@.skip(0) =~= s@);
    }
    if let Some(j) = expect_lit(s, 0, "{\"type\":\"register\",\"payload\":{\"name\":\"") {
        let (name, j1) = match parse_string_at(s, j) {
            Some(t) => t,
            None => {
                return None;
            },
        };
        let j2 = match expect_lit(s, j1, ",\"password\":\"") {
            Some(j2) => j2,
            None => {
                return None;
            },
        };
        let (password, j3) = match parse_string_at(s, j2) {
            Some(t) => t,
            None => {
                return None;
            },
        };
        let j4 = match expect_lit(s, j3, ",\"email\":\"") {
            Some(j4) => j4,
            None => {
                return None;
            },
        };
        let (email, j5) = match parse_string_at(s, j4) {
            Some(t) => t,
            None => {
                return None;
            },
        };
        if tail_eq(s, j5, "}}") {
            Some(Input::Register(RegisterInput { name, password, email }))
        } else {
            None
        }
    } else if let Some(j) = expect_lit(s, 0, "{\"type\":\"post\",\"payload\":{\"body\":\"") {
        let (body, j1) = match parse_string_at(s, j) {
            Some(t) => t,
            None => {
                return None;
            },
        };
        if tail_eq(s, j1, "}}") {
            Some(Input::Post(PostInput { body }))
        } else {
            None
        }
    } else if let Some(j) = expect_lit(s, 0, "{\"type\":\"signIn\",\"payload\":{\"name\":\"") {
        let (name, j1) = match parse_string_at(s, j) {
            Some(t) => t,
            None => {
                return None;
            },
        };
        let j2 = match expect_lit(s, j1, ",\"password\":\"") {
            Some(j2) => j2,
            None => {
                return None;
            },
        };
        let (password, j3) = match parse_string_at(s, j2) {
            Some(t) => t,
            None => {
                return None;
            },
        };
        if tail_eq(s, j3, "}}") {
            Some(Input::SignIn(SignInInput { name, password }))
        } else {
            None
        }
    } else {
        None
    }
}

/// Decode an output from its canonical text; anything else answers `None`.
pub fn decode_output(s: &str) -> (r: Option<Output>)
    ensures
        match r {
            Some(x) => spec_decode_output(s@) == Some(x@),
            None => spec_decode_output(s@) is None,
        },
{
    proof {
        assert(s@.skip(0) =~= s@);
    }
    if tail_eq(s, 0, "{\"type\":\"alive\"}") {
        return Some(Output::Alive);
    }
    if tail_eq(s, 0, "{\"type\":\"joined\",\"payload\":{\"success\":true}}") {
        return Some(Output::Joined(JoinedOutput { success: true }));
    }
    if tail_eq(s, 0, "{\"type\":\"joined\",\"payload\":{\"success\":false}}") {
        return Some(Output::Joined(JoinedOutput { success: false }));
    }
    if let Some(j) = expect_lit(s, 0, "{\"type\":\"error\",\"payload\":{\"code\":\"") {
        return decode_code(s, j);
    }
    if let Some(j) = expect_lit(s, 0, "{\"type\":\"message\",\"payload\":{\"message\":\"") {
        let (m, j1) = match parse_string_at(s, j) {
            Some(t) => t,
            None => {
                return None;
            },
        };
        if tail_eq(s, j1, "}}") {
            return Some(Output::Message(MessageOutput { message: m }));
        } else {
            return None;
        }
    }
    None
}

} // verus!
