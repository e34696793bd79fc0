//! The tagged-union parcel protocol spoken between the transport bridge and
//! the hub: inputs carried from a connection, outputs addressed to one.

use vstd::prelude::*;

verus! {

/// A request to create a persisted account and join with it.
#[derive(Clone, Debug)]
pub struct RegisterInput {
    pub name: String,
    pub password: String,
    pub email: String,
}

/// A request to join with an existing account, or as a guest.
#[derive(Clone, Debug)]
pub struct SignInInput {
    pub name: String,
    pub password: String,
}

/// A chat message body sent by a joined connection.
#[derive(Clone, Debug)]
pub struct PostInput {
    pub body: String,
}

/// Everything a client can ask of the hub.
#[derive(Clone, Debug)]
pub enum Input {
    Register(RegisterInput),
    Post(PostInput),
    SignIn(SignInInput),
}

/// The error codes the hub reports back to the originating connection.
#[derive(Clone, Copy, Debug, PartialEq, Eq, Structural)]
pub enum OutputError {
    NameTaken,
    InvalidName,
    NotJoined,
    InvalidMessageBody,
    InvalidPassword,
    InvalidEmail,
    PlayerNotFound,
    UnableToVerifyPassword,
    LoginOnOtherClient,
    FailedWritingPlayer,
}

/// Echo of an accepted chat message.
#[derive(Clone, Debug)]
pub struct MessageOutput {
    pub message: String,
}

/// Result of a register or sign-in attempt.
#[derive(Clone, Copy, Debug, PartialEq, Eq, Structural)]
pub struct JoinedOutput {
    pub success: bool,
}

/// Everything the hub can say to a client.
#[derive(Clone, Debug)]
pub enum Output {
    Error(OutputError),
    Alive,
    Joined(JoinedOutput),
    Message(MessageOutput),
}

/// An input stamped with the connection identity it arrived on.
#[derive(Clone, Debug)]
pub struct InputParcel {
    pub client_id: u128,
    pub input: Input,
}

/// An output stamped with the connection identity it is addressed to.
#[derive(Clone, Debug)]
pub struct OutputParcel {
    pub client_id: u128,
    pub output: Output,
}

/// Mathematical shape of an `Input`: the same variants over `Seq<char>`.
pub enum InputV {
    Register { name: Seq<char>, password: Seq<char>, email: Seq<char> },
    Post { body: Seq<char> },
    SignIn { name: Seq<char>, password: Seq<char> },
}

/// Mathematical shape of an `Output`.
pub enum OutputV {
    Error(OutputError),
    Alive,
    Joined(bool),
    Message(Seq<char>),
}

/// Mathematical shape of an `OutputParcel`.
pub struct OutputParcelV {
    pub client_id: u128,
    pub output: OutputV,
}

/// Mathematical shape of an `InputParcel`.
pub struct InputParcelV {
    pub client_id: u128,
    pub input: InputV,
}

impl View for Input {
    type V = InputV;

    open spec fn view(&self) -> InputV {
        match self {
            Input::Register(r) => InputV::Register {
                name: r.name@,
                password: r.password@,
                email: r.email@,
            },
            Input::Post(p) => InputV::Post { body: p.body@ },
            Input::SignIn(s) => InputV::SignIn { name: s.name@, password: s.password@ },
        }
    }
}

impl View for Output {
    type V = OutputV;

    open spec fn view(&self) -> OutputV {
        match self {
            Output::Error(e) => OutputV::Error(*e),
            Output::Alive => OutputV::Alive,
            Output::Joined(j) => OutputV::Joined(j.success),
            Output::Message(m) => OutputV::Message(m.message@),
        }
    }
}

impl View for InputParcel {
    type V = InputParcelV;

    open spec fn view(&self) -> InputParcelV {
        InputParcelV { client_id: self.client_id, input: self.input@ }
    }
}

impl View for OutputParcel {
    type V = OutputParcelV;

    open spec fn view(&self) -> OutputParcelV {
        OutputParcelV { client_id: self.client_id, output: self.output@ }
    }
}

impl MessageOutput {
    pub fn new(message: String) -> (r: Self)
        ensures
            r.message@ == message@,
    {
        MessageOutput { message }
    }
}

impl JoinedOutput {
    pub fn new(success: bool) -> (r: Self)
        ensures
            r.success == success,
    {
        JoinedOutput { success }
    }
}

impl InputParcel {
    pub fn new(client_id: u128, input: Input) -> (r: Self)
        ensures
            r.client_id == client_id,
            r.input == input,
    {
        InputParcel { client_id, input }
    }
}

impl OutputParcel {
    pub fn new(client_id: u128, output: Output) -> (r: Self)
        ensures
            r.client_id == client_id,
            r.output == output,
    {
        OutputParcel { client_id, output }
    }
}

/// The views of a sequence of output parcels, in order.
pub open spec fn parcels_view(v: Seq<OutputParcel>) -> Seq<OutputParcelV> {
    v.map_values(|p: OutputParcel| p@)
}

pub broadcast proof fn lemma_parcels_view_index(v: Seq<OutputParcel>, i: int)
    requires
        0 <= i < v.len(),
    ensures
        #[trigger] parcels_view(v)[i] == v[i]@,
{
}

/// The single error parcel the hub emits for a rejected input.
pub open spec fn error_parcel(client_id: u128, e: OutputError) -> OutputParcelV {
    OutputParcelV { client_id, output: OutputV::Error(e) }
}

} // verus!
