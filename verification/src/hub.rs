//! The hub: owns the session registry, processes one input at a time, and
//! answers each with addressed output parcels. Taking the hub by `&mut`
//! gives the single-writer discipline: no two mutations can overlap.

use vstd::prelude::*;
use vstd::utf8::encode_utf8;
use crate::database::Database;
use crate::error::HubError;
use crate::player::{bcrypt_verify_result, Player, PlayerV};
use crate::proto::{
    error_parcel, parcels_view, Input, InputParcel, InputParcelV, InputV, JoinedOutput,
    MessageOutput, Output, OutputError, OutputParcel, OutputParcelV, OutputV, PostInput,
    RegisterInput, SignInInput,
};
use crate::registry::{map_has_name, Registry};
use crate::validate::{
    email_is_valid, email_matches, guest_matches, name_is_guest, name_is_valid, name_matches,
    spec_trim, trimmed,
};

verus! {

broadcast use crate::proto::lemma_parcels_view_index;

/// The longest message body accepted, counted in encoded bytes.
pub const MAX_MESSAGE_BODY_LENGTH: usize = 256;

/// The session registry and its storage collaborator.
pub struct Hub {
    registry: Registry,
    database: Database,
}

impl View for Hub {
    type V = Map<u128, PlayerV>;

    closed spec fn view(&self) -> Map<u128, PlayerV> {
        self.registry@
    }
}

/// A session created by joining: bound to the joining connection, with no
/// moderator standing.
pub open spec fn joined_session(p: PlayerV, cid: u128, is_guest: bool) -> bool {
    p.client_id == Some(cid) && p.is_guest == is_guest && !p.is_mod
}

/// A message body is accepted when its encoding has between 1 and 256
/// bytes.
pub open spec fn body_len_ok(body: Seq<char>) -> bool {
    1 <= encode_utf8(body).len() <= MAX_MESSAGE_BODY_LENGTH
}

/// What processing a register request does, for every storage outcome.
pub open spec fn register_outcome(
    pre: Map<u128, PlayerV>,
    post: Map<u128, PlayerV>,
    cid: u128,
    name_raw: Seq<char>,
    email_raw: Seq<char>,
    out: Seq<OutputParcelV>,
) -> bool {
    let name = spec_trim(name_raw);
    let email = spec_trim(email_raw);
    &&& out.len() == 1
    &&& out[0].client_id == cid
    &&& !name_matches(name) ==> out[0] == error_parcel(cid, OutputError::InvalidName) && post
        == pre
    &&& name_matches(name) && !email_matches(email) ==> out[0] == error_parcel(
        cid,
        OutputError::InvalidEmail,
    ) && post == pre
    &&& name_matches(name) && email_matches(email) && map_has_name(pre, name) ==> out[0]
        == error_parcel(cid, OutputError::NameTaken) && post == pre
    &&& name_matches(name) && email_matches(email) && !map_has_name(pre, name) ==> {
        ||| out[0] == error_parcel(cid, OutputError::NameTaken) && post == pre
        ||| out[0] == error_parcel(cid, OutputError::FailedWritingPlayer) && post == pre
        ||| (out[0].output == OutputV::Joined(true) && exists|p: PlayerV|
            post == pre.insert(cid, p) && #[trigger] joined_session(p, cid, false) && p.name
                == name && p.email == email)
    }
}

/// The errors a sign-in can end in.
pub open spec fn sign_in_error(e: OutputError) -> bool {
    ||| e == OutputError::PlayerNotFound
    ||| e == OutputError::UnableToVerifyPassword
    ||| e == OutputError::InvalidPassword
    ||| e == OutputError::LoginOnOtherClient
    ||| e == OutputError::NameTaken
}

/// What processing a sign-in request does, for every storage outcome. The
/// guest bypass is decided first: a guest-pattern name joins whatever its
/// shape, since the name shape excludes digits.
pub open spec fn sign_in_outcome(
    pre: Map<u128, PlayerV>,
    post: Map<u128, PlayerV>,
    cid: u128,
    name_raw: Seq<char>,
    out: Seq<OutputParcelV>,
) -> bool {
    let name = spec_trim(name_raw);
    &&& out.len() == 1
    &&& out[0].client_id == cid
    &&& guest_matches(name) ==> out[0].output == OutputV::Joined(true) && (exists|p: PlayerV|
        post == pre.insert(cid, p) && #[trigger] joined_session(p, cid, true) && p.name == name
            && p.password == Seq::<char>::empty())
    &&& !guest_matches(name) && !name_matches(name) ==> out[0] == error_parcel(
        cid,
        OutputError::InvalidName,
    ) && post == pre
    &&& !guest_matches(name) && name_matches(name) ==> {
        ||| (out[0].output matches OutputV::Error(e) && sign_in_error(e) && post == pre)
        ||| (out[0].output == OutputV::Joined(true) && !map_has_name(pre, name) && exists|
        p: PlayerV,
        |
            post == pre.insert(cid, p) && #[trigger] joined_session(p, cid, false))
    }
    &&& !guest_matches(name) && name_matches(name) && map_has_name(pre, name) ==> post == pre
        && out[0].output is Error
}

/// What deciding a sign-in against a loaded account record answers, for
/// every value of the record and of the credential check: the one place
/// each sign-in error past validation is pinned to its cause.
pub open spec fn record_outcome(
    pre: Map<u128, PlayerV>,
    post: Map<u128, PlayerV>,
    cid: u128,
    name: Seq<char>,
    password: Seq<char>,
    record: PlayerV,
    out: Seq<OutputParcelV>,
) -> bool {
    let verdict = bcrypt_verify_result(password, record.password);
    &&& out.len() == 1
    &&& out[0].client_id == cid
    &&& verdict is None ==> out[0] == error_parcel(cid, OutputError::UnableToVerifyPassword)
        && post == pre
    &&& verdict == Some(false) ==> out[0] == error_parcel(cid, OutputError::InvalidPassword)
        && post == pre
    &&& verdict == Some(true) && record.client_id is Some ==> out[0] == error_parcel(
        cid,
        OutputError::LoginOnOtherClient,
    ) && post == pre
    &&& verdict == Some(true) && record.client_id is None && map_has_name(pre, name) ==> out[0]
        == error_parcel(cid, OutputError::NameTaken) && post == pre
    &&& verdict == Some(true) && record.client_id is None && !map_has_name(pre, name) ==> out[0].output
        == OutputV::Joined(true) && post == pre.insert(
        cid,
        (PlayerV { client_id: Some(cid), ..record }),
    )
}

/// What processing a post does; the registry never changes.
pub open spec fn post_outcome(
    m: Map<u128, PlayerV>,
    cid: u128,
    body: Seq<char>,
    out: Seq<OutputParcelV>,
) -> bool {
    &&& out.len() == 1
    &&& out[0].client_id == cid
    &&& !m.contains_key(cid) ==> out[0] == error_parcel(cid, OutputError::NotJoined)
    &&& m.contains_key(cid) && !body_len_ok(body) ==> out[0] == error_parcel(
        cid,
        OutputError::InvalidMessageBody,
    )
    &&& m.contains_key(cid) && body_len_ok(body) ==> out[0].output == OutputV::Message(body)
}

/// What processing one parcel does, by its input kind.
pub open spec fn process_outcome(
    pre: Map<u128, PlayerV>,
    post: Map<u128, PlayerV>,
    parcel: InputParcelV,
    out: Seq<OutputParcelV>,
) -> bool {
    match parcel.input {
        InputV::Register { name, password, email } => register_outcome(
            pre,
            post,
            parcel.client_id,
            name,
            email,
            out,
        ),
        InputV::SignIn { name, password } => sign_in_outcome(pre, post, parcel.client_id, name, out),
        InputV::Post { body } => post == pre && post_outcome(pre, parcel.client_id, body, out),
    }
}

impl Hub {
    /// The registry invariant, carried by every hub.
    pub closed spec fn inv(&self) -> bool {
        self.registry.inv()
    }

    /// A hub with no sessions, over a freshly opened store.
    pub fn new() -> (r: Self)
        ensures
            r.inv(),
            r@ == Map::<u128, PlayerV>::empty(),
    {
        Hub { registry: Registry::new(), database: Database::new() }
    }

    /// The one error parcel answering a rejected input.
    fn one_error(&self, client_id: u128, e: OutputError) -> (out: Vec<OutputParcel>)
        ensures
            parcels_view(out@) =~= seq![error_parcel(client_id, e)],
    {
        let mut out: Vec<OutputParcel> = Vec::new();
        out.push(OutputParcel::new(client_id, Output::Error(e)));
        out
    }

    /// The one success parcel answering a join.
    fn one_joined(&self, client_id: u128) -> (out: Vec<OutputParcel>)
        ensures
            parcels_view(out@).len() == 1,
            parcels_view(out@)[0].client_id == client_id,
            parcels_view(out@)[0].output == OutputV::Joined(true),
    {
        let mut out: Vec<OutputParcel> = Vec::new();
        out.push(OutputParcel::new(client_id, Output::Joined(JoinedOutput::new(true))));
        out
    }

    /// Process one register request: validate, consult storage, persist,
    /// and create the session only on a confirmed write.
    pub fn process_register(&mut self, client_id: u128, input: RegisterInput) -> (out: Vec<
        OutputParcel,
    >)
        requires
            old(self).inv(),
        ensures
            final(self).inv(),
            register_outcome(
                old(self)@,
                final(self)@,
                client_id,
                input.name@,
                input.email@,
                parcels_view(out@),
            ),
    {
        let user_name = trimmed(input.name.as_str());
        let email = trimmed(input.email.as_str());

        if !name_is_valid(user_name) {
            return self.one_error(client_id, OutputError::InvalidName);
        }
        if !email_is_valid(email) {
            return self.one_error(client_id, OutputError::InvalidEmail);
        }

        let lookup = self.database.get_user(user_name);
        self.register_with_lookup(client_id, user_name, input.password.as_str(), email, lookup)
    }

    /// Decide a register once storage has answered the account lookup: a
    /// hit is `NameTaken`, exactly, as is a name among the active sessions;
    /// otherwise the account is persisted and the join is owed as soon as
    /// the write confirms (pinned by `finish_register`).
    pub fn register_with_lookup(
        &mut self,
        client_id: u128,
        user_name: &str,
        password: &str,
        email: &str,
        lookup: Result<Player, HubError>,
    ) -> (out: Vec<OutputParcel>)
        requires
            old(self).inv(),
        ensures
            final(self).inv(),
            parcels_view(out@).len() == 1,
            parcels_view(out@)[0].client_id == client_id,
            lookup matches Ok(_) ==> parcels_view(out@)[0] == error_parcel(
                client_id,
                OutputError::NameTaken,
            ) && final(self)@ == old(self)@,
            (lookup matches Err(_)) && map_has_name(old(self)@, user_name@) ==> parcels_view(
                out@,
            )[0] == error_parcel(client_id, OutputError::NameTaken) && final(self)@ == old(self)@,
            (lookup matches Err(_)) && !map_has_name(old(self)@, user_name@) ==> {
                ||| parcels_view(out@)[0] == error_parcel(
                    client_id,
                    OutputError::FailedWritingPlayer,
                ) && final(self)@ == old(self)@
                ||| (parcels_view(out@)[0].output == OutputV::Joined(true) && exists|p: PlayerV|
                    final(self)@ == old(self)@.insert(client_id, p) && #[trigger] joined_session(
                        p,
                        client_id,
                        false,
                    ) && p.name == user_name@ && p.email == email@)
            },
    {
        // the name must be free both in storage and among active sessions
        if let Ok(_) = lookup {
            return self.one_error(client_id, OutputError::NameTaken);
        }
        if self.registry.has_name(user_name) {
            return self.one_error(client_id, OutputError::NameTaken);
        }

        let player = Player::new(user_name, password, email, client_id, false);
        let ghost p = player@;
        let written = match self.database.write_player(&player) {
            Ok(written) => written,
            Err(_) => false,
        };
        let out = self.finish_register(client_id, player, written);
        proof {
            if written {
                assert(joined_session(p, client_id, false));
            }
        }
        out
    }

    /// Commit a register once storage has answered: on a confirmed write
    /// the session is created and the join announced; on anything else
    /// nothing changes and the failure is reported. This pins the outcome
    /// for every answer the store can give.
    pub fn finish_register(&mut self, client_id: u128, player: Player, written: bool) -> (out: Vec<
        OutputParcel,
    >)
        requires
            old(self).inv(),
        ensures
            final(self).inv(),
            parcels_view(out@).len() == 1,
            parcels_view(out@)[0].client_id == client_id,
            written ==> final(self)@ == old(self)@.insert(client_id, player@) && parcels_view(
                out@,
            )[0].output == OutputV::Joined(true),
            !written ==> final(self)@ == old(self)@ && parcels_view(out@)[0] == error_parcel(
                client_id,
                OutputError::FailedWritingPlayer,
            ),
    {
        if written {
            self.registry.insert(client_id, player);
            self.one_joined(client_id)
        } else {
            self.one_error(client_id, OutputError::FailedWritingPlayer)
        }
    }

    /// Decide a sign-in for a loaded account record: check the credential,
    /// the stored binding, and the active names, then bind and join.
    pub fn sign_in_with_record(
        &mut self,
        client_id: u128,
        user_name: &str,
        password: String,
        record: Player,
    ) -> (out: Vec<OutputParcel>)
        requires
            old(self).inv(),
            !record@.is_guest,
            !record@.is_mod,
        ensures
            final(self).inv(),
            record_outcome(
                old(self)@,
                final(self)@,
                client_id,
                user_name@,
                password@,
                record@,
                parcels_view(out@),
            ),
    {
        let mut player = record;
        match Player::verify_password(password, player.password.as_str()) {
            Ok(is_pass_valid) => {
                if !is_pass_valid {
                    return self.one_error(client_id, OutputError::InvalidPassword);
                }
            },
            Err(_) => {
                return self.one_error(client_id, OutputError::UnableToVerifyPassword);
            },
        }
        if let Some(_) = player.get_client() {
            return self.one_error(client_id, OutputError::LoginOnOtherClient);
        }
        if self.registry.has_name(user_name) {
            return self.one_error(client_id, OutputError::NameTaken);
        }
        player.set_client(client_id);
        let ghost p = player@;
        self.registry.insert(client_id, player);
        proof {
            assert(self@ == old(self)@.insert(client_id, p));
        }
        self.one_joined(client_id)
    }

    /// Decide a sign-in once storage has answered the account lookup: a
    /// miss is `PlayerNotFound`, exactly; a loaded record goes to the
    /// credential decision of `sign_in_with_record`.
    pub fn sign_in_with_lookup(
        &mut self,
        client_id: u128,
        user_name: &str,
        password: String,
        lookup: Result<Player, HubError>,
    ) -> (out: Vec<OutputParcel>)
        requires
            old(self).inv(),
            lookup matches Ok(record) ==> !record@.is_guest && !record@.is_mod,
        ensures
            final(self).inv(),
            lookup matches Err(_) ==> parcels_view(out@) =~= seq![
                error_parcel(client_id, OutputError::PlayerNotFound),
            ] && final(self)@ == old(self)@,
            lookup matches Ok(record) ==> record_outcome(
                old(self)@,
                final(self)@,
                client_id,
                user_name@,
                password@,
                record@,
                parcels_view(out@),
            ),
    {
        match lookup {
            Ok(record) => self.sign_in_with_record(client_id, user_name, password, record),
            Err(_) => self.one_error(client_id, OutputError::PlayerNotFound),
        }
    }

    /// Process one sign-in request: a guest name joins at once; otherwise
    /// the name is validated, the account looked up, and the rest decided
    /// by `sign_in_with_lookup` and `sign_in_with_record`.
    pub fn process_sign_in(&mut self, client_id: u128, input: SignInInput) -> (out: Vec<
        OutputParcel,
    >)
        requires
            old(self).inv(),
        ensures
            final(self).inv(),
            sign_in_outcome(old(self)@, final(self)@, client_id, input.name@, parcels_view(out@)),
    {
        let user_name = trimmed(input.name.as_str());

        // a guest name bypasses the name shape and every credential check
        if name_is_guest(user_name) {
            let guest = Player::new(user_name, "", "", client_id, true);
            let ghost p = guest@;
            self.registry.insert(client_id, guest);
            proof {
                assert(self@ == old(self)@.insert(client_id, p));
                assert(joined_session(p, client_id, true));
                assert(p.password =~= Seq::<char>::empty()) by {
                    reveal_strlit("");
                }
            }
            return self.one_joined(client_id);
        }

        if !name_is_valid(user_name) {
            return self.one_error(client_id, OutputError::InvalidName);
        }

        let ghost pw = input.password@;
        let lookup = self.database.get_user(user_name);
        let ghost found = lookup is Ok;
        let ghost rec = (match lookup {
            Ok(ref record) => record@,
            Err(_) => PlayerV {
                id: 0,
                name: Seq::empty(),
                password: Seq::empty(),
                email: Seq::empty(),
                is_guest: false,
                is_mod: false,
                client_id: None,
            },
        });
        let out = self.sign_in_with_lookup(client_id, user_name, input.password, lookup);
        proof {
            if found {
                match bcrypt_verify_result(pw, rec.password) {
                    None => {},
                    Some(b) => {
                        if b {
                            if !map_has_name(old(self)@, spec_trim(input.name@)) {
                                let p = PlayerV { client_id: Some(client_id), ..rec };
                                assert(joined_session(p, client_id, false));
                            }
                        }
                    },
                }
            }
        }
        out
    }

    /// Process one post: only a joined connection may post, the body must
    /// fit, and the message is echoed to the sender alone.
    pub fn process_post(&mut self, client_id: u128, input: PostInput) -> (out: Vec<OutputParcel>)
        requires
            old(self).inv(),
        ensures
            final(self).inv(),
            final(self)@ == old(self)@,
            post_outcome(old(self)@, client_id, input.body@, parcels_view(out@)),
    {
        if !self.registry.contains_client(client_id) {
            return self.one_error(client_id, OutputError::NotJoined);
        }
        let blen = input.body.as_str().as_bytes().len();
        if blen == 0 || blen > MAX_MESSAGE_BODY_LENGTH {
            return self.one_error(client_id, OutputError::InvalidMessageBody);
        }
        let ghost body = input.body@;
        let mut out: Vec<OutputParcel> = Vec::new();
        out.push(OutputParcel::new(client_id, Output::Message(MessageOutput::new(input.body))));
        proof {
            assert(parcels_view(out@) =~= seq![
                OutputParcelV { client_id, output: OutputV::Message(body) },
            ]);
        }
        out
    }

    /// Process one input parcel, sequentially.
    pub fn process(&mut self, parcel: InputParcel) -> (out: Vec<OutputParcel>)
        requires
            old(self).inv(),
        ensures
            final(self).inv(),
            process_outcome(old(self)@, final(self)@, parcel@, parcels_view(out@)),
    {
        match parcel.input {
            Input::Register(input) => self.process_register(parcel.client_id, input),
            Input::SignIn(input) => self.process_sign_in(parcel.client_id, input),
            Input::Post(input) => self.process_post(parcel.client_id, input),
        }
    }

    /// Remove the session bound to a connection, if any; idempotent.
    pub fn on_disconnect(&mut self, client_id: u128)
        requires
            old(self).inv(),
        ensures
            final(self).inv(),
            final(self)@ == old(self)@.remove(client_id),
    {
        let _was_bound = self.registry.remove(client_id);
    }

    /// One `Alive` parcel for every active session, each addressed to its
    /// own connection, no connection twice.
    pub fn heartbeat(&self) -> (out: Vec<OutputParcel>)
        requires
            self.inv(),
        ensures
            forall|i: int|
                0 <= i < out@.len() ==> (#[trigger] parcels_view(out@)[i]).output == OutputV::Alive
                    && self@.contains_key(parcels_view(out@)[i].client_id),
            forall|k: u128|
                self@.contains_key(k) ==> exists|i: int|
                    0 <= i < out@.len() && (#[trigger] parcels_view(out@)[i]).client_id == k,
            forall|i: int, j: int|
                0 <= i < j < out@.len() ==> (#[trigger] parcels_view(out@)[i]).client_id != (
                #[trigger] parcels_view(out@)[j]).client_id,
    {
        let ids = self.registry.client_ids();
        let n = ids.len();
        let mut out: Vec<OutputParcel> = Vec::new();
        let mut i: usize = 0;
        while i < n
            invariant
                0 <= i <= n,
                n == ids@.len(),
                out@.len() == i,
                forall|k: u128| ids@.contains(k) <==> self@.contains_key(k),
                ids@.no_duplicates(),
                forall|j: int|
                    0 <= j < i ==> (#[trigger] out@[j]).client_id == ids@[j] && out@[j].output
                        is Alive,
            decreases n - i,
        {
            out.push(OutputParcel::new(ids[i], Output::Alive));
            i = i + 1;
        }
        proof {
            assert forall|i2: int| 0 <= i2 < out@.len() implies (#[trigger] parcels_view(
                out@,
            )[i2]).output == OutputV::Alive && self@.contains_key(
                parcels_view(out@)[i2].client_id,
            ) by {
                assert(parcels_view(out@)[i2] == out@[i2]@);
                assert(ids@.contains(ids@[i2]));
            }
            assert forall|k: u128| self@.contains_key(k) implies exists|i2: int|
                0 <= i2 < out@.len() && (#[trigger] parcels_view(out@)[i2]).client_id == k by {
                assert(ids@.contains(k));
                let i2 = choose|i2: int| 0 <= i2 < ids@.len() && ids@[i2] == k;
                assert(parcels_view(out@)[i2].client_id == k);
            }
        }
        out
    }
}

impl Default for Hub {
    /// The same hub `new` builds: no sessions, a freshly opened store.
    fn default() -> (r: Self)
        ensures
            r.inv(),
            r@ == Map::<u128, PlayerV>::empty(),
    {
        Hub::new()
    }
}

} // verus!
