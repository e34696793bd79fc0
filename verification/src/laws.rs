//! The hub's cross-call guarantees, each proved from the outcome
//! predicates that the processing functions ensure.

use vstd::prelude::*;
use crate::hub::{joined_session, register_outcome, sign_in_outcome};
use crate::player::PlayerV;
use crate::proto::{error_parcel, OutputError, OutputParcelV, OutputV};
use crate::registry::map_has_name;
use crate::validate::{email_matches, guest_matches, name_matches, spec_trim};

verus! {

/// Law: a name of the wrong shape is rejected by register with
/// `InvalidName`, and no session is created.
pub proof fn lemma_register_invalid_name(
    pre: Map<u128, PlayerV>,
    post: Map<u128, PlayerV>,
    cid: u128,
    name_raw: Seq<char>,
    email_raw: Seq<char>,
    out: Seq<OutputParcelV>,
)
    requires
        register_outcome(pre, post, cid, name_raw, email_raw, out),
        !name_matches(spec_trim(name_raw)),
    ensures
        out.len() == 1,
        out[0] == error_parcel(cid, OutputError::InvalidName),
        post == pre,
{
}

/// Law: a name of the wrong shape is rejected by sign-in with
/// `InvalidName`, and no session is created — except a guest-pattern name
/// (such as `Guest1`), which the guest bypass admits before the shape is
/// looked at.
pub proof fn lemma_sign_in_invalid_name(
    pre: Map<u128, PlayerV>,
    post: Map<u128, PlayerV>,
    cid: u128,
    name_raw: Seq<char>,
    out: Seq<OutputParcelV>,
)
    requires
        sign_in_outcome(pre, post, cid, name_raw, out),
        !name_matches(spec_trim(name_raw)),
        !guest_matches(spec_trim(name_raw)),
    ensures
        out.len() == 1,
        out[0] == error_parcel(cid, OutputError::InvalidName),
        post == pre,
{
}

/// Law: registering a name twice, in the hub's processing order: when the
/// first register joined, the second is answered `NameTaken`, and the first
/// session stands untouched.
pub proof fn lemma_second_register_name_taken(
    pre: Map<u128, PlayerV>,
    mid: Map<u128, PlayerV>,
    post: Map<u128, PlayerV>,
    cid1: u128,
    cid2: u128,
    name1: Seq<char>,
    email1: Seq<char>,
    name2: Seq<char>,
    email2: Seq<char>,
    out1: Seq<OutputParcelV>,
    out2: Seq<OutputParcelV>,
)
    requires
        register_outcome(pre, mid, cid1, name1, email1, out1),
        register_outcome(mid, post, cid2, name2, email2, out2),
        spec_trim(name1) == spec_trim(name2),
        email_matches(spec_trim(email2)),
        out1[0].output == OutputV::Joined(true),
    ensures
        out2.len() == 1,
        out2[0] == error_parcel(cid2, OutputError::NameTaken),
        post == mid,
        mid.contains_key(cid1) && mid[cid1].name == spec_trim(name1),
{
    let name = spec_trim(name1);
    // the first call joined, so its name and email were acceptable and the
    // name was free; the session it made now carries the name
    assert(name_matches(name));
    let p = choose|p: PlayerV|
        mid == pre.insert(cid1, p) && #[trigger] joined_session(p, cid1, false) && p.name == name
            && p.email == spec_trim(email1);
    assert(mid.contains_key(cid1) && mid[cid1] == p);
    assert(map_has_name(mid, name));
}

/// Law: two register calls for the same name, processed in either order by
/// the hub's sequential loop, never both join: at most one session appears.
pub proof fn lemma_at_most_one_register(
    pre: Map<u128, PlayerV>,
    mid: Map<u128, PlayerV>,
    post: Map<u128, PlayerV>,
    cid1: u128,
    cid2: u128,
    name1: Seq<char>,
    email1: Seq<char>,
    name2: Seq<char>,
    email2: Seq<char>,
    out1: Seq<OutputParcelV>,
    out2: Seq<OutputParcelV>,
)
    requires
        register_outcome(pre, mid, cid1, name1, email1, out1),
        register_outcome(mid, post, cid2, name2, email2, out2),
        spec_trim(name1) == spec_trim(name2),
    ensures
        !(out1[0].output == OutputV::Joined(true) && out2[0].output == OutputV::Joined(true)),
{
    let name = spec_trim(name1);
    if out1[0].output == OutputV::Joined(true) {
        assert(name_matches(name));
        let p = choose|p: PlayerV|
            mid == pre.insert(cid1, p) && #[trigger] joined_session(p, cid1, false) && p.name
                == name && p.email == spec_trim(email1);
        assert(mid.contains_key(cid1) && mid[cid1] == p);
        assert(map_has_name(mid, name));
        // the second call then ends in an error, whichever storage answers
    }
}

/// Law: a guest-pattern name signs in successfully whatever the password,
/// and an ephemeral guest session is created, bound to the connection.
pub proof fn lemma_guest_signs_in(
    pre: Map<u128, PlayerV>,
    post: Map<u128, PlayerV>,
    cid: u128,
    name_raw: Seq<char>,
    out: Seq<OutputParcelV>,
)
    requires
        sign_in_outcome(pre, post, cid, name_raw, out),
        guest_matches(spec_trim(name_raw)),
    ensures
        out.len() == 1,
        out[0].client_id == cid,
        out[0].output == OutputV::Joined(true),
        exists|p: PlayerV|
            post == pre.insert(cid, p) && #[trigger] joined_session(p, cid, true) && p.name
                == spec_trim(name_raw),
{
}

/// Law: when only one connection's session held a name, disconnecting that
/// connection frees the name: no active session uses it afterwards, so a
/// later register or sign-in passes the active-name check again.
pub proof fn lemma_disconnect_frees_name(m: Map<u128, PlayerV>, cid: u128, name: Seq<char>)
    requires
        forall|k: u128| #[trigger] m.contains_key(k) && m[k].name == name ==> k == cid,
    ensures
        !map_has_name(m.remove(cid), name),
{
    let m2 = m.remove(cid);
    if map_has_name(m2, name) {
        let k = choose|k: u128| #[trigger] m2.contains_key(k) && m2[k].name == name;
        assert(m.contains_key(k) && m[k].name == name);
    }
}

} // verus!
