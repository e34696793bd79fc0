//! The per-connection side of the fan-out channel: every bridge sees every
//! published parcel and keeps only what is addressed to its own connection,
//! in publish order.

use vstd::prelude::*;
use crate::proto::{parcels_view, OutputParcel, OutputParcelV};

verus! {

broadcast use crate::proto::lemma_parcels_view_index;

/// The parcels addressed to one connection, in publish order.
pub open spec fn own_parcels(s: Seq<OutputParcelV>, cid: u128) -> Seq<OutputParcelV> {
    s.filter(|p: OutputParcelV| p.client_id == cid)
}

/// The test a bridge applies to each parcel observed on the channel.
pub fn addressed_to(parcel: &OutputParcel, client_id: u128) -> (b: bool)
    ensures
        b == (parcel.client_id == client_id),
{
    parcel.client_id == client_id
}

/// Keep the parcels addressed to this connection, preserving their order.
pub fn filter_own(outputs: Vec<OutputParcel>, client_id: u128) -> (r: Vec<OutputParcel>)
    ensures
        parcels_view(r@) == own_parcels(parcels_view(outputs@), client_id),
{
    let ghost orig = outputs@;
    let total = outputs.len();
    let mut rem = outputs;
    let mut r: Vec<OutputParcel> = Vec::new();
    let mut j: usize = 0;
    while rem.len() > 0
        invariant
            total == orig.len(),
            j <= orig.len(),
            rem@ =~= orig.skip(j as int),
            parcels_view(r@) =~= own_parcels(parcels_view(orig.take(j as int)), client_id),
        decreases rem@.len(),
    {
        proof {
            assert(orig.skip(j as int).len() > 0);
            assert(j < orig.len());
        }
        let p = rem.remove(0);
        proof {
            reveal(Seq::filter);
            let taken = parcels_view(orig.take(j as int));
            let taken1 = parcels_view(orig.take(j + 1));
            assert(orig.take(j + 1) =~= orig.take(j as int).push(orig[j as int]));
            assert(taken1 =~= taken.push(orig[j as int]@));
            assert(taken1.drop_last() =~= taken);
        }
        if addressed_to(&p, client_id) {
            r.push(p);
        }
        j = j + 1;
        proof {
            assert(rem@ =~= orig.skip(j as int));
        }
    }
    proof {
        assert(orig.take(orig.len() as int) =~= orig);
    }
    r
}

/// Law: a bridge's filtered stream holds only parcels addressed to its own
/// connection.
pub proof fn lemma_subscriber_isolation(s: Seq<OutputParcelV>, cid: u128)
    ensures
        forall|i: int|
            0 <= i < own_parcels(s, cid).len() ==> (#[trigger] own_parcels(s, cid)[i]).client_id
                == cid,
{
    broadcast use vstd::seq_lib::group_seq_lib_default;

    assert forall|i: int|
        0 <= i < own_parcels(s, cid).len() implies (#[trigger] own_parcels(s, cid)[i]).client_id
        == cid by {
        s.lemma_filter_pred(|p: OutputParcelV| p.client_id == cid, i);
    }
}

/// Law: filtering respects publish order: what a bridge sees of two
/// publications in sequence is what it sees of the first, then what it sees
/// of the second.
pub proof fn lemma_fanout_in_order(s: Seq<OutputParcelV>, t: Seq<OutputParcelV>, cid: u128)
    ensures
        own_parcels(s + t, cid) == own_parcels(s, cid) + own_parcels(t, cid),
{
    Seq::filter_distributes_over_add(s, t, |p: OutputParcelV| p.client_id == cid);
}

} // verus!
