//! How far consumers have read: what the statements make of the stored offsets.

use crate::sql::{SqlV, StatementV};
use crate::store::dispatch_store::{after_update, offset_insert, offset_update};
use vstd::prelude::*;

verus! {

/// The stored offsets: for a consumer and a dictionary the number read last.
pub type Offsets = Map<(Seq<char>, Seq<char>), i64>;

/// What a statement makes of the stored offsets, and how many rows it changes: the update moves an
/// offset that is lower; the insert adds one where there is none; no other statement is run.
pub open spec fn run_offset(s: StatementV, o: Offsets) -> (Offsets, u64) {
    match (s.params[0], s.params[1], s.params[2]) {
        (SqlV::Int(n), SqlV::Text(c), SqlV::Text(d)) => {
            let lower = o.dom().contains((c, d)) && o[(c, d)] < n;
            if s == offset_update(c, d, n) && lower {
                (o.insert((c, d), n), 1)
            } else if s.params.len() == 4 && s.params[3] is Int && s == offset_insert(
                n,
                c,
                d,
                s.params[3]->Int_0,
            ) && !o.dom().contains((c, d)) {
                (o.insert((c, d), s.params[3]->Int_0), 1)
            } else {
                (o, 0)
            }
        },
        _ => (o, 0),
    }
}

/// The stored offsets after a consumer has said how far it read: the update, and where it changed
/// no row the insert.
pub open spec fn acked(o: Offsets, id: i64, c: Seq<char>, d: Seq<char>, seq: i64) -> Offsets {
    let (a, n) = run_offset(offset_update(c, d, seq), o);
    match after_update(id, c, d, seq, n) {
        Some(s) => run_offset(s, a).0,
        None => a,
    }
}

/// The stored offset of a consumer is the greater of the one before and the one it names, or the
/// one it names where it had none; no other offset changes.
pub proof fn law_offset_is_greatest(o: Offsets, id: i64, c: Seq<char>, d: Seq<char>, seq: i64)
    ensures
        acked(o, id, c, d, seq) == o.insert(
            (c, d),
            if o.dom().contains((c, d)) && o[(c, d)] > seq {
                o[(c, d)]
            } else {
                seq
            },
        ),
{
    let u = offset_update(c, d, seq);
    let i = offset_insert(id, c, d, seq);
    assert(u.params.len() == 3 && i.params.len() == 4);
    let new = o.insert(
        (c, d),
        if o.dom().contains((c, d)) && o[(c, d)] > seq {
            o[(c, d)]
        } else {
            seq
        },
    );
    if o.dom().contains((c, d)) && o[(c, d)] >= seq {
        assert(new =~= o);
    }
    assert(offset_update(c, d, id).params.len() == 3);
    assert(acked(o, id, c, d, seq) =~= new);
}

/// A consumer, a dictionary, the number read last, and the id for a new row.
pub struct Ack {
    pub id: i64,
    pub consumer: Seq<char>,
    pub dict: Seq<char>,
    pub seq: i64,
}

/// The stored offsets after a series of these.
pub open spec fn all_acked(o: Offsets, acks: Seq<Ack>) -> Offsets
    decreases acks.len(),
{
    if acks.len() == 0 {
        o
    } else {
        let a = acks.last();
        acked(all_acked(o, acks.drop_last()), a.id, a.consumer, a.dict, a.seq)
    }
}

/// No stored offset is lost or falls, whatever consumers say.
pub proof fn law_offset_never_falls(o: Offsets, acks: Seq<Ack>, key: (Seq<char>, Seq<char>))
    requires
        o.dom().contains(key),
    ensures
        all_acked(o, acks).dom().contains(key),
        all_acked(o, acks)[key] >= o[key],
    decreases acks.len(),
{
    if acks.len() > 0 {
        let a = acks.last();
        law_offset_never_falls(o, acks.drop_last(), key);
        law_offset_is_greatest(
            all_acked(o, acks.drop_last()),
            a.id,
            a.consumer,
            a.dict,
            a.seq,
        );
    }
}

} // verus!
