//! How a change request follows its approval, from its submission to its end.

use crate::flow::column_text;
use crate::handlers::cr::{apply_task, new_instance, one_runs, submitted, SubmitInput, SubmitStageV};
use crate::handlers::flow_cb::{
    event_action, is_newest, link_cr, looked, mdm_link, sync_current, synced, withdrawn,
    EventAction, StatusStageV, SyncInputV, SyncStageV, WithdrawStage,
};
use crate::handlers::flow_step::{FlowActionV, FlowEventV};
use crate::handlers::review::{
    located, open_task, running, LocateActionV, LocateInput, LocateStageV, LocatedV,
};
use crate::json::{json_get, json_i64, json_str, obj_get, JsonV, ObjV};
use crate::outside::lowercase;
use crate::sql::{slot, slots, SqlV, StatementV};
use crate::store::cr_service::head_of;
use crate::store::md_accessor::claim_statement;
use crate::text::{dec_int, has_part, join, radix_text};
use crate::text_laws::law_parsed_in;
use vstd::prelude::*;

verus! {

/// A statement moves a change request from one state to another, and only from there.
pub open spec fn moves_cr(s: StatementV, cr_id: i64, from: Seq<char>, to: Seq<char>) -> bool {
    &&& s.sql
        == "UPDATE cv_mdm_apply SET doc_status = $2, update_time = now() WHERE id = $3 AND doc_status IN ($1)"@
    &&& s.params == seq![SqlV::Text(from), SqlV::Text(to), SqlV::Int(cr_id)]
}

/// A statement sets a change request to a state.
pub open spec fn sets_cr(s: StatementV, cr_id: i64, to: Seq<char>) -> bool {
    &&& s.sql == "UPDATE cv_mdm_apply SET doc_status = $1 WHERE id = $2"@
    &&& s.params == seq![SqlV::Text(to), SqlV::Int(cr_id)]
}

/// The move of a change request names its number, the state that it must be in and the state that
/// it gets.
pub proof fn law_claim_moves(cr_id: i64, from: Seq<char>, to: Seq<char>)
    ensures
        moves_cr(claim_statement(cr_id, seq![from], to), cr_id, from, to),
{
    let s = claim_statement(cr_id, seq![from], to);
    reveal_strlit("UPDATE cv_mdm_apply SET doc_status = ");
    reveal_strlit(", update_time = now() WHERE id = ");
    reveal_strlit(" AND doc_status IN (");
    reveal_strlit(")");
    reveal_strlit("$");
    reveal_strlit(
        "UPDATE cv_mdm_apply SET doc_status = $2, update_time = now() WHERE id = $3 AND doc_status IN ($1)",
    );
    assert(slots(1, 1) =~= seq![slot(1)]);
    assert(join(slots(1, 1), ","@) == slot(1));
    assert(radix_text(1, 10) =~= seq!['1']);
    assert(radix_text(2, 10) =~= seq!['2']);
    assert(radix_text(3, 10) =~= seq!['3']);
    assert(s.sql
        =~= "UPDATE cv_mdm_apply SET doc_status = $2, update_time = now() WHERE id = $3 AND doc_status IN ($1)"@);
    assert(s.params =~= seq![SqlV::Text(from), SqlV::Text(to), SqlV::Int(cr_id)]);
}

/// A synchronisation after a series of events: where it stands, and what it does next.
pub open spec fn sync_run(i: SyncInputV, evs: Seq<FlowEventV>) -> (SyncStageV, FlowActionV)
    decreases evs.len(),
{
    if evs.len() == 0 {
        (SyncStageV::Start, FlowActionV::Finish)
    } else {
        synced(i, sync_run(i, evs.drop_last()).0, evs.last())
    }
}

/// Link `j` is the first that is to a change request, and it names one by its number.
pub open spec fn first_cr_link(links: Seq<JsonV>, j: int, cr_id: i64) -> bool {
    &&& 0 <= j < links.len()
    &&& json_get(links[j], "bizTable"@) == Some(JsonV::Str("cv_mdm_apply"@))
    &&& json_get(links[j], "bizId"@) == Some(JsonV::Str(dec_int(cr_id as int)))
    &&& forall|k: int|
        0 <= k < j ==> json_get(#[trigger] links[k], "bizTable"@) != Some(
            JsonV::Str("cv_mdm_apply"@),
        )
}

/// No link is to a change request.
pub open spec fn no_cr_link(links: Seq<JsonV>) -> bool {
    forall|k: int|
        0 <= k < links.len() ==> json_get(#[trigger] links[k], "bizTable"@) != Some(
            JsonV::Str("cv_mdm_apply"@),
        )
}

/// The first of a list of approvals is one of an id.
pub open spec fn newest_of(instances: Seq<JsonV>, id: Seq<char>) -> bool {
    instances.len() > 0 && json_get(instances[0], "instanceId"@) == Some(JsonV::Str(id))
}

proof fn lemma_first_link(links: Seq<JsonV>, j: int, cr_id: i64)
    requires
        first_cr_link(links, j, cr_id),
    ensures
        mdm_link(links) == Some(links[j]),
        link_cr(links[j]) == Some(cr_id),
    decreases j,
{
    law_parsed_in(cr_id as int, i64::MIN as int, i64::MAX as int);
    if j > 0 {
        let d = links.drop_first();
        assert(json_get(links[0], "bizTable"@) != Some(JsonV::Str("cv_mdm_apply"@)));
        assert forall|k: int| 0 <= k < j - 1 implies json_get(#[trigger] d[k], "bizTable"@) != Some(
            JsonV::Str("cv_mdm_apply"@),
        ) by {
            assert(d[k] == links[k + 1]);
        }
        assert(d[j - 1] == links[j]);
        lemma_first_link(d, j - 1, cr_id);
    }
}

proof fn lemma_no_link(links: Seq<JsonV>)
    requires
        no_cr_link(links),
    ensures
        mdm_link(links) is None,
    decreases links.len(),
{
    if links.len() > 0 {
        let d = links.drop_first();
        assert(json_get(links[0], "bizTable"@) != Some(JsonV::Str("cv_mdm_apply"@)));
        assert forall|k: int| 0 <= k < d.len() implies json_get(#[trigger] d[k], "bizTable"@)
            != Some(JsonV::Str("cv_mdm_apply"@)) by {
            assert(d[k] == links[k + 1]);
        }
        lemma_no_link(d);
    }
}

/// The events up to the point where the approval was found to be the newest of a change request.
pub open spec fn found(links: Seq<JsonV>, instances: Seq<JsonV>) -> Seq<FlowEventV> {
    seq![FlowEventV::Begin, FlowEventV::Rows(links), FlowEventV::Rows(instances)]
}

proof fn lemma_found(
    i: SyncInputV,
    links: Seq<JsonV>,
    instances: Seq<JsonV>,
    j: int,
    cr_id: i64,
)
    requires
        i.definition_key.len() == 0 || i.definition_key == i.expected_key,
        first_cr_link(links, j, cr_id),
    ensures
        sync_run(i, found(links, instances)) == (if newest_of(instances, i.instance_id) {
            sync_current(i, cr_id)
        } else {
            (SyncStageV::Over, FlowActionV::Finish)
        }),
        sync_run(i, seq![FlowEventV::Begin]).1 == FlowActionV::ReadLinks(i.instance_id),
        sync_run(i, seq![FlowEventV::Begin, FlowEventV::Rows(links)]).1
            == FlowActionV::ReadInstances(cr_id),
{
    lemma_first_link(links, j, cr_id);
    let a = seq![FlowEventV::Begin];
    let b = seq![FlowEventV::Begin, FlowEventV::Rows(links)];
    let c = found(links, instances);
    assert(a.drop_last() =~= Seq::empty());
    assert(b.drop_last() =~= a);
    assert(c.drop_last() =~= b);
    reveal_with_fuel(sync_run, 2);
    assert(sync_run(i, a) == (SyncStageV::Links, FlowActionV::ReadLinks(i.instance_id)));
    assert(sync_run(i, b) == (SyncStageV::Instances(cr_id), FlowActionV::ReadInstances(cr_id)));
    assert(is_newest(instances, i.instance_id) == newest_of(instances, i.instance_id));
}

proof fn lemma_next(i: SyncInputV, evs: Seq<FlowEventV>, ev: FlowEventV)
    ensures
        sync_run(i, evs.push(ev)) == synced(i, sync_run(i, evs).0, ev),
{
    assert(evs.push(ev).drop_last() =~= evs);
}

proof fn lemma_words()
    ensures
        "completed"@ != "terminated"@,
{
    reveal_strlit("completed");
    reveal_strlit("terminated");
    assert("completed"@.len() == 9 && "terminated"@.len() == 10);
}

/// An approval that passed: the change request that it is about is claimed for writing out of
/// `approving`; where the claim succeeds it is written into the records, and where that fails it is
/// approving again and the failure is reported; where the claim finds nothing, nothing happens.
pub proof fn law_passed_is_written(
    i: SyncInputV,
    links: Seq<JsonV>,
    instances: Seq<JsonV>,
    j: int,
    cr_id: i64,
    v: JsonV,
    n: u64,
    m: Seq<char>,
    last: FlowEventV,
)
    requires
        i.event == "completed"@,
        i.definition_key.len() == 0 || i.definition_key == i.expected_key,
        first_cr_link(links, j, cr_id),
        newest_of(instances, i.instance_id),
        json_get(v, "lastDecision"@) != Some(JsonV::Str("reject"@)),
    ensures
        ({
            let e3 = found(links, instances);
            let e4 = e3.push(FlowEventV::Value(v));
            let e5 = e4.push(FlowEventV::Changed(n));
            let e6 = e5.push(FlowEventV::Failed(m));
            &&& sync_run(i, e3).1 == FlowActionV::ReadVariables(i.instance_id)
            &&& sync_run(i, e4).1 matches FlowActionV::Execute(s) && moves_cr(
                s,
                cr_id,
                "approving"@,
                "activating"@,
            )
            &&& n > 0 ==> {
                &&& sync_run(i, e5).1 == FlowActionV::Activate(cr_id)
                &&& sync_run(i, e5.push(FlowEventV::Done)).1 == FlowActionV::Finish
                &&& sync_run(i, e6).1 matches FlowActionV::Execute(s) && moves_cr(
                    s,
                    cr_id,
                    "activating"@,
                    "approving"@,
                )
                &&& sync_run(i, e6.push(last)).1 is Fail
            }
            &&& n == 0 ==> sync_run(i, e5).1 == FlowActionV::Finish
        }),
{
    lemma_found(i, links, instances, j, cr_id);
    let e3 = found(links, instances);
    let e4 = e3.push(FlowEventV::Value(v));
    let e5 = e4.push(FlowEventV::Changed(n));
    let e6 = e5.push(FlowEventV::Failed(m));
    lemma_next(i, e3, FlowEventV::Value(v));
    lemma_next(i, e4, FlowEventV::Changed(n));
    lemma_next(i, e5, FlowEventV::Done);
    lemma_next(i, e5, FlowEventV::Failed(m));
    lemma_next(i, e6, last);
    law_claim_moves(cr_id, "approving"@, "activating"@);
    law_claim_moves(cr_id, "activating"@, "approving"@);
    reveal_strlit("reject");
    assert("reject"@.len() == 6);
}

/// An approval that was rejected rejects the change request, out of `approving` alone, and writes
/// nothing.
pub proof fn law_rejected_is_rejected(
    i: SyncInputV,
    links: Seq<JsonV>,
    instances: Seq<JsonV>,
    j: int,
    cr_id: i64,
    v: JsonV,
    n: u64,
)
    requires
        i.event == "completed"@,
        i.definition_key.len() == 0 || i.definition_key == i.expected_key,
        first_cr_link(links, j, cr_id),
        newest_of(instances, i.instance_id),
        json_get(v, "lastDecision"@) == Some(JsonV::Str("reject"@)),
    ensures
        ({
            let e4 = found(links, instances).push(FlowEventV::Value(v));
            &&& sync_run(i, e4).1 matches FlowActionV::Execute(s) && moves_cr(
                s,
                cr_id,
                "approving"@,
                "rejected"@,
            )
            &&& sync_run(i, e4.push(FlowEventV::Changed(n))).1 == FlowActionV::Finish
        }),
{
    lemma_found(i, links, instances, j, cr_id);
    let e3 = found(links, instances);
    let e4 = e3.push(FlowEventV::Value(v));
    lemma_next(i, e3, FlowEventV::Value(v));
    lemma_next(i, e4, FlowEventV::Changed(n));
    law_claim_moves(cr_id, "approving"@, "rejected"@);
}

/// An approval that was cancelled aborts the change request, out of `approving` alone; one that is
/// said to have ended in another state changes nothing.
pub proof fn law_cancelled_is_aborted(
    i: SyncInputV,
    links: Seq<JsonV>,
    instances: Seq<JsonV>,
    j: int,
    cr_id: i64,
)
    requires
        i.event == "terminated"@,
        i.definition_key.len() == 0 || i.definition_key == i.expected_key,
        first_cr_link(links, j, cr_id),
        newest_of(instances, i.instance_id),
    ensures
        i.payload_state == Some("TERMINATED"@) ==> (sync_run(
            i,
            found(links, instances),
        ).1 matches FlowActionV::Execute(s) && moves_cr(s, cr_id, "approving"@, "aborted"@)),
        i.payload_state != Some("TERMINATED"@) ==> sync_run(i, found(links, instances)).1
            == FlowActionV::Finish,
{
    lemma_words();
    lemma_found(i, links, instances, j, cr_id);
    law_claim_moves(cr_id, "approving"@, "aborted"@);
}

/// Nothing is done about an approval of another definition, one that is about no change request, or
/// one that is not the newest of its change request.
pub proof fn law_sync_ignores(
    i: SyncInputV,
    links: Seq<JsonV>,
    instances: Seq<JsonV>,
    j: int,
    cr_id: i64,
)
    ensures
        i.definition_key.len() > 0 && i.definition_key != i.expected_key ==> sync_run(
            i,
            seq![FlowEventV::Begin],
        ).1 == FlowActionV::Finish,
        (i.definition_key.len() == 0 || i.definition_key == i.expected_key) && no_cr_link(links)
            ==> sync_run(i, seq![FlowEventV::Begin, FlowEventV::Rows(links)]).1
            == FlowActionV::Finish,
        (i.definition_key.len() == 0 || i.definition_key == i.expected_key) && first_cr_link(
            links,
            j,
            cr_id,
        ) && !newest_of(instances, i.instance_id) ==> sync_run(i, found(links, instances)).1
            == FlowActionV::Finish,
{
    let a = seq![FlowEventV::Begin];
    let b = seq![FlowEventV::Begin, FlowEventV::Rows(links)];
    assert(a.drop_last() =~= Seq::empty());
    assert(b.drop_last() =~= a);
    reveal_with_fuel(sync_run, 2);
    if no_cr_link(links) {
        lemma_no_link(links);
    }
    if (i.definition_key.len() == 0 || i.definition_key == i.expected_key) && first_cr_link(
        links,
        j,
        cr_id,
    ) {
        lemma_found(i, links, instances, j, cr_id);
    }
    assert(sync_run(i, a) == synced(i, SyncStageV::Start, FlowEventV::Begin));
    assert(sync_run(i, b) == synced(i, sync_run(i, a).0, FlowEventV::Rows(links)));
}

/// Which events are taken: the end of an approval of the right definition, or of none that is
/// named; a cancellation only where the approval is said to be terminated.
pub proof fn law_events_taken(
    kind: Seq<char>,
    state: Seq<char>,
    definition: Seq<char>,
    expected: Seq<char>,
)
    ensures
        ({
            let a = event_action(kind, state, definition, expected);
            let ours = definition.len() == 0 || definition == expected;
            &&& a == EventAction::SyncCompleted <==> ours && kind == "instance.completed"@
            &&& a == EventAction::SyncTerminated <==> ours && kind == "instance.terminated"@
                && state == "TERMINATED"@
        }),
{
    reveal_strlit("instance.completed");
    reveal_strlit("instance.terminated");
    assert("instance.completed"@.len() == 18 && "instance.terminated"@.len() == 19);
}

/// The head of a change request as it was read is in a state.
pub open spec fn head_is(rows: Seq<JsonV>, cr_id: i64, h: ObjV, state: Seq<char>) -> bool {
    head_of(rows, cr_id) == Ok::<ObjV, Seq<char>>(h) && obj_get(h, "doc_status"@) == Some(
        JsonV::Str(state),
    )
}

/// A submission claims a draft, or a request that was rejected, in the state that it was found in;
/// one that is in any other state is refused.
pub proof fn law_submit_claims(i: SubmitInput, rows: Seq<JsonV>, h: ObjV, state: Seq<char>)
    requires
        head_is(rows, i.cr_id, h, state),
    ensures
        ({
            let r = submitted(i, SubmitStageV::State, FlowEventV::Rows(rows));
            if state == "draft"@ || state == "rejected"@ {
                r.1 matches FlowActionV::Execute(s) && moves_cr(s, i.cr_id, state, "approving"@)
            } else {
                r.1 is Fail
            }
        }),
        rows.len() == 0 ==> submitted(i, SubmitStageV::State, FlowEventV::Rows(rows)).1 is Fail,
        submitted(i, SubmitStageV::Claiming(state), FlowEventV::Changed(0)).1 is Fail,
{
    law_claim_moves(i.cr_id, state, "approving"@);
}

/// An approval is started exactly where none of those that the change request has runs; else the
/// change request is in the state again that it was claimed from.
pub proof fn law_submit_starts_alone(
    i: SubmitInput,
    from: Seq<char>,
    h: ObjV,
    list: Seq<JsonV>,
)
    ensures
        ({
            let r = submitted(i, SubmitStageV::Orphans(from, h), FlowEventV::Rows(list));
            &&& (forall|k: int|
                0 <= k < list.len() ==> json_get(#[trigger] list[k], "state"@) != Some(
                    JsonV::Str("ACTIVE"@),
                )) ==> (r.1 matches FlowActionV::Start(s) && s.definition_key == i.definition_key@
                && s.biz_table == "cv_mdm_apply"@ && s.biz_id == dec_int(i.cr_id as int))
            &&& (exists|k: int|
                0 <= k < list.len() && json_get(#[trigger] list[k], "state"@) == Some(
                    JsonV::Str("ACTIVE"@),
                )) ==> (r.1 matches FlowActionV::Execute(s) && sets_cr(s, i.cr_id, from))
        }),
        submitted(i, SubmitStageV::Starting(from, h), FlowEventV::Failed(from)).1 matches
            FlowActionV::Execute(s) && sets_cr(s, i.cr_id, from),
{
    if exists|k: int|
        0 <= k < list.len() && json_get(#[trigger] list[k], "state"@) == Some(
            JsonV::Str("ACTIVE"@),
        ) {
        let k = choose|k: int|
            0 <= k < list.len() && json_get(#[trigger] list[k], "state"@) == Some(
                JsonV::Str("ACTIVE"@),
            );
        assert(json_str(json_get(list[k], "state"@)) == Some("ACTIVE"@));
        assert(one_runs(list));
    }
    if forall|k: int|
        0 <= k < list.len() ==> json_get(#[trigger] list[k], "state"@) != Some(
            JsonV::Str("ACTIVE"@),
        ) {
        if one_runs(list) {
            let k = choose|k: int|
                0 <= k < list.len() && json_str(json_get(#[trigger] list[k], "state"@)) == Some(
                    "ACTIVE"@,
                );
            assert(json_get(list[k], "state"@) == Some(JsonV::Str("ACTIVE"@)));
        }
    }
}

/// A task waits for the maker of a request: it is open, it has an id, and its node is called so.
pub open spec fn waits_for_maker(t: JsonV) -> bool {
    &&& json_get(t, "completed"@) != Some(JsonV::Bool(true))
    &&& json_get(t, "id"@) is Some && json_get(t, "id"@)->Some_0 is Str
    &&& has_part(
        lowercase(
            match json_get(t, "nodeBpmnId"@) {
                Some(JsonV::Str(n)) => n,
                Some(_) => Seq::empty(),
                None => match json_get(t, "node"@) {
                    Some(JsonV::Str(n)) => n,
                    _ => Seq::empty(),
                },
            },
        ),
        "apply"@,
    )
}

/// Of a new approval the first task that waits for the maker is done for them, in their name; where
/// there is none the submission is over.
pub proof fn law_submit_confirms(
    i: SubmitInput,
    from: Seq<char>,
    h: ObjV,
    view: JsonV,
    tasks: Seq<JsonV>,
    j: int,
)
    requires
        json_get(view, "tasks"@) == Some(JsonV::Arr(tasks)),
        0 <= j <= tasks.len(),
        forall|k: int| 0 <= k < j ==> !waits_for_maker(#[trigger] tasks[k]),
        j < tasks.len() ==> waits_for_maker(tasks[j]),
    ensures
        ({
            let r = submitted(i, SubmitStageV::Starting(from, h), FlowEventV::Value(view));
            if j < tasks.len() {
                r.1 matches FlowActionV::CompleteApply(t, id, user) && json_get(tasks[j], "id"@)
                    == Some(JsonV::Str(t)) && id == new_instance(view) && user == column_text(
                    h,
                    "create_by"@,
                )
            } else {
                r.1 is Answer
            }
        }),
        json_get(view, "id"@) matches Some(JsonV::Str(n)) ==> new_instance(view) == n,
        json_get(view, "id"@) is None ==> (json_get(view, "instanceId"@) matches Some(
            JsonV::Str(n),
        ) ==> new_instance(view) == n),
{
    lemma_apply_task(tasks, j);
}

proof fn lemma_apply_task(tasks: Seq<JsonV>, j: int)
    requires
        0 <= j <= tasks.len(),
        forall|k: int| 0 <= k < j ==> !waits_for_maker(#[trigger] tasks[k]),
        j < tasks.len() ==> waits_for_maker(tasks[j]),
    ensures
        apply_task(tasks) == (if j < tasks.len() {
            json_str(json_get(tasks[j], "id"@))
        } else {
            None
        }),
    decreases j,
{
    if j > 0 {
        let d = tasks.drop_first();
        assert(!waits_for_maker(tasks[0]));
        assert forall|k: int| 0 <= k < j - 1 implies !waits_for_maker(#[trigger] d[k]) by {
            assert(d[k] == tasks[k + 1]);
        }
        if j < tasks.len() {
            assert(d[j - 1] == tasks[j]);
        }
        lemma_apply_task(d, j - 1);
    }
}

/// A change request that is approving is taken back only by whoever made it, where that is known,
/// and one in another state by nobody.
pub proof fn law_withdrawn_by_maker(
    cr_id: i64,
    user: Option<Seq<char>>,
    rows: Seq<JsonV>,
    h: ObjV,
    state: Seq<char>,
    maker: Seq<char>,
)
    requires
        head_is(rows, cr_id, h, state),
        obj_get(h, "create_by"@) == Some(JsonV::Str(maker)),
    ensures
        ({
            let r = withdrawn(cr_id, user, WithdrawStage::Head, FlowEventV::Rows(rows)).1;
            &&& state == "approving"@ && (user == Some(maker) || maker.len() == 0) ==> r
                == FlowActionV::ReadInstances(cr_id)
            &&& state != "approving"@ || (maker.len() > 0 && user != Some(maker)) ==> r is Fail
        }),
{
}

/// A withdrawal cancels the newest approval where it runs, and sets the change request back to a
/// draft once that is done; an approval that has ended is brought in line, and the withdrawal is
/// refused.
pub proof fn law_withdrawal_cancels(
    cr_id: i64,
    user: Option<Seq<char>>,
    list: Seq<JsonV>,
    id: Seq<char>,
    state: Seq<char>,
    next: FlowEventV,
    n: u64,
)
    requires
        list.len() > 0,
        json_get(list[0], "instanceId"@) == Some(JsonV::Str(id)),
        json_get(list[0], "state"@) == Some(JsonV::Str(state)),
    ensures
        ({
            let r = withdrawn(cr_id, user, WithdrawStage::Instances, FlowEventV::Rows(list));
            &&& state == "ACTIVE"@ ==> (r.1 matches FlowActionV::Cancel(x, _) && x == id) && (
            withdrawn(cr_id, user, r.0, FlowEventV::Done).1 matches FlowActionV::Execute(s)
                && sets_cr(s, cr_id, "draft"@))
            &&& state != "ACTIVE"@ ==> (r.1 matches FlowActionV::Sync(x, e, p) && x == id && p
                == Some(state) && e == (if state == "COMPLETED"@ {
                "completed"@
            } else {
                "terminated"@
            })) && withdrawn(cr_id, user, r.0, next).1 is Fail
        }),
        withdrawn(cr_id, user, WithdrawStage::Instances, FlowEventV::Rows(Seq::empty())).1 is Fail,
        withdrawn(cr_id, user, WithdrawStage::Drafting, FlowEventV::Changed(n)).1 is Answer,
{
}

/// A look at a change request that is approving, or being written, brings it in line with its
/// newest approval where that has ended; one that runs is only shown.
pub proof fn law_look_heals(cr_id: i64, b: bool, list: Seq<JsonV>, id: Seq<char>, state: Seq<char>)
    requires
        list.len() > 0,
        json_get(list[0], "instanceId"@) == Some(JsonV::Str(id)),
        json_get(list[0], "state"@) == Some(JsonV::Str(state)),
    ensures
        ({
            let r = looked(cr_id, StatusStageV::Instances(b), FlowEventV::Rows(list)).1;
            &&& state == "COMPLETED"@ ==> r == FlowActionV::Sync(id, "completed"@, None)
            &&& state == "TERMINATED"@ ==> r == FlowActionV::Sync(
                id,
                "terminated"@,
                Some("TERMINATED"@),
            )
            &&& state != "COMPLETED"@ && state != "TERMINATED"@ ==> r is Answer
        }),
{
    reveal_strlit("COMPLETED");
    reveal_strlit("TERMINATED");
    assert("COMPLETED"@.len() == 9 && "TERMINATED"@.len() == 10);
}

/// A change request without an approval is a draft again exactly where it has been approving for
/// too long; one that is being written, or has not been for long, is left alone.
pub proof fn law_look_reverts(cr_id: i64, rows: Seq<JsonV>, n: i64, row: JsonV)
    requires
        rows.len() > 0,
        json_i64(json_get(rows[0], "c"@)) == Some(n),
    ensures
        looked(cr_id, StatusStageV::Instances(false), FlowEventV::Rows(Seq::empty())).1 is Answer,
        looked(cr_id, StatusStageV::Instances(true), FlowEventV::Rows(Seq::empty())).1 matches
            FlowActionV::Query(s) && s.params == seq![SqlV::Int(cr_id), SqlV::Int(300)],
        n > 0 ==> (looked(cr_id, StatusStageV::Stale, FlowEventV::Rows(rows)).1 matches
            FlowActionV::Execute(s) && moves_cr(s, cr_id, "approving"@, "draft"@)),
        n <= 0 ==> looked(cr_id, StatusStageV::Stale, FlowEventV::Rows(rows)).1 is Answer,
{
    law_claim_moves(cr_id, "approving"@, "draft"@);
}

/// Only a change request that is approving or being written has its approval looked at.
pub proof fn law_look_under_way(cr_id: i64, rows: Seq<JsonV>, h: ObjV, state: Seq<char>)
    requires
        head_is(rows, cr_id, h, state),
    ensures
        looked(cr_id, StatusStageV::Head, FlowEventV::Rows(rows)).1 == FlowActionV::ReadInstances(
            cr_id,
        ) <==> state == "approving"@ || state == "activating"@,
{
}

/// Approval `j` is the first that runs.
pub open spec fn first_running(instances: Seq<JsonV>, j: int) -> bool {
    &&& 0 <= j < instances.len()
    &&& json_get(instances[j], "state"@) == Some(JsonV::Str("ACTIVE"@))
    &&& forall|k: int|
        0 <= k < j ==> json_get(#[trigger] instances[k], "state"@) != Some(JsonV::Str("ACTIVE"@))
}

proof fn lemma_running(instances: Seq<JsonV>, j: int)
    requires
        first_running(instances, j),
    ensures
        running(instances) == Some(instances[j]),
    decreases j,
{
    if j > 0 {
        let d = instances.drop_first();
        assert(json_get(instances[0], "state"@) != Some(JsonV::Str("ACTIVE"@)));
        assert forall|k: int| 0 <= k < j - 1 implies json_get(#[trigger] d[k], "state"@) != Some(
            JsonV::Str("ACTIVE"@),
        ) by {
            assert(d[k] == instances[k + 1]);
        }
        assert(d[j - 1] == instances[j]);
        lemma_running(d, j - 1);
    }
}

proof fn lemma_none_running(instances: Seq<JsonV>)
    requires
        forall|k: int|
            0 <= k < instances.len() ==> json_get(#[trigger] instances[k], "state"@) != Some(
                JsonV::Str("ACTIVE"@),
            ),
    ensures
        running(instances) is None,
    decreases instances.len(),
{
    if instances.len() > 0 {
        let d = instances.drop_first();
        assert(json_get(instances[0], "state"@) != Some(JsonV::Str("ACTIVE"@)));
        assert forall|k: int| 0 <= k < d.len() implies json_get(#[trigger] d[k], "state"@) != Some(
            JsonV::Str("ACTIVE"@),
        ) by {
            assert(d[k] == instances[k + 1]);
        }
        lemma_none_running(d);
    }
}

/// A task is open at a node whose name, in lower case, holds a word.
pub open spec fn open_with(t: JsonV, word: Seq<char>) -> bool {
    json_get(t, "completed"@) != Some(JsonV::Bool(true)) && has_part(
        lowercase(
            match json_get(t, "nodeBpmnId"@) {
                Some(JsonV::Str(n)) => n,
                _ => Seq::empty(),
            },
        ),
        word,
    )
}

proof fn lemma_open_task(tasks: Seq<JsonV>, word: Seq<char>, j: int)
    requires
        0 <= j <= tasks.len(),
        forall|k: int| 0 <= k < j ==> !open_with(#[trigger] tasks[k], word),
        j < tasks.len() ==> open_with(tasks[j], word),
    ensures
        open_task(tasks, word) == (if j < tasks.len() {
            Some(tasks[j])
        } else {
            None
        }),
    decreases j,
{
    if j > 0 {
        let d = tasks.drop_first();
        assert(!open_with(tasks[0], word));
        assert forall|k: int| 0 <= k < j - 1 implies !open_with(#[trigger] d[k], word) by {
            assert(d[k] == tasks[k + 1]);
        }
        if j < tasks.len() {
            assert(d[j - 1] == tasks[j]);
        }
        lemma_open_task(d, word, j - 1);
    }
}

/// The task of a change request is looked for in its first approval that runs; where none runs there
/// is none.
pub proof fn law_task_of_running(i: LocateInput, list: Seq<JsonV>, j: int, id: Seq<char>)
    ensures
        first_running(list, j) && json_get(list[j], "instanceId"@) == Some(JsonV::Str(id))
            ==> located(i, LocateStageV::Instances, FlowEventV::Rows(list)).1
            == LocateActionV::Ask(FlowActionV::ReadDetail(id)),
        (forall|k: int|
            0 <= k < list.len() ==> json_get(#[trigger] list[k], "state"@) != Some(
                JsonV::Str("ACTIVE"@),
            )) ==> located(i, LocateStageV::Instances, FlowEventV::Rows(list)).1 is Fail,
{
    if first_running(list, j) {
        lemma_running(list, j);
    }
    if forall|k: int|
        0 <= k < list.len() ==> json_get(#[trigger] list[k], "state"@) != Some(
            JsonV::Str("ACTIVE"@),
        ) {
        lemma_none_running(list);
    }
}

/// The first open task at the node that is asked for is found. Whoever it is assigned to may do it,
/// and nobody else; one that is assigned to nobody may be done by a user who can take it.
pub proof fn law_right_to_task(
    i: LocateInput,
    instance: Seq<char>,
    v: JsonV,
    tasks: Seq<JsonV>,
    j: int,
    id: Seq<char>,
    assignee: Seq<char>,
    pool: Seq<Seq<char>>,
)
    requires
        json_get(v, "tasks"@) == Some(JsonV::Arr(tasks)),
        0 <= j < tasks.len(),
        forall|k: int| 0 <= k < j ==> !open_with(#[trigger] tasks[k], i.word@),
        open_with(tasks[j], i.word@),
        json_get(tasks[j], "id"@) == Some(JsonV::Str(id)),
        json_get(tasks[j], "assignee"@) == Some(JsonV::Str(assignee)),
    ensures
        ({
            let r = located(i, LocateStageV::Detail(instance), FlowEventV::Value(v));
            if assignee.len() > 0 || i.user@.len() == 0 {
                r.1 == LocateActionV::Found(
                    LocatedV {
                        instance_id: instance,
                        task_id: id,
                        can: assignee.len() > 0 && assignee == i.user@,
                    },
                )
            } else {
                &&& r.1 == LocateActionV::Ask(FlowActionV::ReadClaimable(i.user@))
                &&& located(i, r.0, FlowEventV::Names(pool)).1 == LocateActionV::Found(
                    LocatedV { instance_id: instance, task_id: id, can: pool.contains(id) },
                )
            }
        }),
{
    lemma_open_task(tasks, i.word@, j);
}

/// Where no task is open at the node that is asked for there is none to do.
pub proof fn law_no_open_task(i: LocateInput, instance: Seq<char>, v: JsonV, tasks: Seq<JsonV>)
    requires
        json_get(v, "tasks"@) == Some(JsonV::Arr(tasks)),
        forall|k: int| 0 <= k < tasks.len() ==> !open_with(#[trigger] tasks[k], i.word@),
    ensures
        located(i, LocateStageV::Detail(instance), FlowEventV::Value(v)).1 is Fail,
{
    lemma_open_task(tasks, i.word@, tasks.len() as int);
}

} // verus!
