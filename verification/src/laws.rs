//! What holds of every request, whatever the driver answers.
//!
//! A request is a run of the machine: the states that a sequence of answers
//! leads through, from the initial one. The laws below hold of every run.

use crate::classify::{classification, type_accepted, ItemMetaView};
use crate::length::declared_length_of;
use crate::naming::{is_safe_leaf, is_token, lemma_distinct_tokens_distinct_paths, path_in};
use crate::outcome::{
    count_failed, count_processed, count_skipped, count_stored, http_status_of,
    lemma_counts_push, ErrorKind, ItemResultView, Status,
};
use crate::orchestrator::{
    action_of, artifacts_distinct, artifacts_placed, initial, lemma_transition_wf, outcome_of,
    passed_over, transition, MachineView, StageView,
};
use crate::policy::LimitPolicyView;
use crate::protocol::{touches_storage, ActionView, ReplyView};
use crate::sink::{well_placed, written_by, SinkKind, StorageView};
use vstd::prelude::*;

verus! {

/// One answer of the driver, with the token that is at hand when it comes.
pub struct Input {
    /// The driver's answer.
    pub reply: ReplyView,
    /// The token at hand, if any.
    pub token: Option<Seq<char>>,
}

/// Whether every token of the inputs has the shape of a token.
pub open spec fn tokens_shaped(inputs: Seq<Input>) -> bool {
    forall|i: int|
        0 <= i < inputs.len() ==> ((#[trigger] inputs[i]).token is Some ==> is_token(
            inputs[i].token->0,
        ))
}

/// The state that the inputs lead to from `m`.
pub open spec fn run(m: MachineView, inputs: Seq<Input>) -> MachineView
    decreases inputs.len(),
{
    if inputs.len() == 0 {
        m
    } else {
        transition(run(m, inputs.drop_last()), inputs.last().reply, inputs.last().token)
    }
}

/// How many bytes one step has written: those of the chunk whose writing the
/// answer reports as done.
pub open spec fn step_written(m: MachineView, reply: ReplyView) -> nat {
    match m.stage {
        StageView::Writing(sink) => written_by(sink, reply) as nat,
        _ => 0,
    }
}

/// How many bytes the steps of a run have written.
pub open spec fn run_written(m: MachineView, inputs: Seq<Input>) -> nat
    decreases inputs.len(),
{
    if inputs.len() == 0 {
        0
    } else {
        run_written(m, inputs.drop_last()) + step_written(
            run(m, inputs.drop_last()),
            inputs.last().reply,
        )
    }
}

/// Where every token of the inputs has the shape of a token, so has every
/// token of all but the last of them.
proof fn lemma_tokens_shaped_before(inputs: Seq<Input>)
    requires
        tokens_shaped(inputs),
        inputs.len() > 0,
    ensures
        tokens_shaped(inputs.drop_last()),
{
    let before = inputs.drop_last();
    assert forall|i: int|
        0 <= i < before.len() && (#[trigger] before[i]).token is Some implies is_token(
        before[i].token->0,
    ) by {
        assert(before[i] == inputs[i]);
    }
}

/// The machine starts in a state that a request can reach.
pub proof fn lemma_initial_wf(policy: LimitPolicyView, storage: StorageView)
    ensures
        initial(policy, storage).wf(),
{
}

/// Every state of a run is one that a request can reach. So, whatever the
/// driver answers: no more bytes are written than the policy allows; no more
/// items are taken up than the policy allows; every artifact lies where its
/// token places it; and no two artifacts bear the same token.
pub proof fn lemma_run_wf(m: MachineView, inputs: Seq<Input>)
    requires
        m.wf(),
        tokens_shaped(inputs),
    ensures
        run(m, inputs).wf(),
        run(m, inputs).received <= m.policy.max_aggregate_bytes,
        count_stored(run(m, inputs).items) <= m.policy.max_item_count,
        artifacts_placed(m.storage.directory, run(m, inputs).used, run(m, inputs).items),
        artifacts_distinct(run(m, inputs).items),
        run(m, inputs).policy == m.policy,
        run(m, inputs).storage == m.storage,
    decreases inputs.len(),
{
    if inputs.len() > 0 {
        let before = inputs.drop_last();
        lemma_tokens_shaped_before(inputs);
        lemma_run_wf(m, before);
        let last = inputs.last();
        assert(last == inputs[inputs.len() - 1]);
        lemma_transition_wf(run(m, before), last.reply, last.token);
        lemma_transition_keeps_setup(run(m, before), last.reply, last.token);
    }
}

/// A step changes neither the policy nor the sink's setup.
pub proof fn lemma_transition_keeps_setup(m: MachineView, reply: ReplyView, token: Option<Seq<char>>)
    ensures
        transition(m, reply, token).policy == m.policy,
        transition(m, reply, token).storage == m.storage,
{
}

/// The bytes that the machine counts are the bytes that were written: after
/// any run, the count has grown by the lengths of the chunks whose writing was
/// done, and by nothing else.
pub proof fn lemma_received_counts_written(m: MachineView, inputs: Seq<Input>)
    requires
        m.wf(),
        tokens_shaped(inputs),
    ensures
        run(m, inputs).received == m.received + run_written(m, inputs),
        m.received + run_written(m, inputs) <= m.policy.max_aggregate_bytes,
    decreases inputs.len(),
{
    if inputs.len() > 0 {
        let before = inputs.drop_last();
        lemma_tokens_shaped_before(inputs);
        lemma_received_counts_written(m, before);
        lemma_run_wf(m, before);
        lemma_run_wf(m, inputs);
        let last = inputs.last();
        assert(last == inputs[inputs.len() - 1]);
        lemma_step_counts_written(run(m, before), last.reply, last.token);
    }
}

/// One step adds to the count of bytes what it has written.
pub proof fn lemma_step_counts_written(m: MachineView, reply: ReplyView, token: Option<Seq<char>>)
    requires
        m.wf(),
        token is Some ==> is_token(token->0),
    ensures
        transition(m, reply, token).received == m.received + step_written(m, reply),
{
    match m.stage {
        StageView::Writing(sink) => {
            crate::sink::lemma_sink_step_goes_on_well(
                m.storage,
                sink,
                reply,
                crate::orchestrator::budget_of(m),
                crate::orchestrator::fresh_of(m, token),
            );
        },
        _ => {},
    }
}

/// A request that declares more bytes than the policy allows is turned away
/// at once: the machine is done, its outcome is `BadRequest` with no item, and
/// the action that it asks for is the answer to the client.
pub proof fn lemma_oversized_request_is_refused(
    policy: LimitPolicyView,
    storage: StorageView,
    content_length: Option<Seq<u8>>,
    token: Option<Seq<char>>,
)
    requires
        declared_length_of(content_length) > policy.max_aggregate_bytes,
    ensures
        ({
            let after = transition(
                initial(policy, storage),
                ReplyView::Request { content_length },
                token,
            );
            &&& after.stage is Completed
            &&& after.refused
            &&& action_of(after) == ActionView::Respond
            &&& outcome_of(after).status == Status::BadRequest
            &&& outcome_of(after).items.len() == 0
        }),
{
}

/// A request that is done stays done: whatever comes, its state does not
/// change, and the only action that it asks for is the answer to the client.
/// With the law above: a request that was turned away never asks for an
/// action that touches storage.
pub proof fn lemma_completed_is_final(m: MachineView, inputs: Seq<Input>)
    requires
        m.stage is Completed,
    ensures
        run(m, inputs) == m,
        action_of(run(m, inputs)) == ActionView::Respond,
        !touches_storage(action_of(run(m, inputs))),
    decreases inputs.len(),
{
    if inputs.len() > 0 {
        lemma_completed_is_final(m, inputs.drop_last());
    }
}

/// The machine asks for an action that touches storage only while an accepted
/// item is being stored.
pub proof fn lemma_storage_is_touched_only_for_an_item(m: MachineView)
    ensures
        touches_storage(action_of(m)) ==> m.stage is Writing,
{
}

/// An item is handed to the sink only if it was classified and accepted: the
/// machine begins to store only on the headers of an item that the policy
/// accepts.
pub proof fn lemma_only_accepted_items_are_stored(
    m: MachineView,
    reply: ReplyView,
    token: Option<Seq<char>>,
)
    requires
        !(m.stage is Writing),
        transition(m, reply, token).stage is Writing,
    ensures
        m.stage is AwaitItem,
        reply is Item,
        classification(m.policy, reply->Item_0) is Accept,
{
}

/// An item that declares no content type is passed over: it is counted as
/// skipped for its type, nothing is stored, no token is used, no byte is
/// written, and the next action reads the next item.
pub proof fn lemma_untyped_item_is_passed_over(
    m: MachineView,
    meta: ItemMetaView,
    token: Option<Seq<char>>,
)
    requires
        m.stage is AwaitItem,
        meta.content_type is None,
    ensures
        transition(m, ReplyView::Item(meta), token) == passed_over(m, ErrorKind::UnsupportedType),
{
}

/// An item that declares a content type that the policy does not list is
/// passed over in the same way.
pub proof fn lemma_unlisted_item_is_passed_over(
    m: MachineView,
    meta: ItemMetaView,
    token: Option<Seq<char>>,
)
    requires
        m.stage is AwaitItem,
        meta.content_type is Some,
        !type_accepted(m.policy.accepted_types, meta.content_type->0),
    ensures
        transition(m, ReplyView::Item(meta), token) == passed_over(m, ErrorKind::UnsupportedType),
{
}

/// Passing an item over stores nothing: the counts of stored and failed items,
/// the tokens used and the bytes written stay as they were, one more item is
/// counted as skipped, and the action asked for next touches no storage.
pub proof fn lemma_passing_over_stores_nothing(m: MachineView, kind: ErrorKind)
    requires
        m.stage is AwaitItem,
    ensures
        count_stored(passed_over(m, kind).items) == count_stored(m.items),
        count_failed(passed_over(m, kind).items) == count_failed(m.items),
        count_skipped(passed_over(m, kind).items) == count_skipped(m.items) + 1,
        passed_over(m, kind).used == m.used,
        passed_over(m, kind).received == m.received,
        action_of(passed_over(m, kind)) == ActionView::NextItem,
{
    lemma_counts_push(m.items, ItemResultView::Skipped(kind));
}

/// Once as many items as the policy allows have been taken up, no further
/// item is read: the machine neither waits for an item nor stores one.
pub proof fn lemma_item_count_limit(m: MachineView)
    requires
        m.wf(),
    ensures
        count_processed(m.items) <= m.policy.max_item_count,
        count_processed(m.items) == m.policy.max_item_count ==> !(m.stage is AwaitItem) && !(
        m.stage is Writing),
{
}

/// Two artifacts of one request that are files lie at different paths.
pub proof fn lemma_artifacts_lie_apart(m: MachineView, i: int, j: int)
    requires
        m.wf(),
        0 <= i < j < m.items.len(),
        m.items[i] is Stored,
        m.items[j] is Stored,
        m.items[i]->Stored_0.location is File,
        m.items[j]->Stored_0.location is File,
    ensures
        m.items[i]->Stored_0.identifier != m.items[j]->Stored_0.identifier,
        m.items[i]->Stored_0.location->path != m.items[j]->Stored_0.location->path,
{
    let a = m.items[i]->Stored_0;
    let b = m.items[j]->Stored_0;
    assert(well_placed(m.storage.directory, a));
    assert(well_placed(m.storage.directory, b));
    let first = choose|leaf: Seq<char>| #[trigger]
        is_safe_leaf(a.identifier, leaf) && a.location->path == path_in(m.storage.directory, leaf);
    let second = choose|leaf: Seq<char>| #[trigger]
        is_safe_leaf(b.identifier, leaf) && b.location->path == path_in(m.storage.directory, leaf);
    lemma_distinct_tokens_distinct_paths(
        m.storage.directory,
        a.identifier,
        first,
        b.identifier,
        second,
    );
}

/// The status of an outcome tells the three ways that a request can end
/// apart: turned away whole; every item that was taken up stored; at least
/// one of them failed.
pub proof fn lemma_status_tells_outcomes_apart(m: MachineView)
    requires
        m.wf(),
    ensures
        outcome_of(m).status == Status::BadRequest <==> m.refused,
        outcome_of(m).status == Status::Success <==> !m.refused && count_failed(m.items) == 0,
        outcome_of(m).status == Status::PartialFailure <==> count_failed(m.items) > 0,
{
}

/// A request to a sink that writes files is answered with 200 or with 400:
/// only the database fails an item in the way that is answered with 500.
pub proof fn lemma_file_sinks_answer_200_or_400(m: MachineView)
    requires
        m.wf(),
        m.storage.kind != SinkKind::DatabaseBlob,
    ensures
        http_status_of(outcome_of(m)) == 200 || http_status_of(outcome_of(m)) == 400,
{
}

/// No conversion is asked for to an empty size: while the machine waits for
/// a conversion, the width and the height that it named are above zero.
pub proof fn lemma_conversion_has_a_size(m: MachineView)
    requires
        m.wf(),
        action_of(m) is Transcode,
    ensures
        action_of(m)->width == m.storage.width,
        action_of(m)->height == m.storage.height,
        m.storage.width > 0,
        m.storage.height > 0,
{
}

} // verus!
