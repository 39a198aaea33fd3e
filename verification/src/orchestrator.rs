//! One request, from its length header to its outcome.
//!
//! The orchestrator is a state machine. It starts in `Init`, reads the
//! declared length, then takes the items one by one: each is classified
//! before a byte of it is read, and is either passed over or handed to the
//! sink. When the items have run out, or as many as the policy allows have
//! been taken up, the request is `Completed`.
//!
//! The machine does no I/O. [`Orchestrator::pending_action`] names what is to
//! be done, and [`Orchestrator::step`] takes the answer.

use crate::classify::{classification, classify, Decision, ItemMetaView};
use crate::length::{declared_length, declared_length_of};
use crate::naming::{is_token, Token};
use crate::outcome::{
    count_processed, has_backend_failure, lemma_counts_push, results, status_of, ErrorKind,
    ItemResult, ItemResultView, OutcomeView, UploadOutcome,
};
use crate::policy::{LimitPolicy, LimitPolicyView};
use crate::protocol::{Action, ActionView, Reply, ReplyView};
use crate::sink::{
    lemma_sink_step_finishes_well, lemma_sink_step_goes_on_well, sink_action, sink_opened,
    sink_step, sink_wants_token, sink_wf, token_of, well_placed, Sink, SinkKind, SinkPhase, SinkStep, SinkStepView, SinkView, Storage,
    StorageView,
};
use vstd::prelude::*;

verus! {

/// Where a request stands.
pub enum StageView {
    /// The request has not been looked at.
    Init,
    /// The next item is being read.
    AwaitItem,
    /// An accepted item is being stored.
    Writing(SinkView),
    /// The request is done.
    Completed,
}

/// What an [`Orchestrator`] holds.
pub struct MachineView {
    /// The limits that the request is held to.
    pub policy: LimitPolicyView,
    /// The sink that accepted items are stored to.
    pub storage: StorageView,
    /// Where the request stands.
    pub stage: StageView,
    /// How many bytes of accepted items have been written.
    pub received: u64,
    /// The tokens that the request has used, in the order of their use.
    pub used: Seq<Seq<char>>,
    /// What became of each item that was read, in the order of the request.
    pub items: Seq<ItemResultView>,
    /// Whether the request was turned away for its declared length.
    pub refused: bool,
}

/// The action that the machine waits for the answer to.
pub open spec fn action_of(m: MachineView) -> ActionView {
    match m.stage {
        StageView::Init => ActionView::AwaitRequest,
        StageView::AwaitItem => ActionView::NextItem,
        StageView::Writing(sink) => sink_action(m.storage, sink),
        StageView::Completed => ActionView::Respond,
    }
}

/// How many more bytes the request may bring.
pub open spec fn budget_of(m: MachineView) -> u64 {
    if m.received <= m.policy.max_aggregate_bytes {
        (m.policy.max_aggregate_bytes - m.received) as u64
    } else {
        0
    }
}

/// The token at hand, where the request has not used it yet.
pub open spec fn fresh_of(m: MachineView, token: Option<Seq<char>>) -> Option<Seq<char>> {
    if token is Some && !m.used.contains(token->0) {
        token
    } else {
        None
    }
}

/// The machine as a new request finds it.
pub open spec fn initial(policy: LimitPolicyView, storage: StorageView) -> MachineView {
    MachineView {
        policy,
        storage,
        stage: StageView::Init,
        received: 0,
        used: Seq::empty(),
        items: Seq::empty(),
        refused: false,
    }
}

/// The machine after the length header was read. A request that declares more
/// than the policy allows is turned away before any item is read.
pub open spec fn begun(m: MachineView, content_length: Option<Seq<u8>>) -> MachineView {
    if declared_length_of(content_length) > m.policy.max_aggregate_bytes {
        MachineView { stage: StageView::Completed, refused: true, ..m }
    } else if m.policy.max_item_count == 0 {
        MachineView { stage: StageView::Completed, ..m }
    } else {
        MachineView { stage: StageView::AwaitItem, ..m }
    }
}

/// The machine after an item that was taken up is done. The request is done
/// with it where `stop` is set, or where as many items as the policy allows
/// have been taken up.
pub open spec fn finished(m: MachineView, result: ItemResultView, stop: bool) -> MachineView {
    let items = m.items.push(result);
    MachineView {
        items,
        stage: if stop || count_processed(items) >= m.policy.max_item_count {
            StageView::Completed
        } else {
            StageView::AwaitItem
        },
        ..m
    }
}

/// The machine after an item was passed over.
pub open spec fn passed_over(m: MachineView, kind: ErrorKind) -> MachineView {
    MachineView { items: m.items.push(ItemResultView::Skipped(kind)), ..m }
}

/// The machine after the headers of an item have come. An accepted item
/// needs a token that the request has not used: without one it fails.
pub open spec fn item_arrived(m: MachineView, meta: ItemMetaView, token: Option<Seq<char>>) -> MachineView {
    match classification(m.policy, meta) {
        Decision::SkipUnsupported => passed_over(m, ErrorKind::UnsupportedType),
        Decision::SkipWrongField => passed_over(m, ErrorKind::WrongField),
        Decision::Accept => match fresh_of(m, token) {
            Some(t) => MachineView {
                stage: StageView::Writing(sink_opened(m.storage.kind, t, meta.filename)),
                used: m.used.push(t),
                ..m
            },
            None => finished(m, ItemResultView::Failed(ErrorKind::IOFailure), false),
        },
    }
}

/// The machine after one step of its sink.
pub open spec fn sink_stepped(
    m: MachineView,
    sink: SinkView,
    reply: ReplyView,
    token: Option<Seq<char>>,
) -> MachineView {
    match sink_step(m.storage, sink, reply, budget_of(m), fresh_of(m, token)) {
        SinkStepView::Continue { sink: next, added, drew } => MachineView {
            stage: StageView::Writing(next),
            received: (m.received + added) as u64,
            used: if drew && token is Some {
                m.used.push(token->0)
            } else {
                m.used
            },
            ..m
        },
        SinkStepView::Finished { result, stop } => finished(m, result, stop),
    }
}

/// One step of the machine: from its state, the driver's answer and the token
/// at hand to its next state.
///
/// An answer that is not the one that the pending action succeeds with counts
/// as that action's failure: without a request there is nothing to do, and
/// without a next item the request is done.
pub open spec fn transition(m: MachineView, reply: ReplyView, token: Option<Seq<char>>) -> MachineView {
    match m.stage {
        StageView::Init => match reply {
            ReplyView::Request { content_length } => begun(m, content_length),
            _ => MachineView { stage: StageView::Completed, ..m },
        },
        StageView::AwaitItem => match reply {
            ReplyView::Item(meta) => item_arrived(m, meta, token),
            _ => MachineView { stage: StageView::Completed, ..m },
        },
        StageView::Writing(sink) => sink_stepped(m, sink, reply, token),
        StageView::Completed => m,
    }
}

/// Whether the step makes use of a token: it takes up an accepted item, or
/// begins the conversion of one.
pub open spec fn wants_token(m: MachineView, reply: ReplyView) -> bool {
    match m.stage {
        StageView::AwaitItem => match reply {
            ReplyView::Item(meta) => classification(m.policy, meta) is Accept,
            _ => false,
        },
        StageView::Writing(sink) => sink_wants_token(sink, reply),
        _ => false,
    }
}

/// Whether `after` is what one step leads to from `m`, with a token drawn at
/// random where the step makes use of one. A step that makes use of none is
/// the step without a token.
pub open spec fn stepped(m: MachineView, reply: ReplyView, after: MachineView) -> bool {
    if wants_token(m, reply) {
        exists|t: Seq<char>| is_token(t) && after == #[trigger] transition(m, reply, Some(t))
    } else {
        after == transition(m, reply, None)
    }
}

/// Whether the token is among the used ones and nothing is stored under it.
pub open spec fn is_live(used: Seq<Seq<char>>, items: Seq<ItemResultView>, token: Seq<char>) -> bool {
    &&& used.contains(token)
    &&& forall|i: int|
        0 <= i < items.len() ==> (#[trigger] items[i] matches ItemResultView::Stored(a)
            ==> a.identifier != token)
}

/// Whether every artifact among the items bears a used token and lies where
/// that token places it in the directory.
pub open spec fn artifacts_placed(
    directory: Seq<char>,
    used: Seq<Seq<char>>,
    items: Seq<ItemResultView>,
) -> bool {
    forall|i: int|
        0 <= i < items.len() ==> (#[trigger] items[i] matches ItemResultView::Stored(a)
            ==> used.contains(a.identifier) && well_placed(directory, a))
}

/// Whether no two artifacts among the items bear the same token.
pub open spec fn artifacts_distinct(items: Seq<ItemResultView>) -> bool {
    forall|i: int, j: int|
        0 <= i < j < items.len() ==> (#[trigger] items[i] matches ItemResultView::Stored(a) ==> (
        #[trigger] items[j] matches ItemResultView::Stored(b) ==> a.identifier != b.identifier))
}

/// Whether the sink of the machine fits the rest of it.
pub open spec fn sink_fits(m: MachineView, sink: SinkView) -> bool {
    &&& sink_wf(sink)
    &&& sink.kind == m.storage.kind
    &&& sink.bytes <= m.received
    &&& (sink.phase matches SinkPhase::Write { len } ==> m.received + len
        <= m.policy.max_aggregate_bytes)
    &&& (sink.phase is Transcode ==> m.storage.width > 0 && m.storage.height > 0)
    &&& is_live(m.used, m.items, sink.target.token)
    &&& (sink.product is Some ==> is_live(m.used, m.items, sink.product->0.token))
}

impl MachineView {
    /// Whether the machine is in a state that a request can reach.
    ///
    /// No more bytes are written than the policy allows, and no more items
    /// taken up; nothing is stored for a request that was turned away; every
    /// artifact lies where its token places it; no two artifacts bear the
    /// same token; and only a database sink records a failure of the storage
    /// behind it.
    pub open spec fn wf(self) -> bool {
        &&& self.received <= self.policy.max_aggregate_bytes
        &&& count_processed(self.items) <= self.policy.max_item_count
        &&& (self.stage is AwaitItem || self.stage is Writing) ==> count_processed(self.items)
            < self.policy.max_item_count
        &&& (self.stage is Init || self.refused) ==> self.items.len() == 0 && self.received == 0
            && self.used.len() == 0
        &&& self.refused ==> self.stage is Completed
        &&& forall|i: int| 0 <= i < self.used.len() ==> is_token(#[trigger] self.used[i])
        &&& artifacts_placed(self.storage.directory, self.used, self.items)
        &&& artifacts_distinct(self.items)
        &&& (has_backend_failure(self.items) ==> self.storage.kind == SinkKind::DatabaseBlob)
        &&& (self.stage matches StageView::Writing(sink) ==> sink_fits(self, sink))
    }
}

/// The outcome of a request that is done.
pub open spec fn outcome_of(m: MachineView) -> OutcomeView {
    OutcomeView { status: status_of(m.refused, m.items), items: m.items }
}

/// Recording one more result keeps what holds of the items: where the result
/// is an artifact under a live token that lies where the token places it, the
/// artifacts stay placed and distinct; and a failure of the storage is new
/// only where the result is one.
proof fn lemma_push_result(m: MachineView, result: ItemResultView)
    requires
        m.wf(),
        result matches ItemResultView::Stored(a) ==> is_live(m.used, m.items, a.identifier)
            && well_placed(m.storage.directory, a),
    ensures
        artifacts_placed(m.storage.directory, m.used, m.items.push(result)),
        artifacts_distinct(m.items.push(result)),
        has_backend_failure(m.items.push(result)) ==> has_backend_failure(m.items) || result == (
        ItemResultView::Failed(ErrorKind::StorageBackendFailure)),
{
    let items = m.items.push(result);
    assert forall|i: int| 0 <= i < items.len() implies (
    #[trigger] items[i] matches ItemResultView::Stored(a) ==> m.used.contains(a.identifier)
        && well_placed(m.storage.directory, a)) by {
        if i < m.items.len() {
            assert(items[i] == m.items[i]);
        }
    }
    assert forall|i: int, j: int| 0 <= i < j < items.len() implies (
    #[trigger] items[i] matches ItemResultView::Stored(a) ==> (
    #[trigger] items[j] matches ItemResultView::Stored(b) ==> a.identifier != b.identifier)) by {
        assert(items[i] == m.items[i]);
        if j < m.items.len() {
            assert(items[j] == m.items[j]);
        }
    }
    if has_backend_failure(items) {
        let k = choose|k: int|
            0 <= k < items.len() && #[trigger] items[k] == ItemResultView::Failed(
                ErrorKind::StorageBackendFailure,
            );
        if k < m.items.len() {
            assert(m.items[k] == items[k]);
        }
    }
}

/// Taking up one more item keeps the machine in a state that a request can
/// reach, where the item is no artifact or an artifact under a live token.
proof fn lemma_finished_wf(m: MachineView, result: ItemResultView, stop: bool)
    requires
        m.wf(),
        m.stage is AwaitItem || m.stage is Writing,
        !(result is Skipped),
        result matches ItemResultView::Stored(a) ==> is_live(m.used, m.items, a.identifier)
            && well_placed(m.storage.directory, a),
        result == ItemResultView::Failed(ErrorKind::StorageBackendFailure) ==> m.storage.kind
            == SinkKind::DatabaseBlob,
    ensures
        finished(m, result, stop).wf(),
{
    lemma_counts_push(m.items, result);
    lemma_push_result(m, result);
}

/// Passing an item over keeps the machine in a state that a request can reach.
proof fn lemma_passed_over_wf(m: MachineView, kind: ErrorKind)
    requires
        m.wf(),
        m.stage is AwaitItem,
    ensures
        passed_over(m, kind).wf(),
{
    lemma_counts_push(m.items, ItemResultView::Skipped(kind));
    lemma_push_result(m, ItemResultView::Skipped(kind));
}

/// A token that the request uses for the first time is live, and the tokens
/// that were live stay so.
proof fn lemma_push_used(m: MachineView, token: Seq<char>)
    requires
        m.wf(),
        is_token(token),
        !m.used.contains(token),
    ensures
        is_live(m.used.push(token), m.items, token),
        forall|t: Seq<char>|
            is_live(m.used, m.items, t) ==> #[trigger] is_live(m.used.push(token), m.items, t),
        forall|i: int|
            0 <= i < m.used.push(token).len() ==> is_token(#[trigger] m.used.push(token)[i]),
        artifacts_placed(m.storage.directory, m.used.push(token), m.items),
{
    let used = m.used.push(token);
    assert(used[m.used.len() as int] == token);
    assert forall|t: Seq<char>| m.used.contains(t) implies used.contains(t) by {
        let k = choose|k: int| 0 <= k < m.used.len() && m.used[k] == t;
        assert(used[k] == t);
    }
}

/// Every step leaves the machine in a state that a request can reach.
pub proof fn lemma_transition_wf(m: MachineView, reply: ReplyView, token: Option<Seq<char>>)
    requires
        m.wf(),
        token is Some ==> is_token(token->0),
    ensures
        transition(m, reply, token).wf(),
{
    let next = transition(m, reply, token);
    match m.stage {
        StageView::Init => {},
        StageView::AwaitItem => match reply {
            ReplyView::Item(meta) => match classification(m.policy, meta) {
                Decision::SkipUnsupported => lemma_passed_over_wf(m, ErrorKind::UnsupportedType),
                Decision::SkipWrongField => lemma_passed_over_wf(m, ErrorKind::WrongField),
                Decision::Accept => match fresh_of(m, token) {
                    Some(t) => {
                        lemma_push_used(m, t);
                        crate::naming::lemma_raw_leaf_is_safe(t, meta.filename);
                    },
                    None => lemma_finished_wf(
                        m,
                        ItemResultView::Failed(ErrorKind::IOFailure),
                        false,
                    ),
                },
            },
            _ => {},
        },
        StageView::Writing(sink) => {
            let fresh = fresh_of(m, token);
            lemma_sink_step_goes_on_well(m.storage, sink, reply, budget_of(m), fresh);
            lemma_sink_step_finishes_well(m.storage, sink, reply, budget_of(m), fresh);
            match sink_step(m.storage, sink, reply, budget_of(m), fresh) {
                SinkStepView::Continue { sink: after, added, drew } => {
                    if drew {
                        lemma_push_used(m, token->0);
                    }
                },
                SinkStepView::Finished { result, stop } => {
                    lemma_finished_wf(m, result, stop);
                },
            }
        },
        StageView::Completed => {},
    }
}

/// The views of a sequence of tokens, in order.
pub open spec fn tokens(v: Seq<Token>) -> Seq<Seq<char>> {
    v.map_values(|t: Token| t@)
}

/// Where a request stands.
#[derive(Debug)]
enum Stage {
    Init,
    AwaitItem,
    Writing(Sink),
    Completed,
}

impl View for Stage {
    type V = StageView;

    closed spec fn view(&self) -> StageView {
        match self {
            Stage::Init => StageView::Init,
            Stage::AwaitItem => StageView::AwaitItem,
            Stage::Writing(sink) => StageView::Writing(sink@),
            Stage::Completed => StageView::Completed,
        }
    }
}

/// The state of one request.
#[derive(Debug)]
pub struct Orchestrator {
    policy: LimitPolicy,
    storage: Storage,
    stage: Stage,
    received: u64,
    used: Vec<Token>,
    items: Vec<ItemResult>,
    processed: usize,
    refused: bool,
}

impl View for Orchestrator {
    type V = MachineView;

    closed spec fn view(&self) -> MachineView {
        MachineView {
            policy: self.policy@,
            storage: self.storage@,
            stage: self.stage@,
            received: self.received,
            used: tokens(self.used@),
            items: results(self.items@),
            refused: self.refused,
        }
    }
}

/// Whether the request has used the token.
fn is_used(used: &Vec<Token>, token: &Token) -> (found: bool)
    ensures
        found == tokens(used@).contains(token@),
{
    let ghost all = tokens(used@);
    let mut i: usize = 0;
    while i < used.len()
        invariant
            i <= used.len(),
            all == tokens(used@),
            forall|k: int| 0 <= k < i ==> #[trigger] all[k] != token@,
        decreases used.len() - i,
    {
        assert(all[i as int] == used@[i as int]@);
        if used[i].same_as(token) {
            return true;
        }
        i += 1;
    }
    false
}

/// The token at hand, where the request has not used it yet.
fn fresh_token(used: &Vec<Token>, token: Option<Token>) -> (fresh: Option<Token>)
    ensures
        token_of(fresh) == if token is Some && !tokens(used@).contains(token->0@) {
            token_of(token)
        } else {
            None
        },
{
    match token {
        Some(t) => if is_used(used, &t) {
            None
        } else {
            Some(t)
        },
        None => None,
    }
}

impl Orchestrator {
    #[verifier::type_invariant]
    spec fn well_formed(self) -> bool {
        self@.wf() && self.processed == count_processed(self@.items)
    }

    /// The machine for a new request, under the given policy and storing to
    /// the given sink.
    pub fn new(policy: LimitPolicy, storage: Storage) -> (machine: Orchestrator)
        ensures
            machine@ == initial(policy@, storage@),
            machine@.wf(),
    {
        let used: Vec<Token> = Vec::new();
        let items: Vec<ItemResult> = Vec::new();
        assert(tokens(used@) =~= Seq::<Seq<char>>::empty());
        assert(results(items@) =~= Seq::<ItemResultView>::empty());
        Orchestrator {
            policy,
            storage,
            stage: Stage::Init,
            received: 0,
            used,
            items,
            processed: 0,
            refused: false,
        }
    }

    /// The action that the machine waits for the answer to.
    pub fn pending_action(&self) -> (action: Action)
        ensures
            action@ == action_of(self@),
            self@.wf(),
    {
        proof {
            use_type_invariant(self);
        }
        match &self.stage {
            Stage::Init => Action::AwaitRequest,
            Stage::AwaitItem => Action::NextItem,
            Stage::Writing(sink) => sink.action(&self.storage),
            Stage::Completed => Action::Respond,
        }
    }

    /// Whether the request is done.
    pub fn is_completed(&self) -> (done: bool)
        ensures
            done == (self@.stage is Completed),
    {
        match &self.stage {
            Stage::Completed => true,
            _ => false,
        }
    }

    /// How many bytes of accepted items have been written.
    pub fn received(&self) -> (n: u64)
        ensures
            n == self@.received,
            n <= self@.policy.max_aggregate_bytes,
    {
        proof {
            use_type_invariant(self);
        }
        self.received
    }

    /// How many items have been taken up, stored or not.
    pub fn processed(&self) -> (n: usize)
        ensures
            n == count_processed(self@.items),
            n <= self@.policy.max_item_count,
    {
        proof {
            use_type_invariant(self);
        }
        self.processed
    }

    /// Whether the step that this answer leads to makes use of a token.
    pub fn wants_token(&self, reply: &Reply) -> (wanted: bool)
        ensures
            wanted == wants_token(self@, reply@),
    {
        match &self.stage {
            Stage::AwaitItem => match reply {
                Reply::Item(meta) => match classify(&self.policy, meta) {
                    Decision::Accept => true,
                    _ => false,
                },
                _ => false,
            },
            Stage::Writing(sink) => sink.wants_token(reply),
            _ => false,
        }
    }

    /// The machine after an item that was taken up is done.
    fn conclude_item(
        policy: LimitPolicy,
        storage: Storage,
        received: u64,
        used: Vec<Token>,
        items: Vec<ItemResult>,
        processed: usize,
        result: ItemResult,
        stop: bool,
        Ghost(m): Ghost<MachineView>,
    ) -> (next: Orchestrator)
        requires
            m.wf(),
            m.stage is AwaitItem || m.stage is Writing,
            m.policy == policy@,
            m.storage == storage@,
            m.received == received,
            m.used == tokens(used@),
            m.items == results(items@),
            processed == count_processed(m.items),
            !(result is Skipped),
            finished(m, result@, stop).wf(),
        ensures
            next@ == finished(m, result@, stop),
    {
        let mut items = items;
        proof {
            lemma_counts_push(m.items, result@);
            assert(results(items@.push(result)) =~= results(items@).push(result@));
        }
        items.push(result);
        let processed: usize = processed + 1;
        let stage = if stop || processed >= policy.max_item_count() {
            Stage::Completed
        } else {
            Stage::AwaitItem
        };
        Orchestrator { policy, storage, stage, received, used, items, processed, refused: false }
    }

    /// Takes the machine one step on, with the token at hand.
    ///
    /// The token is used where the step takes up an accepted item or begins a
    /// conversion. If there is none, or the request has used it before, the
    /// item fails with `IOFailure`: no two artifacts of a request ever bear
    /// the same token.
    pub fn advance(self, reply: Reply, token: Option<Token>) -> (next: (Orchestrator, Action))
        ensures
            next.0@ == transition(self@, reply@, token_of(token)),
            next.1@ == action_of(next.0@),
            next.0@.wf(),
    {
        let ghost m = self@;
        proof {
            use_type_invariant(&self);
        }
        proof {
            if let Some(t) = &token {
                use_type_invariant(t);
                t.lemma_shape();
            }
            lemma_transition_wf(m, reply@, token_of(token));
        }
        let Orchestrator { policy, storage, stage, received, used, items, processed, refused } = self;
        let machine = match stage {
            Stage::Init => match reply {
                Reply::Request { content_length } => {
                    let declared = match &content_length {
                        Some(value) => declared_length(Some(value.as_slice())),
                        None => declared_length(None),
                    };
                    if declared > policy.max_aggregate_bytes() {
                        Orchestrator {
                            policy,
                            storage,
                            stage: Stage::Completed,
                            received,
                            used,
                            items,
                            processed,
                            refused: true,
                        }
                    } else if policy.max_item_count() == 0 {
                        Orchestrator {
                            policy,
                            storage,
                            stage: Stage::Completed,
                            received,
                            used,
                            items,
                            processed,
                            refused,
                        }
                    } else {
                        Orchestrator {
                            policy,
                            storage,
                            stage: Stage::AwaitItem,
                            received,
                            used,
                            items,
                            processed,
                            refused,
                        }
                    }
                },
                _ => Orchestrator {
                    policy,
                    storage,
                    stage: Stage::Completed,
                    received,
                    used,
                    items,
                    processed,
                    refused,
                },
            },
            Stage::AwaitItem => match reply {
                Reply::Item(meta) => match classify(&policy, &meta) {
                    Decision::Accept => {
                        let fresh = fresh_token(&used, token);
                        match fresh {
                            Some(t) => {
                                let mut used = used;
                                proof {
                                    assert(tokens(used@.push(t)) =~= tokens(used@).push(t@));
                                }
                                used.push(t.duplicate());
                                assert(tokens(used@) =~= m.used.push(t@));
                                let sink = match &meta.filename {
                                    Some(name) => Sink::open(&storage, t, Some(name.as_str())),
                                    None => Sink::open(&storage, t, None),
                                };
                                Orchestrator {
                                    policy,
                                    storage,
                                    stage: Stage::Writing(sink),
                                    received,
                                    used,
                                    items,
                                    processed,
                                    refused,
                                }
                            },
                            None => Self::conclude_item(
                                policy,
                                storage,
                                received,
                                used,
                                items,
                                processed,
                                ItemResult::Failed(ErrorKind::IOFailure),
                                false,
                                Ghost(m),
                            ),
                        }
                    },
                    decision => {
                        let kind = match decision {
                            Decision::SkipWrongField => ErrorKind::WrongField,
                            _ => ErrorKind::UnsupportedType,
                        };
                        let mut items = items;
                        proof {
                            let skipped = ItemResult::Skipped(kind);
                            lemma_counts_push(m.items, skipped@);
                            assert(results(items@.push(skipped)) =~= results(items@).push(skipped@));
                        }
                        items.push(ItemResult::Skipped(kind));
                        Orchestrator {
                            policy,
                            storage,
                            stage: Stage::AwaitItem,
                            received,
                            used,
                            items,
                            processed,
                            refused,
                        }
                    },
                },
                _ => Orchestrator {
                    policy,
                    storage,
                    stage: Stage::Completed,
                    received,
                    used,
                    items,
                    processed,
                    refused,
                },
            },
            Stage::Writing(sink) => {
                let budget: u64 = policy.max_aggregate_bytes() - received;
                let fresh = fresh_token(&used, token);
                let spare: Option<Token> = match &fresh {
                    Some(t) => if sink.wants_token(&reply) {
                        Some(t.duplicate())
                    } else {
                        None
                    },
                    None => None,
                };
                proof {
                    lemma_sink_step_goes_on_well(
                        m.storage,
                        sink@,
                        reply@,
                        budget,
                        fresh_of(m, token_of(token)),
                    );
                    lemma_sink_step_finishes_well(
                        m.storage,
                        sink@,
                        reply@,
                        budget,
                        fresh_of(m, token_of(token)),
                    );
                }
                match sink.step(&storage, &reply, budget, fresh) {
                    SinkStep::Continue { sink: after, added, drew } => {
                        let mut used = used;
                        match spare {
                            Some(t) => {
                                if drew {
                                    proof {
                                        assert(tokens(used@.push(t)) =~= tokens(used@).push(t@));
                                    }
                                    used.push(t);
                                }
                            },
                            None => {},
                        }
                        Orchestrator {
                            policy,
                            storage,
                            stage: Stage::Writing(after),
                            received: received + added,
                            used,
                            items,
                            processed,
                            refused,
                        }
                    },
                    SinkStep::Finished { result, stop } => Self::conclude_item(
                        policy,
                        storage,
                        received,
                        used,
                        items,
                        processed,
                        result,
                        stop,
                        Ghost(m),
                    ),
                }
            },
            Stage::Completed => Orchestrator {
                policy,
                storage,
                stage: Stage::Completed,
                received,
                used,
                items,
                processed,
                refused,
            },
        };
        let action = machine.pending_action();
        (machine, action)
    }

    /// Takes the machine one step on. Where the step makes use of a token, a
    /// new one is drawn at random.
    pub fn step(self, reply: Reply) -> (next: (Orchestrator, Action))
        ensures
            stepped(self@, reply@, next.0@),
            next.1@ == action_of(next.0@),
            next.0@.wf(),
    {
        let token = if self.wants_token(&reply) {
            Some(Token::generate())
        } else {
            None
        };
        self.advance(reply, token)
    }

    /// The outcome of the request, once it is done.
    pub fn into_outcome(self) -> (outcome: Option<UploadOutcome>)
        ensures
            outcome is Some <==> self@.stage is Completed,
            outcome is Some ==> outcome->0@ == outcome_of(self@),
    {
        proof {
            use_type_invariant(&self);
        }
        match self.stage {
            Stage::Completed => if self.refused {
                assert(results(self.items@) =~= Seq::<ItemResultView>::empty());
                Some(UploadOutcome::refused())
            } else {
                Some(UploadOutcome::concluded(self.items))
            },
            _ => None,
        }
    }
}

} // verus!
