//! What a request came to: one result for each item, and their sum.

use crate::naming::Token;
use vstd::prelude::*;

verus! {

/// Why an item, or a whole request, was not stored.
#[derive(Clone, Copy, Debug, PartialEq, Eq, Structural)]
pub enum ErrorKind {
    /// The request brings more bytes than the policy allows.
    AggregateTooLarge,
    /// The item declares no content type, or one that the policy does not list.
    UnsupportedType,
    /// The item came under another form field than the policy requires.
    WrongField,
    /// Reading the item, or writing, closing or removing its file, failed; or
    /// no unused token was at hand to name it.
    IOFailure,
    /// The item could not be converted: its bytes are no image, or the sink
    /// is set up with an empty size.
    DecodeFailure,
    /// The database did not take the item's row.
    StorageBackendFailure,
}

/// How a request ended.
#[derive(Clone, Copy, Debug, PartialEq, Eq, Structural)]
pub enum Status {
    /// No item that was taken up failed.
    Success,
    /// At least one item that was taken up failed.
    PartialFailure,
    /// The request was turned away whole, before any item was read.
    BadRequest,
}

/// What a [`Location`] holds.
pub enum LocationView {
    /// A file at the given path.
    File { path: Seq<char> },
    /// A row of the table of images, by the reference that the database gave.
    Row { id: i64 },
}

/// Where an artifact lies.
#[derive(Clone, Debug, PartialEq, Eq)]
pub enum Location {
    /// A file at the given path.
    File { path: String },
    /// A row of the table of images, by the reference that the database gave.
    Row { id: i64 },
}

impl View for Location {
    type V = LocationView;

    open spec fn view(&self) -> LocationView {
        match self {
            Location::File { path } => LocationView::File { path: path@ },
            Location::Row { id } => LocationView::Row { id: *id },
        }
    }
}

/// What a [`StoredArtifact`] holds.
pub struct ArtifactView {
    /// The token that names the artifact.
    pub identifier: Seq<char>,
    /// Where the artifact lies.
    pub location: LocationView,
    /// How many bytes the artifact holds.
    pub bytes: u64,
}

/// What became of one accepted item that was stored. Nothing changes it once
/// it is made.
#[derive(Clone, Debug, PartialEq, Eq)]
pub struct StoredArtifact {
    identifier: Token,
    location: Location,
    bytes: u64,
}

impl View for StoredArtifact {
    type V = ArtifactView;

    closed spec fn view(&self) -> ArtifactView {
        ArtifactView {
            identifier: self.identifier@,
            location: self.location@,
            bytes: self.bytes,
        }
    }
}

impl StoredArtifact {
    /// The artifact of the given name, place and size.
    pub fn new(identifier: Token, location: Location, bytes: u64) -> (artifact: StoredArtifact)
        ensures
            artifact@ == (ArtifactView { identifier: identifier@, location: location@, bytes }),
    {
        StoredArtifact { identifier, location, bytes }
    }

    /// The token that names the artifact.
    pub fn identifier(&self) -> (token: &Token)
        ensures
            token@ == self@.identifier,
    {
        &self.identifier
    }

    /// Where the artifact lies.
    pub fn location(&self) -> (location: &Location)
        ensures
            location@ == self@.location,
    {
        &self.location
    }

    /// How many bytes the artifact holds.
    pub fn bytes(&self) -> (n: u64)
        ensures
            n == self@.bytes,
    {
        self.bytes
    }
}

/// What an [`ItemResult`] holds.
pub enum ItemResultView {
    /// The item was stored.
    Stored(ArtifactView),
    /// The item was passed over unread.
    Skipped(ErrorKind),
    /// The item was taken up and not stored.
    Failed(ErrorKind),
}

/// What became of one item of a request.
#[derive(Clone, Debug, PartialEq, Eq)]
pub enum ItemResult {
    /// The item was stored.
    Stored(StoredArtifact),
    /// The item was passed over unread.
    Skipped(ErrorKind),
    /// The item was taken up and not stored.
    Failed(ErrorKind),
}

impl View for ItemResult {
    type V = ItemResultView;

    open spec fn view(&self) -> ItemResultView {
        match self {
            ItemResult::Stored(artifact) => ItemResultView::Stored(artifact@),
            ItemResult::Skipped(kind) => ItemResultView::Skipped(*kind),
            ItemResult::Failed(kind) => ItemResultView::Failed(*kind),
        }
    }
}

/// The views of a sequence of results, in order.
pub open spec fn results(v: Seq<ItemResult>) -> Seq<ItemResultView> {
    v.map_values(|r: ItemResult| r@)
}

/// How many of the items were stored.
pub open spec fn count_stored(items: Seq<ItemResultView>) -> nat
    decreases items.len(),
{
    if items.len() == 0 {
        0
    } else {
        count_stored(items.drop_last()) + if items.last() is Stored {
            1nat
        } else {
            0nat
        }
    }
}

/// How many of the items were passed over.
pub open spec fn count_skipped(items: Seq<ItemResultView>) -> nat
    decreases items.len(),
{
    if items.len() == 0 {
        0
    } else {
        count_skipped(items.drop_last()) + if items.last() is Skipped {
            1nat
        } else {
            0nat
        }
    }
}

/// How many of the items were taken up and not stored.
pub open spec fn count_failed(items: Seq<ItemResultView>) -> nat
    decreases items.len(),
{
    if items.len() == 0 {
        0
    } else {
        count_failed(items.drop_last()) + if items.last() is Failed {
            1nat
        } else {
            0nat
        }
    }
}

/// How many of the items were taken up, stored or not.
pub open spec fn count_processed(items: Seq<ItemResultView>) -> nat {
    count_stored(items) + count_failed(items)
}

/// Whether the database refused the row of one of the items.
pub open spec fn has_backend_failure(items: Seq<ItemResultView>) -> bool {
    exists|i: int|
        0 <= i < items.len() && #[trigger] items[i] == ItemResultView::Failed(
            ErrorKind::StorageBackendFailure,
        )
}

/// How a request ended, from whether it was turned away and what became of
/// its items.
pub open spec fn status_of(refused: bool, items: Seq<ItemResultView>) -> Status {
    if refused {
        Status::BadRequest
    } else if count_failed(items) > 0 {
        Status::PartialFailure
    } else {
        Status::Success
    }
}

/// What an [`UploadOutcome`] holds.
pub struct OutcomeView {
    /// How the request ended.
    pub status: Status,
    /// What became of each item that was read, in the order of the request.
    pub items: Seq<ItemResultView>,
}

/// Whether the status of an outcome is the one that its items give, and an
/// outcome that was turned away holds no item.
pub open spec fn is_consistent(outcome: OutcomeView) -> bool {
    &&& outcome.status == status_of(outcome.status is BadRequest, outcome.items)
    &&& outcome.status is BadRequest ==> outcome.items.len() == 0
}

/// The status code that answers a request: 400 where it was turned away, 500
/// where the database refused the row of an item, 200 otherwise. Only a
/// database sink fails an item in that way, so the two sinks that write files
/// answer 200 or 400.
pub open spec fn http_status_of(outcome: OutcomeView) -> u16 {
    if outcome.status is BadRequest {
        400
    } else if has_backend_failure(outcome.items) {
        500
    } else {
        200
    }
}

/// The result of a whole request. It is made once, when the request is done.
#[derive(Debug, PartialEq, Eq)]
pub struct UploadOutcome {
    status: Status,
    items: Vec<ItemResult>,
}

impl View for UploadOutcome {
    type V = OutcomeView;

    closed spec fn view(&self) -> OutcomeView {
        OutcomeView { status: self.status, items: results(self.items@) }
    }
}

/// Counting one more item adds it to the count that it belongs to.
pub proof fn lemma_counts_push(items: Seq<ItemResultView>, item: ItemResultView)
    ensures
        count_stored(items.push(item)) == count_stored(items) + if item is Stored {
            1nat
        } else {
            0nat
        },
        count_skipped(items.push(item)) == count_skipped(items) + if item is Skipped {
            1nat
        } else {
            0nat
        },
        count_failed(items.push(item)) == count_failed(items) + if item is Failed {
            1nat
        } else {
            0nat
        },
{
    assert(items.push(item).drop_last() =~= items);
}

/// Every item is counted once: stored, passed over and failed items together
/// are all the items.
pub proof fn lemma_counts_partition(items: Seq<ItemResultView>)
    ensures
        count_stored(items) + count_skipped(items) + count_failed(items) == items.len(),
    decreases items.len(),
{
    if items.len() > 0 {
        lemma_counts_partition(items.drop_last());
    }
}

/// A prefix of the results, up to `n`.
spec fn first(items: Seq<ItemResult>, n: int) -> Seq<ItemResultView> {
    results(items.subrange(0, n))
}

proof fn lemma_first_step(items: Seq<ItemResult>, n: int)
    requires
        0 <= n < items.len(),
    ensures
        first(items, n + 1) == first(items, n).push(items[n]@),
        first(items, 0) == Seq::<ItemResultView>::empty(),
        first(items, items.len() as int) == results(items),
{
    assert(items.subrange(0, n + 1) =~= items.subrange(0, n).push(items[n]));
    assert(first(items, n + 1) =~= first(items, n).push(items[n]@));
    assert(first(items, 0) =~= Seq::<ItemResultView>::empty());
    assert(items.subrange(0, items.len() as int) =~= items);
}

impl UploadOutcome {
    #[verifier::type_invariant]
    spec fn well_formed(self) -> bool {
        is_consistent(self@)
    }

    /// The outcome of a request that was turned away whole.
    pub fn refused() -> (outcome: UploadOutcome)
        ensures
            outcome@ == (OutcomeView { status: Status::BadRequest, items: Seq::empty() }),
    {
        let items: Vec<ItemResult> = Vec::new();
        assert(results(items@) =~= Seq::<ItemResultView>::empty());
        UploadOutcome { status: Status::BadRequest, items }
    }

    /// The outcome of a request whose items were read.
    pub fn concluded(items: Vec<ItemResult>) -> (outcome: UploadOutcome)
        ensures
            outcome@ == (OutcomeView {
                status: status_of(false, results(items@)),
                items: results(items@),
            }),
    {
        let failed = count_where(&items, Sort::Failed);
        let status = if failed > 0 {
            Status::PartialFailure
        } else {
            Status::Success
        };
        UploadOutcome { status, items }
    }

    /// How the request ended.
    pub fn status(&self) -> (status: Status)
        ensures
            status == self@.status,
            is_consistent(self@),
    {
        proof {
            use_type_invariant(self);
        }
        self.status
    }

    /// What became of each item that was read, in the order of the request.
    pub fn items(&self) -> (items: &Vec<ItemResult>)
        ensures
            results(items@) == self@.items,
    {
        &self.items
    }

    /// How many items were stored.
    pub fn accepted(&self) -> (n: usize)
        ensures
            n == count_stored(self@.items),
    {
        count_where(&self.items, Sort::Stored)
    }

    /// How many items were passed over unread.
    pub fn skipped(&self) -> (n: usize)
        ensures
            n == count_skipped(self@.items),
    {
        count_where(&self.items, Sort::Skipped)
    }

    /// How many items were taken up and not stored.
    pub fn rejected(&self) -> (n: usize)
        ensures
            n == count_failed(self@.items),
    {
        count_where(&self.items, Sort::Failed)
    }

    /// The status code that answers the request.
    pub fn http_status(&self) -> (code: u16)
        ensures
            code == http_status_of(self@),
    {
        match self.status {
            Status::BadRequest => 400,
            _ => {
                let ghost all = results(self.items@);
                let mut i: usize = 0;
                while i < self.items.len()
                    invariant
                        i <= self.items.len(),
                        all == results(self.items@),
                        !(self.status is BadRequest),
                        forall|k: int|
                            0 <= k < i ==> #[trigger] all[k] != ItemResultView::Failed(
                                ErrorKind::StorageBackendFailure,
                            ),
                    decreases self.items.len() - i,
                {
                    assert(all[i as int] == self.items@[i as int]@);
                    match &self.items[i] {
                        ItemResult::Failed(ErrorKind::StorageBackendFailure) => {
                            assert(all[i as int] == ItemResultView::Failed(
                                ErrorKind::StorageBackendFailure,
                            ));
                            return 500;
                        },
                        _ => {},
                    }
                    i += 1;
                }
                200
            },
        }
    }
}

/// The three things that can become of an item.
#[derive(Clone, Copy, PartialEq, Eq, Structural)]
enum Sort {
    Stored,
    Skipped,
    Failed,
}

/// How many of the items are of the given sort.
spec fn count_of(items: Seq<ItemResultView>, sort: Sort) -> nat {
    match sort {
        Sort::Stored => count_stored(items),
        Sort::Skipped => count_skipped(items),
        Sort::Failed => count_failed(items),
    }
}

/// Counts the items of one sort.
fn count_where(items: &Vec<ItemResult>, sort: Sort) -> (n: usize)
    ensures
        n == count_of(results(items@), sort),
{
    let mut n: usize = 0;
    let mut i: usize = 0;
    proof {
        if items.len() > 0 {
            lemma_first_step(items@, 0);
        } else {
            assert(first(items@, 0) =~= Seq::<ItemResultView>::empty());
            assert(items@.subrange(0, 0) =~= items@);
        }
    }
    while i < items.len()
        invariant
            i <= items.len(),
            n <= i,
            n == count_of(first(items@, i as int), sort),
        decreases items.len() - i,
    {
        proof {
            lemma_first_step(items@, i as int);
            lemma_counts_push(first(items@, i as int), items@[i as int]@);
        }
        let hit: bool = match &items[i] {
            ItemResult::Stored(_) => sort == Sort::Stored,
            ItemResult::Skipped(_) => sort == Sort::Skipped,
            ItemResult::Failed(_) => sort == Sort::Failed,
        };
        if hit {
            n += 1;
        }
        i += 1;
    }
    proof {
        if items.len() > 0 {
            lemma_first_step(items@, 0);
        }
    }
    n
}

} // verus!
