//! The three sinks: where the bytes of an accepted item go.
//!
//! A sink is opened for one item, takes its chunks and is finalized. The three
//! kinds differ in what opening and finalizing ask of the driver:
//!
//! * `FilesystemRaw` creates a file, writes to it and closes it. The file is
//!   the artifact.
//! * `FilesystemConverted` does the same with a temporary file. It then has
//!   the image converted into a second file, under a second token, and has the
//!   temporary file removed, whether or not the conversion worked.
//! * `DatabaseBlob` gathers the chunks and inserts them as one row.
//!
//! An item with an empty body is handled like any other: it is finalized on
//! the zero bytes that came. A converting sink that is set up with a width or
//! a height of zero converts nothing: the item fails with `DecodeFailure`
//! before a conversion is asked for.

use crate::naming::{
    converted_leaf, is_safe_leaf, is_token, make_converted_leaf, make_path, make_raw_leaf, path_in,
    raw_leaf, Token,
};
use crate::outcome::{
    ArtifactView, ErrorKind, ItemResult, ItemResultView, Location, LocationView, StoredArtifact,
};
use crate::protocol::{Action, ActionView, Reply, ReplyView};
use vstd::prelude::*;

verus! {

/// The kind of a sink.
#[derive(Clone, Copy, Debug, PartialEq, Eq, Structural)]
pub enum SinkKind {
    /// Items are stored as they came, as files of one directory.
    FilesystemRaw,
    /// Items are converted to images of one size and format, and stored as
    /// files of one directory.
    FilesystemConverted,
    /// Items are stored as they came, as rows of one table.
    DatabaseBlob,
}

/// Whether a sink of this kind writes files.
pub open spec fn writes_files(kind: SinkKind) -> bool {
    kind != SinkKind::DatabaseBlob
}

/// What a [`Storage`] holds.
pub struct StorageView {
    /// The kind of the sink.
    pub kind: SinkKind,
    /// The directory that files are stored in.
    pub directory: Seq<char>,
    /// The width of a converted image, in pixels.
    pub width: u32,
    /// The height of a converted image, in pixels.
    pub height: u32,
    /// The extension of a converted file, which names its format.
    pub extension: Seq<char>,
}

/// The sink that an endpoint stores to, with what it is set up with.
#[derive(Clone, Debug, PartialEq, Eq)]
pub struct Storage {
    kind: SinkKind,
    directory: String,
    width: u32,
    height: u32,
    extension: String,
}

impl View for Storage {
    type V = StorageView;

    closed spec fn view(&self) -> StorageView {
        StorageView {
            kind: self.kind,
            directory: self.directory@,
            width: self.width,
            height: self.height,
            extension: self.extension@,
        }
    }
}

impl Storage {
    /// A sink that stores items as they came, as files of `directory`.
    pub fn raw(directory: String) -> (storage: Storage)
        ensures
            storage@ == (StorageView {
                kind: SinkKind::FilesystemRaw,
                directory: directory@,
                width: 0,
                height: 0,
                extension: Seq::empty(),
            }),
    {
        Storage {
            kind: SinkKind::FilesystemRaw,
            directory,
            width: 0,
            height: 0,
            extension: String::new(),
        }
    }

    /// A sink that stores items as images of `width` by `height` pixels, in
    /// the format that `extension` names, as files of `directory`.
    pub fn converted(directory: String, width: u32, height: u32, extension: String) -> (storage:
        Storage)
        ensures
            storage@ == (StorageView {
                kind: SinkKind::FilesystemConverted,
                directory: directory@,
                width,
                height,
                extension: extension@,
            }),
    {
        Storage { kind: SinkKind::FilesystemConverted, directory, width, height, extension }
    }

    /// A sink that stores items as rows of the table of images.
    pub fn database() -> (storage: Storage)
        ensures
            storage@ == (StorageView {
                kind: SinkKind::DatabaseBlob,
                directory: Seq::empty(),
                width: 0,
                height: 0,
                extension: Seq::empty(),
            }),
    {
        Storage {
            kind: SinkKind::DatabaseBlob,
            directory: String::new(),
            width: 0,
            height: 0,
            extension: String::new(),
        }
    }

    /// The kind of the sink.
    pub fn kind(&self) -> (kind: SinkKind)
        ensures
            kind == self@.kind,
    {
        self.kind
    }

    /// The directory that files are stored in.
    pub fn directory(&self) -> (directory: &str)
        ensures
            directory@ == self@.directory,
    {
        self.directory.as_str()
    }

    /// The width of a converted image, in pixels.
    pub fn width(&self) -> (width: u32)
        ensures
            width == self@.width,
    {
        self.width
    }

    /// The height of a converted image, in pixels.
    pub fn height(&self) -> (height: u32)
        ensures
            height == self@.height,
    {
        self.height
    }

    /// The extension of a converted file.
    pub fn extension(&self) -> (extension: &str)
        ensures
            extension@ == self@.extension,
    {
        self.extension.as_str()
    }
}

/// What is settled about an item while its temporary or partial file is being
/// removed.
#[derive(Clone, Copy, Debug, PartialEq, Eq, Structural)]
pub enum Verdict {
    /// The converted file stands, and holds this many bytes.
    Keep { bytes: u64 },
    /// The item failed.
    Fail(ErrorKind),
}

/// What a sink waits for: the answer to the action that it asked for last.
#[derive(Clone, Copy, Debug, PartialEq, Eq, Structural)]
pub enum SinkPhase {
    /// The item's file is being created.
    Create,
    /// The next chunk is being read.
    AwaitChunk,
    /// A chunk of `len` bytes is being written.
    Write { len: u64 },
    /// The item's file is being closed.
    Close,
    /// The image is being converted.
    Transcode,
    /// The item's file is being removed. With `stop`, the request ends with
    /// this item.
    Remove { verdict: Verdict, stop: bool },
    /// The row is being inserted.
    Insert,
}

/// A file by the token that names it.
pub struct NamedFileView {
    /// The token.
    pub token: Seq<char>,
    /// The file's name in the directory.
    pub leaf: Seq<char>,
}

/// What a [`Sink`] holds.
pub struct SinkView {
    /// The kind of the sink.
    pub kind: SinkKind,
    /// The file that the item is written to. A sink that writes no file
    /// keeps only its token.
    pub target: NamedFileView,
    /// How many bytes of the item have been written.
    pub bytes: u64,
    /// The file that the item is converted into, once a token is drawn for it.
    pub product: Option<NamedFileView>,
    /// What the sink waits for.
    pub phase: SinkPhase,
}

/// Whether the sink holds the token: as the name of its target or of its
/// product.
pub open spec fn holds_token(sink: SinkView, token: Seq<char>) -> bool {
    sink.target.token == token || (sink.product is Some && sink.product->0.token == token)
}

/// Whether a sink is in a state that opening and stepping can lead to.
pub open spec fn sink_wf(sink: SinkView) -> bool {
    &&& is_safe_leaf(sink.target.token, sink.target.leaf)
    &&& sink.product is Some ==> is_safe_leaf(sink.product->0.token, sink.product->0.leaf)
    &&& match sink.phase {
        SinkPhase::Create => writes_files(sink.kind),
        SinkPhase::AwaitChunk => true,
        SinkPhase::Write { len } => sink.bytes + len <= u64::MAX,
        SinkPhase::Close => writes_files(sink.kind),
        SinkPhase::Transcode => sink.kind == SinkKind::FilesystemConverted && sink.product is Some,
        SinkPhase::Remove { verdict, stop } => writes_files(sink.kind) && (verdict is Keep ==> sink.kind
            == SinkKind::FilesystemConverted && sink.product is Some) && verdict != Verdict::Fail(
            ErrorKind::StorageBackendFailure,
        ),
        SinkPhase::Insert => sink.kind == SinkKind::DatabaseBlob,
    }
}

/// The sink as it is opened for an item.
pub open spec fn sink_opened(kind: SinkKind, token: Seq<char>, filename: Option<Seq<char>>) -> SinkView {
    SinkView {
        kind,
        target: NamedFileView { token, leaf: raw_leaf(token, filename) },
        bytes: 0,
        product: None,
        phase: if writes_files(kind) {
            SinkPhase::Create
        } else {
            SinkPhase::AwaitChunk
        },
    }
}

/// The action that a sink waits for the answer to.
pub open spec fn sink_action(storage: StorageView, sink: SinkView) -> ActionView {
    match sink.phase {
        SinkPhase::Create => ActionView::Create { path: path_in(storage.directory, sink.target.leaf) },
        SinkPhase::AwaitChunk => ActionView::NextChunk,
        SinkPhase::Write { len } => ActionView::Write,
        SinkPhase::Close => ActionView::Close,
        SinkPhase::Transcode => ActionView::Transcode {
            source: path_in(storage.directory, sink.target.leaf),
            target: path_in(
                storage.directory,
                match sink.product {
                    Some(product) => product.leaf,
                    None => sink.target.leaf,
                },
            ),
            width: storage.width,
            height: storage.height,
        },
        SinkPhase::Remove { verdict, stop } => ActionView::Remove {
            path: path_in(storage.directory, sink.target.leaf),
        },
        SinkPhase::Insert => ActionView::Insert { identifier: sink.target.token },
    }
}

/// What one step of a sink comes to.
pub enum SinkStepView {
    /// The sink goes on. `added` more bytes are written. With `drew`, the
    /// sink took the fresh token that it was offered.
    Continue { sink: SinkView, added: u64, drew: bool },
    /// The item is done, with this result. With `stop`, so is the request.
    Finished { result: ItemResultView, stop: bool },
}

/// The artifact that is the target of the sink.
pub open spec fn target_artifact(storage: StorageView, sink: SinkView) -> ArtifactView {
    ArtifactView {
        identifier: sink.target.token,
        location: LocationView::File { path: path_in(storage.directory, sink.target.leaf) },
        bytes: sink.bytes,
    }
}

/// The artifact that is the product of the sink, of the given size.
pub open spec fn product_artifact(storage: StorageView, sink: SinkView, bytes: u64) -> ArtifactView {
    let product = match sink.product {
        Some(product) => product,
        None => sink.target,
    };
    ArtifactView {
        identifier: product.token,
        location: LocationView::File { path: path_in(storage.directory, product.leaf) },
        bytes,
    }
}

/// The artifact that is the row that the sink inserted.
pub open spec fn row_artifact(sink: SinkView, id: i64) -> ArtifactView {
    ArtifactView { identifier: sink.target.token, location: LocationView::Row { id }, bytes: sink.bytes }
}

/// The result that a verdict stands for, once the file is removed.
pub open spec fn verdict_result(storage: StorageView, sink: SinkView, verdict: Verdict) -> ItemResultView {
    match verdict {
        Verdict::Keep { bytes } => ItemResultView::Stored(product_artifact(storage, sink, bytes)),
        Verdict::Fail(kind) => ItemResultView::Failed(kind),
    }
}

/// The sink gives the item up. A sink that writes files first has the item's
/// file removed; the other is done at once.
pub open spec fn sink_aborted(sink: SinkView, kind: ErrorKind, stop: bool) -> SinkStepView {
    if writes_files(sink.kind) {
        SinkStepView::Continue {
            sink: SinkView { phase: SinkPhase::Remove { verdict: Verdict::Fail(kind), stop }, ..sink },
            added: 0,
            drew: false,
        }
    } else {
        SinkStepView::Finished { result: ItemResultView::Failed(kind), stop }
    }
}

/// The sink goes on in another phase.
pub open spec fn sink_moved(sink: SinkView, phase: SinkPhase) -> SinkStepView {
    SinkStepView::Continue { sink: SinkView { phase, ..sink }, added: 0, drew: false }
}

/// One step of a sink: from its state and the driver's answer to what comes
/// next.
///
/// `budget` is how many more bytes the request may bring. `fresh` is a token
/// that the request has not used yet, if there is one at hand.
///
/// An answer that is not the one that the pending action succeeds with counts
/// as that action's failure.
pub open spec fn sink_step(
    storage: StorageView,
    sink: SinkView,
    reply: ReplyView,
    budget: u64,
    fresh: Option<Seq<char>>,
) -> SinkStepView {
    match sink.phase {
        SinkPhase::Create => if reply is Done {
            sink_moved(sink, SinkPhase::AwaitChunk)
        } else {
            SinkStepView::Finished { result: ItemResultView::Failed(ErrorKind::IOFailure), stop: false }
        },
        SinkPhase::AwaitChunk => match reply {
            ReplyView::Chunk { len } => if len > budget || sink.bytes + len > u64::MAX {
                sink_aborted(sink, ErrorKind::AggregateTooLarge, true)
            } else {
                sink_moved(sink, SinkPhase::Write { len })
            },
            ReplyView::End => sink_moved(
                sink,
                if writes_files(sink.kind) {
                    SinkPhase::Close
                } else {
                    SinkPhase::Insert
                },
            ),
            _ => sink_aborted(sink, ErrorKind::IOFailure, false),
        },
        SinkPhase::Write { len } => if reply is Done {
            SinkStepView::Continue {
                sink: SinkView {
                    bytes: (sink.bytes + len) as u64,
                    phase: SinkPhase::AwaitChunk,
                    ..sink
                },
                added: len,
                drew: false,
            }
        } else {
            sink_aborted(sink, ErrorKind::IOFailure, false)
        },
        SinkPhase::Close => if reply is Done {
            if sink.kind == SinkKind::FilesystemConverted {
                if storage.width == 0 || storage.height == 0 {
                    sink_aborted(sink, ErrorKind::DecodeFailure, false)
                } else {
                    match fresh {
                        Some(token) => SinkStepView::Continue {
                            sink: SinkView {
                                product: Some(
                                    NamedFileView {
                                        token,
                                        leaf: converted_leaf(token, storage.extension),
                                    },
                                ),
                                phase: SinkPhase::Transcode,
                                ..sink
                            },
                            added: 0,
                            drew: true,
                        },
                        None => sink_aborted(sink, ErrorKind::IOFailure, false),
                    }
                }
            } else {
                SinkStepView::Finished {
                    result: ItemResultView::Stored(target_artifact(storage, sink)),
                    stop: false,
                }
            }
        } else {
            sink_aborted(sink, ErrorKind::IOFailure, false)
        },
        SinkPhase::Transcode => match reply {
            ReplyView::Transcoded { bytes } => sink_moved(
                sink,
                SinkPhase::Remove { verdict: Verdict::Keep { bytes }, stop: false },
            ),
            _ => sink_moved(
                sink,
                SinkPhase::Remove { verdict: Verdict::Fail(ErrorKind::DecodeFailure), stop: false },
            ),
        },
        SinkPhase::Remove { verdict, stop } => if reply is Done {
            SinkStepView::Finished { result: verdict_result(storage, sink, verdict), stop }
        } else {
            SinkStepView::Finished {
                result: ItemResultView::Failed(
                    match verdict {
                        Verdict::Keep { bytes } => ErrorKind::IOFailure,
                        Verdict::Fail(kind) => kind,
                    },
                ),
                stop,
            }
        },
        SinkPhase::Insert => match reply {
            ReplyView::Row { id } => SinkStepView::Finished {
                result: ItemResultView::Stored(row_artifact(sink, id)),
                stop: false,
            },
            _ => SinkStepView::Finished {
                result: ItemResultView::Failed(ErrorKind::StorageBackendFailure),
                stop: false,
            },
        },
    }
}

/// The view of a file name that may be missing.
pub open spec fn name_of(name: Option<&str>) -> Option<Seq<char>> {
    match name {
        Some(n) => Some(n@),
        None => None,
    }
}

/// The view of a token that may be missing.
pub open spec fn token_of(token: Option<Token>) -> Option<Seq<char>> {
    match token {
        Some(t) => Some(t@),
        None => None,
    }
}

/// The sink of one accepted item: the target that its bytes are written to,
/// and what the sink waits for.
#[derive(Debug)]
pub struct Sink {
    kind: SinkKind,
    token: Token,
    leaf: String,
    bytes: u64,
    product: Option<(Token, String)>,
    phase: SinkPhase,
}

impl View for Sink {
    type V = SinkView;

    closed spec fn view(&self) -> SinkView {
        SinkView {
            kind: self.kind,
            target: NamedFileView { token: self.token@, leaf: self.leaf@ },
            bytes: self.bytes,
            product: match self.product {
                Some((token, leaf)) => Some(NamedFileView { token: token@, leaf: leaf@ }),
                None => None,
            },
            phase: self.phase,
        }
    }
}

/// What one step of a sink came to.
#[derive(Debug)]
pub enum SinkStep {
    /// The sink goes on. `added` more bytes are written. With `drew`, the
    /// sink took the fresh token that it was offered.
    Continue { sink: Sink, added: u64, drew: bool },
    /// The item is done, with this result. With `stop`, so is the request.
    Finished { result: ItemResult, stop: bool },
}

impl View for SinkStep {
    type V = SinkStepView;

    open spec fn view(&self) -> SinkStepView {
        match self {
            SinkStep::Continue { sink, added, drew } => SinkStepView::Continue {
                sink: sink@,
                added: *added,
                drew: *drew,
            },
            SinkStep::Finished { result, stop } => SinkStepView::Finished {
                result: result@,
                stop: *stop,
            },
        }
    }
}

impl Sink {
    #[verifier::type_invariant]
    spec fn well_formed(self) -> bool {
        sink_wf(self@)
    }

    /// Opens the sink for one accepted item, under a token of its own.
    pub fn open(storage: &Storage, token: Token, filename: Option<&str>) -> (sink: Sink)
        ensures
            sink@ == sink_opened(storage@.kind, token@, name_of(filename)),
            sink_wf(sink@),
    {
        let leaf = make_raw_leaf(&token, filename);
        let kind = storage.kind();
        let phase = match kind {
            SinkKind::DatabaseBlob => SinkPhase::AwaitChunk,
            _ => SinkPhase::Create,
        };
        Sink { kind, token, leaf, bytes: 0, product: None, phase }
    }

    /// The action that the sink waits for the answer to.
    pub fn action(&self, storage: &Storage) -> (action: Action)
        ensures
            action@ == sink_action(storage@, self@),
            sink_wf(self@),
    {
        proof {
            use_type_invariant(self);
        }
        match self.phase {
            SinkPhase::Create => Action::Create {
                path: make_path(storage.directory(), self.leaf.as_str()),
            },
            SinkPhase::AwaitChunk => Action::NextChunk,
            SinkPhase::Write { len } => Action::Write,
            SinkPhase::Close => Action::Close,
            SinkPhase::Transcode => {
                let source = make_path(storage.directory(), self.leaf.as_str());
                let target = match &self.product {
                    Some((_, leaf)) => make_path(storage.directory(), leaf.as_str()),
                    None => make_path(storage.directory(), self.leaf.as_str()),
                };
                Action::Transcode { source, target, width: storage.width(), height: storage.height() }
            },
            SinkPhase::Remove { verdict, stop } => Action::Remove {
                path: make_path(storage.directory(), self.leaf.as_str()),
            },
            SinkPhase::Insert => Action::Insert { identifier: self.token.as_str().to_owned() },
        }
    }

    /// Whether the sink asks for a fresh token with this answer.
    pub fn wants_token(&self, reply: &Reply) -> (wanted: bool)
        ensures
            wanted == sink_wants_token(self@, reply@),
    {
        match (self.phase, self.kind, reply) {
            (SinkPhase::Close, SinkKind::FilesystemConverted, Reply::Done) => true,
            _ => false,
        }
    }

    /// The sink in another phase.
    fn moved(self, phase: SinkPhase) -> (step: SinkStep)
        requires
            sink_wf(SinkView { phase, ..self@ }),
        ensures
            step@ == sink_moved(self@, phase),
            step is Continue,
            sink_wf(step->sink@),
    {
        SinkStep::Continue {
            sink: Sink {
                kind: self.kind,
                token: self.token,
                leaf: self.leaf,
                bytes: self.bytes,
                product: self.product,
                phase,
            },
            added: 0,
            drew: false,
        }
    }

    /// The sink gives the item up.
    fn aborted(self, kind: ErrorKind, stop: bool) -> (step: SinkStep)
        requires
            kind != ErrorKind::StorageBackendFailure,
        ensures
            step@ == sink_aborted(self@, kind, stop),
            step is Continue ==> sink_wf(step->sink@),
    {
        proof {
            use_type_invariant(&self);
        }
        match self.kind {
            SinkKind::DatabaseBlob => SinkStep::Finished { result: ItemResult::Failed(kind), stop },
            _ => self.moved(SinkPhase::Remove { verdict: Verdict::Fail(kind), stop }),
        }
    }

    /// Takes the sink one step on: from the driver's answer to what comes
    /// next.
    ///
    /// `budget` is how many more bytes the request may bring. `fresh` is a
    /// token that the request has not used yet, if there is one at hand.
    pub fn step(self, storage: &Storage, reply: &Reply, budget: u64, fresh: Option<Token>) -> (step:
        SinkStep)
        ensures
            step@ == sink_step(storage@, self@, reply@, budget, token_of(fresh)),
            step is Continue ==> sink_wf(step->sink@),
    {
        proof {
            use_type_invariant(&self);
        }
        match self.phase {
            SinkPhase::Create => match reply {
                Reply::Done => self.moved(SinkPhase::AwaitChunk),
                _ => SinkStep::Finished {
                    result: ItemResult::Failed(ErrorKind::IOFailure),
                    stop: false,
                },
            },
            SinkPhase::AwaitChunk => match reply {
                Reply::Chunk { len } => {
                    let fits: bool = match self.bytes.checked_add(*len) {
                        Some(_) => *len <= budget,
                        None => false,
                    };
                    if fits {
                        self.moved(SinkPhase::Write { len: *len })
                    } else {
                        self.aborted(ErrorKind::AggregateTooLarge, true)
                    }
                },
                Reply::End => match self.kind {
                    SinkKind::DatabaseBlob => self.moved(SinkPhase::Insert),
                    _ => self.moved(SinkPhase::Close),
                },
                _ => self.aborted(ErrorKind::IOFailure, false),
            },
            SinkPhase::Write { len } => match reply {
                Reply::Done => SinkStep::Continue {
                    sink: Sink {
                        kind: self.kind,
                        token: self.token,
                        leaf: self.leaf,
                        bytes: self.bytes + len,
                        product: self.product,
                        phase: SinkPhase::AwaitChunk,
                    },
                    added: len,
                    drew: false,
                },
                _ => self.aborted(ErrorKind::IOFailure, false),
            },
            SinkPhase::Close => match reply {
                Reply::Done => match self.kind {
                    SinkKind::FilesystemConverted => {
                        if storage.width() == 0 || storage.height() == 0 {
                            self.aborted(ErrorKind::DecodeFailure, false)
                        } else {
                            match fresh {
                                Some(token) => {
                                    let leaf = make_converted_leaf(&token, storage.extension());
                                    SinkStep::Continue {
                                        sink: Sink {
                                            kind: self.kind,
                                            token: self.token,
                                            leaf: self.leaf,
                                            bytes: self.bytes,
                                            product: Some((token, leaf)),
                                            phase: SinkPhase::Transcode,
                                        },
                                        added: 0,
                                        drew: true,
                                    }
                                },
                                None => self.aborted(ErrorKind::IOFailure, false),
                            }
                        }
                    },
                    _ => {
                        let path = make_path(storage.directory(), self.leaf.as_str());
                        SinkStep::Finished {
                            result: ItemResult::Stored(
                                StoredArtifact::new(self.token, Location::File { path }, self.bytes),
                            ),
                            stop: false,
                        }
                    },
                },
                _ => self.aborted(ErrorKind::IOFailure, false),
            },
            SinkPhase::Transcode => match reply {
                Reply::Transcoded { bytes } => self.moved(
                    SinkPhase::Remove { verdict: Verdict::Keep { bytes: *bytes }, stop: false },
                ),
                _ => self.moved(
                    SinkPhase::Remove {
                        verdict: Verdict::Fail(ErrorKind::DecodeFailure),
                        stop: false,
                    },
                ),
            },
            SinkPhase::Remove { verdict, stop } => match reply {
                Reply::Done => match verdict {
                    Verdict::Keep { bytes } => {
                        let (token, leaf) = match self.product {
                            Some((token, leaf)) => (token, leaf),
                            None => (self.token, self.leaf),
                        };
                        let path = make_path(storage.directory(), leaf.as_str());
                        SinkStep::Finished {
                            result: ItemResult::Stored(
                                StoredArtifact::new(token, Location::File { path }, bytes),
                            ),
                            stop,
                        }
                    },
                    Verdict::Fail(kind) => SinkStep::Finished {
                        result: ItemResult::Failed(kind),
                        stop,
                    },
                },
                _ => SinkStep::Finished {
                    result: ItemResult::Failed(
                        match verdict {
                            Verdict::Keep { bytes } => ErrorKind::IOFailure,
                            Verdict::Fail(kind) => kind,
                        },
                    ),
                    stop,
                },
            },
            SinkPhase::Insert => match reply {
                Reply::Row { id } => SinkStep::Finished {
                    result: ItemResult::Stored(
                        StoredArtifact::new(self.token, Location::Row { id: *id }, self.bytes),
                    ),
                    stop: false,
                },
                _ => SinkStep::Finished {
                    result: ItemResult::Failed(ErrorKind::StorageBackendFailure),
                    stop: false,
                },
            },
        }
    }
}

/// Whether an artifact lies where its token places it: as a file, directly in
/// the directory and under a name that begins with the token and holds no
/// path separator; as a row, with a token for its identifier.
pub open spec fn well_placed(directory: Seq<char>, artifact: ArtifactView) -> bool {
    match artifact.location {
        LocationView::File { path } => exists|leaf: Seq<char>|
            #[trigger] is_safe_leaf(artifact.identifier, leaf) && path == path_in(directory, leaf),
        LocationView::Row { id } => is_token(artifact.identifier),
    }
}

/// Whether the sink is one that asks for a fresh token with this answer: a
/// converting sink whose temporary file has just been closed.
pub open spec fn sink_wants_token(sink: SinkView, reply: ReplyView) -> bool {
    sink.phase is Close && sink.kind == SinkKind::FilesystemConverted && reply is Done
}

/// How many bytes the step writes: those of the chunk whose writing is done.
pub open spec fn written_by(sink: SinkView, reply: ReplyView) -> u64 {
    match sink.phase {
        SinkPhase::Write { len } => if reply is Done {
            len
        } else {
            0
        },
        _ => 0,
    }
}

/// What holds of a sink that goes on after a step: it is in a state that
/// stepping can go on from, of the same kind and with the same target; it
/// writes a chunk only once it has held it against the budget; and its
/// product is new exactly where it took the fresh token.
pub open spec fn goes_on_well(
    storage: StorageView,
    sink: SinkView,
    reply: ReplyView,
    budget: u64,
    fresh: Option<Seq<char>>,
) -> bool {
    match sink_step(storage, sink, reply, budget, fresh) {
        SinkStepView::Continue { sink: next, added, drew } => {
            &&& sink_wf(next)
            &&& next.kind == sink.kind
            &&& next.target == sink.target
            &&& added == written_by(sink, reply)
            &&& next.bytes == sink.bytes + added
            &&& (next.phase matches SinkPhase::Write { len } ==> len <= budget)
            &&& (next.phase is Transcode && !(sink.phase is Transcode) ==> storage.width > 0
                && storage.height > 0)
            &&& (next.phase is Transcode ==> sink.phase is Transcode || drew)
            &&& (drew ==> fresh is Some && sink_wants_token(sink, reply) && next.product == Some(
                NamedFileView { token: fresh->0, leaf: converted_leaf(fresh->0, storage.extension) },
            ))
            &&& (!drew ==> next.product == sink.product)
        },
        SinkStepView::Finished { result, stop } => true,
    }
}

/// A step leaves a sink that goes on in a state that stepping can go on from.
pub proof fn lemma_sink_step_goes_on_well(
    storage: StorageView,
    sink: SinkView,
    reply: ReplyView,
    budget: u64,
    fresh: Option<Seq<char>>,
)
    requires
        sink_wf(sink),
        fresh is Some ==> is_token(fresh->0),
    ensures
        goes_on_well(storage, sink, reply, budget, fresh),
{
    if sink_wants_token(sink, reply) && fresh is Some {
        crate::naming::lemma_converted_leaf_is_safe(fresh->0, storage.extension);
    }
}

/// What holds of the result that a sink finishes an item with: an artifact
/// bears a token that the sink held and lies where that token places it; no
/// item that a sink took up counts as passed over; and only a database sink
/// reports a failure of the storage behind it.
pub open spec fn finishes_well(
    storage: StorageView,
    sink: SinkView,
    reply: ReplyView,
    budget: u64,
    fresh: Option<Seq<char>>,
) -> bool {
    match sink_step(storage, sink, reply, budget, fresh) {
        SinkStepView::Continue { sink: next, added, drew } => true,
        SinkStepView::Finished { result, stop } => match result {
            ItemResultView::Stored(artifact) => holds_token(sink, artifact.identifier)
                && well_placed(storage.directory, artifact),
            ItemResultView::Skipped(kind) => false,
            ItemResultView::Failed(kind) => kind == ErrorKind::StorageBackendFailure ==> sink.kind
                == SinkKind::DatabaseBlob,
        },
    }
}

/// A sink stores an item only under a token that it holds, and where that
/// token places it.
pub proof fn lemma_sink_step_finishes_well(
    storage: StorageView,
    sink: SinkView,
    reply: ReplyView,
    budget: u64,
    fresh: Option<Seq<char>>,
)
    requires
        sink_wf(sink),
    ensures
        finishes_well(storage, sink, reply, budget, fresh),
{
    match sink_step(storage, sink, reply, budget, fresh) {
        SinkStepView::Finished { result: ItemResultView::Stored(artifact), stop } => {
            match artifact.location {
                LocationView::File { path } => {
                    if sink.phase is Close {
                        assert(is_safe_leaf(artifact.identifier, sink.target.leaf));
                    } else {
                        assert(is_safe_leaf(artifact.identifier, sink.product->0.leaf));
                    }
                },
                LocationView::Row { id } => {},
            }
        },
        _ => {},
    }
}

/// Whether the sink waits for the removal of the file that it was opened on.
pub open spec fn removes_its_file(storage: StorageView, sink: SinkView) -> bool {
    sink.phase is Remove && sink_action(storage, sink) == (ActionView::Remove {
        path: path_in(storage.directory, sink.target.leaf),
    })
}

/// Whether the sink waits for the creation of the file that it was opened on.
pub open spec fn creates_its_file(storage: StorageView, sink: SinkView) -> bool {
    sink.phase is Create && sink_action(storage, sink) == (ActionView::Create {
        path: path_in(storage.directory, sink.target.leaf),
    })
}

/// Whether the step leads the sink to the removal of its file.
pub open spec fn leads_to_removal(
    storage: StorageView,
    sink: SinkView,
    reply: ReplyView,
    budget: u64,
    fresh: Option<Seq<char>>,
) -> bool {
    match sink_step(storage, sink, reply, budget, fresh) {
        SinkStepView::Continue { sink: next, added, drew } => removes_its_file(storage, next)
            && next.target == sink.target,
        SinkStepView::Finished { result, stop } => false,
    }
}

/// A converting sink never lets go of an item whose temporary file exists
/// without having asked for that file's removal. An item is done only from the
/// failed creation of the file, or from the removal of the very file that was
/// created; and the conversion leads to that removal whether it worked or not.
pub proof fn lemma_converting_sink_removes_its_temporary_file(
    storage: StorageView,
    sink: SinkView,
    reply: ReplyView,
    budget: u64,
    fresh: Option<Seq<char>>,
)
    requires
        sink_wf(sink),
        sink.kind == SinkKind::FilesystemConverted,
    ensures
        sink_step(storage, sink, reply, budget, fresh) is Finished ==> creates_its_file(
            storage,
            sink,
        ) || removes_its_file(storage, sink),
        sink.phase is Transcode ==> leads_to_removal(storage, sink, reply, budget, fresh),
{
}

} // verus!
