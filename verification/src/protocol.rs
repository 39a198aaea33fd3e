//! What passes between the library and the driver that does its I/O.
//!
//! The library performs no I/O. It names the next thing to do as an
//! [`Action`]; the driver does it and answers with a [`Reply`].

use crate::classify::{ItemMeta, ItemMetaView};
use vstd::prelude::*;

verus! {

/// The view of a header value that may be missing.
pub open spec fn bytes_of(value: Option<Vec<u8>>) -> Option<Seq<u8>> {
    match value {
        Some(v) => Some(v@),
        None => None,
    }
}

/// What a [`Reply`] holds.
pub enum ReplyView {
    /// A request has come, with this value of its length header.
    Request { content_length: Option<Seq<u8>> },
    /// The next item has come, with these headers.
    Item(ItemMetaView),
    /// The next chunk of the item's body has come, of this many bytes.
    Chunk { len: u64 },
    /// There is no more: of items in the request, or of chunks in the item.
    End,
    /// The action was done.
    Done,
    /// The image was converted, and the converted file holds this many bytes.
    Transcoded { bytes: u64 },
    /// The row was inserted, and the database refers to it by this number.
    Row { id: i64 },
    /// The action failed.
    Failed,
}

/// The driver's answer to an action.
#[derive(Clone, Debug, PartialEq, Eq)]
pub enum Reply {
    /// A request has come, with this value of its length header.
    Request { content_length: Option<Vec<u8>> },
    /// The next item has come, with these headers.
    Item(ItemMeta),
    /// The next chunk of the item's body has come, of this many bytes.
    Chunk { len: u64 },
    /// There is no more: of items in the request, or of chunks in the item.
    End,
    /// The action was done.
    Done,
    /// The image was converted, and the converted file holds this many bytes.
    Transcoded { bytes: u64 },
    /// The row was inserted, and the database refers to it by this number.
    Row { id: i64 },
    /// The action failed.
    Failed,
}

impl View for Reply {
    type V = ReplyView;

    open spec fn view(&self) -> ReplyView {
        match self {
            Reply::Request { content_length } => ReplyView::Request {
                content_length: bytes_of(*content_length),
            },
            Reply::Item(meta) => ReplyView::Item(meta@),
            Reply::Chunk { len } => ReplyView::Chunk { len: *len },
            Reply::End => ReplyView::End,
            Reply::Done => ReplyView::Done,
            Reply::Transcoded { bytes } => ReplyView::Transcoded { bytes: *bytes },
            Reply::Row { id } => ReplyView::Row { id: *id },
            Reply::Failed => ReplyView::Failed,
        }
    }
}

/// What an [`Action`] holds.
pub enum ActionView {
    /// Hand over the request's length header.
    AwaitRequest,
    /// Discard what is left of the item in hand, if any, and read the headers
    /// of the next item.
    NextItem,
    /// Create the file at `path` and keep it open for writing.
    Create { path: Seq<char> },
    /// Read the next chunk of the item's body.
    NextChunk,
    /// Write the chunk in hand to the open target.
    Write,
    /// Flush and close the open file.
    Close,
    /// Decode the image in the file `source`, resize it to exactly `width` by
    /// `height` pixels and write it to the file `target`.
    Transcode { source: Seq<char>, target: Seq<char>, width: u32, height: u32 },
    /// Release the open file, if any, and remove the file at `path`.
    Remove { path: Seq<char> },
    /// Insert the bytes written so far as one row, under `identifier`.
    Insert { identifier: Seq<char> },
    /// Answer the request: it is done.
    Respond,
}

/// The next thing for the driver to do.
#[derive(Clone, Debug, PartialEq, Eq)]
pub enum Action {
    /// Hand over the request's length header.
    AwaitRequest,
    /// Discard what is left of the item in hand, if any, and read the headers
    /// of the next item.
    NextItem,
    /// Create the file at `path` and keep it open for writing.
    Create { path: String },
    /// Read the next chunk of the item's body.
    NextChunk,
    /// Write the chunk in hand to the open target.
    Write,
    /// Flush and close the open file.
    Close,
    /// Decode the image in the file `source`, resize it to exactly `width` by
    /// `height` pixels and write it to the file `target`.
    Transcode { source: String, target: String, width: u32, height: u32 },
    /// Release the open file, if any, and remove the file at `path`.
    Remove { path: String },
    /// Insert the bytes written so far as one row, under `identifier`.
    Insert { identifier: String },
    /// Answer the request: it is done.
    Respond,
}

impl View for Action {
    type V = ActionView;

    open spec fn view(&self) -> ActionView {
        match self {
            Action::AwaitRequest => ActionView::AwaitRequest,
            Action::NextItem => ActionView::NextItem,
            Action::Create { path } => ActionView::Create { path: path@ },
            Action::NextChunk => ActionView::NextChunk,
            Action::Write => ActionView::Write,
            Action::Close => ActionView::Close,
            Action::Transcode { source, target, width, height } => ActionView::Transcode {
                source: source@,
                target: target@,
                width: *width,
                height: *height,
            },
            Action::Remove { path } => ActionView::Remove { path: path@ },
            Action::Insert { identifier } => ActionView::Insert { identifier: identifier@ },
            Action::Respond => ActionView::Respond,
        }
    }
}

/// Whether an action writes to storage: a file or a row.
pub open spec fn touches_storage(action: ActionView) -> bool {
    action is Create || action is Write || action is Close || action is Transcode
        || action is Remove || action is Insert
}

} // verus!
