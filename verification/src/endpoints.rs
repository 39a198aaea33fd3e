//! The endpoints of the service: what each is set up with.
//!
//! All three take up to three images of ten million bytes together, as
//! `image/png`, `image/jpeg` or `image/gif`. They differ in the sink, and in
//! whether the form field is prescribed.

use crate::classify::{
    classification, has_parameters, is_plain_media_type, media_types_match, same_ignoring_case,
    type_accepted, Decision, ItemMetaView,
};
use crate::outcome::Status;
use crate::policy::{texts, LimitPolicy, LimitPolicyView};
use crate::sink::{SinkKind, Storage, StorageView};
use vstd::prelude::*;

verus! {

/// What an [`Endpoint`] holds.
pub struct EndpointView {
    /// The limits that requests are held to.
    pub policy: LimitPolicyView,
    /// The sink that accepted items are stored to.
    pub storage: StorageView,
    /// The text that goes with the answer to a request that succeeded.
    pub success_text: Seq<char>,
}

/// One endpoint: its limits, its sink and the text of its answer.
#[derive(Clone, Debug, PartialEq, Eq)]
pub struct Endpoint {
    /// The limits that requests are held to.
    pub policy: LimitPolicy,
    /// The sink that accepted items are stored to.
    pub storage: Storage,
    /// The text that goes with the answer to a request that succeeded.
    pub success_text: String,
}

impl View for Endpoint {
    type V = EndpointView;

    open spec fn view(&self) -> EndpointView {
        EndpointView {
            policy: self.policy@,
            storage: self.storage@,
            success_text: self.success_text@,
        }
    }
}

/// The text that goes with the answer to a request that ended with `status`:
/// the endpoint's text where it succeeded, and none otherwise.
pub open spec fn answer_text_of(endpoint: EndpointView, status: Status) -> Seq<char> {
    if status == Status::Success {
        endpoint.success_text
    } else {
        Seq::empty()
    }
}

impl Endpoint {
    /// The text that goes with the answer to a request that ended with
    /// `status`.
    pub fn answer_text(&self, status: Status) -> (text: String)
        ensures
            text@ == answer_text_of(self@, status),
    {
        match status {
            Status::Success => self.success_text.clone(),
            _ => String::new(),
        }
    }
}

/// The limits of every endpoint, with the form field that is prescribed.
pub open spec fn image_policy(field: Option<Seq<char>>) -> LimitPolicyView {
    LimitPolicyView {
        max_aggregate_bytes: 10_000_000,
        max_item_count: 3,
        accepted_types: seq!["image/png"@, "image/jpeg"@, "image/gif"@],
        required_field_name: field,
    }
}

/// What the endpoint `/upload` is set up with: images under the field
/// `avatar` are converted to GIF images of 200 by 200 pixels in `./upload`.
pub open spec fn upload_view() -> EndpointView {
    EndpointView {
        policy: image_policy(Some("avatar"@)),
        storage: StorageView {
            kind: SinkKind::FilesystemConverted,
            directory: "./upload"@,
            width: 200,
            height: 200,
            extension: "gif"@,
        },
        success_text: ""@,
    }
}

/// What the endpoint `/upload2` is set up with: images under any field are
/// stored as they came in `./upload`.
pub open spec fn upload2_view() -> EndpointView {
    EndpointView {
        policy: image_policy(None),
        storage: StorageView {
            kind: SinkKind::FilesystemRaw,
            directory: "./upload"@,
            width: 0,
            height: 0,
            extension: Seq::empty(),
        },
        success_text: "File saved successfully"@,
    }
}

/// What the endpoint `/upload3` is set up with: images under any field are
/// stored as rows of the table of images.
pub open spec fn upload3_view() -> EndpointView {
    EndpointView {
        policy: image_policy(None),
        storage: StorageView {
            kind: SinkKind::DatabaseBlob,
            directory: Seq::empty(),
            width: 0,
            height: 0,
            extension: Seq::empty(),
        },
        success_text: "File saved successfully"@,
    }
}

/// The limits of every endpoint, with the form field that is prescribed.
fn make_image_policy(field: Option<String>) -> (policy: LimitPolicy)
    ensures
        policy@ == image_policy(crate::policy::text_of(field)),
{
    let mut types: Vec<String> = Vec::new();
    types.push("image/png".to_owned());
    types.push("image/jpeg".to_owned());
    types.push("image/gif".to_owned());
    assert(texts(types@) =~= seq!["image/png"@, "image/jpeg"@, "image/gif"@]);
    LimitPolicy::new(10_000_000, 3, types, field)
}

/// The text that tells that the service is up: the answer to `GET /`.
pub fn root() -> (text: String)
    ensures
        text@ == "Server is up and running."@,
{
    "Server is up and running.".to_owned()
}

/// The endpoint `/upload`.
pub fn upload() -> (endpoint: Endpoint)
    ensures
        endpoint@ == upload_view(),
{
    Endpoint {
        policy: make_image_policy(Some("avatar".to_owned())),
        storage: Storage::converted("./upload".to_owned(), 200, 200, "gif".to_owned()),
        success_text: "".to_owned(),
    }
}

/// The endpoint `/upload2`.
pub fn upload2() -> (endpoint: Endpoint)
    ensures
        endpoint@ == upload2_view(),
{
    Endpoint {
        policy: make_image_policy(None),
        storage: Storage::raw("./upload".to_owned()),
        success_text: "File saved successfully".to_owned(),
    }
}

/// The endpoint `/upload3`.
pub fn upload3() -> (endpoint: Endpoint)
    ensures
        endpoint@ == upload3_view(),
{
    Endpoint {
        policy: make_image_policy(None),
        storage: Storage::database(),
        success_text: "File saved successfully".to_owned(),
    }
}

/// Whether the text is one of the three image types that every endpoint
/// takes, in any case of its letters.
pub open spec fn is_image_type(declared: Seq<char>) -> bool {
    ||| same_ignoring_case("image/png"@, declared)
    ||| same_ignoring_case("image/jpeg"@, declared)
    ||| same_ignoring_case("image/gif"@, declared)
}

/// A text that is the same as one without a semicolon, but for the case of
/// its letters, holds no semicolon either.
proof fn lemma_same_text_has_no_parameters(accepted: Seq<char>, declared: Seq<char>)
    requires
        !has_parameters(accepted),
        same_ignoring_case(accepted, declared),
    ensures
        !has_parameters(declared),
{
    if has_parameters(declared) {
        let i = choose|i: int| 0 <= i < declared.len() && declared[i] == ';';
        assert(accepted[i] == ';');
    }
}

/// Every endpoint takes `image/png`, `image/jpeg` and `image/gif`, in any
/// case of their letters: an item that declares one of them, under a field
/// that the endpoint takes, is accepted.
pub proof fn lemma_image_types_are_accepted(field: Option<Seq<char>>, meta: ItemMetaView)
    requires
        meta.content_type is Some,
        is_image_type(meta.content_type->0),
        field is Some ==> meta.field_name == field->0,
    ensures
        type_accepted(image_policy(field).accepted_types, meta.content_type->0),
        classification(image_policy(field), meta) == Decision::Accept,
{
    reveal_strlit("image/png");
    reveal_strlit("image/jpeg");
    reveal_strlit("image/gif");
    let declared = meta.content_type->0;
    let list = image_policy(field).accepted_types;
    let png = "image/png"@;
    let jpeg = "image/jpeg"@;
    let gif = "image/gif"@;
    assert(png[5] == '/' && jpeg[5] == '/' && gif[5] == '/');
    assert(is_plain_media_type(png));
    assert(is_plain_media_type(jpeg));
    assert(is_plain_media_type(gif));
    assert(!has_parameters(png));
    assert(!has_parameters(jpeg));
    assert(!has_parameters(gif));
    if same_ignoring_case(png, declared) {
        lemma_same_text_has_no_parameters(png, declared);
        assert(media_types_match(list[0], declared));
    } else if same_ignoring_case(jpeg, declared) {
        lemma_same_text_has_no_parameters(jpeg, declared);
        assert(media_types_match(list[1], declared));
    } else {
        lemma_same_text_has_no_parameters(gif, declared);
        assert(media_types_match(list[2], declared));
    }
}

/// An item that declares a type without parameters that is none of the three
/// image types is passed over by every endpoint.
pub proof fn lemma_other_types_are_unsupported(field: Option<Seq<char>>, meta: ItemMetaView)
    requires
        meta.content_type is Some,
        !has_parameters(meta.content_type->0),
        !is_image_type(meta.content_type->0),
    ensures
        !type_accepted(image_policy(field).accepted_types, meta.content_type->0),
        classification(image_policy(field), meta) == Decision::SkipUnsupported,
{
    let list = image_policy(field).accepted_types;
    assert forall|i: int| 0 <= i < list.len() implies !media_types_match(
        #[trigger] list[i],
        meta.content_type->0,
    ) by {
        assert(i == 0 || i == 1 || i == 2);
    }
}

} // verus!
