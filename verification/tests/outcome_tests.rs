use image_upload::naming::Token;
use image_upload::outcome::{
    ErrorKind, ItemResult, Location, Status, StoredArtifact, UploadOutcome,
};

fn stored(n: u8, bytes: u64) -> ItemResult {
    let token = Token::parse(&format!("00000000-0000-4000-8000-0000000000{:02x}", n)).unwrap();
    let path = format!("./upload/{}.gif", token.as_str());
    ItemResult::Stored(StoredArtifact::new(token, Location::File { path }, bytes))
}

#[test]
fn an_artifact_gives_back_what_it_was_made_with() {
    let token = Token::parse("00000000-0000-4000-8000-000000000001").unwrap();
    let artifact = StoredArtifact::new(token.clone(), Location::Row { id: 17 }, 51200);
    assert_eq!(artifact.identifier(), &token);
    assert_eq!(artifact.location(), &Location::Row { id: 17 });
    assert_eq!(artifact.bytes(), 51200);
}

#[test]
fn a_refused_request_has_no_items() {
    let outcome = UploadOutcome::refused();
    assert_eq!(outcome.status(), Status::BadRequest);
    assert_eq!(outcome.items().len(), 0);
    assert_eq!(outcome.accepted(), 0);
    assert_eq!(outcome.skipped(), 0);
    assert_eq!(outcome.rejected(), 0);
    assert_eq!(outcome.http_status(), 400);
}

#[test]
fn a_request_without_items_succeeds() {
    let outcome = UploadOutcome::concluded(Vec::new());
    assert_eq!(outcome.status(), Status::Success);
    assert_eq!(outcome.accepted(), 0);
    assert_eq!(outcome.skipped(), 0);
    assert_eq!(outcome.rejected(), 0);
    assert_eq!(outcome.http_status(), 200);
}

#[test]
fn every_item_is_counted_once() {
    let outcome = UploadOutcome::concluded(vec![
        stored(1, 10),
        ItemResult::Skipped(ErrorKind::UnsupportedType),
        stored(2, 20),
        ItemResult::Failed(ErrorKind::DecodeFailure),
        ItemResult::Skipped(ErrorKind::WrongField),
        ItemResult::Skipped(ErrorKind::UnsupportedType),
    ]);
    assert_eq!(outcome.accepted(), 2);
    assert_eq!(outcome.skipped(), 3);
    assert_eq!(outcome.rejected(), 1);
    assert_eq!(outcome.accepted() + outcome.skipped() + outcome.rejected(), outcome.items().len());
    assert_eq!(outcome.status(), Status::PartialFailure);
    assert_eq!(outcome.http_status(), 200);
}

#[test]
fn skipped_items_are_no_failure() {
    let outcome = UploadOutcome::concluded(vec![
        ItemResult::Skipped(ErrorKind::WrongField),
        stored(1, 10),
    ]);
    assert_eq!(outcome.status(), Status::Success);
    assert_eq!(outcome.http_status(), 200);
    let only_skipped = UploadOutcome::concluded(vec![ItemResult::Skipped(ErrorKind::WrongField)]);
    assert_eq!(only_skipped.status(), Status::Success);
    assert_eq!(only_skipped.accepted(), 0);
    assert_eq!(only_skipped.skipped(), 1);
}

#[test]
fn one_failed_item_makes_a_partial_failure() {
    for kind in [
        ErrorKind::AggregateTooLarge,
        ErrorKind::IOFailure,
        ErrorKind::DecodeFailure,
        ErrorKind::StorageBackendFailure,
    ] {
        let outcome = UploadOutcome::concluded(vec![stored(1, 10), ItemResult::Failed(kind)]);
        assert_eq!(outcome.status(), Status::PartialFailure);
        assert_eq!(outcome.accepted(), 1);
        assert_eq!(outcome.rejected(), 1);
    }
}

#[test]
fn a_refusal_of_the_storage_is_answered_with_500() {
    let outcome = UploadOutcome::concluded(vec![
        stored(1, 10),
        ItemResult::Failed(ErrorKind::StorageBackendFailure),
    ]);
    assert_eq!(outcome.http_status(), 500);
    assert_eq!(outcome.accepted(), 1);
    let last = UploadOutcome::concluded(vec![
        ItemResult::Failed(ErrorKind::IOFailure),
        ItemResult::Skipped(ErrorKind::StorageBackendFailure),
        ItemResult::Failed(ErrorKind::StorageBackendFailure),
    ]);
    assert_eq!(last.http_status(), 500);
}

#[test]
fn other_failures_are_answered_with_200() {
    for kind in [ErrorKind::AggregateTooLarge, ErrorKind::IOFailure, ErrorKind::DecodeFailure] {
        let outcome = UploadOutcome::concluded(vec![ItemResult::Failed(kind)]);
        assert_eq!(outcome.http_status(), 200);
        assert_eq!(outcome.status(), Status::PartialFailure);
    }
    let skipped =
        UploadOutcome::concluded(vec![ItemResult::Skipped(ErrorKind::StorageBackendFailure)]);
    assert_eq!(skipped.http_status(), 200);
}

#[test]
fn the_items_keep_their_order() {
    let items = vec![
        ItemResult::Skipped(ErrorKind::WrongField),
        stored(1, 10),
        ItemResult::Failed(ErrorKind::IOFailure),
    ];
    let outcome = UploadOutcome::concluded(items.clone());
    assert_eq!(outcome.items(), &items);
}
