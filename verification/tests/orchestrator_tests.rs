use image_upload::classify::ItemMeta;
use image_upload::endpoints::{upload, upload2, upload3, Endpoint};
use image_upload::naming::Token;
use image_upload::orchestrator::Orchestrator;
use image_upload::outcome::{
    ErrorKind, ItemResult, Location, Status, StoredArtifact, UploadOutcome,
};
use image_upload::policy::LimitPolicy;
use image_upload::protocol::{Action, Reply};
use image_upload::sink::Storage;
use std::collections::BTreeSet;

/// One part of a request, as a driver would read it.
struct Part {
    meta: ItemMeta,
    chunks: Vec<u64>,
    decodes: bool,
}

fn part(field: &str, content_type: Option<&str>, filename: &str, chunks: &[u64]) -> Part {
    Part {
        meta: ItemMeta {
            field_name: field.to_string(),
            content_type: content_type.map(|t| t.to_string()),
            filename: Some(filename.to_string()),
        },
        chunks: chunks.to_vec(),
        decodes: true,
    }
}

/// The storage that a driver acts on: a directory and a table, both in memory.
struct World {
    files: BTreeSet<String>,
    rows: Vec<String>,
    database_up: bool,
    actions: Vec<Action>,
}

fn world() -> World {
    World { files: BTreeSet::new(), rows: Vec::new(), database_up: true, actions: Vec::new() }
}

fn numbered(n: usize) -> Token {
    Token::parse(&format!("00000000-0000-4000-8000-{:012x}", n)).unwrap()
}

/// Runs one request to its end, handing out the tokens 1, 2, 3, ... in turn.
fn run(endpoint: Endpoint, header: Option<&[u8]>, parts: Vec<Part>, world: &mut World) -> UploadOutcome {
    let mut machine = Orchestrator::new(endpoint.policy, endpoint.storage);
    let mut action = machine.pending_action();
    let mut parts = parts.into_iter();
    let mut chunks: Vec<u64> = Vec::new();
    let mut decodes = true;
    let mut drawn = 0;
    for _ in 0..10_000 {
        world.actions.push(action.clone());
        let reply = match &action {
            Action::AwaitRequest => Reply::Request { content_length: header.map(|h| h.to_vec()) },
            Action::NextItem => match parts.next() {
                Some(p) => {
                    chunks = p.chunks;
                    chunks.reverse();
                    decodes = p.decodes;
                    Reply::Item(p.meta)
                },
                None => Reply::End,
            },
            Action::Create { path } => {
                world.files.insert(path.clone());
                Reply::Done
            },
            Action::NextChunk => match chunks.pop() {
                Some(len) => Reply::Chunk { len },
                None => Reply::End,
            },
            Action::Write => Reply::Done,
            Action::Close => Reply::Done,
            Action::Transcode { source, target, width, height } => {
                assert!(world.files.contains(source));
                assert_eq!((*width, *height), (200, 200));
                if decodes {
                    world.files.insert(target.clone());
                    Reply::Transcoded { bytes: 4321 }
                } else {
                    Reply::Failed
                }
            },
            Action::Remove { path } => {
                assert!(world.files.remove(path));
                Reply::Done
            },
            Action::Insert { identifier } => {
                if world.database_up {
                    world.rows.push(identifier.clone());
                    Reply::Row { id: world.rows.len() as i64 }
                } else {
                    Reply::Failed
                }
            },
            Action::Respond => {
                assert!(machine.is_completed());
                return machine.into_outcome().unwrap();
            },
        };
        let token = if machine.wants_token(&reply) {
            drawn += 1;
            Some(numbered(drawn))
        } else {
            None
        };
        let next = machine.advance(reply, token);
        machine = next.0;
        action = next.1;
    }
    panic!("the request did not end");
}

fn file(token: usize, path: &str, bytes: u64) -> ItemResult {
    ItemResult::Stored(StoredArtifact::new(
        numbered(token),
        Location::File { path: path.to_string() },
        bytes,
    ))
}

fn touches_storage(action: &Action) -> bool {
    !matches!(
        action,
        Action::AwaitRequest | Action::NextItem | Action::NextChunk | Action::Respond
    )
}

#[test]
fn a_new_machine_waits_for_the_request() {
    let endpoint = upload();
    let machine = Orchestrator::new(endpoint.policy, endpoint.storage);
    assert_eq!(machine.pending_action(), Action::AwaitRequest);
    assert!(!machine.is_completed());
    assert_eq!(machine.received(), 0);
    assert_eq!(machine.processed(), 0);
    assert!(machine.into_outcome().is_none());
}

#[test]
fn an_oversized_request_is_turned_away_before_any_item() {
    let mut w = world();
    let parts = vec![part("avatar", Some("image/png"), "cat.png", &[100])];
    let outcome = run(upload(), Some(b"10000001"), parts, &mut w);
    assert_eq!(outcome.status(), Status::BadRequest);
    assert_eq!(outcome.http_status(), 400);
    assert_eq!(outcome.items().len(), 0);
    assert_eq!(w.actions, vec![Action::AwaitRequest, Action::Respond]);
    assert!(w.files.is_empty());
    assert!(w.rows.is_empty());
}

#[test]
fn an_oversized_request_touches_no_table() {
    let mut w = world();
    let parts = vec![part("image", Some("image/jpeg"), "cat.jpg", &[100])];
    let outcome = run(upload3(), Some(b"99999999999999999999999"), parts, &mut w);
    assert_eq!(outcome.status(), Status::BadRequest);
    assert!(w.rows.is_empty());
    assert!(!w.actions.iter().any(touches_storage));
}

#[test]
fn a_request_of_just_the_limit_is_taken() {
    let mut w = world();
    let outcome = run(upload2(), Some(b"10000000"), Vec::new(), &mut w);
    assert_eq!(outcome.status(), Status::Success);
    assert_eq!(w.actions, vec![Action::AwaitRequest, Action::NextItem, Action::Respond]);
}

#[test]
fn a_request_without_a_length_is_taken() {
    let mut w = world();
    let parts = vec![part("x", Some("image/png"), "a.png", &[5])];
    let outcome = run(upload2(), None, parts, &mut w);
    assert_eq!(outcome.status(), Status::Success);
    assert_eq!(outcome.accepted(), 1);
    let mut w = world();
    let outcome = run(upload2(), Some(b"many"), Vec::new(), &mut w);
    assert_eq!(outcome.status(), Status::Success);
}

#[test]
fn a_done_request_stays_done() {
    let endpoint = upload();
    let machine = Orchestrator::new(endpoint.policy, endpoint.storage);
    let (machine, action) =
        machine.advance(Reply::Request { content_length: Some(b"20000000".to_vec()) }, None);
    assert_eq!(action, Action::Respond);
    let meta = part("avatar", Some("image/png"), "cat.png", &[]).meta;
    let (machine, action) = machine.advance(Reply::Item(meta), Some(numbered(1)));
    assert_eq!(action, Action::Respond);
    let (machine, action) = machine.advance(Reply::Chunk { len: 5 }, None);
    assert_eq!(action, Action::Respond);
    let (machine, action) = machine.advance(Reply::Done, None);
    assert_eq!(action, Action::Respond);
    assert_eq!(machine.into_outcome().unwrap(), UploadOutcome::refused());
}

#[test]
fn one_png_under_avatar_becomes_one_thumbnail() {
    let mut w = world();
    let parts = vec![part("avatar", Some("image/png"), "cat.png", &[16384, 16384, 16384, 2048])];
    let outcome = run(upload(), Some(b"51400"), parts, &mut w);
    let temp = "./upload/00000000-0000-4000-8000-000000000001-cat.png";
    let out = "./upload/00000000-0000-4000-8000-000000000002.gif";
    assert_eq!(outcome.status(), Status::Success);
    assert_eq!(outcome.http_status(), 200);
    assert_eq!(outcome.accepted(), 1);
    assert_eq!(outcome.skipped(), 0);
    assert_eq!(outcome.rejected(), 0);
    assert_eq!(outcome.items(), &vec![file(2, out, 4321)]);
    assert!(!w.files.contains(temp));
    assert_eq!(w.files.iter().collect::<Vec<_>>(), vec![out]);
    assert!(w.actions.contains(&Action::Transcode {
        source: temp.to_string(),
        target: out.to_string(),
        width: 200,
        height: 200,
    }));
    assert!(w.actions.contains(&Action::Remove { path: temp.to_string() }));
}

#[test]
fn a_corrupt_image_leaves_no_temporary_file() {
    let mut w = world();
    let mut broken = part("avatar", Some("image/png"), "cat.png", &[100]);
    broken.decodes = false;
    let outcome = run(upload(), Some(b"300"), vec![broken], &mut w);
    assert_eq!(outcome.status(), Status::PartialFailure);
    assert_eq!(outcome.items(), &vec![ItemResult::Failed(ErrorKind::DecodeFailure)]);
    assert_eq!(outcome.accepted(), 0);
    assert_eq!(outcome.rejected(), 1);
    assert!(w.files.is_empty());
    assert!(w
        .actions
        .contains(&Action::Remove {
            path: "./upload/00000000-0000-4000-8000-000000000001-cat.png".to_string()
        }));
}

#[test]
fn a_corrupt_image_does_not_stop_the_next() {
    let mut w = world();
    let mut broken = part("avatar", Some("image/png"), "bad.png", &[100]);
    broken.decodes = false;
    let parts = vec![broken, part("avatar", Some("image/gif"), "good.gif", &[50])];
    let outcome = run(upload(), Some(b"300"), parts, &mut w);
    assert_eq!(outcome.status(), Status::PartialFailure);
    assert_eq!(
        outcome.items(),
        &vec![
            ItemResult::Failed(ErrorKind::DecodeFailure),
            file(4, "./upload/00000000-0000-4000-8000-000000000004.gif", 4321),
        ]
    );
    assert_eq!(w.files.len(), 1);
}

#[test]
fn a_field_named_photo_is_skipped() {
    let mut w = world();
    let parts = vec![part("photo", Some("image/png"), "cat.png", &[100])];
    let outcome = run(upload(), Some(b"300"), parts, &mut w);
    assert_eq!(outcome.status(), Status::Success);
    assert_eq!(outcome.accepted(), 0);
    assert_eq!(outcome.skipped(), 1);
    assert_eq!(outcome.rejected(), 0);
    assert_eq!(outcome.items(), &vec![ItemResult::Skipped(ErrorKind::WrongField)]);
    assert!(w.files.is_empty());
    assert!(!w.actions.iter().any(touches_storage));
    assert!(!w.actions.contains(&Action::NextChunk));
}

#[test]
fn an_item_without_a_listed_type_is_skipped() {
    let mut w = world();
    let parts = vec![
        part("avatar", None, "cat.png", &[100]),
        part("avatar", Some("text/plain"), "notes.txt", &[100]),
        part("avatar", Some("no type at all"), "x", &[100]),
    ];
    let outcome = run(upload(), Some(b"300"), parts, &mut w);
    assert_eq!(outcome.status(), Status::Success);
    assert_eq!(outcome.accepted(), 0);
    assert_eq!(outcome.skipped(), 3);
    assert_eq!(
        outcome.items(),
        &vec![
            ItemResult::Skipped(ErrorKind::UnsupportedType),
            ItemResult::Skipped(ErrorKind::UnsupportedType),
            ItemResult::Skipped(ErrorKind::UnsupportedType),
        ]
    );
    assert!(w.files.is_empty());
    assert!(!w.actions.iter().any(touches_storage));
}

#[test]
fn of_five_valid_items_three_are_taken_up() {
    let mut w = world();
    let parts = vec![
        part("a", Some("image/png"), "1.png", &[10]),
        part("b", Some("image/jpeg"), "2.jpg", &[20]),
        part("c", Some("image/gif"), "3.gif", &[30]),
        part("d", Some("image/png"), "4.png", &[40]),
        part("e", Some("image/png"), "5.png", &[50]),
    ];
    let outcome = run(upload2(), Some(b"150"), parts, &mut w);
    assert_eq!(outcome.status(), Status::Success);
    assert_eq!(outcome.accepted(), 3);
    assert_eq!(outcome.skipped(), 0);
    assert_eq!(outcome.rejected(), 0);
    assert_eq!(
        outcome.items(),
        &vec![
            file(1, "./upload/00000000-0000-4000-8000-000000000001-1.png", 10),
            file(2, "./upload/00000000-0000-4000-8000-000000000002-2.jpg", 20),
            file(3, "./upload/00000000-0000-4000-8000-000000000003-3.gif", 30),
        ]
    );
    assert_eq!(w.files.len(), 3);
    assert_eq!(w.actions.iter().filter(|a| **a == Action::NextItem).count(), 3);
}

#[test]
fn skipped_items_do_not_count_against_the_limit() {
    let mut w = world();
    let parts = vec![
        part("a", Some("text/plain"), "1.txt", &[10]),
        part("b", None, "2", &[10]),
        part("c", Some("image/gif"), "3.gif", &[30]),
        part("d", Some("image/png"), "4.png", &[40]),
        part("e", Some("image/png"), "5.png", &[50]),
        part("f", Some("image/png"), "6.png", &[60]),
    ];
    let outcome = run(upload2(), Some(b"200"), parts, &mut w);
    assert_eq!(outcome.accepted(), 3);
    assert_eq!(outcome.skipped(), 2);
    assert_eq!(outcome.items().len(), 5);
    assert_eq!(w.files.len(), 3);
}

#[test]
fn a_policy_of_no_items_reads_none() {
    let mut w = world();
    let endpoint = Endpoint {
        policy: LimitPolicy::new(100, 0, vec!["image/png".to_string()], None),
        storage: Storage::raw("./upload".to_string()),
        success_text: String::new(),
    };
    let parts = vec![part("a", Some("image/png"), "1.png", &[10])];
    let outcome = run(endpoint, Some(b"10"), parts, &mut w);
    assert_eq!(outcome.status(), Status::Success);
    assert_eq!(outcome.items().len(), 0);
    assert_eq!(w.actions, vec![Action::AwaitRequest, Action::Respond]);
}

#[test]
fn one_jpeg_becomes_one_row() {
    let mut w = world();
    let parts = vec![part("image", Some("image/jpeg"), "cat.jpg", &[700, 300])];
    let outcome = run(upload3(), Some(b"1200"), parts, &mut w);
    assert_eq!(outcome.status(), Status::Success);
    assert_eq!(outcome.http_status(), 200);
    assert_eq!(outcome.accepted(), 1);
    assert_eq!(
        outcome.items(),
        &vec![ItemResult::Stored(StoredArtifact::new(
            numbered(1),
            Location::Row { id: 1 },
            1000
        ))]
    );
    assert_eq!(w.rows, vec!["00000000-0000-4000-8000-000000000001".to_string()]);
    assert!(w.files.is_empty());
}

#[test]
fn a_database_outage_fails_the_item_and_not_the_request() {
    let mut w = world();
    w.database_up = false;
    let parts = vec![part("image", Some("image/jpeg"), "cat.jpg", &[700, 300])];
    let outcome = run(upload3(), Some(b"1200"), parts, &mut w);
    assert_eq!(outcome.status(), Status::PartialFailure);
    assert_eq!(outcome.accepted(), 0);
    assert_eq!(outcome.rejected(), 1);
    assert_eq!(outcome.items(), &vec![ItemResult::Failed(ErrorKind::StorageBackendFailure)]);
    assert_eq!(outcome.http_status(), 500);
}

#[test]
fn a_failed_insert_does_not_mask_the_rows_that_were_stored() {
    let endpoint = upload3();
    let mut machine = Orchestrator::new(endpoint.policy, endpoint.storage);
    let answers = vec![
        (Reply::Request { content_length: Some(b"30".to_vec()) }, None),
        (Reply::Item(part("a", Some("image/png"), "1.png", &[]).meta), Some(numbered(1))),
        (Reply::Chunk { len: 10 }, None),
        (Reply::Done, None),
        (Reply::End, None),
        (Reply::Row { id: 7 }, None),
        (Reply::Item(part("b", Some("image/png"), "2.png", &[]).meta), Some(numbered(2))),
        (Reply::End, None),
        (Reply::Failed, None),
        (Reply::End, None),
    ];
    for (reply, token) in answers {
        machine = machine.advance(reply, token).0;
    }
    let outcome = machine.into_outcome().unwrap();
    assert_eq!(outcome.status(), Status::PartialFailure);
    assert_eq!(outcome.accepted(), 1);
    assert_eq!(outcome.rejected(), 1);
    assert_eq!(
        outcome.items(),
        &vec![
            ItemResult::Stored(StoredArtifact::new(numbered(1), Location::Row { id: 7 }, 10)),
            ItemResult::Failed(ErrorKind::StorageBackendFailure),
        ]
    );
}

#[test]
fn bytes_are_counted_as_they_are_written() {
    let endpoint = upload2();
    let machine = Orchestrator::new(endpoint.policy, endpoint.storage);
    let (machine, _) = machine.advance(Reply::Request { content_length: None }, None);
    let meta = part("a", Some("image/png"), "1.png", &[]).meta;
    let (machine, action) = machine.advance(Reply::Item(meta), Some(numbered(1)));
    assert!(matches!(action, Action::Create { .. }));
    let (machine, _) = machine.advance(Reply::Done, None);
    let (machine, action) = machine.advance(Reply::Chunk { len: 4000 }, None);
    assert_eq!(action, Action::Write);
    assert_eq!(machine.received(), 0);
    let (machine, action) = machine.advance(Reply::Done, None);
    assert_eq!(action, Action::NextChunk);
    assert_eq!(machine.received(), 4000);
    let (machine, _) = machine.advance(Reply::Chunk { len: 96 }, None);
    let (machine, _) = machine.advance(Reply::Done, None);
    assert_eq!(machine.received(), 4096);
    assert_eq!(machine.processed(), 0);
    let (machine, _) = machine.advance(Reply::End, None);
    let (machine, action) = machine.advance(Reply::Done, None);
    assert_eq!(action, Action::NextItem);
    assert_eq!(machine.processed(), 1);
    assert_eq!(machine.received(), 4096);
}

#[test]
fn more_bytes_than_the_limit_are_never_written() {
    let mut w = world();
    let parts = vec![
        part("a", Some("image/png"), "1.png", &[6_000_000]),
        part("b", Some("image/png"), "2.png", &[3_000_000, 1_000_001]),
        part("c", Some("image/png"), "3.png", &[10]),
    ];
    let outcome = run(upload2(), Some(b"100"), parts, &mut w);
    assert_eq!(outcome.status(), Status::PartialFailure);
    assert_eq!(
        outcome.items(),
        &vec![
            file(1, "./upload/00000000-0000-4000-8000-000000000001-1.png", 6_000_000),
            ItemResult::Failed(ErrorKind::AggregateTooLarge),
        ]
    );
    assert_eq!(w.files.len(), 1);
    assert_eq!(w.actions.iter().filter(|a| **a == Action::Write).count(), 2);
    assert_eq!(w.actions.last(), Some(&Action::Respond));
}

#[test]
fn a_request_may_bring_just_the_limit() {
    let mut w = world();
    let parts = vec![
        part("a", Some("image/png"), "1.png", &[6_000_000]),
        part("b", Some("image/png"), "2.png", &[4_000_000]),
    ];
    let outcome = run(upload2(), None, parts, &mut w);
    assert_eq!(outcome.status(), Status::Success);
    assert_eq!(outcome.accepted(), 2);
}

#[test]
fn a_token_that_was_used_fails_the_item() {
    let endpoint = upload2();
    let machine = Orchestrator::new(endpoint.policy, endpoint.storage);
    let (machine, _) = machine.advance(Reply::Request { content_length: None }, None);
    let first = part("a", Some("image/png"), "1.png", &[]).meta;
    let (machine, _) = machine.advance(Reply::Item(first), Some(numbered(1)));
    let (machine, _) = machine.advance(Reply::Done, None);
    let (machine, _) = machine.advance(Reply::End, None);
    let (machine, action) = machine.advance(Reply::Done, None);
    assert_eq!(action, Action::NextItem);
    let second = part("b", Some("image/png"), "2.png", &[]).meta;
    let (machine, action) = machine.advance(Reply::Item(second), Some(numbered(1)));
    assert_eq!(action, Action::NextItem);
    assert_eq!(machine.processed(), 2);
    let third = part("c", Some("image/png"), "3.png", &[]).meta;
    let (machine, action) = machine.advance(Reply::Item(third), None);
    assert_eq!(action, Action::Respond);
    let outcome = machine.into_outcome().unwrap();
    assert_eq!(
        outcome.items(),
        &vec![
            file(1, "./upload/00000000-0000-4000-8000-000000000001-1.png", 0),
            ItemResult::Failed(ErrorKind::IOFailure),
            ItemResult::Failed(ErrorKind::IOFailure),
        ]
    );
    assert_eq!(outcome.http_status(), 200);
}

#[test]
fn a_sink_that_writes_files_never_answers_500() {
    for endpoint in [upload(), upload2()] {
        let machine = Orchestrator::new(endpoint.policy, endpoint.storage);
        let (machine, _) = machine.advance(Reply::Request { content_length: None }, None);
        let meta = part("avatar", Some("image/png"), "1.png", &[]).meta;
        let (machine, _) = machine.advance(Reply::Item(meta.clone()), None);
        let (machine, _) = machine.advance(Reply::Item(meta.clone()), Some(numbered(1)));
        let (machine, _) = machine.advance(Reply::Failed, None);
        let (machine, _) = machine.advance(Reply::Item(meta), Some(numbered(2)));
        let (machine, _) = machine.advance(Reply::Done, None);
        let (machine, _) = machine.advance(Reply::Row { id: 1 }, None);
        let (machine, action) = machine.advance(Reply::Failed, None);
        assert_eq!(action, Action::Respond);
        let outcome = machine.into_outcome().unwrap();
        assert_eq!(outcome.rejected(), 3);
        assert_eq!(outcome.status(), Status::PartialFailure);
        assert_eq!(outcome.http_status(), 200);
    }
}

#[test]
fn a_hostile_file_name_does_not_leave_the_directory() {
    let mut w = world();
    let parts = vec![part("a", Some("image/png"), "../../etc/cron.d/evil", &[10])];
    let outcome = run(upload2(), None, parts, &mut w);
    let path = "./upload/00000000-0000-4000-8000-000000000001-....etccron.devil";
    assert_eq!(outcome.items(), &vec![file(1, path, 10)]);
    assert_eq!(w.files.iter().collect::<Vec<_>>(), vec![path]);
}

#[test]
fn an_item_without_a_file_name_is_named_by_its_token() {
    let mut w = world();
    let mut nameless = part("a", Some("image/png"), "", &[10]);
    nameless.meta.filename = None;
    let outcome = run(upload2(), None, vec![nameless], &mut w);
    assert_eq!(
        outcome.items(),
        &vec![file(1, "./upload/00000000-0000-4000-8000-000000000001", 10)]
    );
}

#[test]
fn a_request_that_ends_early_is_done() {
    let endpoint = upload();
    let machine = Orchestrator::new(endpoint.policy, endpoint.storage);
    let (machine, action) = machine.advance(Reply::End, None);
    assert_eq!(action, Action::Respond);
    let outcome = machine.into_outcome().unwrap();
    assert_eq!(outcome.status(), Status::Success);
    assert_eq!(outcome.items().len(), 0);
}

#[test]
fn a_broken_stream_ends_the_request() {
    let endpoint = upload2();
    let machine = Orchestrator::new(endpoint.policy, endpoint.storage);
    let (machine, _) = machine.advance(Reply::Request { content_length: None }, None);
    let (machine, action) = machine.advance(Reply::Failed, None);
    assert_eq!(action, Action::Respond);
    assert!(machine.is_completed());
}

#[test]
fn a_client_that_leaves_has_its_file_removed() {
    let endpoint = upload2();
    let machine = Orchestrator::new(endpoint.policy, endpoint.storage);
    let (machine, _) = machine.advance(Reply::Request { content_length: None }, None);
    let meta = part("a", Some("image/png"), "1.png", &[]).meta;
    let (machine, _) = machine.advance(Reply::Item(meta), Some(numbered(1)));
    let (machine, _) = machine.advance(Reply::Done, None);
    let (machine, _) = machine.advance(Reply::Chunk { len: 10 }, None);
    let (machine, _) = machine.advance(Reply::Done, None);
    let (machine, action) = machine.advance(Reply::Failed, None);
    assert_eq!(
        action,
        Action::Remove { path: "./upload/00000000-0000-4000-8000-000000000001-1.png".to_string() }
    );
    let (machine, action) = machine.advance(Reply::Done, None);
    assert_eq!(action, Action::NextItem);
    let (machine, _) = machine.advance(Reply::Failed, None);
    let outcome = machine.into_outcome().unwrap();
    assert_eq!(outcome.items(), &vec![ItemResult::Failed(ErrorKind::IOFailure)]);
    assert_eq!(outcome.status(), Status::PartialFailure);
}

#[test]
fn a_token_is_wanted_only_where_one_is_used() {
    let endpoint = upload();
    let machine = Orchestrator::new(endpoint.policy, endpoint.storage);
    let good = part("avatar", Some("image/png"), "1.png", &[]).meta;
    let bad = part("photo", Some("image/png"), "1.png", &[]).meta;
    assert!(!machine.wants_token(&Reply::Item(good.clone())));
    let (machine, _) = machine.advance(Reply::Request { content_length: None }, None);
    assert!(machine.wants_token(&Reply::Item(good.clone())));
    assert!(!machine.wants_token(&Reply::Item(bad)));
    assert!(!machine.wants_token(&Reply::End));
    let (machine, _) = machine.advance(Reply::Item(good), Some(numbered(1)));
    assert!(!machine.wants_token(&Reply::Done));
    let (machine, _) = machine.advance(Reply::Done, None);
    let (machine, _) = machine.advance(Reply::End, None);
    assert!(machine.wants_token(&Reply::Done));
    assert!(!machine.wants_token(&Reply::Failed));
}

#[test]
fn stepping_draws_the_tokens_itself() {
    let endpoint = upload();
    let machine = Orchestrator::new(endpoint.policy, endpoint.storage);
    let (machine, _) = machine.step(Reply::Request { content_length: Some(b"100".to_vec()) });
    let meta = part("avatar", Some("image/png"), "cat.png", &[]).meta;
    let (machine, action) = machine.step(Reply::Item(meta));
    let temp = match action {
        Action::Create { path } => path,
        other => panic!("unexpected action: {:?}", other),
    };
    assert!(temp.starts_with("./upload/"));
    assert!(temp.ends_with("-cat.png"));
    assert_eq!(temp.len(), "./upload/".len() + 36 + "-cat.png".len());
    let (machine, _) = machine.step(Reply::Done);
    let (machine, _) = machine.step(Reply::End);
    let (machine, action) = machine.step(Reply::Done);
    let (source, target) = match action {
        Action::Transcode { source, target, width: 200, height: 200 } => (source, target),
        other => panic!("unexpected action: {:?}", other),
    };
    assert_eq!(source, temp);
    assert!(target.ends_with(".gif"));
    assert_ne!(target[..45], temp[..45]);
    let (machine, action) = machine.step(Reply::Transcoded { bytes: 9 });
    assert_eq!(action, Action::Remove { path: temp });
    let (machine, _) = machine.step(Reply::Done);
    let (machine, _) = machine.step(Reply::End);
    let outcome = machine.into_outcome().unwrap();
    assert_eq!(outcome.accepted(), 1);
    match &outcome.items()[0] {
        ItemResult::Stored(artifact) => {
            assert_eq!(artifact.location(), &Location::File { path: target.clone() });
            assert_eq!(format!("./upload/{}.gif", artifact.identifier().as_str()), target);
            assert_eq!(artifact.bytes(), 9);
        },
        other => panic!("unexpected result: {:?}", other),
    }
}

#[test]
fn many_uploads_get_as_many_identifiers() {
    let mut seen: BTreeSet<String> = BTreeSet::new();
    let mut stored = 0;
    for _ in 0..40 {
        let endpoint = upload3();
        let mut machine = Orchestrator::new(endpoint.policy, endpoint.storage);
        machine = machine.step(Reply::Request { content_length: None }).0;
        for n in 0..3 {
            let meta = part("image", Some("image/png"), "cat.png", &[]).meta;
            machine = machine.step(Reply::Item(meta)).0;
            machine = machine.step(Reply::End).0;
            machine = machine.step(Reply::Row { id: n }).0;
        }
        let outcome = machine.into_outcome().unwrap();
        assert_eq!(outcome.accepted(), 3);
        for item in outcome.items() {
            if let ItemResult::Stored(artifact) = item {
                assert!(seen.insert(artifact.identifier().as_str().to_string()));
                stored += 1;
            }
        }
    }
    assert_eq!(stored, 120);
    assert_eq!(seen.len(), 120);
}
