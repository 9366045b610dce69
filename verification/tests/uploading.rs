//! An upload, from the first question to publication.

use dcfs::cli::args::Exit;
use dcfs::cli::upload::{
    announce, checked_resume_offset, hidden_name, name_can_be_sent, next_read_len, stored_name,
    Action, Announcement, Body, Event, Facts, Failure, Method, Query, Stage, Upload,
};

#[test]
fn resume_rejects_remote_larger_than_local_source() {
    assert_eq!(checked_resume_offset(10, 10), Ok(10));
    assert_eq!(checked_resume_offset(9, 10), Ok(9));
    assert_eq!(checked_resume_offset(11, 10), Err(()));
}

#[test]
fn read_window_never_exceeds_initial_source_size() {
    assert_eq!(next_read_len(10, 0, 8), 8);
    assert_eq!(next_read_len(10, 8, 8), 2);
    assert_eq!(next_read_len(10, 10, 8), 0);
}

#[test]
fn read_window_is_empty_past_the_end_or_without_a_buffer() {
    assert_eq!(next_read_len(10, 11, 8), 0);
    assert_eq!(next_read_len(10, 0, 0), 0);
    assert_eq!(next_read_len(u64::MAX, 0, 8), 8);
}

fn nothing_known() -> Facts {
    Facts {
        chunk_size: None,
        size: None,
        id: None,
        parent_id: None,
    }
}

fn ok(facts: Facts) -> Event {
    Event::Answered {
        status: 200,
        body: Some(facts),
    }
}

fn id(id: &str) -> Facts {
    Facts {
        id: Some(id.to_string()),
        ..nothing_known()
    }
}

fn status(status: u16) -> Event {
    Event::Answered { status, body: None }
}

fn part_size(n: u64) -> Event {
    ok(Facts {
        chunk_size: Some(n),
        ..nothing_known()
    })
}

fn start(total: u64, resume: bool) -> Upload {
    assert!(name_can_be_sent("a.bin"));
    Upload::new("http://s".to_string(), "a.bin".to_string(), total, resume)
}

/// An upload of `total` bytes in parts of 4 that was just made on the server.
fn made(total: u64) -> Upload {
    let mut u = start(total, false);
    u.step(part_size(4));
    u.step(status(404));
    u.step(status(404));
    u.step(ok(id("root")));
    u.step(ok(id("node")));
    u
}

/// The same, with the source open.
fn opened(total: u64) -> Upload {
    let mut u = made(total);
    u.step(Event::Opened);
    u
}

fn plain(method: Method, url: &str) -> Action {
    Action::Request {
        method,
        url: url.to_string(),
        query: Query::Nothing,
        body: Body::Nothing,
    }
}

fn resolve(path: &str) -> Action {
    Action::Request {
        method: Method::Get,
        url: "http://s/api/v1/nodes/resolve".to_string(),
        query: Query::Path {
            path: path.to_string(),
        },
        body: Body::Nothing,
    }
}

fn send(offset: u64, len: usize) -> Action {
    Action::Request {
        method: Method::Put,
        url: "http://s/api/v1/nodes/node/data".to_string(),
        query: Query::Offset { offset },
        body: Body::Part { len },
    }
}

fn failed(u: &Upload, why: Failure) -> bool {
    u.stage() == Stage::Failed { why } && u.action_with(0) == Action::GiveUp { why }
}

#[test]
fn names_are_hidden_while_they_upload() {
    assert_eq!(hidden_name("a.bin"), ".a.bin.dcfs-uploading");
    assert_ne!(hidden_name("a"), hidden_name("b"));
    let text = |s: &str| Some(s.to_string());
    assert_eq!(stored_name(text("n"), text("f")), "n");
    assert_eq!(stored_name(None, text("f")), "f");
    assert_eq!(stored_name(None, None), "upload.bin");
}

#[test]
fn a_whole_upload_goes_step_by_step() {
    let key = 0x0123_4567_89ab_4def_8123_4567_89ab_cdef_u128;
    let mut u = start(6, false);
    assert_eq!(u.action_with(key), plain(Method::Get, "http://s/api/v1/fs"));
    u.step(part_size(4));
    assert_eq!(u.part_size(), 4);
    assert_eq!(u.action_with(key), resolve("/a.bin"));
    u.step(status(404));
    assert_eq!(u.action_with(key), resolve("/.a.bin.dcfs-uploading"));
    u.step(status(404));
    assert_eq!(
        u.action_with(key),
        plain(Method::Get, "http://s/api/v1/nodes/root")
    );
    u.step(ok(id("root")));
    assert_eq!(
        u.action_with(key),
        Action::Request {
            method: Method::Post,
            url: "http://s/api/v1/nodes".to_string(),
            query: Query::Nothing,
            body: Body::NewFile {
                parent_id: "root".to_string(),
                name: "LmEuYmluLmRjZnMtdXBsb2FkaW5n".to_string(),
                kind: "File".to_string(),
                mode: 0o100644,
                uid: 0,
                gid: 0,
                idempotency_key: "01234567-89ab-4def-8123-456789abcdef".to_string(),
            },
        }
    );
    u.step(Event::Answered {
        status: 201,
        body: Some(id("node")),
    });
    assert_eq!(u.action_with(key), Action::Open { offset: 0 });
    u.step(Event::Opened);

    // The first part, in two reads.
    assert_eq!(u.action_with(key), Action::Read { from: 0, to: 4 });
    u.step(Event::Read { count: 3 });
    assert_eq!(u.action_with(key), Action::Read { from: 3, to: 4 });
    u.step(Event::Read { count: 1 });
    assert_eq!(u.action_with(key), send(0, 4));
    u.step(status(200));
    assert_eq!(u.offset(), 4);

    // The rest.
    assert_eq!(u.action_with(key), Action::Read { from: 0, to: 2 });
    u.step(Event::Read { count: 2 });
    assert_eq!(u.action_with(key), send(4, 2));
    u.step(status(204));
    assert_eq!(u.offset(), 6);

    assert_eq!(u.action_with(key), Action::Measure);
    u.step(Event::Measured { size: 6 });
    assert_eq!(
        u.action_with(key),
        plain(Method::Post, "http://s/api/v1/nodes/node/sync")
    );
    u.step(status(200));
    assert_eq!(
        u.action_with(key),
        Action::Request {
            method: Method::Post,
            url: "http://s/api/v1/nodes/node/publish".to_string(),
            query: Query::Nothing,
            body: Body::Publication {
                new_parent_id: "root".to_string(),
                new_name: "YS5iaW4".to_string(),
                idempotency_key: "01234567-89ab-4def-8123-456789abcdef".to_string(),
            },
        }
    );
    u.step(status(200));
    assert_eq!(u.stage(), Stage::Done);
    assert_eq!(u.action_with(key), Action::Finish);
    u.step(Event::NoAnswer);
    assert_eq!(u.stage(), Stage::Done);
}

#[test]
fn every_key_is_fresh() {
    let mut u = start(6, false);
    u.step(part_size(4));
    u.step(status(404));
    u.step(status(404));
    u.step(ok(id("root")));
    let key_of = |action: Action| match action {
        Action::Request {
            body: Body::NewFile { idempotency_key, .. },
            ..
        } => idempotency_key,
        other => panic!("{other:?}"),
    };
    let first = key_of(u.action());
    let second = key_of(u.action());
    assert_ne!(first, second);
    assert_eq!(first.len(), 36);
    assert_eq!(uuid::Uuid::parse_str(&first).unwrap().get_version_num(), 4);
    assert_eq!(uuid::Uuid::parse_str(&first).unwrap().to_string(), first);
}

#[test]
fn the_part_size_has_a_default() {
    let mut u = start(6, false);
    u.step(Event::Answered {
        status: 500,
        body: Some(nothing_known()),
    });
    assert_eq!(u.part_size(), 8 << 20);
    assert_eq!(u.stage(), Stage::CheckFinal);

    let mut u = start(6, false);
    u.step(status(200));
    assert!(failed(&u, Failure::PartSizeUnreadable));

    let mut u = start(6, false);
    u.step(Event::NoAnswer);
    assert!(failed(&u, Failure::Unreachable));
}

#[test]
fn published_files_are_never_overwritten() {
    for resume in [false, true] {
        let mut u = start(6, resume);
        u.step(part_size(4));
        u.step(ok(Facts {
            size: Some(12),
            ..nothing_known()
        }));
        assert!(failed(&u, Failure::FinalExists { size: 12 }));
        u.step(status(404));
        assert!(failed(&u, Failure::FinalExists { size: 12 }));
    }
    let mut u = start(6, true);
    u.step(part_size(4));
    u.step(status(200));
    assert!(failed(&u, Failure::FinalUnreadable));

    // Without an answer the upload goes on: the server refuses in the end.
    let mut u = start(6, true);
    u.step(part_size(4));
    u.step(Event::NoAnswer);
    assert_eq!(u.stage(), Stage::FindPartial);
}

#[test]
fn partial_uploads_are_resumed_where_they_end() {
    let partial = |size: Option<u64>| {
        ok(Facts {
            size,
            id: Some("p".to_string()),
            parent_id: Some("dir".to_string()),
            ..nothing_known()
        })
    };
    let found = |resume: bool, event: Event| {
        let mut u = start(6, resume);
        u.step(part_size(4));
        u.step(status(404));
        u.step(event);
        u
    };
    let mut u = found(true, partial(Some(5)));
    assert_eq!(u.stage(), Stage::Open);
    assert_eq!(u.offset(), 5);
    assert_eq!(u.action_with(0), Action::Open { offset: 5 });
    u.step(Event::Opened);
    assert_eq!(u.action_with(0), Action::Read { from: 0, to: 1 });

    // A partial upload that is complete is only published.
    let mut u = found(true, partial(Some(6)));
    u.step(Event::Opened);
    assert_eq!(u.stage(), Stage::Measure);

    assert_eq!(found(true, partial(None)).offset(), 0);
    assert!(failed(
        &found(true, partial(Some(7))),
        Failure::PartialTooLarge { remote_size: 7 }
    ));
    assert!(failed(
        &found(false, partial(Some(5))),
        Failure::PartialExists { size: 5 }
    ));
    assert!(failed(&found(true, status(200)), Failure::PartialUnreadable));
    assert_eq!(found(true, status(404)).stage(), Stage::AskRoot);
    assert_eq!(found(true, Event::NoAnswer).stage(), Stage::AskRoot);
}

#[test]
fn the_hidden_file_has_to_be_made() {
    let asked = |event: Event| {
        let mut u = start(6, false);
        u.step(part_size(4));
        u.step(status(404));
        u.step(status(404));
        u.step(event);
        u
    };
    assert!(failed(&asked(status(200)), Failure::RootUnreadable));
    assert!(failed(&asked(Event::NoAnswer), Failure::Unreachable));
    // What counts is what the answer says, not its status.
    assert_eq!(
        asked(Event::Answered {
            status: 500,
            body: Some(nothing_known()),
        })
        .stage(),
        Stage::Create
    );

    let made = |event: Event| {
        let mut u = asked(ok(id("root")));
        u.step(event);
        u
    };
    assert!(failed(&made(status(200)), Failure::CreatedUnreadable));
    assert!(failed(
        &made(status(409)),
        Failure::CreateRefused { status: 409 }
    ));
    assert!(failed(&made(Event::NoAnswer), Failure::CreateFailed));
    assert_eq!(made(ok(id("node"))).stage(), Stage::Open);
}

#[test]
fn the_source_has_to_open() {
    let mut u = made(6);
    u.step(Event::CannotOpen);
    assert!(failed(&u, Failure::CannotOpen));
    let mut u = made(6);
    u.step(Event::CannotSeek);
    assert!(failed(&u, Failure::CannotSeek));
}

#[test]
fn an_empty_file_needs_no_parts() {
    let mut u = made(0);
    u.step(Event::Opened);
    assert_eq!(u.stage(), Stage::Measure);
}

#[test]
fn a_source_that_ends_early_is_noticed() {
    let mut u = opened(6);
    u.step(Event::Read { count: 0 });
    assert!(failed(&u, Failure::SourceEnded { offset: 0 }));

    // A short part is still sent before that.
    let mut u = opened(6);
    u.step(Event::Read { count: 1 });
    u.step(Event::Read { count: 0 });
    assert_eq!(u.action_with(0), send(0, 1));
    u.step(status(200));
    assert_eq!(u.offset(), 1);
    u.step(Event::Read { count: 0 });
    assert!(failed(&u, Failure::SourceEnded { offset: 1 }));

    let mut u = opened(6);
    u.step(Event::CannotRead);
    assert!(failed(&u, Failure::ReadFailed { offset: 0 }));
}

#[test]
fn a_part_size_of_nothing_sends_nothing() {
    let mut u = start(6, false);
    u.step(part_size(0));
    u.step(status(404));
    u.step(status(404));
    u.step(ok(id("root")));
    u.step(ok(id("node")));
    u.step(Event::Opened);
    assert!(failed(&u, Failure::SourceEnded { offset: 0 }));
}

#[test]
fn a_part_is_sent_at_most_three_times() {
    let mut u = opened(6);
    u.step(Event::Read { count: 4 });
    for (attempt, event) in [(1u64, status(500)), (2, Event::NoAnswer), (3, status(429))] {
        assert_eq!(u.attempt(), attempt);
        assert_eq!(u.action_with(0), send(0, 4));
        u.step(event);
        assert_eq!(
            u.action_with(0),
            Action::Wait {
                seconds: attempt * 5
            }
        );
        u.step(Event::Waited);
    }
    assert!(failed(&u, Failure::GaveUp { offset: 0 }));
}

#[test]
fn a_retry_that_works_goes_on() {
    let mut u = opened(6);
    u.step(Event::Read { count: 4 });
    u.step(Event::NoAnswer);
    u.step(Event::Waited);
    u.step(status(200));
    assert_eq!(u.offset(), 4);
    u.step(Event::Read { count: 2 });
    assert_eq!(u.attempt(), 1);
}

/// An upload of 4 bytes with everything sent.
fn sent() -> Upload {
    let mut u = opened(4);
    u.step(Event::Read { count: 4 });
    u.step(status(200));
    u
}

#[test]
fn changed_sources_are_not_published() {
    for size in [3, 5] {
        let mut u = sent();
        u.step(Event::Measured { size });
        assert!(failed(&u, Failure::SizeChanged { current: size }));
    }
    let mut u = sent();
    u.step(Event::CannotMeasure);
    assert!(failed(&u, Failure::CannotMeasure));
}

#[test]
fn publishing_needs_a_sync() {
    let measured = || {
        let mut u = sent();
        u.step(Event::Measured { size: 4 });
        u
    };
    let mut u = measured();
    u.step(status(500));
    assert!(failed(&u, Failure::SyncRefused { status: 500 }));
    let mut u = measured();
    u.step(Event::NoAnswer);
    assert!(failed(&u, Failure::SyncFailed));

    let mut u = measured();
    u.step(status(200));
    u.step(status(409));
    assert!(failed(&u, Failure::PublishRefused { status: 409 }));
    let mut u = measured();
    u.step(status(200));
    u.step(Event::NoAnswer);
    assert!(failed(&u, Failure::PublishFailed));
}

#[test]
fn events_out_of_turn_change_nothing() {
    let mut u = opened(6);
    for event in [
        Event::Opened,
        Event::Waited,
        Event::Measured { size: 6 },
        Event::Read { count: 5 },
        status(200),
        Event::NoAnswer,
    ] {
        u.step(event);
        assert_eq!(u.stage(), Stage::Read);
        assert_eq!(u.action_with(0), Action::Read { from: 0, to: 4 });
    }
}

#[test]
fn parts_follow_each_other_without_gap_or_overlap() {
    let mut u = opened(10);
    let mut covered = 0;
    while u.stage() != Stage::Measure {
        match u.action_with(0) {
            Action::Read { from, to } => u.step(Event::Read {
                count: (to - from).min(3),
            }),
            Action::Request {
                query: Query::Offset { offset },
                body: Body::Part { len },
                ..
            } => {
                assert_eq!(offset, covered);
                covered += len as u64;
                u.step(status(200));
            }
            other => panic!("{other:?}"),
        }
    }
    assert_eq!(covered, 10);
}

#[test]
fn the_operator_is_told_where_an_upload_starts() {
    assert_eq!(announce(6, 6), Announcement::AlreadyUploaded);
    assert_eq!(announce(3, 6), Announcement::Resuming);
    assert_eq!(announce(0, 6), Announcement::Nothing);
    assert_eq!(announce(0, 0), Announcement::Nothing);
}

/// Carries an upload out: reads `source` at most three bytes at a time, and has
/// the server refuse every second part once. Gives what the server has.
fn carry_out(mut u: Upload, source: &[u8], mut stored: Vec<u8>) -> (Stage, Vec<u8>) {
    let mut cursor = 0;
    let mut buffer = Vec::new();
    let mut refuse = false;
    loop {
        match u.action_with(0) {
            Action::Open { offset } => {
                cursor = offset as usize;
                buffer = vec![0u8; u.part_size() as usize];
                u.step(Event::Opened);
            }
            Action::Read { from, to } => {
                let left = source.len().saturating_sub(cursor);
                let count = (to - from).min(3).min(left);
                buffer[from..from + count].copy_from_slice(&source[cursor..cursor + count]);
                cursor += count;
                u.step(Event::Read { count });
            }
            Action::Request {
                query: Query::Offset { offset },
                body: Body::Part { len },
                ..
            } => {
                refuse = !refuse;
                if refuse {
                    u.step(status(500));
                } else {
                    assert_eq!(offset as usize, stored.len());
                    stored.extend_from_slice(&buffer[..len]);
                    u.step(status(200));
                }
            }
            Action::Request { .. } => u.step(status(200)),
            Action::Wait { .. } => u.step(Event::Waited),
            Action::Measure => u.step(Event::Measured {
                size: source.len() as u64,
            }),
            Action::Finish | Action::GiveUp { .. } => return (u.stage(), stored),
        }
    }
}

#[test]
fn published_files_are_the_source() {
    let source: Vec<u8> = (0..23u8).map(|i| i.wrapping_mul(37)).collect();
    let (stage, stored) = carry_out(made(23), &source, Vec::new());
    assert_eq!(stage, Stage::Done);
    assert_eq!(stored, source);

    // The same from a partial upload.
    let mut u = start(23, true);
    u.step(part_size(4));
    u.step(status(404));
    u.step(ok(Facts {
        size: Some(10),
        ..id("node")
    }));
    let (stage, stored) = carry_out(u, &source, source[..10].to_vec());
    assert_eq!(stage, Stage::Done);
    assert_eq!(stored, source);
}

#[test]
fn shortened_sources_are_never_published() {
    let source = [7u8; 9];
    let (stage, stored) = carry_out(made(23), &source, Vec::new());
    assert_eq!(
        stage,
        Stage::Failed {
            why: Failure::SourceEnded { offset: 9 }
        }
    );
    assert_eq!(stored, source.to_vec());
}

#[test]
fn only_a_published_file_is_a_success() {
    let mut u = sent();
    assert_eq!(u.exit(), None);
    u.step(Event::Measured { size: 4 });
    u.step(status(200));
    assert_eq!(u.exit(), None);
    u.step(status(200));
    assert_eq!(u.exit(), Some(Exit::Success));

    let mut u = sent();
    u.step(Event::Measured { size: 5 });
    assert_eq!(u.exit(), Some(Exit::Failure));
}

#[test]
fn publishing_is_asked_for_last() {
    let mut u = sent();
    u.step(status(200));
    assert_eq!(u.stage(), Stage::Measure);
    u.step(Event::Measured { size: 4 });
    u.step(Event::Measured { size: 4 });
    assert_eq!(u.stage(), Stage::Sync);
    u.step(status(204));
    assert_eq!(u.stage(), Stage::Publish);
}

#[test]
fn answers_are_read_where_they_count() {
    let mut u = start(6, false);
    assert!(u.reads_answer(200));
    assert!(u.reads_answer(500));
    u.step(part_size(4));
    assert!(u.reads_answer(200));
    assert!(!u.reads_answer(404));
    u.step(status(404));
    assert!(!u.reads_answer(404));
    u.step(status(404));
    assert!(u.reads_answer(404));
    u.step(ok(id("root")));
    assert!(u.reads_answer(201));
    assert!(!u.reads_answer(409));
    u.step(ok(id("node")));
    assert!(!u.reads_answer(200));
    assert!(!sent().reads_answer(200));
}
