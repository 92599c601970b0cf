use s3edit::address::ParseError;
use s3edit::scratch::scratch_suffix;
use s3edit::workflow::{start, step, Action, Event, FailureReason, Outcome, State};

#[test]
fn changed_content_is_written_back_once() {
    let (state, action) = start("s3://bucket1/dir/file.txt");
    match &action {
        Action::CreateScratch(hint) => assert_eq!(hint.as_deref(), Some("txt")),
        _ => panic!("expected a scratch-file request"),
    }
    let mut stores = 0;

    let (state, action) = step(state, Event::ScratchCreated);
    match &action {
        Action::BeginFetch(container, key) => {
            assert_eq!(container.as_str(), "bucket1");
            assert_eq!(key.as_str(), "dir/file.txt");
        }
        _ => panic!("expected the fetch to begin"),
    }

    let (state, action) = step(state, Event::FetchChunk(b"hello".to_vec()));
    match &action {
        Action::WriteChunk(bytes) => assert_eq!(bytes.as_slice(), b"hello"),
        _ => panic!("expected the chunk to be written out"),
    }

    let (state, action) = step(state, Event::FetchDone);
    assert!(matches!(action, Action::RunEditor));

    let (state, action) = step(state, Event::EditorExited(0));
    assert!(matches!(action, Action::RereadScratch));

    let (state, action) = step(state, Event::ScratchReread(b"hello world".to_vec()));
    match &action {
        Action::Store(container, key, bytes) => {
            assert_eq!(container.as_str(), "bucket1");
            assert_eq!(key.as_str(), "dir/file.txt");
            assert_eq!(bytes.as_slice(), b"hello world");
            stores += 1;
        }
        _ => panic!("expected exactly the final bytes to be stored"),
    }

    let (state, action) = step(state, Event::StoreOk);
    assert!(matches!(action, Action::Finish(Outcome::WrittenBack)));
    assert!(matches!(state, State::Done { outcome: Outcome::WrittenBack }));
    assert_eq!(stores, 1);
}

#[test]
fn unchanged_content_is_never_stored() {
    let (state, _) = start("s3://bucket1/dir/file.txt");
    let (state, _) = step(state, Event::ScratchCreated);
    let (state, _) = step(state, Event::FetchChunk(b"hello".to_vec()));
    let (state, action) = step(state, Event::FetchDone);
    assert!(matches!(action, Action::RunEditor));
    let (state, _) = step(state, Event::EditorExited(0));
    let (state, action) = step(state, Event::ScratchReread(b"hello".to_vec()));
    assert!(matches!(action, Action::Finish(Outcome::Skipped)));
    assert!(matches!(state, State::Done { outcome: Outcome::Skipped }));
}

#[test]
fn chunked_fetch_and_whole_reread_compare_equal() {
    let (state, _) = start("s3://bucket1/file.txt");
    let (state, _) = step(state, Event::ScratchCreated);
    let (state, _) = step(state, Event::FetchChunk(b"hel".to_vec()));
    let (state, _) = step(state, Event::FetchChunk(b"".to_vec()));
    let (state, _) = step(state, Event::FetchChunk(b"lo".to_vec()));
    let (state, _) = step(state, Event::FetchDone);
    let (state, _) = step(state, Event::EditorExited(0));
    let (_, action) = step(state, Event::ScratchReread(b"hello".to_vec()));
    assert!(matches!(action, Action::Finish(Outcome::Skipped)));
}

#[test]
fn unrecognized_scheme_fails_before_any_call() {
    let (state, action) = start("ftp://bucket1/file");
    // The very first action already ends the run: nothing was fetched,
    // no scratch file was created, no editor ran.
    assert!(matches!(
        action,
        Action::Finish(Outcome::Failed(FailureReason::AddressParse(ParseError::MissingScheme)))
    ));
    assert!(matches!(state, State::Done { .. }));
}

#[test]
fn empty_container_fails_before_any_call() {
    let (_, action) = start("s3:///key");
    assert!(matches!(
        action,
        Action::Finish(Outcome::Failed(FailureReason::AddressParse(ParseError::MissingContainer)))
    ));
}

#[test]
fn scratch_creation_failure_ends_the_run() {
    let (state, _) = start("s3://bucket1/file");
    let (state, action) = step(state, Event::ScratchFailed);
    assert!(matches!(action, Action::Finish(Outcome::Failed(FailureReason::ScratchFile))));
    assert!(matches!(state, State::Done { .. }));
}

#[test]
fn fetch_failure_releases_scratch_and_skips_editor() {
    let (state, _) = start("s3://bucket1/file");
    let (state, _) = step(state, Event::ScratchCreated);
    let (state, action) = step(state, Event::FetchFailed);
    // `Finish` releases the scratch file; the run is over, so no editor
    // is ever launched.
    assert!(matches!(action, Action::Finish(Outcome::Failed(FailureReason::TransportFetch))));
    assert!(matches!(state, State::Done { .. }));
}

#[test]
fn scratch_write_failure_ends_the_run() {
    let (state, _) = start("s3://bucket1/file");
    let (state, _) = step(state, Event::ScratchCreated);
    let (state, _) = step(state, Event::FetchChunk(b"data".to_vec()));
    let (_, action) = step(state, Event::ScratchFailed);
    assert!(matches!(action, Action::Finish(Outcome::Failed(FailureReason::ScratchFile))));
}

#[test]
fn failing_editor_prevents_writeback() {
    let (state, _) = start("s3://bucket1/file.txt");
    let (state, _) = step(state, Event::ScratchCreated);
    let (state, _) = step(state, Event::FetchChunk(b"hello".to_vec()));
    let (state, _) = step(state, Event::FetchDone);
    let (state, action) = step(state, Event::EditorExited(1));
    // The run ends at once: the scratch file is released and nothing is
    // ever stored.
    assert!(matches!(
        action,
        Action::Finish(Outcome::Failed(FailureReason::EditorExit(1)))
    ));
    assert!(matches!(state, State::Done { .. }));
}

#[test]
fn editor_spawn_failure_prevents_writeback() {
    let (state, _) = start("s3://bucket1/file");
    let (state, _) = step(state, Event::ScratchCreated);
    let (state, _) = step(state, Event::FetchDone);
    let (_, action) = step(state, Event::EditorSpawnFailed);
    assert!(matches!(action, Action::Finish(Outcome::Failed(FailureReason::EditorSpawn))));
}

#[test]
fn reread_failure_ends_the_run() {
    let (state, _) = start("s3://bucket1/file");
    let (state, _) = step(state, Event::ScratchCreated);
    let (state, _) = step(state, Event::FetchDone);
    let (state, _) = step(state, Event::EditorExited(0));
    let (_, action) = step(state, Event::ScratchRereadFailed);
    assert!(matches!(action, Action::Finish(Outcome::Failed(FailureReason::ScratchFile))));
}

#[test]
fn store_failure_is_surfaced() {
    let (state, _) = start("s3://bucket1/file");
    let (state, _) = step(state, Event::ScratchCreated);
    let (state, _) = step(state, Event::FetchChunk(b"old".to_vec()));
    let (state, _) = step(state, Event::FetchDone);
    let (state, _) = step(state, Event::EditorExited(0));
    let (state, action) = step(state, Event::ScratchReread(b"new".to_vec()));
    assert!(matches!(action, Action::Store(_, _, _)));
    let (state, action) = step(state, Event::StoreFailed);
    assert!(matches!(
        action,
        Action::Finish(Outcome::Failed(FailureReason::TransportWrite))
    ));
    assert!(matches!(state, State::Done { .. }));
}

#[test]
fn scratch_suffix_carries_the_hint() {
    let suffix = scratch_suffix(&Some("txt".to_string()));
    assert_eq!(suffix.as_deref(), Some(".txt"));
    assert_eq!(scratch_suffix(&None), None);
}

#[test]
fn key_without_extension_gives_no_suffix() {
    let (_, action) = start("s3://bucket1/plainfile");
    match &action {
        Action::CreateScratch(hint) => assert_eq!(hint, &None),
        _ => panic!("expected a scratch-file request"),
    }
}
