use uran_core::errors::ErrorKind;
use uran_core::runs::{RunStatus, RunStore};

const PROJECT: &str = "11111111-1111-4111-8111-111111111111";
const ACTOR: &str = "22222222-2222-4222-8222-222222222222";
const RUN: &str = "33333333-3333-4333-8333-333333333333";

fn store_with_run(status_chain: &[RunStatus]) -> RunStore {
    let mut store = RunStore::new();
    store
        .create_run_with_id(RUN.to_string(), PROJECT, None, None, Some("smoke"), ACTOR, "t0")
        .unwrap();
    let mut t = 1;
    for s in status_chain {
        store.set_run_status_at(RUN, *s, &format!("t{}", t)).unwrap();
        t += 1;
    }
    store
}

#[test]
fn new_run_is_draft_without_timestamps() {
    let store = store_with_run(&[]);
    let run = store.get_run(RUN).unwrap();
    assert_eq!(run.status, RunStatus::Draft);
    assert_eq!(run.started_at, None);
    assert_eq!(run.finished_at, None);
    assert_eq!(run.locked_at, None);
    assert_eq!(run.created_at, "t0");
    assert_eq!(run.updated_at, "t0");
}

#[test]
fn title_defaults_to_new_run_when_blank() {
    let mut store = RunStore::new();
    store
        .create_run_with_id(RUN.to_string(), PROJECT, None, None, Some("   "), ACTOR, "t0")
        .unwrap();
    assert_eq!(store.get_run(RUN).unwrap().title, "New run");

    let mut store2 = RunStore::new();
    store2
        .create_run_with_id(RUN.to_string(), PROJECT, None, None, None, ACTOR, "t0")
        .unwrap();
    assert_eq!(store2.get_run(RUN).unwrap().title, "New run");
}

#[test]
fn blank_asset_and_template_count_as_absent() {
    let mut store = RunStore::new();
    store
        .create_run_with_id(RUN.to_string(), PROJECT, Some("  "), Some(""), None, ACTOR, "t0")
        .unwrap();
    let run = store.get_run(RUN).unwrap();
    assert_eq!(run.asset_id, None);
    assert_eq!(run.template_id, None);
}

#[test]
fn malformed_identifiers_are_validation_errors() {
    let mut store = RunStore::new();
    let e = store
        .create_run_with_id(RUN.to_string(), "not-a-uuid", None, None, None, ACTOR, "t0")
        .unwrap_err();
    assert_eq!(e.kind, ErrorKind::Validation);
    assert_eq!(e.status_code(), 400);
    let e = store
        .create_run_with_id(RUN.to_string(), PROJECT, Some("nope"), None, None, ACTOR, "t0")
        .unwrap_err();
    assert_eq!(e.kind, ErrorKind::Validation);
    let e = store
        .create_run_with_id(RUN.to_string(), PROJECT, None, None, None, "bad-actor", "t0")
        .unwrap_err();
    assert_eq!(e.kind, ErrorKind::Validation);
}

#[test]
fn duplicate_run_id_is_a_storage_error() {
    let mut store = store_with_run(&[]);
    let e = store
        .create_run_with_id(RUN.to_string(), PROJECT, None, None, None, ACTOR, "t9")
        .unwrap_err();
    assert_eq!(e.kind, ErrorKind::Storage);
    assert_eq!(e.status_code(), 500);
}

#[test]
fn every_transition_pair_follows_the_table() {
    let allowed = [
        (RunStatus::Draft, RunStatus::Draft),
        (RunStatus::Draft, RunStatus::InProgress),
        (RunStatus::InProgress, RunStatus::InProgress),
        (RunStatus::InProgress, RunStatus::Done),
        (RunStatus::Done, RunStatus::Done),
        (RunStatus::Done, RunStatus::Locked),
        (RunStatus::Locked, RunStatus::Locked),
    ];
    let chains: [(&RunStatus, &[RunStatus]); 4] = [
        (&RunStatus::Draft, &[]),
        (&RunStatus::InProgress, &[RunStatus::InProgress]),
        (&RunStatus::Done, &[RunStatus::InProgress, RunStatus::Done]),
        (&RunStatus::Locked, &[RunStatus::InProgress, RunStatus::Done, RunStatus::Locked]),
    ];
    for (from, chain) in chains {
        for to in [RunStatus::Draft, RunStatus::InProgress, RunStatus::Done, RunStatus::Locked] {
            let mut store = store_with_run(chain);
            let r = store.set_run_status_at(RUN, to, "t9");
            if allowed.contains(&(*from, to)) {
                let run = r.unwrap();
                assert_eq!(run.status, to);
            } else {
                let e = r.unwrap_err();
                assert_eq!(e.kind, ErrorKind::Conflict);
                assert_eq!(e.status_code(), 409);
                // the persisted status is untouched by the rejected call
                assert_eq!(store.get_run(RUN).unwrap().status, *from);
            }
        }
    }
}

#[test]
fn entering_in_progress_fills_started_at_once() {
    let mut store = store_with_run(&[]);
    let run = store.set_run_status_at(RUN, RunStatus::InProgress, "t1").unwrap();
    assert_eq!(run.started_at.as_deref(), Some("t1"));
    assert_eq!(run.updated_at, "t1");
    let run = store.set_run_status_at(RUN, RunStatus::InProgress, "t2").unwrap();
    assert_eq!(run.started_at.as_deref(), Some("t1"));
    assert_eq!(run.updated_at, "t2");
}

#[test]
fn resubmitting_a_status_refreshes_updated_at_only() {
    let mut store = store_with_run(&[RunStatus::InProgress, RunStatus::Done]);
    let first = store.get_run(RUN).unwrap();
    let second = store.set_run_status_at(RUN, RunStatus::Done, "t9").unwrap();
    assert_eq!(second.updated_at, "t9");
    assert_ne!(first.updated_at, second.updated_at);
    assert_eq!(first.started_at, second.started_at);
    assert_eq!(first.finished_at, second.finished_at);
    assert_eq!(first.locked_at, second.locked_at);
}

#[test]
fn locking_stamps_locked_at_afresh() {
    let mut store = store_with_run(&[RunStatus::InProgress, RunStatus::Done]);
    let run = store.set_run_status_at(RUN, RunStatus::Locked, "t7").unwrap();
    assert_eq!(run.locked_at.as_deref(), Some("t7"));
    let run = store.set_run_status_at(RUN, RunStatus::Locked, "t8").unwrap();
    assert_eq!(run.locked_at.as_deref(), Some("t8"));
    assert_eq!(run.started_at.as_deref(), Some("t1"));
    assert_eq!(run.finished_at.as_deref(), Some("t2"));
}

#[test]
fn done_fills_finished_and_keeps_started() {
    let mut store = store_with_run(&[RunStatus::InProgress]);
    let run = store.set_run_status_at(RUN, RunStatus::Done, "t5").unwrap();
    assert_eq!(run.started_at.as_deref(), Some("t1"));
    assert_eq!(run.finished_at.as_deref(), Some("t5"));
}

#[test]
fn malformed_run_id_is_a_validation_error_everywhere() {
    let mut store = store_with_run(&[]);
    let e = store.set_run_status_at("not-a-uuid", RunStatus::Draft, "t1").unwrap_err();
    assert_eq!(e.kind, ErrorKind::Validation);
    assert_eq!(e.status_code(), 400);
    let e = store.run_details("not-a-uuid").unwrap_err();
    assert_eq!(e.kind, ErrorKind::Validation);
}

#[test]
fn padded_asset_text_is_rejected_as_given() {
    let mut store = RunStore::new();
    let padded = format!(" {} ", PROJECT);
    let e = store
        .create_run_with_id(RUN.to_string(), PROJECT, Some(padded.as_str()), None, None, ACTOR, "t0")
        .unwrap_err();
    assert_eq!(e.kind, ErrorKind::Validation);
}

#[test]
fn unknown_run_is_not_found() {
    let mut store = RunStore::new();
    let e = store.set_run_status_at(RUN, RunStatus::Draft, "t1").unwrap_err();
    assert_eq!(e.kind, ErrorKind::NotFound);
    assert_eq!(e.status_code(), 404);
    assert!(store.get_run(RUN).is_none());
    assert!(store.run_details(RUN).is_err());
}

#[test]
fn generated_run_identifiers_are_uuid_text() {
    let mut store = RunStore::new();
    let run = store.create_run(PROJECT, None, None, Some("fresh"), ACTOR).unwrap();
    // the drawn identifier must itself be accepted wherever UUID text is required
    assert!(store.get_run(&run.id).is_some());
    let again = store.set_run_status_at(&run.id, RunStatus::InProgress, "t1").unwrap();
    assert_eq!(again.status, RunStatus::InProgress);
}
