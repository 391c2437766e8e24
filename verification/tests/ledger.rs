use uran_core::errors::ErrorKind;
use uran_core::runs::{ResultStatus, RunStatus, RunStore};

const PROJECT: &str = "11111111-1111-4111-8111-111111111111";
const ACTOR: &str = "22222222-2222-4222-8222-222222222222";
const OTHER_ACTOR: &str = "99999999-9999-4999-8999-999999999999";
const RUN: &str = "33333333-3333-4333-8333-333333333333";
const OTHER_RUN: &str = "44444444-4444-4444-8444-444444444444";
const TCV: &str = "55555555-5555-4555-8555-555555555555";
const ITEM_A: &str = "66666666-6666-4666-8666-666666666666";
const ITEM_B: &str = "77777777-7777-4777-8777-777777777777";
const ITEM_C: &str = "88888888-8888-4888-8888-888888888888";

fn store_with_draft_run() -> RunStore {
    let mut store = RunStore::new();
    store
        .create_run_with_id(RUN.to_string(), PROJECT, None, None, Some("smoke"), ACTOR, "t0")
        .unwrap();
    store
}

fn add_item(store: &mut RunStore, id: &str, position: i32) {
    store
        .add_run_item_with_id(RUN, id.to_string(), TCV, Some(position), None, ACTOR, "t0")
        .unwrap();
}

#[test]
fn added_item_gets_an_eager_na_result() {
    let mut store = store_with_draft_run();
    add_item(&mut store, ITEM_A, 5);
    let (_, items) = store.run_details(RUN).unwrap();
    assert_eq!(items.len(), 1);
    assert_eq!(items[0].id, ITEM_A);
    assert_eq!(items[0].position, 5);
    assert!(items[0].is_required);
    assert_eq!(items[0].status, ResultStatus::Na);
    assert_eq!(items[0].fail_reason_code, None);
    assert_eq!(items[0].comment, "");
}

#[test]
fn item_defaults_position_zero_and_required() {
    let mut store = store_with_draft_run();
    store
        .add_run_item_with_id(RUN, ITEM_A.to_string(), TCV, None, None, ACTOR, "t0")
        .unwrap();
    let (_, items) = store.run_details(RUN).unwrap();
    assert_eq!(items[0].position, 0);
    assert!(items[0].is_required);
    let mut store2 = store_with_draft_run();
    store2
        .add_run_item_with_id(RUN, ITEM_A.to_string(), TCV, Some(3), Some(false), ACTOR, "t0")
        .unwrap();
    let (_, items2) = store2.run_details(RUN).unwrap();
    assert_eq!(items2[0].position, 3);
    assert!(!items2[0].is_required);
}

#[test]
fn listing_orders_by_position_with_stable_ties() {
    let mut store = store_with_draft_run();
    add_item(&mut store, ITEM_A, 1);
    add_item(&mut store, ITEM_B, 0);
    add_item(&mut store, ITEM_C, 1);
    let (_, items) = store.run_details(RUN).unwrap();
    let ids: Vec<&str> = items.iter().map(|v| v.id.as_str()).collect();
    // position 0 first; the two position-1 items keep creation order
    assert_eq!(ids, vec![ITEM_B, ITEM_A, ITEM_C]);
}

#[test]
fn scenario_run_lifecycle_with_items() {
    let mut store = store_with_draft_run();
    add_item(&mut store, ITEM_A, 1);
    add_item(&mut store, ITEM_B, 0);
    let (_, items) = store.run_details(RUN).unwrap();
    assert_eq!(items[0].id, ITEM_B);

    let run = store.set_run_status_at(RUN, RunStatus::InProgress, "t1").unwrap();
    assert_eq!(run.started_at.as_deref(), Some("t1"));

    let run = store.set_run_status_at(RUN, RunStatus::Done, "t2").unwrap();
    assert_eq!(run.finished_at.as_deref(), Some("t2"));
    assert_eq!(run.started_at.as_deref(), Some("t1"));

    let run = store.set_run_status_at(RUN, RunStatus::Locked, "t3").unwrap();
    assert_eq!(run.locked_at.as_deref(), Some("t3"));

    let e = store
        .add_run_item_with_id(RUN, ITEM_C.to_string(), TCV, None, None, ACTOR, "t4")
        .unwrap_err();
    assert_eq!(e.kind, ErrorKind::Conflict);
    assert_eq!(e.status_code(), 409);
}

#[test]
fn locked_run_rejects_item_and_result_writes_for_any_actor() {
    let mut store = store_with_draft_run();
    add_item(&mut store, ITEM_A, 0);
    store.set_run_status_at(RUN, RunStatus::InProgress, "t1").unwrap();
    store.set_run_status_at(RUN, RunStatus::Done, "t2").unwrap();
    store.set_run_status_at(RUN, RunStatus::Locked, "t3").unwrap();
    for actor in [ACTOR, OTHER_ACTOR] {
        let e = store
            .add_run_item_with_id(RUN, ITEM_B.to_string(), TCV, None, None, actor, "t4")
            .unwrap_err();
        assert_eq!(e.kind, ErrorKind::Conflict);
        let e = store
            .record_run_result_at(RUN, ITEM_A, ResultStatus::Okay, None, None, actor, "t4")
            .unwrap_err();
        assert_eq!(e.kind, ErrorKind::Conflict);
    }
    // the ledger is untouched by the rejected writes
    let (_, items) = store.run_details(RUN).unwrap();
    assert_eq!(items.len(), 1);
    assert_eq!(items[0].status, ResultStatus::Na);
}

#[test]
fn record_result_is_an_upsert_with_last_write_wins() {
    let mut store = store_with_draft_run();
    add_item(&mut store, ITEM_A, 0);
    store
        .record_run_result_at(RUN, ITEM_A, ResultStatus::Fail, Some("C1"), Some("broke"), ACTOR, "t1")
        .unwrap();
    let (_, items) = store.run_details(RUN).unwrap();
    assert_eq!(items.len(), 1);
    assert_eq!(items[0].status, ResultStatus::Fail);
    assert_eq!(items[0].fail_reason_code.as_deref(), Some("C1"));
    assert_eq!(items[0].comment, "broke");
    assert_eq!(items[0].updated_at.as_deref(), Some("t1"));

    store
        .record_run_result_at(RUN, ITEM_A, ResultStatus::Okay, None, None, ACTOR, "t2")
        .unwrap();
    let (_, items) = store.run_details(RUN).unwrap();
    // still exactly one row per item, reflecting the latest call; the
    // omitted comment retains the caller-supplied value
    assert_eq!(items.len(), 1);
    assert_eq!(items[0].status, ResultStatus::Okay);
    assert_eq!(items[0].fail_reason_code, None);
    assert_eq!(items[0].comment, "broke");
    assert_eq!(items[0].updated_at.as_deref(), Some("t2"));

    store
        .record_run_result_at(RUN, ITEM_A, ResultStatus::Na, None, Some("kept"), ACTOR, "t3")
        .unwrap();
    let (_, items) = store.run_details(RUN).unwrap();
    assert_eq!(items.len(), 1);
    assert_eq!(items[0].comment, "kept");

    // only explicit empty text clears the comment
    store
        .record_run_result_at(RUN, ITEM_A, ResultStatus::Na, None, Some(""), ACTOR, "t4")
        .unwrap();
    let (_, items) = store.run_details(RUN).unwrap();
    assert_eq!(items[0].comment, "");
}

#[test]
fn fail_reason_code_is_discarded_unless_status_is_fail() {
    let mut store = store_with_draft_run();
    add_item(&mut store, ITEM_A, 0);
    let updated = store
        .record_run_result_at(RUN, ITEM_A, ResultStatus::Okay, Some("C1"), None, ACTOR, "t1")
        .unwrap();
    assert_eq!(updated, "t1");
    let (_, items) = store.run_details(RUN).unwrap();
    assert_eq!(items[0].status, ResultStatus::Okay);
    assert_eq!(items[0].fail_reason_code, None);

    store
        .record_run_result_at(RUN, ITEM_A, ResultStatus::Na, Some("C2"), None, ACTOR, "t2")
        .unwrap();
    let (_, items) = store.run_details(RUN).unwrap();
    assert_eq!(items[0].fail_reason_code, None);
}

#[test]
fn result_needs_the_item_to_belong_to_the_named_run() {
    let mut store = store_with_draft_run();
    store
        .create_run_with_id(OTHER_RUN.to_string(), PROJECT, None, None, None, ACTOR, "t0")
        .unwrap();
    add_item(&mut store, ITEM_A, 0);
    // the item belongs to RUN, not OTHER_RUN
    let e = store
        .record_run_result_at(OTHER_RUN, ITEM_A, ResultStatus::Okay, None, None, ACTOR, "t1")
        .unwrap_err();
    assert_eq!(e.kind, ErrorKind::NotFound);
    // an unknown item on a known run
    let e = store
        .record_run_result_at(RUN, ITEM_B, ResultStatus::Okay, None, None, ACTOR, "t1")
        .unwrap_err();
    assert_eq!(e.kind, ErrorKind::NotFound);
}

#[test]
fn item_write_validates_identifiers() {
    let mut store = store_with_draft_run();
    let e = store
        .add_run_item_with_id("zzz", ITEM_A.to_string(), TCV, None, None, ACTOR, "t0")
        .unwrap_err();
    assert_eq!(e.kind, ErrorKind::Validation);
    let e = store
        .add_run_item_with_id(RUN, ITEM_A.to_string(), "zzz", None, None, ACTOR, "t0")
        .unwrap_err();
    assert_eq!(e.kind, ErrorKind::Validation);
    let e = store
        .record_run_result_at(RUN, "zzz", ResultStatus::Okay, None, None, ACTOR, "t0")
        .unwrap_err();
    assert_eq!(e.kind, ErrorKind::Validation);
    let e = store
        .add_run_item_with_id(OTHER_RUN, ITEM_A.to_string(), TCV, None, None, ACTOR, "t0")
        .unwrap_err();
    assert_eq!(e.kind, ErrorKind::NotFound);
}

#[test]
fn duplicate_item_id_is_a_storage_error() {
    let mut store = store_with_draft_run();
    add_item(&mut store, ITEM_A, 0);
    let e = store
        .add_run_item_with_id(RUN, ITEM_A.to_string(), TCV, None, None, ACTOR, "t1")
        .unwrap_err();
    assert_eq!(e.kind, ErrorKind::Storage);
}

#[test]
fn list_runs_filters_and_orders_newest_first() {
    let other_project = "aaaaaaaa-aaaa-4aaa-8aaa-aaaaaaaaaaaa";
    let mut store = RunStore::new();
    store
        .create_run_with_id(RUN.to_string(), PROJECT, None, None, Some("one"), ACTOR, "t0")
        .unwrap();
    store
        .create_run_with_id(OTHER_RUN.to_string(), other_project, None, None, Some("two"), ACTOR, "t1")
        .unwrap();
    let third = "bbbbbbbb-bbbb-4bbb-8bbb-bbbbbbbbbbbb";
    store
        .create_run_with_id(third.to_string(), PROJECT, None, None, Some("three"), ACTOR, "t2")
        .unwrap();
    store.set_run_status_at(third, RunStatus::InProgress, "t3").unwrap();

    let all = store.list_runs(None, None, 50);
    let titles: Vec<&str> = all.iter().map(|r| r.title.as_str()).collect();
    assert_eq!(titles, vec!["three", "two", "one"]);

    let mine = store.list_runs(Some(PROJECT), None, 50);
    let titles: Vec<&str> = mine.iter().map(|r| r.title.as_str()).collect();
    assert_eq!(titles, vec!["three", "one"]);

    let drafts = store.list_runs(None, Some(RunStatus::Draft), 50);
    let titles: Vec<&str> = drafts.iter().map(|r| r.title.as_str()).collect();
    assert_eq!(titles, vec!["two", "one"]);

    let capped = store.list_runs(None, None, 2);
    assert_eq!(capped.len(), 2);
    assert_eq!(capped[0].title, "three");
}

#[test]
fn list_request_validates_and_clamps() {
    let mut store = RunStore::new();
    for (id, t) in [(RUN, "t0"), (OTHER_RUN, "t1"), (ITEM_A, "t2")] {
        store
            .create_run_with_id(id.to_string(), PROJECT, None, None, None, ACTOR, t)
            .unwrap();
    }
    let e = store.list_runs_request(Some("not-a-uuid"), None, None).unwrap_err();
    assert_eq!(e.kind, ErrorKind::Validation);
    let e = store.list_runs_request(None, Some("bogus"), None).unwrap_err();
    assert_eq!(e.kind, ErrorKind::Validation);
    // a blank project filter means no filter
    assert_eq!(store.list_runs_request(Some("   "), None, None).unwrap().len(), 3);
    // the page size is clamped into 1..=200
    assert_eq!(store.list_runs_request(None, None, Some(0)).unwrap().len(), 1);
    assert_eq!(store.list_runs_request(None, None, Some(500)).unwrap().len(), 3);
    assert_eq!(store.list_runs_request(None, Some("draft"), Some(2)).unwrap().len(), 2);
}
