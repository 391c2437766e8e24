use vstd::prelude::*;

use crate::errors::{ApiError, ErrorKind};
use crate::ext::{fresh_uuid, is_uuid_text, is_valid_uuid, now_iso};
use crate::runs::{
    find_run_from, opt_text, wf_store, ResultStatus, RunItem, RunItemModel, RunResult,
    RunResultModel, RunStatus, RunStore, StoreModel,
};
use crate::text::str_eq;

verus! {

/// The index of the first item at or after `i` with identifier `id`.
pub open spec fn find_item_from(items: Seq<RunItemModel>, id: Seq<char>, i: int) -> Option<int>
    decreases items.len() - i,
{
    if 0 <= i < items.len() {
        if items[i].id == id {
            Some(i)
        } else {
            find_item_from(items, id, i + 1)
        }
    } else {
        None
    }
}

/// The index of the first result row at or after `i` keyed by `item_id`.
pub open spec fn find_result_from(
    results: Seq<RunResultModel>,
    item_id: Seq<char>,
    i: int,
) -> Option<int>
    decreases results.len() - i,
{
    if 0 <= i < results.len() {
        if results[i].run_item_id == item_id {
            Some(i)
        } else {
            find_result_from(results, item_id, i + 1)
        }
    } else {
        None
    }
}

/// What `find_item_from` says about every index it passed over.
pub proof fn lemma_item_index(items: Seq<RunItemModel>, id: Seq<char>, i: int)
    requires
        0 <= i <= items.len(),
    ensures
        match find_item_from(items, id, i) {
            Some(j) => i <= j < items.len() && items[j].id == id,
            None => forall|k: int| i <= k < items.len() ==> #[trigger] items[k].id != id,
        },
    decreases items.len() - i,
{
    if i < items.len() && items[i].id != id {
        lemma_item_index(items, id, i + 1);
    }
}

/// What `find_result_from` says about every index it passed over.
pub proof fn lemma_result_index(results: Seq<RunResultModel>, item_id: Seq<char>, i: int)
    requires
        0 <= i <= results.len(),
    ensures
        match find_result_from(results, item_id, i) {
            Some(j) => i <= j < results.len() && results[j].run_item_id == item_id && (forall|
                k: int,
            |
                i <= k < j ==> #[trigger] results[k].run_item_id != item_id),
            None => forall|k: int|
                i <= k < results.len() ==> #[trigger] results[k].run_item_id != item_id,
        },
    decreases results.len() - i,
{
    if i < results.len() && results[i].run_item_id != item_id {
        lemma_result_index(results, item_id, i + 1);
    }
}

impl RunStore {
    /// The index of the item with identifier `id`, if any.
    pub fn item_index(&self, id: &str) -> (r: Option<usize>)
        ensures
            match r {
                Some(j) => j < self@.items.len() && find_item_from(self@.items, id@, 0) == Some(
                    j as int,
                ),
                None => find_item_from(self@.items, id@, 0) is None,
            },
    {
        let n = self.items.len();
        let mut i: usize = 0;
        while i < n
            invariant
                0 <= i <= n == self.items@.len(),
                find_item_from(self@.items, id@, 0) == find_item_from(self@.items, id@, i as int),
            decreases n - i,
        {
            if str_eq(self.items[i].id.as_str(), id) {
                return Some(i);
            }
            i = i + 1;
        }
        None
    }

    /// The index of the result row keyed by `item_id`, if any.
    pub fn result_index(&self, item_id: &str) -> (r: Option<usize>)
        ensures
            match r {
                Some(j) => j < self@.results.len() && find_result_from(self@.results, item_id@, 0)
                    == Some(j as int),
                None => find_result_from(self@.results, item_id@, 0) is None,
            },
    {
        let n = self.results.len();
        let mut i: usize = 0;
        while i < n
            invariant
                0 <= i <= n == self.results@.len(),
                find_result_from(self@.results, item_id@, 0) == find_result_from(
                    self@.results,
                    item_id@,
                    i as int,
                ),
            decreases n - i,
        {
            if str_eq(self.results[i].run_item_id.as_str(), item_id) {
                return Some(i);
            }
            i = i + 1;
        }
        None
    }
}

/// The default result row every fresh item receives: `na`, no reason code,
/// an empty comment, attributed to the acting user.
pub open spec fn default_result_model(
    item_id: Seq<char>,
    actor: Seq<char>,
    now: Seq<char>,
) -> RunResultModel {
    RunResultModel {
        run_item_id: item_id,
        status: ResultStatus::Na,
        fail_reason_code: None,
        comment: Seq::empty(),
        updated_by_user_id: actor,
        updated_at: now,
    }
}

/// Results after the eager default write for a fresh item: a no-op when a
/// row for that item already exists.
pub open spec fn results_after_default(
    results: Seq<RunResultModel>,
    item_id: Seq<char>,
    actor: Seq<char>,
    now: Seq<char>,
) -> Seq<RunResultModel> {
    if find_result_from(results, item_id, 0) is None {
        results.push(default_result_model(item_id, actor, now))
    } else {
        results
    }
}

impl RunStore {
    /// Attaches a test-case version to a run under a caller-supplied item
    /// identifier, then eagerly creates the item's default `na` result; the
    /// eager write is itself idempotent. A locked run is a hard gate: the
    /// add fails as a conflict for any actor. The position defaults to 0
    /// and the required flag to true. An item identifier already in use is
    /// a storage-constraint failure.
    pub fn add_run_item_with_id(
        &mut self,
        run_id: &str,
        item_id: String,
        testcase_version_id: &str,
        position: Option<i32>,
        is_required: Option<bool>,
        actor: &str,
        now: &str,
    ) -> (r: Result<(), ApiError>)
        requires
            wf_store(old(self)@),
        ensures
            wf_store(final(self)@),
            ({
                let st = old(self)@;
                let bad = !is_uuid_text(run_id@) || !is_uuid_text(testcase_version_id@)
                    || !is_uuid_text(actor@);
                let fr = find_run_from(st.runs, run_id@, 0);
                let nf = !bad && fr is None;
                let locked = !bad && !nf && st.runs[fr->0].status == RunStatus::Locked;
                let dup = !bad && !nf && !locked && find_item_from(st.items, item_id@, 0) is Some;
                let item = RunItemModel {
                    id: item_id@,
                    run_id: run_id@,
                    testcase_version_id: testcase_version_id@,
                    position: position_or_default(position),
                    is_required: required_or_default(is_required),
                };
                match r {
                    Ok(u) => !bad && !nf && !locked && !dup && final(self)@.runs == st.runs
                        && final(self)@.items == st.items.push(item) && final(self)@.results
                        == results_after_default(st.results, item_id@, actor@, now@),
                    Err(e) => (bad || nf || locked || dup) && final(self)@ == st && (e.kind
                        == ErrorKind::Validation <==> bad) && (e.kind == ErrorKind::NotFound
                        <==> nf) && (e.kind == ErrorKind::Conflict <==> locked) && (e.kind
                        == ErrorKind::Storage <==> dup),
                }
            }),
    {
        if !is_valid_uuid(run_id) {
            return Err(ApiError::new(ErrorKind::Validation, "malformed run_id"));
        }
        if !is_valid_uuid(testcase_version_id) {
            return Err(ApiError::new(ErrorKind::Validation, "malformed testcase_version_id"));
        }
        if !is_valid_uuid(actor) {
            return Err(ApiError::new(ErrorKind::Validation, "malformed actor identifier"));
        }
        let j = match self.run_index(run_id) {
            Some(j) => j,
            None => {
                return Err(ApiError::new(ErrorKind::NotFound, "run not found"));
            },
        };
        match self.runs[j].status {
            RunStatus::Locked => {
                return Err(
                    ApiError::new(
                        ErrorKind::Conflict,
                        "the run is locked; its contents cannot change",
                    ),
                );
            },
            _ => {},
        }
        if self.item_index(item_id.as_str()).is_some() {
            return Err(ApiError::new(ErrorKind::Storage, "item identifier already in use"));
        }
        let ghost st = old(self)@;
        let ghost iid: Seq<char> = item_id@;
        let item = RunItem {
            id: item_id.clone(),
            run_id: run_id.to_owned(),
            testcase_version_id: testcase_version_id.to_owned(),
            position: match position {
                Some(p) => p,
                None => 0,
            },
            is_required: match is_required {
                Some(b) => b,
                None => true,
            },
        };
        self.items.push(item);
        match self.result_index(item_id.as_str()) {
            Some(_) => {},
            None => {
                let row = RunResult {
                    run_item_id: item_id,
                    status: ResultStatus::Na,
                    fail_reason_code: None,
                    comment: String::new(),
                    updated_by_user_id: actor.to_owned(),
                    updated_at: now.to_owned(),
                };
                self.results.push(row);
            },
        }
        proof {
            assert(self@.runs =~= st.runs);
            assert(self@.items =~= st.items.push(
                RunItemModel {
                    id: iid,
                    run_id: run_id@,
                    testcase_version_id: testcase_version_id@,
                    position: position_or_default(position),
                    is_required: required_or_default(is_required),
                },
            ));
            assert(self@.results =~= results_after_default(st.results, iid, actor@, now@));
            assert forall|x: int, y: int|
                0 <= x < y < self@.items.len() implies self@.items[x].id != self@.items[y].id by {
                if y < self@.items.len() - 1 {
                    assert(st.items[x].id != st.items[y].id);
                } else {
                    lemma_item_index(st.items, iid, 0);
                    assert(st.items[x].id != iid);
                }
            }
            assert forall|x: int, y: int|
                0 <= x < y < self@.results.len() implies self@.results[x].run_item_id
                != self@.results[y].run_item_id by {
                if y < st.results.len() {
                    assert(st.results[x].run_item_id != st.results[y].run_item_id);
                } else {
                    lemma_result_index(st.results, iid, 0);
                    assert(st.results[x].run_item_id != iid);
                }
            }
        }
        Ok(())
    }

    /// Attaches a test-case version to a run under a freshly drawn item
    /// identifier, stamped with the current time.
    pub fn add_run_item(
        &mut self,
        run_id: &str,
        testcase_version_id: &str,
        position: Option<i32>,
        is_required: Option<bool>,
        actor: &str,
    ) -> (r: Result<(), ApiError>)
        requires
            wf_store(old(self)@),
        ensures
            wf_store(final(self)@),
            ({
                let st = old(self)@;
                let bad = !is_uuid_text(run_id@) || !is_uuid_text(testcase_version_id@)
                    || !is_uuid_text(actor@);
                let fr = find_run_from(st.runs, run_id@, 0);
                let nf = !bad && fr is None;
                let locked = !bad && !nf && st.runs[fr->0].status == RunStatus::Locked;
                match r {
                    Ok(u) => !bad && !nf && !locked && exists|iid: Seq<char>, now: Seq<char>|
                        #[trigger] item_added_witness(
                            st,
                            final(self)@,
                            run_id@,
                            testcase_version_id@,
                            position,
                            is_required,
                            actor@,
                            iid,
                            now,
                        ),
                    Err(e) => final(self)@ == st && (e.kind == ErrorKind::Validation <==> bad) && (
                    e.kind == ErrorKind::NotFound <==> nf) && (e.kind == ErrorKind::Conflict
                        <==> locked) && (e.kind == ErrorKind::Storage <==> !bad && !nf && !locked),
                }
            }),
    {
        let item_id = fresh_uuid();
        let now = now_iso();
        let ghost iid: Seq<char> = item_id@;
        let ghost nowv: Seq<char> = now@;
        let r = self.add_run_item_with_id(
            run_id,
            item_id,
            testcase_version_id,
            position,
            is_required,
            actor,
            now.as_str(),
        );
        proof {
            if r is Ok {
                assert(item_added_witness(
                    old(self)@,
                    self@,
                    run_id@,
                    testcase_version_id@,
                    position,
                    is_required,
                    actor@,
                    iid,
                    nowv,
                ));
            }
        }
        r
    }
}

/// The position an added item lands at when none is given.
pub open spec fn position_or_default(position: Option<i32>) -> i32 {
    match position {
        Some(p) => p,
        None => 0,
    }
}

/// The required flag an added item carries when none is given.
pub open spec fn required_or_default(is_required: Option<bool>) -> bool {
    match is_required {
        Some(b) => b,
        None => true,
    }
}

/// One way a successful item addition can have gone: the item that `iid`
/// and `now` determine was appended, with its eager default result.
pub open spec fn item_added_witness(
    st: StoreModel,
    new_st: StoreModel,
    run_id: Seq<char>,
    testcase_version_id: Seq<char>,
    position: Option<i32>,
    is_required: Option<bool>,
    actor: Seq<char>,
    iid: Seq<char>,
    now: Seq<char>,
) -> bool {
    let item = RunItemModel {
        id: iid,
        run_id: run_id,
        testcase_version_id: testcase_version_id,
        position: position_or_default(position),
        is_required: required_or_default(is_required),
    };
    new_st.runs == st.runs && new_st.items == st.items.push(item) && new_st.results
        == results_after_default(st.results, iid, actor, now)
}

/// The comment a record call resolves to: the caller's text when one is
/// given (empty text is an explicit clear); an omitted comment retains the
/// text already on file for the item, or empty for a fresh row.
pub open spec fn resolved_comment(
    comment: Option<Seq<char>>,
    results: Seq<RunResultModel>,
    item_id: Seq<char>,
) -> Seq<char> {
    match comment {
        Some(c) => c,
        None => match find_result_from(results, item_id, 0) {
            Some(k) => results[k].comment,
            None => Seq::empty(),
        },
    }
}

/// The result row a record call stores: the reason code is kept only with
/// a `fail` status and discarded otherwise.
pub open spec fn stored_result(
    item_id: Seq<char>,
    status: ResultStatus,
    fail_reason_code: Option<Seq<char>>,
    comment: Seq<char>,
    actor: Seq<char>,
    now: Seq<char>,
) -> RunResultModel {
    RunResultModel {
        run_item_id: item_id,
        status: status,
        fail_reason_code: if status is Fail {
            fail_reason_code
        } else {
            None
        },
        comment: comment,
        updated_by_user_id: actor,
        updated_at: now,
    }
}

/// Results after an upsert keyed by the row's item: the existing row is
/// overwritten in place, or the row is appended when the item had none.
pub open spec fn upsert_result(
    results: Seq<RunResultModel>,
    row: RunResultModel,
) -> Seq<RunResultModel> {
    match find_result_from(results, row.run_item_id, 0) {
        Some(k) => results.update(k, row),
        None => results.push(row),
    }
}

/// What one upsert does to a ledger with unique keys: the row for its item
/// is the written row, every row for that item is that row, other rows and
/// keys stay put, and the ledger grows only when the item had no row.
pub proof fn lemma_upsert_shape(results: Seq<RunResultModel>, row: RunResultModel)
    requires
        forall|i: int, j: int|
            0 <= i < j < results.len() ==> results[i].run_item_id != results[j].run_item_id,
    ensures
        ({
            let after = upsert_result(results, row);
            let key = row.run_item_id;
            &&& forall|i: int, j: int|
                0 <= i < j < after.len() ==> after[i].run_item_id != after[j].run_item_id
            &&& find_result_from(after, key, 0) matches Some(k) && after[k] == row
            &&& forall|x: int|
                0 <= x < after.len() && #[trigger] after[x].run_item_id == key ==> after[x] == row
            &&& after.len() == (if find_result_from(results, key, 0) is Some {
                results.len()
            } else {
                results.len() + 1
            })
        }),
{
    let key = row.run_item_id;
    let after = upsert_result(results, row);
    lemma_result_index(results, key, 0);
    match find_result_from(results, key, 0) {
        Some(k) => {
            assert(after == results.update(k, row));
            assert(forall|x: int|
                0 <= x < after.len() && x != k ==> after[x] == #[trigger] results[x]);
            assert(after[k] == row);
            assert forall|x: int|
                0 <= x < after.len() && #[trigger] after[x].run_item_id == key implies after[x]
                == row by {
                if x != k {
                    if x < k {
                        assert(results[x].run_item_id != results[k].run_item_id);
                    } else {
                        assert(results[k].run_item_id != results[x].run_item_id);
                    }
                }
            }
            lemma_result_index(after, key, 0);
            match find_result_from(after, key, 0) {
                Some(k2) => {
                    assert(after[k2].run_item_id == key);
                    assert(after[k2] == row);
                    if k2 < k {
                        assert(results[k2].run_item_id != results[k].run_item_id);
                        assert(after[k2] == results[k2]);
                        assert(false);
                    }
                    if k2 > k {
                        assert(after[k].run_item_id != key);
                        assert(false);
                    }
                },
                None => {
                    assert(after[k].run_item_id != key);
                    assert(false);
                },
            }
        },
        None => {
            assert(after == results.push(row));
            assert(forall|x: int| 0 <= x < results.len() ==> after[x] == #[trigger] results[x]);
            assert(after[results.len() as int] == row);
            assert forall|x: int|
                0 <= x < after.len() && #[trigger] after[x].run_item_id == key implies after[x]
                == row by {
                if x < results.len() {
                    assert(results[x].run_item_id != key);
                }
            }
            lemma_result_index(after, key, 0);
            match find_result_from(after, key, 0) {
                Some(k2) => {
                    assert(after[k2].run_item_id == key);
                },
                None => {
                    assert(after[results.len() as int].run_item_id != key);
                    assert(false);
                },
            }
        },
    }
}

/// Law: recording results is a pure upsert with last-write-wins semantics.
/// After two writes keyed by the same item, every row for that item is the
/// later write, at least one such row exists, and the ledger grew by at
/// most the one row the first write may have added.
pub proof fn lemma_result_upsert_last_write_wins(
    results: Seq<RunResultModel>,
    r1: RunResultModel,
    r2: RunResultModel,
)
    requires
        forall|i: int, j: int|
            0 <= i < j < results.len() ==> results[i].run_item_id != results[j].run_item_id,
        r1.run_item_id == r2.run_item_id,
    ensures
        ({
            let after = upsert_result(upsert_result(results, r1), r2);
            &&& find_result_from(after, r2.run_item_id, 0) matches Some(k) && after[k] == r2
            &&& forall|x: int|
                0 <= x < after.len() && #[trigger] after[x].run_item_id == r2.run_item_id
                    ==> after[x] == r2
            &&& after.len() <= results.len() + 1
        }),
{
    lemma_upsert_shape(results, r1);
    lemma_upsert_shape(upsert_result(results, r1), r2);
}

impl RunStore {
    /// Records the outcome of one run item at instant `now`: a pure upsert
    /// keyed by the item — the latest write wins and no history is kept.
    /// The item must belong to the named run; a locked run is a hard gate
    /// for any actor. A reason code is stored only with a `fail` status; an
    /// omitted comment retains the comment already on file, while supplied
    /// text (empty included) overwrites it. Returns the stored row's update
    /// timestamp.
    pub fn record_run_result_at(
        &mut self,
        run_id: &str,
        item_id: &str,
        status: ResultStatus,
        fail_reason_code: Option<&str>,
        comment: Option<&str>,
        actor: &str,
        now: &str,
    ) -> (r: Result<String, ApiError>)
        requires
            wf_store(old(self)@),
        ensures
            wf_store(final(self)@),
            ({
                let st = old(self)@;
                let bad = !is_uuid_text(run_id@) || !is_uuid_text(item_id@) || !is_uuid_text(
                    actor@,
                );
                let fr = find_run_from(st.runs, run_id@, 0);
                let fi = find_item_from(st.items, item_id@, 0);
                let pair_ok = fr is Some && fi is Some && st.items[fi->0].run_id == run_id@;
                let nf = !bad && !pair_ok;
                let locked = !bad && pair_ok && st.runs[fr->0].status == RunStatus::Locked;
                let row = stored_result(
                    item_id@,
                    status,
                    opt_text(fail_reason_code),
                    resolved_comment(opt_text(comment), st.results, item_id@),
                    actor@,
                    now@,
                );
                match r {
                    Ok(updated_at) => !bad && pair_ok && !locked && updated_at@ == now@
                        && final(self)@.runs == st.runs && final(self)@.items == st.items
                        && final(self)@.results == upsert_result(st.results, row),
                    Err(e) => (bad || !pair_ok || locked) && final(self)@ == st && (e.kind
                        == ErrorKind::Validation <==> bad) && (e.kind == ErrorKind::NotFound
                        <==> nf) && (e.kind == ErrorKind::Conflict <==> locked),
                }
            }),
    {
        if !is_valid_uuid(run_id) {
            return Err(ApiError::new(ErrorKind::Validation, "malformed run_id"));
        }
        if !is_valid_uuid(item_id) {
            return Err(ApiError::new(ErrorKind::Validation, "malformed run_item_id"));
        }
        if !is_valid_uuid(actor) {
            return Err(ApiError::new(ErrorKind::Validation, "malformed actor identifier"));
        }
        let rj = match self.run_index(run_id) {
            Some(j) => j,
            None => {
                return Err(
                    ApiError::new(ErrorKind::NotFound, "run or run item not found for this result"),
                );
            },
        };
        let ij = match self.item_index(item_id) {
            Some(j) => j,
            None => {
                return Err(
                    ApiError::new(ErrorKind::NotFound, "run or run item not found for this result"),
                );
            },
        };
        if !str_eq(self.items[ij].run_id.as_str(), run_id) {
            return Err(
                ApiError::new(ErrorKind::NotFound, "run or run item not found for this result"),
            );
        }
        match self.runs[rj].status {
            RunStatus::Locked => {
                return Err(
                    ApiError::new(
                        ErrorKind::Conflict,
                        "the run is locked; its results cannot change",
                    ),
                );
            },
            _ => {},
        }
        let ghost st = old(self)@;
        let ghost rowm = stored_result(
            item_id@,
            status,
            opt_text(fail_reason_code),
            resolved_comment(opt_text(comment), st.results, item_id@),
            actor@,
            now@,
        );
        let comment_s: String = match comment {
            Some(c) => c.to_owned(),
            None => match self.result_index(item_id) {
                Some(k) => self.results[k].comment.clone(),
                None => String::new(),
            },
        };
        let row = RunResult {
            run_item_id: item_id.to_owned(),
            status: status,
            fail_reason_code: match status {
                ResultStatus::Fail => match fail_reason_code {
                    Some(c) => Some(c.to_owned()),
                    None => None,
                },
                _ => None,
            },
            comment: comment_s,
            updated_by_user_id: actor.to_owned(),
            updated_at: now.to_owned(),
        };
        proof {
            assert(row@ == rowm);
        }
        match self.result_index(item_id) {
            Some(k) => {
                self.results[k] = row;
            },
            None => {
                self.results.push(row);
            },
        }
        proof {
            assert(self@.runs =~= st.runs);
            assert(self@.items =~= st.items);
            assert(self@.results =~= upsert_result(st.results, rowm));
            assert forall|x: int, y: int|
                0 <= x < y < self@.results.len() implies self@.results[x].run_item_id
                != self@.results[y].run_item_id by {
                if y < st.results.len() {
                    assert(st.results[x].run_item_id != st.results[y].run_item_id);
                    lemma_result_index(st.results, item_id@, 0);
                } else {
                    lemma_result_index(st.results, item_id@, 0);
                    assert(st.results[x].run_item_id != item_id@);
                }
            }
        }
        Ok(now.to_owned())
    }

    /// Records the outcome of one run item, stamped with the current time.
    pub fn record_run_result(
        &mut self,
        run_id: &str,
        item_id: &str,
        status: ResultStatus,
        fail_reason_code: Option<&str>,
        comment: Option<&str>,
        actor: &str,
    ) -> (r: Result<String, ApiError>)
        requires
            wf_store(old(self)@),
        ensures
            wf_store(final(self)@),
            ({
                let st = old(self)@;
                let bad = !is_uuid_text(run_id@) || !is_uuid_text(item_id@) || !is_uuid_text(
                    actor@,
                );
                let fr = find_run_from(st.runs, run_id@, 0);
                let fi = find_item_from(st.items, item_id@, 0);
                let pair_ok = fr is Some && fi is Some && st.items[fi->0].run_id == run_id@;
                let nf = !bad && !pair_ok;
                let locked = !bad && pair_ok && st.runs[fr->0].status == RunStatus::Locked;
                match r {
                    Ok(updated_at) => !bad && pair_ok && !locked && exists|now: Seq<char>|
                        #[trigger] result_recorded_witness(
                            st,
                            final(self)@,
                            updated_at@,
                            item_id@,
                            status,
                            opt_text(fail_reason_code),
                            opt_text(comment),
                            actor@,
                            now,
                        ),
                    Err(e) => (bad || !pair_ok || locked) && final(self)@ == st && (e.kind
                        == ErrorKind::Validation <==> bad) && (e.kind == ErrorKind::NotFound
                        <==> nf) && (e.kind == ErrorKind::Conflict <==> locked),
                }
            }),
    {
        let now = now_iso();
        let ghost nowv: Seq<char> = now@;
        let r = self.record_run_result_at(
            run_id,
            item_id,
            status,
            fail_reason_code,
            comment,
            actor,
            now.as_str(),
        );
        proof {
            if r is Ok {
                assert(result_recorded_witness(
                    old(self)@,
                    self@,
                    r->Ok_0@,
                    item_id@,
                    status,
                    opt_text(fail_reason_code),
                    opt_text(comment),
                    actor@,
                    nowv,
                ));
            }
        }
        r
    }
}

/// One way a successful result write can have gone: the row that `now`
/// determines was upserted and its timestamp returned.
pub open spec fn result_recorded_witness(
    st: StoreModel,
    new_st: StoreModel,
    updated_at: Seq<char>,
    item_id: Seq<char>,
    status: ResultStatus,
    fail_reason_code: Option<Seq<char>>,
    comment: Option<Seq<char>>,
    actor: Seq<char>,
    now: Seq<char>,
) -> bool {
    let row = stored_result(
        item_id,
        status,
        fail_reason_code,
        resolved_comment(comment, st.results, item_id),
        actor,
        now,
    );
    new_st.runs == st.runs && new_st.items == st.items && new_st.results == upsert_result(
        st.results,
        row,
    ) && updated_at == now
}


} // verus!
