use vstd::prelude::*;

use crate::errors::{ApiError, ErrorKind};
use crate::ext::{fresh_uuid, is_uuid_text, is_valid_uuid, now_iso};
use crate::text::{str_eq, trim_spec, trim_str};

verus! {

/// A run's lifecycle status. The machine moves only forward:
/// `draft -> in_progress -> done -> locked`, with a self-loop on every
/// state.
#[derive(Clone, Copy, Debug, PartialEq, Eq, Structural)]
pub enum RunStatus {
    Draft,
    InProgress,
    Done,
    Locked,
}

/// The recorded outcome of one run item.
#[derive(Clone, Copy, Debug, PartialEq, Eq, Structural)]
pub enum ResultStatus {
    Okay,
    Fail,
    Na,
}

/// The directed transition table: which next status a run in `from` may
/// move to. Re-submitting the current status is always accepted.
pub open spec fn transition_allowed(from: RunStatus, to: RunStatus) -> bool {
    match (from, to) {
        (RunStatus::Draft, RunStatus::Draft) => true,
        (RunStatus::Draft, RunStatus::InProgress) => true,
        (RunStatus::InProgress, RunStatus::InProgress) => true,
        (RunStatus::InProgress, RunStatus::Done) => true,
        (RunStatus::Done, RunStatus::Done) => true,
        (RunStatus::Done, RunStatus::Locked) => true,
        (RunStatus::Locked, RunStatus::Locked) => true,
        _ => false,
    }
}

pub fn check_transition(from: RunStatus, to: RunStatus) -> (r: bool)
    ensures
        r == transition_allowed(from, to),
{
    match (from, to) {
        (RunStatus::Draft, RunStatus::Draft) => true,
        (RunStatus::Draft, RunStatus::InProgress) => true,
        (RunStatus::InProgress, RunStatus::InProgress) => true,
        (RunStatus::InProgress, RunStatus::Done) => true,
        (RunStatus::Done, RunStatus::Done) => true,
        (RunStatus::Done, RunStatus::Locked) => true,
        (RunStatus::Locked, RunStatus::Locked) => true,
        _ => false,
    }
}

/// Which status text the run API accepts.
pub open spec fn spec_parse_run_status(s: Seq<char>) -> Option<RunStatus> {
    if s == "draft"@ {
        Some(RunStatus::Draft)
    } else if s == "in_progress"@ {
        Some(RunStatus::InProgress)
    } else if s == "done"@ {
        Some(RunStatus::Done)
    } else if s == "locked"@ {
        Some(RunStatus::Locked)
    } else {
        None
    }
}

/// Parses a run status name; anything outside the closed set is a
/// validation error.
pub fn parse_run_status(input: &str) -> (r: Result<RunStatus, ApiError>)
    ensures
        match r {
            Ok(st) => spec_parse_run_status(input@) == Some(st),
            Err(e) => spec_parse_run_status(input@) is None && e.kind == ErrorKind::Validation,
        },
{
    if str_eq(input, "draft") {
        Ok(RunStatus::Draft)
    } else if str_eq(input, "in_progress") {
        Ok(RunStatus::InProgress)
    } else if str_eq(input, "done") {
        Ok(RunStatus::Done)
    } else if str_eq(input, "locked") {
        Ok(RunStatus::Locked)
    } else {
        Err(
            ApiError::new(
                ErrorKind::Validation,
                "bad run status; expected draft|in_progress|done|locked",
            ),
        )
    }
}

/// Which result status text the run API accepts.
pub open spec fn spec_parse_result_status(s: Seq<char>) -> Option<ResultStatus> {
    if s == "ok"@ {
        Some(ResultStatus::Okay)
    } else if s == "fail"@ {
        Some(ResultStatus::Fail)
    } else if s == "na"@ {
        Some(ResultStatus::Na)
    } else {
        None
    }
}

/// Parses a result status name; anything outside the closed set is a
/// validation error.
pub fn parse_result_status(input: &str) -> (r: Result<ResultStatus, ApiError>)
    ensures
        match r {
            Ok(st) => spec_parse_result_status(input@) == Some(st),
            Err(e) => spec_parse_result_status(input@) is None && e.kind == ErrorKind::Validation,
        },
{
    if str_eq(input, "ok") {
        Ok(ResultStatus::Okay)
    } else if str_eq(input, "fail") {
        Ok(ResultStatus::Fail)
    } else if str_eq(input, "na") {
        Ok(ResultStatus::Na)
    } else {
        Err(ApiError::new(ErrorKind::Validation, "bad result status; expected ok|fail|na"))
    }
}

/// A test run: an execution pass over a set of test-case versions.
#[derive(Debug)]
pub struct Run {
    pub id: String,
    pub project_id: String,
    pub asset_id: Option<String>,
    pub template_id: Option<String>,
    pub title: String,
    pub status: RunStatus,
    pub executed_by_user_id: String,
    pub started_at: Option<String>,
    pub finished_at: Option<String>,
    pub locked_at: Option<String>,
    pub created_at: String,
    pub updated_at: String,
}

/// The mathematical value of a `Run`.
pub struct RunModel {
    pub id: Seq<char>,
    pub project_id: Seq<char>,
    pub asset_id: Option<Seq<char>>,
    pub template_id: Option<Seq<char>>,
    pub title: Seq<char>,
    pub status: RunStatus,
    pub executed_by_user_id: Seq<char>,
    pub started_at: Option<Seq<char>>,
    pub finished_at: Option<Seq<char>>,
    pub locked_at: Option<Seq<char>>,
    pub created_at: Seq<char>,
    pub updated_at: Seq<char>,
}

/// The view of optional text.
pub open spec fn opt_text(o: Option<&str>) -> Option<Seq<char>> {
    match o {
        Some(s) => Some(s@),
        None => None,
    }
}

/// The view of optional owned text.
pub open spec fn opt_string(o: Option<String>) -> Option<Seq<char>> {
    match o {
        Some(s) => Some(s@),
        None => None,
    }
}

impl View for Run {
    type V = RunModel;

    open spec fn view(&self) -> RunModel {
        RunModel {
            id: self.id@,
            project_id: self.project_id@,
            asset_id: opt_string(self.asset_id),
            template_id: opt_string(self.template_id),
            title: self.title@,
            status: self.status,
            executed_by_user_id: self.executed_by_user_id@,
            started_at: opt_string(self.started_at),
            finished_at: opt_string(self.finished_at),
            locked_at: opt_string(self.locked_at),
            created_at: self.created_at@,
            updated_at: self.updated_at@,
        }
    }
}

pub(crate) fn clone_opt_text(o: &Option<String>) -> (r: Option<String>)
    ensures
        opt_string(r) == opt_string(*o),
{
    match o {
        Some(s) => Some(s.clone()),
        None => None,
    }
}

impl Run {
    /// A field-for-field copy.
    pub fn duplicate(&self) -> (r: Run)
        ensures
            r@ == self@,
    {
        Run {
            id: self.id.clone(),
            project_id: self.project_id.clone(),
            asset_id: clone_opt_text(&self.asset_id),
            template_id: clone_opt_text(&self.template_id),
            title: self.title.clone(),
            status: self.status,
            executed_by_user_id: self.executed_by_user_id.clone(),
            started_at: clone_opt_text(&self.started_at),
            finished_at: clone_opt_text(&self.finished_at),
            locked_at: clone_opt_text(&self.locked_at),
            created_at: self.created_at.clone(),
            updated_at: self.updated_at.clone(),
        }
    }
}

/// One test-case version included in a run, at an ordering position.
#[derive(Debug)]
pub struct RunItem {
    pub id: String,
    pub run_id: String,
    pub testcase_version_id: String,
    pub position: i32,
    pub is_required: bool,
}

impl RunItem {
    /// A field-for-field copy.
    pub fn duplicate(&self) -> (r: RunItem)
        ensures
            r@ == self@,
    {
        RunItem {
            id: self.id.clone(),
            run_id: self.run_id.clone(),
            testcase_version_id: self.testcase_version_id.clone(),
            position: self.position,
            is_required: self.is_required,
        }
    }
}

/// The mathematical value of a `RunItem`.
pub struct RunItemModel {
    pub id: Seq<char>,
    pub run_id: Seq<char>,
    pub testcase_version_id: Seq<char>,
    pub position: i32,
    pub is_required: bool,
}

impl View for RunItem {
    type V = RunItemModel;

    open spec fn view(&self) -> RunItemModel {
        RunItemModel {
            id: self.id@,
            run_id: self.run_id@,
            testcase_version_id: self.testcase_version_id@,
            position: self.position,
            is_required: self.is_required,
        }
    }
}

/// The recorded outcome for one run item: at most one per item, overwritten
/// in place on every later write.
#[derive(Debug)]
pub struct RunResult {
    pub run_item_id: String,
    pub status: ResultStatus,
    pub fail_reason_code: Option<String>,
    pub comment: String,
    pub updated_by_user_id: String,
    pub updated_at: String,
}

/// The mathematical value of a `RunResult`.
pub struct RunResultModel {
    pub run_item_id: Seq<char>,
    pub status: ResultStatus,
    pub fail_reason_code: Option<Seq<char>>,
    pub comment: Seq<char>,
    pub updated_by_user_id: Seq<char>,
    pub updated_at: Seq<char>,
}

impl View for RunResult {
    type V = RunResultModel;

    open spec fn view(&self) -> RunResultModel {
        RunResultModel {
            run_item_id: self.run_item_id@,
            status: self.status,
            fail_reason_code: opt_string(self.fail_reason_code),
            comment: self.comment@,
            updated_by_user_id: self.updated_by_user_id@,
            updated_at: self.updated_at@,
        }
    }
}

/// The row store for runs, their items, and the items' results.
#[derive(Debug)]
pub struct RunStore {
    pub runs: Vec<Run>,
    pub items: Vec<RunItem>,
    pub results: Vec<RunResult>,
}

/// The mathematical value of a `RunStore`.
pub struct StoreModel {
    pub runs: Seq<RunModel>,
    pub items: Seq<RunItemModel>,
    pub results: Seq<RunResultModel>,
}

impl View for RunStore {
    type V = StoreModel;

    open spec fn view(&self) -> StoreModel {
        StoreModel {
            runs: self.runs@.map_values(|r: Run| r@),
            items: self.items@.map_values(|it: RunItem| it@),
            results: self.results@.map_values(|res: RunResult| res@),
        }
    }
}

/// The store's consistency: run and item identifiers are unique, and each
/// item carries at most one result row.
pub open spec fn wf_store(s: StoreModel) -> bool {
    &&& forall|i: int, j: int| 0 <= i < j < s.runs.len() ==> s.runs[i].id != s.runs[j].id
    &&& forall|i: int, j: int| 0 <= i < j < s.items.len() ==> s.items[i].id != s.items[j].id
    &&& forall|i: int, j: int|
        0 <= i < j < s.results.len() ==> s.results[i].run_item_id != s.results[j].run_item_id
}

impl RunStore {
    /// An empty store.
    pub fn new() -> (r: RunStore)
        ensures
            r@.runs.len() == 0,
            r@.items.len() == 0,
            r@.results.len() == 0,
            wf_store(r@),
    {
        let r = RunStore { runs: Vec::new(), items: Vec::new(), results: Vec::new() };
        proof {
            assert(r@.runs =~= Seq::<RunModel>::empty());
            assert(r@.items =~= Seq::<RunItemModel>::empty());
            assert(r@.results =~= Seq::<RunResultModel>::empty());
        }
        r
    }
}

/// The index of the first run at or after `i` with identifier `id`.
pub open spec fn find_run_from(runs: Seq<RunModel>, id: Seq<char>, i: int) -> Option<int>
    decreases runs.len() - i,
{
    if 0 <= i < runs.len() {
        if runs[i].id == id {
            Some(i)
        } else {
            find_run_from(runs, id, i + 1)
        }
    } else {
        None
    }
}

impl RunStore {
    /// The index of the run with identifier `id`, if any.
    pub fn run_index(&self, id: &str) -> (r: Option<usize>)
        ensures
            match r {
                Some(j) => j < self@.runs.len() && find_run_from(self@.runs, id@, 0) == Some(
                    j as int,
                ),
                None => find_run_from(self@.runs, id@, 0) is None,
            },
    {
        let n = self.runs.len();
        let mut i: usize = 0;
        while i < n
            invariant
                0 <= i <= n == self.runs@.len(),
                find_run_from(self@.runs, id@, 0) == find_run_from(self@.runs, id@, i as int),
            decreases n - i,
        {
            if str_eq(self.runs[i].id.as_str(), id) {
                return Some(i);
            }
            i = i + 1;
        }
        None
    }

    /// A copy of the run with identifier `id`, if any.
    pub fn get_run(&self, id: &str) -> (r: Option<Run>)
        ensures
            match r {
                Some(run) => find_run_from(self@.runs, id@, 0) matches Some(j) && run@
                    == self@.runs[j],
                None => find_run_from(self@.runs, id@, 0) is None,
            },
    {
        match self.run_index(id) {
            Some(j) => Some(self.runs[j].duplicate()),
            None => None,
        }
    }
}

/// A timestamp column filled at most once: a later write keeps the first
/// value.
pub open spec fn coalesce(old_t: Option<Seq<char>>, now: Seq<char>) -> Option<Seq<char>> {
    if old_t is Some {
        old_t
    } else {
        Some(now)
    }
}

/// A run after an accepted transition to `to` at instant `now`: entering
/// `in_progress` or beyond fills `started_at` once; entering `done` or
/// beyond fills `finished_at` once; entering `locked` always stamps
/// `locked_at` afresh; `updated_at` is refreshed on every accepted
/// transition, the self-loops included.
pub open spec fn run_after_transition(r: RunModel, to: RunStatus, now: Seq<char>) -> RunModel {
    RunModel {
        status: to,
        started_at: if to is Draft {
            r.started_at
        } else {
            coalesce(r.started_at, now)
        },
        finished_at: if to is Done || to is Locked {
            coalesce(r.finished_at, now)
        } else {
            r.finished_at
        },
        locked_at: if to is Locked {
            Some(now)
        } else {
            r.locked_at
        },
        updated_at: now,
        ..r
    }
}

/// Law: re-submitting the same status twice is always accepted the second
/// time, refreshes `updated_at` both times, and never changes `started_at`
/// or `finished_at` on the second call. `locked_at` is also kept, except by
/// `locked` itself: locking deliberately stamps afresh on every entry, the
/// self-loop included, so the lock timestamp records the latest lock.
pub proof fn lemma_set_status_idempotent(r: RunModel, s: RunStatus, n1: Seq<char>, n2: Seq<char>)
    requires
        transition_allowed(r.status, s),
    ensures
        ({
            let r1 = run_after_transition(r, s, n1);
            let r2 = run_after_transition(r1, s, n2);
            &&& transition_allowed(r1.status, s)
            &&& r1.updated_at == n1
            &&& r2.updated_at == n2
            &&& r2.started_at == r1.started_at
            &&& r2.finished_at == r1.finished_at
            &&& !(s is Locked) ==> r2.locked_at == r1.locked_at
        }),
{
}

/// Law: `locked` is terminal. The only transition the table allows out of
/// `locked` is the self-loop, and applying it leaves the run locked.
pub proof fn lemma_locked_terminal(r: RunModel, to: RunStatus, now: Seq<char>)
    requires
        r.status == RunStatus::Locked,
        transition_allowed(r.status, to),
    ensures
        to == RunStatus::Locked,
        run_after_transition(r, to, now).status == RunStatus::Locked,
{
}

impl RunStore {
    /// Moves a run to `next` at instant `now`, enforcing the transition
    /// table and its timestamp side effects. The run identifier must be
    /// UUID text; a pair outside the table is a conflict and leaves the
    /// store untouched.
    pub fn set_run_status_at(&mut self, run_id: &str, next: RunStatus, now: &str) -> (r: Result<
        Run,
        ApiError,
    >)
        requires
            wf_store(old(self)@),
        ensures
            wf_store(final(self)@),
            ({
                let st = old(self)@;
                let bad = !is_uuid_text(run_id@);
                let fr = find_run_from(st.runs, run_id@, 0);
                let nf = !bad && fr is None;
                let conflict = !bad && (fr matches Some(j) && !transition_allowed(
                    st.runs[j].status,
                    next,
                ));
                match r {
                    Ok(run) => !bad && (fr matches Some(j) && transition_allowed(
                        st.runs[j].status,
                        next,
                    ) && final(self)@.runs == st.runs.update(
                        j,
                        run_after_transition(st.runs[j], next, now@),
                    ) && final(self)@.items == st.items && final(self)@.results == st.results
                        && run@ == run_after_transition(st.runs[j], next, now@)),
                    Err(e) => (bad || nf || conflict) && final(self)@ == st && (e.kind
                        == ErrorKind::Validation <==> bad) && (e.kind == ErrorKind::NotFound
                        <==> nf) && (e.kind == ErrorKind::Conflict <==> conflict),
                }
            }),
    {
        if !is_valid_uuid(run_id) {
            return Err(ApiError::new(ErrorKind::Validation, "malformed run_id"));
        }
        let j = match self.run_index(run_id) {
            Some(j) => j,
            None => {
                return Err(ApiError::new(ErrorKind::NotFound, "run not found"));
            },
        };
        let current = self.runs[j].status;
        if !check_transition(current, next) {
            proof {
                assert(old(self)@ =~= self@);
            }
            return Err(ApiError::new(ErrorKind::Conflict, "illegal run status transition"));
        }
        let ghost st = old(self)@;
        let ghost old_run = st.runs[j as int];
        let fill_started = match next {
            RunStatus::Draft => false,
            _ => true,
        };
        let fill_finished = match next {
            RunStatus::Done => true,
            RunStatus::Locked => true,
            _ => false,
        };
        if fill_started && self.runs[j].started_at.is_none() {
            self.runs[j].started_at = Some(now.to_owned());
        }
        if fill_finished && self.runs[j].finished_at.is_none() {
            self.runs[j].finished_at = Some(now.to_owned());
        }
        match next {
            RunStatus::Locked => {
                self.runs[j].locked_at = Some(now.to_owned());
            },
            _ => {},
        }
        self.runs[j].status = next;
        self.runs[j].updated_at = now.to_owned();
        proof {
            assert(self@.runs[j as int] == run_after_transition(old_run, next, now@));
            assert(self@.runs =~= st.runs.update(
                j as int,
                run_after_transition(old_run, next, now@),
            ));
            assert(self@.items =~= st.items);
            assert(self@.results =~= st.results);
            assert forall|x: int, y: int|
                0 <= x < y < self@.runs.len() implies self@.runs[x].id != self@.runs[y].id by {
                assert(st.runs[x].id != st.runs[y].id);
                assert(self@.runs[x].id == st.runs[x].id);
                assert(self@.runs[y].id == st.runs[y].id);
            }
        }
        let run = self.runs[j].duplicate();
        Ok(run)
    }

    /// Moves a run to `next`, stamped with the current time.
    pub fn set_run_status(&mut self, run_id: &str, next: RunStatus) -> (r: Result<Run, ApiError>)
        requires
            wf_store(old(self)@),
        ensures
            wf_store(final(self)@),
            ({
                let st = old(self)@;
                let bad = !is_uuid_text(run_id@);
                let fr = find_run_from(st.runs, run_id@, 0);
                let nf = !bad && fr is None;
                let conflict = !bad && (fr matches Some(j) && !transition_allowed(
                    st.runs[j].status,
                    next,
                ));
                match r {
                    Ok(run) => !bad && (fr matches Some(j) && transition_allowed(
                        st.runs[j].status,
                        next,
                    ) && exists|now: Seq<char>|
                        #[trigger] status_updated_witness(st, final(self)@, run@, j, next, now)),
                    Err(e) => (bad || nf || conflict) && final(self)@ == st && (e.kind
                        == ErrorKind::Validation <==> bad) && (e.kind == ErrorKind::NotFound
                        <==> nf) && (e.kind == ErrorKind::Conflict <==> conflict),
                }
            }),
    {
        let now = now_iso();
        let ghost nowv: Seq<char> = now@;
        let r = self.set_run_status_at(run_id, next, now.as_str());
        proof {
            if r is Ok {
                let st = old(self)@;
                let j = find_run_from(st.runs, run_id@, 0)->0;
                assert(status_updated_witness(st, self@, r->Ok_0@, j, next, nowv));
            }
        }
        r
    }
}

/// One way a successful status change can have gone: the run at index `j`
/// took the transition at some instant `now`, and the rest of the store is
/// untouched.
pub open spec fn status_updated_witness(
    st: StoreModel,
    new_st: StoreModel,
    run: RunModel,
    j: int,
    next: RunStatus,
    now: Seq<char>,
) -> bool {
    new_st.runs == st.runs.update(j, run_after_transition(st.runs[j], next, now)) && new_st.items
        == st.items && new_st.results == st.results && run == run_after_transition(
        st.runs[j],
        next,
        now,
    )
}

/// What an optional identifier field resolves to: an absent or blank value
/// stands for nothing; anything else is used as given.
pub open spec fn blank_to_none(o: Option<Seq<char>>) -> Option<Seq<char>> {
    match o {
        Some(v) => if trim_spec(v).len() > 0 {
            Some(v)
        } else {
            None
        },
        None => None,
    }
}

/// The stored title: the trimmed input, or `New run` when absent or blank.
pub open spec fn title_of(title: Option<Seq<char>>) -> Seq<char> {
    match title {
        Some(t) => if trim_spec(t).len() > 0 {
            trim_spec(t)
        } else {
            "New run"@
        },
        None => "New run"@,
    }
}

/// Whether a run creation request is malformed: the project, executor, or
/// any non-blank asset or template identifier is not UUID text.
pub open spec fn create_run_invalid(
    project_id: Seq<char>,
    asset_id: Option<Seq<char>>,
    template_id: Option<Seq<char>>,
    executed_by: Seq<char>,
) -> bool {
    ||| !is_uuid_text(project_id)
    ||| (blank_to_none(asset_id) matches Some(a) && !is_uuid_text(a))
    ||| (blank_to_none(template_id) matches Some(t) && !is_uuid_text(t))
    ||| !is_uuid_text(executed_by)
}

/// What a fresh run looks like: a draft with no lifecycle timestamps yet.
pub open spec fn new_run_model(
    id: Seq<char>,
    project_id: Seq<char>,
    asset_id: Option<Seq<char>>,
    template_id: Option<Seq<char>>,
    title: Option<Seq<char>>,
    executed_by: Seq<char>,
    now: Seq<char>,
) -> RunModel {
    RunModel {
        id: id,
        project_id: project_id,
        asset_id: blank_to_none(asset_id),
        template_id: blank_to_none(template_id),
        title: title_of(title),
        status: RunStatus::Draft,
        executed_by_user_id: executed_by,
        started_at: None,
        finished_at: None,
        locked_at: None,
        created_at: now,
        updated_at: now,
    }
}

impl RunStore {
    /// Creates a run in `draft` under a caller-supplied identifier and
    /// timestamp. Identifier fields must be UUID text exactly as given; a
    /// blank asset, template, or title counts as absent; the title is
    /// stored trimmed and defaults to `New run`. An identifier already in
    /// use is a storage-constraint failure.
    pub fn create_run_with_id(
        &mut self,
        run_id: String,
        project_id: &str,
        asset_id: Option<&str>,
        template_id: Option<&str>,
        title: Option<&str>,
        executed_by: &str,
        now: &str,
    ) -> (r: Result<Run, ApiError>)
        requires
            wf_store(old(self)@),
        ensures
            wf_store(final(self)@),
            ({
                let st = old(self)@;
                let bad = create_run_invalid(
                    project_id@,
                    opt_text(asset_id),
                    opt_text(template_id),
                    executed_by@,
                );
                let dup = find_run_from(st.runs, run_id@, 0) is Some;
                let created = new_run_model(
                    run_id@,
                    project_id@,
                    opt_text(asset_id),
                    opt_text(template_id),
                    opt_text(title),
                    executed_by@,
                    now@,
                );
                match r {
                    Ok(run) => !bad && !dup && final(self)@.runs == st.runs.push(created)
                        && final(self)@.items == st.items && final(self)@.results == st.results
                        && run@ == created,
                    Err(e) => (bad || dup) && final(self)@ == st && (e.kind
                        == ErrorKind::Validation <==> bad) && (e.kind == ErrorKind::Storage <==> !bad
                        && dup),
                }
            }),
    {
        if !is_valid_uuid(project_id) {
            return Err(ApiError::new(ErrorKind::Validation, "malformed project_id"));
        }
        let asset_n: Option<String> = match asset_id {
            Some(v) => {
                if trim_str(v).unicode_len() > 0 {
                    if !is_valid_uuid(v) {
                        return Err(ApiError::new(ErrorKind::Validation, "malformed asset_id"));
                    }
                    Some(v.to_owned())
                } else {
                    None
                }
            },
            None => None,
        };
        let template_n: Option<String> = match template_id {
            Some(v) => {
                if trim_str(v).unicode_len() > 0 {
                    if !is_valid_uuid(v) {
                        return Err(ApiError::new(ErrorKind::Validation, "malformed template_id"));
                    }
                    Some(v.to_owned())
                } else {
                    None
                }
            },
            None => None,
        };
        if !is_valid_uuid(executed_by) {
            return Err(ApiError::new(ErrorKind::Validation, "malformed executor identifier"));
        }
        let title_n: String = match title {
            Some(t) => {
                let tt = trim_str(t);
                if tt.unicode_len() > 0 {
                    tt.to_owned()
                } else {
                    String::from_str("New run")
                }
            },
            None => String::from_str("New run"),
        };
        if self.run_index(run_id.as_str()).is_some() {
            return Err(ApiError::new(ErrorKind::Storage, "run identifier already in use"));
        }
        let ghost st = old(self)@;
        let ghost created = new_run_model(
            run_id@,
            project_id@,
            opt_text(asset_id),
            opt_text(template_id),
            opt_text(title),
            executed_by@,
            now@,
        );
        let run = Run {
            id: run_id,
            project_id: project_id.to_owned(),
            asset_id: asset_n,
            template_id: template_n,
            title: title_n,
            status: RunStatus::Draft,
            executed_by_user_id: executed_by.to_owned(),
            started_at: None,
            finished_at: None,
            locked_at: None,
            created_at: now.to_owned(),
            updated_at: now.to_owned(),
        };
        proof {
            assert(run@ == created);
        }
        let copy = run.duplicate();
        self.runs.push(run);
        proof {
            assert(self@.runs =~= st.runs.push(created));
            assert(self@.items =~= st.items);
            assert(self@.results =~= st.results);
            assert forall|x: int, y: int|
                0 <= x < y < self@.runs.len() implies self@.runs[x].id != self@.runs[y].id by {
                if y < self@.runs.len() - 1 {
                    assert(st.runs[x].id != st.runs[y].id);
                } else {
                    assert(find_run_from(st.runs, created.id, 0) is None);
                    lemma_find_run_none(st.runs, created.id, 0);
                    assert(st.runs[x].id != created.id);
                }
            }
        }
        Ok(copy)
    }

    /// Creates a run in `draft` under a freshly drawn identifier, stamped
    /// with the current time.
    pub fn create_run(
        &mut self,
        project_id: &str,
        asset_id: Option<&str>,
        template_id: Option<&str>,
        title: Option<&str>,
        executed_by: &str,
    ) -> (r: Result<Run, ApiError>)
        requires
            wf_store(old(self)@),
        ensures
            wf_store(final(self)@),
            ({
                let st = old(self)@;
                let bad = create_run_invalid(
                    project_id@,
                    opt_text(asset_id),
                    opt_text(template_id),
                    executed_by@,
                );
                match r {
                    Ok(run) => !bad && exists|id: Seq<char>, now: Seq<char>|
                        #[trigger] run_created_witness(
                            st,
                            final(self)@,
                            run@,
                            project_id@,
                            opt_text(asset_id),
                            opt_text(template_id),
                            opt_text(title),
                            executed_by@,
                            id,
                            now,
                        ),
                    Err(e) => final(self)@ == st && (e.kind == ErrorKind::Validation <==> bad) && (
                    e.kind == ErrorKind::Storage <==> !bad),
                }
            }),
    {
        let run_id = fresh_uuid();
        let now = now_iso();
        let ghost idv: Seq<char> = run_id@;
        let ghost nowv: Seq<char> = now@;
        let r = self.create_run_with_id(
            run_id,
            project_id,
            asset_id,
            template_id,
            title,
            executed_by,
            now.as_str(),
        );
        proof {
            if r is Ok {
                assert(run_created_witness(
                    old(self)@,
                    self@,
                    r->Ok_0@,
                    project_id@,
                    opt_text(asset_id),
                    opt_text(template_id),
                    opt_text(title),
                    executed_by@,
                    idv,
                    nowv,
                ));
            }
        }
        r
    }
}

/// One way a successful creation can have gone: the store's run list grew
/// by the draft that `id` and `now` determine, and nothing else moved.
pub open spec fn run_created_witness(
    st: StoreModel,
    new_st: StoreModel,
    run: RunModel,
    project_id: Seq<char>,
    asset_id: Option<Seq<char>>,
    template_id: Option<Seq<char>>,
    title: Option<Seq<char>>,
    executed_by: Seq<char>,
    id: Seq<char>,
    now: Seq<char>,
) -> bool {
    let created = new_run_model(id, project_id, asset_id, template_id, title, executed_by, now);
    new_st.runs == st.runs.push(created) && new_st.items == st.items && new_st.results
        == st.results && run == created
}

/// A missing run identifier is missing at every index.
pub proof fn lemma_find_run_none(runs: Seq<RunModel>, id: Seq<char>, i: int)
    requires
        0 <= i <= runs.len(),
        find_run_from(runs, id, i) is None,
    ensures
        forall|k: int| i <= k < runs.len() ==> #[trigger] runs[k].id != id,
    decreases runs.len() - i,
{
    if i < runs.len() {
        lemma_find_run_none(runs, id, i + 1);
    }
}

} // verus!
