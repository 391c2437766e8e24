use vstd::prelude::*;

use crate::errors::{ApiError, ErrorKind};
use crate::ext::{is_uuid_text, is_valid_uuid};
use crate::ledger::find_result_from;
use crate::runs::{
    blank_to_none, clone_opt_text, find_run_from, opt_string, opt_text, parse_run_status,
    spec_parse_run_status, ResultStatus, Run, RunItem, RunItemModel, RunModel, RunResultModel,
    RunStatus, RunStore, StoreModel,
};
use crate::text::{str_eq, trim_str};

verus! {

/// One run item as a caller sees it: the item's own fields paired with its
/// result row, defaulted to an untouched `na` outcome when no row exists —
/// callers never see a missing result.
#[derive(Debug)]
pub struct RunItemView {
    pub id: String,
    pub testcase_version_id: String,
    pub position: i32,
    pub is_required: bool,
    pub status: ResultStatus,
    pub fail_reason_code: Option<String>,
    pub comment: String,
    pub updated_at: Option<String>,
}

/// The mathematical value of a `RunItemView`.
pub struct RunItemViewModel {
    pub id: Seq<char>,
    pub testcase_version_id: Seq<char>,
    pub position: i32,
    pub is_required: bool,
    pub status: ResultStatus,
    pub fail_reason_code: Option<Seq<char>>,
    pub comment: Seq<char>,
    pub updated_at: Option<Seq<char>>,
}

impl View for RunItemView {
    type V = RunItemViewModel;

    open spec fn view(&self) -> RunItemViewModel {
        RunItemViewModel {
            id: self.id@,
            testcase_version_id: self.testcase_version_id@,
            position: self.position,
            is_required: self.is_required,
            status: self.status,
            fail_reason_code: opt_string(self.fail_reason_code),
            comment: self.comment@,
            updated_at: opt_string(self.updated_at),
        }
    }
}

/// An item paired with its result row, or with the default `na` outcome.
pub open spec fn item_with_result(
    item: RunItemModel,
    results: Seq<RunResultModel>,
) -> RunItemViewModel {
    match find_result_from(results, item.id, 0) {
        Some(k) => RunItemViewModel {
            id: item.id,
            testcase_version_id: item.testcase_version_id,
            position: item.position,
            is_required: item.is_required,
            status: results[k].status,
            fail_reason_code: results[k].fail_reason_code,
            comment: results[k].comment,
            updated_at: Some(results[k].updated_at),
        },
        None => RunItemViewModel {
            id: item.id,
            testcase_version_id: item.testcase_version_id,
            position: item.position,
            is_required: item.is_required,
            status: ResultStatus::Na,
            fail_reason_code: None,
            comment: Seq::empty(),
            updated_at: None,
        },
    }
}

impl RunStore {
    fn build_item_view(&self, item: &RunItem) -> (r: RunItemView)
        ensures
            r@ == item_with_result(item@, self@.results),
    {
        match self.result_index(item.id.as_str()) {
            Some(k) => RunItemView {
                id: item.id.clone(),
                testcase_version_id: item.testcase_version_id.clone(),
                position: item.position,
                is_required: item.is_required,
                status: self.results[k].status,
                fail_reason_code: clone_opt_text(&self.results[k].fail_reason_code),
                comment: self.results[k].comment.clone(),
                updated_at: Some(self.results[k].updated_at.clone()),
            },
            None => RunItemView {
                id: item.id.clone(),
                testcase_version_id: item.testcase_version_id.clone(),
                position: item.position,
                is_required: item.is_required,
                status: ResultStatus::Na,
                fail_reason_code: None,
                comment: String::new(),
                updated_at: None,
            },
        }
    }
}

/// The items that belong to one run, in insertion order.
pub open spec fn items_of_run(items: Seq<RunItemModel>, run_id: Seq<char>) -> Seq<RunItemModel>
    decreases items.len(),
{
    if items.len() == 0 {
        Seq::empty()
    } else {
        items_of_run(items.drop_last(), run_id) + (if items.last().run_id == run_id {
            seq![items.last()]
        } else {
            Seq::empty()
        })
    }
}

/// `x` inserted after every element whose position does not exceed its own:
/// equal positions keep the earlier element first.
pub open spec fn insert_by_position(s: Seq<RunItemModel>, x: RunItemModel) -> Seq<RunItemModel>
    decreases s.len(),
{
    if s.len() == 0 {
        seq![x]
    } else if s.last().position <= x.position {
        s.push(x)
    } else {
        insert_by_position(s.drop_last(), x).push(s.last())
    }
}

/// The items ordered by position ascending, ties kept in insertion order.
pub open spec fn stable_by_position(s: Seq<RunItemModel>) -> Seq<RunItemModel>
    decreases s.len(),
{
    if s.len() == 0 {
        Seq::empty()
    } else {
        insert_by_position(stable_by_position(s.drop_last()), s.last())
    }
}

/// Where `insert_by_position` puts `x`: at any index `k` below which the
/// last element does not exceed `x` and above which every element does.
proof fn lemma_insert_at(s: Seq<RunItemModel>, x: RunItemModel, k: int)
    requires
        0 <= k <= s.len(),
        forall|y: int| k <= y < s.len() ==> #[trigger] s[y].position > x.position,
        k > 0 ==> s[k - 1].position <= x.position,
    ensures
        insert_by_position(s, x) == s.insert(k, x),
    decreases s.len(),
{
    if s.len() == 0 {
        assert(insert_by_position(s, x) =~= s.insert(0, x));
    } else if k == s.len() {
        assert(s.last().position <= x.position);
        assert(s.push(x) =~= s.insert(k, x));
    } else {
        assert(s[s.len() - 1].position > x.position);
        let d = s.drop_last();
        assert(forall|y: int| k <= y < d.len() ==> #[trigger] d[y].position > x.position);
        if k > 0 {
            assert(d[k - 1] == s[k - 1]);
        }
        lemma_insert_at(d, x, k);
        assert(insert_by_position(s, x) == d.insert(k, x).push(s.last()));
        assert(d.insert(k, x).push(s.last()) =~= s.insert(k, x));
    }
}

/// Whether a listing is ordered by position ascending.
pub open spec fn sorted_by_position(s: Seq<RunItemModel>) -> bool {
    forall|i: int, j: int| 0 <= i < j < s.len() ==> s[i].position <= s[j].position
}

/// Every element an insertion produces is the inserted one or one of the
/// originals.
proof fn lemma_insert_elements(s: Seq<RunItemModel>, x: RunItemModel)
    ensures
        ({
            let r = insert_by_position(s, x);
            &&& r.len() == s.len() + 1
            &&& forall|i: int| 0 <= i < r.len() ==> #[trigger] r[i] == x || s.contains(r[i])
        }),
    decreases s.len(),
{
    let r = insert_by_position(s, x);
    if s.len() == 0 {
    } else if s.last().position <= x.position {
        assert forall|i: int| 0 <= i < r.len() implies #[trigger] r[i] == x || s.contains(r[i]) by {
            if i < s.len() {
                assert(r[i] == s[i]);
                assert(s.contains(s[i]));
            }
        }
    } else {
        let d = s.drop_last();
        lemma_insert_elements(d, x);
        let rd = insert_by_position(d, x);
        assert forall|i: int| 0 <= i < r.len() implies #[trigger] r[i] == x || s.contains(r[i]) by {
            if i < rd.len() {
                assert(r[i] == rd[i]);
                if rd[i] != x {
                    let k = choose|k: int| 0 <= k < d.len() && d[k] == rd[i];
                    assert(s[k] == rd[i]);
                    assert(s.contains(s[k]));
                }
            } else {
                assert(r[i] == s.last());
                assert(s.contains(s[s.len() - 1]));
            }
        }
    }
}

/// Inserting into an ordered listing keeps it ordered.
proof fn lemma_insert_preserves_sorted(s: Seq<RunItemModel>, x: RunItemModel)
    requires
        sorted_by_position(s),
    ensures
        sorted_by_position(insert_by_position(s, x)),
    decreases s.len(),
{
    let r = insert_by_position(s, x);
    if s.len() == 0 {
    } else if s.last().position <= x.position {
        assert forall|i: int, j: int|
            0 <= i < j < r.len() implies r[i].position <= r[j].position by {
            if j < s.len() {
                assert(s[i].position <= s[j].position);
            } else {
                assert(r[i] == s[i]);
                assert(s[i].position <= s[s.len() - 1].position);
            }
        }
    } else {
        let d = s.drop_last();
        assert(sorted_by_position(d)) by {
            assert(forall|i: int, j: int|
                0 <= i < j < d.len() ==> d[i].position == s[i].position && d[j].position
                    == s[j].position);
        }
        lemma_insert_preserves_sorted(d, x);
        lemma_insert_elements(d, x);
        let rd = insert_by_position(d, x);
        assert forall|i: int, j: int|
            0 <= i < j < r.len() implies r[i].position <= r[j].position by {
            if j < rd.len() {
                assert(rd[i].position <= rd[j].position);
            } else {
                assert(r[j] == s.last());
                assert(r[i] == rd[i]);
                if rd[i] == x {
                    assert(x.position < s.last().position);
                } else {
                    let k = choose|k: int| 0 <= k < d.len() && d[k] == rd[i];
                    assert(d[k].position <= s.last().position) by {
                        assert(d[k].position == s[k].position);
                        assert(s[k].position <= s[s.len() - 1].position);
                    }
                }
            }
        }
    }
}

/// Law: a run's item listing really is ordered by position ascending.
pub proof fn lemma_listing_sorted(s: Seq<RunItemModel>)
    ensures
        sorted_by_position(stable_by_position(s)),
    decreases s.len(),
{
    if s.len() > 0 {
        lemma_listing_sorted(s.drop_last());
        lemma_insert_preserves_sorted(stable_by_position(s.drop_last()), s.last());
    }
}

/// What a run's item listing shows: the run's items sorted by position,
/// each joined with its result.
pub open spec fn listed_items(st: StoreModel, run_id: Seq<char>) -> Seq<RunItemViewModel> {
    stable_by_position(items_of_run(st.items, run_id)).map_values(
        |it: RunItemModel| item_with_result(it, st.results),
    )
}

impl RunStore {
    /// A run together with its item listing: items ordered by position
    /// ascending, ties in creation order, each always paired with a result.
    /// The run identifier must be UUID text.
    pub fn run_details(&self, run_id: &str) -> (r: Result<(Run, Vec<RunItemView>), ApiError>)
        ensures
            ({
                let bad = !is_uuid_text(run_id@);
                let fr = find_run_from(self@.runs, run_id@, 0);
                match r {
                    Ok((run, views)) => !bad && (fr matches Some(j) && run@ == self@.runs[j]
                        && views@.map_values(|v: RunItemView| v@) == listed_items(self@, run_id@)),
                    Err(e) => (bad || fr is None) && (e.kind == ErrorKind::Validation <==> bad)
                        && (e.kind == ErrorKind::NotFound <==> !bad && fr is None),
                }
            }),
    {
        if !is_valid_uuid(run_id) {
            return Err(ApiError::new(ErrorKind::Validation, "malformed run_id"));
        }
        let j = match self.run_index(run_id) {
            Some(j) => j,
            None => {
                return Err(ApiError::new(ErrorKind::NotFound, "run not found"));
            },
        };
        let ghost im = self@.items;
        let n = self.items.len();
        let mut sorted: Vec<RunItem> = Vec::new();
        let mut i: usize = 0;
        while i < n
            invariant
                0 <= i <= n == im.len(),
                im == self@.items,
                n == self.items@.len(),
                sorted@.map_values(|it: RunItem| it@) == stable_by_position(
                    items_of_run(im.take(i as int), run_id@),
                ),
            decreases n - i,
        {
            proof {
                assert(im.take(i + 1).drop_last() =~= im.take(i as int));
                assert(im.take(i + 1).last() == im[i as int]);
            }
            if str_eq(self.items[i].run_id.as_str(), run_id) {
                let x = self.items[i].duplicate();
                let ghost before = sorted@.map_values(|it: RunItem| it@);
                let mut k: usize = sorted.len();
                while k > 0 && sorted[k - 1].position > x.position
                    invariant
                        0 <= k <= sorted@.len(),
                        before == sorted@.map_values(|it: RunItem| it@),
                        forall|y: int|
                            k <= y < before.len() ==> #[trigger] before[y].position > x@.position,
                    decreases k,
                {
                    k = k - 1;
                }
                sorted.insert(k, x);
                proof {
                    lemma_insert_at(before, x@, k as int);
                    assert(sorted@.map_values(|it: RunItem| it@) =~= before.insert(k as int, x@));
                    let t = items_of_run(im.take(i + 1), run_id@);
                    assert(t == items_of_run(im.take(i as int), run_id@) + seq![im[i as int]]);
                    assert(t.len() == items_of_run(im.take(i as int), run_id@).len() + 1);
                    assert(t.drop_last() =~= items_of_run(im.take(i as int), run_id@));
                    assert(t.last() == im[i as int]);
                    assert(stable_by_position(t) == insert_by_position(
                        stable_by_position(items_of_run(im.take(i as int), run_id@)),
                        im[i as int],
                    ));
                    assert(x@ == im[i as int]);
                    assert(sorted@.map_values(|it: RunItem| it@) == stable_by_position(t));
                }
            } else {
                proof {
                    assert(items_of_run(im.take(i + 1), run_id@) =~= items_of_run(
                        im.take(i as int),
                        run_id@,
                    ));
                }
            }
            i = i + 1;
        }
        proof {
            assert(im.take(n as int) =~= im);
        }
        let m = sorted.len();
        let mut out: Vec<RunItemView> = Vec::new();
        let mut t: usize = 0;
        while t < m
            invariant
                0 <= t <= m == sorted@.len(),
                out@.len() == t,
                sorted@.map_values(|it: RunItem| it@) == stable_by_position(
                    items_of_run(self@.items, run_id@),
                ),
                forall|y: int|
                    0 <= y < t ==> #[trigger] out@[y]@ == item_with_result(
                        sorted@[y]@,
                        self@.results,
                    ),
            decreases m - t,
        {
            let v = self.build_item_view(&sorted[t]);
            out.push(v);
            t = t + 1;
        }
        proof {
            assert(out@.map_values(|v: RunItemView| v@) =~= listed_items(self@, run_id@));
        }
        let run = self.runs[j].duplicate();
        Ok((run, out))
    }
}

/// Whether a run passes the listing filters.
pub open spec fn run_matches(r: RunModel, pf: Option<Seq<char>>, sf: Option<RunStatus>) -> bool {
    (match pf {
        Some(p) => r.project_id == p,
        None => true,
    }) && (match sf {
        Some(s) => r.status == s,
        None => true,
    })
}

/// The newest runs that pass the filters: creation order descending, at
/// most `limit` of them.
pub open spec fn latest_runs(
    runs: Seq<RunModel>,
    pf: Option<Seq<char>>,
    sf: Option<RunStatus>,
    limit: int,
) -> Seq<RunModel>
    decreases runs.len(),
{
    if runs.len() == 0 || limit <= 0 {
        Seq::empty()
    } else if run_matches(runs.last(), pf, sf) {
        seq![runs.last()] + latest_runs(runs.drop_last(), pf, sf, limit - 1)
    } else {
        latest_runs(runs.drop_last(), pf, sf, limit)
    }
}

fn run_passes(run: &Run, project_id: Option<&str>, status: Option<RunStatus>) -> (r: bool)
    ensures
        r == run_matches(run@, opt_text(project_id), status),
{
    let mp = match project_id {
        Some(p) => str_eq(run.project_id.as_str(), p),
        None => true,
    };
    let ms = match status {
        Some(s) => run.status == s,
        None => true,
    };
    mp && ms
}

impl RunStore {
    /// Lists runs, newest first, optionally filtered by project and by
    /// status, truncated to `limit`.
    pub fn list_runs(&self, project_id: Option<&str>, status: Option<RunStatus>, limit: usize) -> (r:
        Vec<Run>)
        ensures
            r@.map_values(|x: Run| x@) == latest_runs(
                self@.runs,
                opt_text(project_id),
                status,
                limit as int,
            ),
    {
        let ghost pf = opt_text(project_id);
        let ghost rm = self@.runs;
        let mut out: Vec<Run> = Vec::new();
        let mut i: usize = self.runs.len();
        proof {
            assert(rm.take(i as int) =~= rm);
        }
        while i > 0 && out.len() < limit
            invariant
                0 <= i <= rm.len(),
                rm == self@.runs,
                pf == opt_text(project_id),
                i <= self.runs@.len(),
                out@.len() <= limit,
                latest_runs(rm, pf, status, limit as int) == out@.map_values(|x: Run| x@)
                    + latest_runs(rm.take(i as int), pf, status, limit - out@.len()),
            decreases i,
        {
            proof {
                assert(rm.take(i as int).drop_last() =~= rm.take(i - 1));
                assert(rm.take(i as int).last() == rm[i - 1]);
            }
            let passes = run_passes(&self.runs[i - 1], project_id, status);
            if passes {
                let ghost before = out@.map_values(|x: Run| x@);
                out.push(self.runs[i - 1].duplicate());
                proof {
                    assert(out@.map_values(|x: Run| x@) =~= before + seq![rm[i - 1]]);
                    assert(latest_runs(rm.take(i as int), pf, status, limit - before.len())
                        == seq![rm[i - 1]] + latest_runs(
                        rm.take(i - 1),
                        pf,
                        status,
                        limit - before.len() - 1,
                    ));
                    assert(limit - out@.len() == limit - before.len() - 1);
                    assert((before + seq![rm[i - 1]]) + latest_runs(
                        rm.take(i - 1),
                        pf,
                        status,
                        limit - out@.len(),
                    ) =~= before + (seq![rm[i - 1]] + latest_runs(
                        rm.take(i - 1),
                        pf,
                        status,
                        limit - out@.len(),
                    )));
                }
            } else {
                proof {
                    assert(!run_matches(rm[i - 1], pf, status));
                    assert(latest_runs(rm.take(i as int), pf, status, limit - out@.len())
                        == latest_runs(rm.take(i - 1), pf, status, limit - out@.len()));
                }
            }
            i = i - 1;
        }
        proof {
            if out@.len() < limit {
                assert(i == 0);
                assert(rm.take(0) =~= Seq::<RunModel>::empty());
            }
            assert(latest_runs(rm.take(i as int), pf, status, limit - out@.len())
                =~= Seq::<RunModel>::empty());
            assert(out@.map_values(|x: Run| x@) + Seq::<RunModel>::empty() =~= out@.map_values(
                |x: Run| x@,
            ));
        }
        out
    }
}

/// The page size a listing request resolves to: 50 when absent, clamped
/// into 1 to 200.
pub open spec fn clamp_limit(limit: Option<i64>) -> int {
    let v = match limit {
        Some(x) => x as int,
        None => 50,
    };
    if v < 1 {
        1
    } else if v > 200 {
        200
    } else {
        v
    }
}

impl RunStore {
    /// Answers a listing request as it arrives at the boundary: a non-blank
    /// project filter must be UUID text, a status filter must name a valid
    /// status, and the page size defaults to 50, clamped into 1 to 200.
    pub fn list_runs_request(
        &self,
        project_id: Option<&str>,
        status_text: Option<&str>,
        limit: Option<i64>,
    ) -> (r: Result<Vec<Run>, ApiError>)
        ensures
            ({
                let pf = blank_to_none(opt_text(project_id));
                let bad_p = pf matches Some(p) && !is_uuid_text(p);
                let bad_s = status_text matches Some(t) && spec_parse_run_status(t@) is None;
                let sf = match status_text {
                    Some(t) => spec_parse_run_status(t@),
                    None => None,
                };
                match r {
                    Ok(v) => !bad_p && !bad_s && v@.map_values(|x: Run| x@) == latest_runs(
                        self@.runs,
                        pf,
                        sf,
                        clamp_limit(limit),
                    ),
                    Err(e) => (bad_p || bad_s) && e.kind == ErrorKind::Validation,
                }
            }),
    {
        let pf: Option<&str> = match project_id {
            Some(v) => {
                if trim_str(v).unicode_len() > 0 {
                    if !is_valid_uuid(v) {
                        return Err(ApiError::new(ErrorKind::Validation, "malformed project_id"));
                    }
                    Some(v)
                } else {
                    None
                }
            },
            None => None,
        };
        let sf: Option<RunStatus> = match status_text {
            Some(t) => {
                match parse_run_status(t) {
                    Ok(s) => Some(s),
                    Err(e) => {
                        return Err(e);
                    },
                }
            },
            None => None,
        };
        let given: i64 = match limit {
            Some(x) => x,
            None => 50,
        };
        let lim: i64 = if given < 1 {
            1
        } else if given > 200 {
            200
        } else {
            given
        };
        Ok(self.list_runs(pf, sf, lim as usize))
    }
}

} // verus!
