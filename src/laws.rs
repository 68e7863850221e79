//! What holds of every run: pending migrations are applied in ascending
//! order and only they, a failed statement halts the run with nothing of it
//! recorded, and an up-to-date store is left as it is.
use vstd::prelude::*;
use crate::migration::{Migration, well_ordered, versions, is_registry, lemma_registry_well_ordered};
use crate::apply::{
    Action, Progress, first_pending, pending, progress_wf, begin_spec, next_spec, report_spec,
    drive, lemma_first_pending_splits,
};

verus! {

proof fn lemma_begin_wf(ms: Seq<Migration>, v: int)
    requires
        well_ordered(ms),
    ensures
        progress_wf(begin_spec(ms, v), ms),
{
    lemma_first_pending_splits(ms, v);
    let fp = first_pending(ms, v);
    assert(versions(ms.subrange(fp, fp)) =~= seq![]);
}

proof fn lemma_report_wf(p: Progress, ms: Seq<Migration>, ok: bool)
    requires
        progress_wf(p, ms),
        next_spec(p, ms) is Execute,
    ensures
        progress_wf(report_spec(p, ms, ok), ms),
{
    let fp = first_pending(ms, p.start);
    if ok {
        assert(ms.subrange(fp, p.cursor + 1) =~= ms.subrange(fp, p.cursor).push(ms[p.cursor]));
        assert(versions(ms.subrange(fp, p.cursor + 1)) =~= p.applied.push(ms[p.cursor].version));
    }
}

proof fn lemma_drive_stopped(p: Progress, ms: Seq<Migration>, ok: Seq<bool>)
    requires
        !(next_spec(p, ms) is Execute),
    ensures
        drive(p, ms, ok) == p,
{
}

proof fn lemma_drive_all_commit(p: Progress, ms: Seq<Migration>, ok: Seq<bool>)
    requires
        progress_wf(p, ms),
        p.failed is None,
        ok.len() >= ms.len() - p.cursor,
        forall|i: int| 0 <= i < ms.len() - p.cursor ==> #[trigger] ok[i],
    ensures
        progress_wf(drive(p, ms, ok), ms),
        drive(p, ms, ok).start == p.start,
        drive(p, ms, ok).cursor == ms.len(),
        drive(p, ms, ok).failed is None,
        drive(p, ms, ok).applied == p.applied + versions(ms.subrange(p.cursor, ms.len() as int)),
    decreases ms.len() - p.cursor,
{
    if p.cursor == ms.len() {
        lemma_drive_stopped(p, ms, ok);
        assert(versions(ms.subrange(p.cursor, ms.len() as int)) =~= seq![]);
        assert(p.applied + seq![] =~= p.applied);
    } else {
        let q = report_spec(p, ms, ok[0]);
        lemma_report_wf(p, ms, ok[0]);
        let rest = ok.drop_first();
        assert forall|i: int| 0 <= i < ms.len() - q.cursor implies #[trigger] rest[i] by {
            assert(rest[i] == ok[i + 1]);
        }
        lemma_drive_all_commit(q, ms, rest);
        assert(versions(ms.subrange(p.cursor, ms.len() as int)) =~= seq![ms[p.cursor].version]
            + versions(ms.subrange(p.cursor + 1, ms.len() as int)));
        assert(p.applied + versions(ms.subrange(p.cursor, ms.len() as int)) =~= q.applied
            + versions(ms.subrange(q.cursor, ms.len() as int)));
    }
}

proof fn lemma_drive_fails_at(p: Progress, ms: Seq<Migration>, ok: Seq<bool>, k: int)
    requires
        progress_wf(p, ms),
        p.failed is None,
        0 <= k,
        p.cursor + k < ms.len(),
        k < ok.len(),
        forall|i: int| 0 <= i < k ==> #[trigger] ok[i],
        !ok[k],
    ensures
        progress_wf(drive(p, ms, ok), ms),
        drive(p, ms, ok).start == p.start,
        drive(p, ms, ok).cursor == p.cursor + k,
        drive(p, ms, ok).failed == Some(ms[p.cursor + k].version),
        drive(p, ms, ok).applied == p.applied + versions(ms.subrange(p.cursor, p.cursor + k)),
    decreases k,
{
    let q = report_spec(p, ms, ok[0]);
    lemma_report_wf(p, ms, ok[0]);
    let rest = ok.drop_first();
    if k == 0 {
        lemma_drive_stopped(q, ms, rest);
        assert(versions(ms.subrange(p.cursor, p.cursor)) =~= seq![]);
        assert(p.applied + seq![] =~= p.applied);
    } else {
        assert forall|i: int| 0 <= i < k - 1 implies #[trigger] rest[i] by {
            assert(rest[i] == ok[i + 1]);
        }
        assert(rest[k - 1] == ok[k]);
        lemma_drive_fails_at(q, ms, rest, k - 1);
        assert(versions(ms.subrange(p.cursor, p.cursor + k)) =~= seq![ms[p.cursor].version]
            + versions(ms.subrange(p.cursor + 1, p.cursor + k)));
        assert(p.applied + versions(ms.subrange(p.cursor, p.cursor + k)) =~= q.applied
            + versions(ms.subrange(q.cursor, p.cursor + k)));
    }
}

/// When every statement that a run executes commits, the run applies exactly
/// the pending migrations, in ascending order, records the last of them (or
/// leaves the recorded version as it was when none is pending), and finishes.
/// `ok` gives the outcome of each executed statement, in order.
pub proof fn lemma_successful_run(ms: Seq<Migration>, start: int, ok: Seq<bool>)
    requires
        well_ordered(ms),
        ok.len() >= pending(ms, start).len(),
        forall|i: int| 0 <= i < pending(ms, start).len() ==> #[trigger] ok[i],
    ensures
        drive(begin_spec(ms, start), ms, ok).applied == versions(pending(ms, start)),
        drive(begin_spec(ms, start), ms, ok).failed is None,
        drive(begin_spec(ms, start), ms, ok).recorded == (if pending(ms, start).len() == 0 {
            start
        } else {
            ms.last().version as int
        }),
        next_spec(drive(begin_spec(ms, start), ms, ok), ms) == Action::Finish,
{
    lemma_begin_wf(ms, start);
    let p = begin_spec(ms, start);
    lemma_drive_all_commit(p, ms, ok);
    assert(seq![] + versions(pending(ms, start)) =~= versions(pending(ms, start)));
}

/// A statement that fails halts the run: the pending migrations before it
/// stay applied, nothing of the failing one is recorded, no later one is
/// tried, and startup aborts naming its version. `k` is the position of the
/// failing statement among the pending migrations.
pub proof fn lemma_failed_statement_halts(ms: Seq<Migration>, start: int, ok: Seq<bool>, k: int)
    requires
        well_ordered(ms),
        0 <= k < pending(ms, start).len(),
        k < ok.len(),
        forall|i: int| 0 <= i < k ==> #[trigger] ok[i],
        !ok[k],
    ensures
        drive(begin_spec(ms, start), ms, ok).applied == versions(pending(ms, start).take(k)),
        drive(begin_spec(ms, start), ms, ok).failed == Some(pending(ms, start)[k].version),
        !drive(begin_spec(ms, start), ms, ok).applied.contains(pending(ms, start)[k].version),
        drive(begin_spec(ms, start), ms, ok).recorded < pending(ms, start)[k].version,
        next_spec(drive(begin_spec(ms, start), ms, ok), ms) == Action::Abort(
            pending(ms, start)[k].version,
        ),
{
    lemma_begin_wf(ms, start);
    lemma_first_pending_splits(ms, start);
    let p = begin_spec(ms, start);
    let fp = first_pending(ms, start);
    lemma_drive_fails_at(p, ms, ok, k);
    let q = drive(p, ms, ok);
    assert(pending(ms, start).take(k) =~= ms.subrange(fp, fp + k));
    assert(seq![] + versions(ms.subrange(fp, fp + k)) =~= versions(ms.subrange(fp, fp + k)));
    let v = ms[fp + k].version;
    if q.applied.contains(v) {
        let j = choose|j: int| 0 <= j < q.applied.len() && q.applied[j] == v;
        assert(q.applied[j] == ms[fp + j].version);
    }
}

/// Re-running the registry on a store that a successful run brought up to
/// date applies nothing: the run finishes at once, with the recorded version
/// as it was.
pub proof fn lemma_rerun_is_noop(ms: Seq<Migration>, start: int, ok: Seq<bool>, again: Seq<bool>)
    requires
        well_ordered(ms),
        ok.len() >= pending(ms, start).len(),
        forall|i: int| 0 <= i < pending(ms, start).len() ==> #[trigger] ok[i],
    ensures
        pending(ms, drive(begin_spec(ms, start), ms, ok).recorded).len() == 0,
        drive(
            begin_spec(ms, drive(begin_spec(ms, start), ms, ok).recorded),
            ms,
            again,
        ) == begin_spec(ms, drive(begin_spec(ms, start), ms, ok).recorded),
{
    lemma_successful_run(ms, start, ok);
    let r = drive(begin_spec(ms, start), ms, ok).recorded;
    lemma_first_pending_splits(ms, start);
    lemma_first_pending_splits(ms, r);
    if ms.len() > 0 && first_pending(ms, r) < ms.len() {
        let j = first_pending(ms, r);
        if pending(ms, start).len() == 0 {
            assert(ms[j].version <= start);
        } else {
            assert(ms[j].version <= ms.last().version);
        }
    }
    lemma_drive_stopped(begin_spec(ms, r), ms, again);
}

/// A store that records a version at or above every migration's is left
/// unchanged: the run applies nothing and finishes at once.
pub proof fn lemma_up_to_date_store_unchanged(ms: Seq<Migration>, start: int, ok: Seq<bool>)
    requires
        well_ordered(ms),
        forall|i: int| 0 <= i < ms.len() ==> #[trigger] ms[i].version <= start,
    ensures
        drive(begin_spec(ms, start), ms, ok) == begin_spec(ms, start),
        begin_spec(ms, start).applied.len() == 0,
        begin_spec(ms, start).recorded == start,
        next_spec(begin_spec(ms, start), ms) == Action::Finish,
{
    lemma_first_pending_splits(ms, start);
    if first_pending(ms, start) < ms.len() {
        assert(ms[first_pending(ms, start)].version <= start);
    }
    lemma_drive_stopped(begin_spec(ms, start), ms, ok);
}

/// On a fresh store (no version recorded), a run of the registry in which
/// both statements commit executes the `structure` statement and then the
/// `territory` statement, records version 2, and finishes.
pub proof fn lemma_fresh_store_applies_both(ms: Seq<Migration>, ok: Seq<bool>)
    requires
        is_registry(ms),
        ok.len() >= 2,
        ok[0],
        ok[1],
    ensures
        next_spec(begin_spec(ms, 0), ms) == Action::Execute(0),
        drive(begin_spec(ms, 0), ms, ok).applied == seq![1i64, 2i64],
        drive(begin_spec(ms, 0), ms, ok).recorded == 2,
        next_spec(drive(begin_spec(ms, 0), ms, ok), ms) == Action::Finish,
{
    lemma_registry_well_ordered(ms);
    lemma_first_pending_splits(ms, 0);
    assert(pending(ms, 0) =~= ms);
    assert forall|i: int| 0 <= i < pending(ms, 0).len() implies #[trigger] ok[i] by {
        assert(i == 0 || i == 1);
    }
    lemma_successful_run(ms, 0, ok);
}

/// On a store at version 1, a run of the registry executes only the version-2
/// migration, records version 2, and finishes.
pub proof fn lemma_resume_from_version_one(ms: Seq<Migration>, ok: Seq<bool>)
    requires
        is_registry(ms),
        ok.len() >= 1,
        ok[0],
    ensures
        next_spec(begin_spec(ms, 1), ms) == Action::Execute(1),
        drive(begin_spec(ms, 1), ms, ok).applied == seq![2i64],
        drive(begin_spec(ms, 1), ms, ok).recorded == 2,
        next_spec(drive(begin_spec(ms, 1), ms, ok), ms) == Action::Finish,
{
    lemma_registry_well_ordered(ms);
    lemma_first_pending_splits(ms, 1);
    assert(first_pending(ms, 1) == 1);
    assert(pending(ms, 1) =~= seq![ms[1]]);
    lemma_successful_run(ms, 1, ok);
    assert(versions(pending(ms, 1)) =~= seq![2i64]);
}

/// A store already at version 2 is left as it is by a run of the registry:
/// nothing is executed, whatever the outcomes would have been.
pub proof fn lemma_store_at_version_two_unchanged(ms: Seq<Migration>, ok: Seq<bool>)
    requires
        is_registry(ms),
    ensures
        drive(begin_spec(ms, 2), ms, ok) == begin_spec(ms, 2),
        begin_spec(ms, 2).applied.len() == 0,
        begin_spec(ms, 2).recorded == 2,
        next_spec(begin_spec(ms, 2), ms) == Action::Finish,
{
    lemma_registry_well_ordered(ms);
    lemma_up_to_date_store_unchanged(ms, 2, ok);
}

} // verus!
