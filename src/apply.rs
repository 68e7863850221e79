//! Bringing a store up to date: the decisions of one startup's run over the
//! registry, as a state machine. The runner around it executes each statement
//! in a transaction of its own and reports whether it committed.
use vstd::prelude::*;
use crate::migration::{Migration, well_ordered, versions};

verus! {

/// What the runner does next.
#[derive(Clone, Copy, Debug, PartialEq, Eq, Structural)]
pub enum Action {
    /// Execute the statement of the migration at this index of the
    /// registry, in one transaction, and record its version if it commits.
    Execute(usize),
    /// Every pending migration is applied: startup goes on.
    Finish,
    /// The statement of this version failed and was rolled back: startup
    /// fails, and no later migration is tried.
    Abort(i64),
}

/// The state of a run, in mathematical terms.
pub struct Progress {
    /// The version recorded in the store when the run began.
    pub start: int,
    /// The highest version recorded as applied.
    pub recorded: int,
    /// Index in the registry of the next migration to apply.
    pub cursor: int,
    /// Versions applied during this run, in the order applied.
    pub applied: Seq<i64>,
    /// Version whose statement failed, if one did.
    pub failed: Option<i64>,
}

/// Number of migrations, from the front, whose version is at most `v`: for a
/// well-ordered registry, the index of the first one still pending.
pub open spec fn first_pending(ms: Seq<Migration>, v: int) -> int
    decreases ms.len(),
{
    if ms.len() == 0 || ms[0].version > v {
        0
    } else {
        1 + first_pending(ms.drop_first(), v)
    }
}

/// The migrations that a store at version `v` still lacks, in order.
pub open spec fn pending(ms: Seq<Migration>, v: int) -> Seq<Migration> {
    ms.subrange(first_pending(ms, v), ms.len() as int)
}

/// A run over `ms` that began at `start` and stands at `p`.
pub open spec fn progress_wf(p: Progress, ms: Seq<Migration>) -> bool {
    let fp = first_pending(ms, p.start);
    &&& well_ordered(ms)
    &&& 0 <= fp <= p.cursor <= ms.len()
    &&& p.applied == versions(ms.subrange(fp, p.cursor))
    &&& (p.cursor == fp ==> p.recorded == p.start)
    &&& (p.cursor > fp ==> p.recorded == ms[p.cursor - 1].version)
    &&& (p.failed is Some ==> p.cursor < ms.len() && p.failed == Some(ms[p.cursor].version))
}

/// The run that begins on a store at version `v`.
pub open spec fn begin_spec(ms: Seq<Migration>, v: int) -> Progress {
    Progress { start: v, recorded: v, cursor: first_pending(ms, v), applied: seq![], failed: None }
}

/// What the runner does next from `p`.
pub open spec fn next_spec(p: Progress, ms: Seq<Migration>) -> Action {
    match p.failed {
        Some(f) => Action::Abort(f),
        None => if p.cursor < ms.len() {
            Action::Execute(p.cursor as usize)
        } else {
            Action::Finish
        },
    }
}

/// The run after the statement at the cursor committed (`ok`) or failed.
pub open spec fn report_spec(p: Progress, ms: Seq<Migration>, ok: bool) -> Progress {
    let v = ms[p.cursor].version;
    if ok {
        Progress { recorded: v as int, cursor: p.cursor + 1, applied: p.applied.push(v), ..p }
    } else {
        Progress { failed: Some(v), ..p }
    }
}

/// The run from `p` when the statements it executes commit or fail as `ok`
/// says, one entry per statement, in order. It stops where `ok` runs out.
pub open spec fn drive(p: Progress, ms: Seq<Migration>, ok: Seq<bool>) -> Progress
    decreases ok.len(),
{
    if ok.len() == 0 {
        p
    } else {
        match next_spec(p, ms) {
            Action::Execute(_) => drive(report_spec(p, ms, ok[0]), ms, ok.drop_first()),
            _ => p,
        }
    }
}

/// A run of the registry against one store.
pub struct Applier {
    start: i64,
    recorded: i64,
    cursor: usize,
    applied: Vec<i64>,
    failed: Option<i64>,
}

impl View for Applier {
    type V = Progress;

    closed spec fn view(&self) -> Progress {
        Progress {
            start: self.start as int,
            recorded: self.recorded as int,
            cursor: self.cursor as int,
            applied: self.applied@,
            failed: self.failed,
        }
    }
}

proof fn lemma_first_pending_at(ms: Seq<Migration>, v: int, i: int)
    requires
        0 <= i <= ms.len(),
        forall|j: int| 0 <= j < i ==> #[trigger] ms[j].version <= v,
        i < ms.len() ==> ms[i].version > v,
    ensures
        first_pending(ms, v) == i,
    decreases i,
{
    if i > 0 {
        let t = ms.drop_first();
        assert forall|j: int| 0 <= j < i - 1 implies #[trigger] t[j].version <= v by {
            assert(t[j] == ms[j + 1]);
        }
        if i - 1 < t.len() {
            assert(t[i - 1] == ms[i]);
        }
        lemma_first_pending_at(t, v, i - 1);
    }
}

/// Every migration before the first pending one is at most `v`, and, in a
/// well-ordered registry, every one from it on is above `v`.
pub proof fn lemma_first_pending_splits(ms: Seq<Migration>, v: int)
    requires
        well_ordered(ms),
    ensures
        0 <= first_pending(ms, v) <= ms.len(),
        forall|j: int| 0 <= j < first_pending(ms, v) ==> #[trigger] ms[j].version <= v,
        forall|j: int| first_pending(ms, v) <= j < ms.len() ==> #[trigger] ms[j].version > v,
    decreases ms.len(),
{
    if ms.len() > 0 && ms[0].version <= v {
        let t = ms.drop_first();
        assert forall|i: int, j: int| 0 <= i < j < t.len() implies t[i].version < t[j].version by {
            assert(t[i] == ms[i + 1] && t[j] == ms[j + 1]);
        }
        assert forall|i: int| 0 <= i < t.len() implies #[trigger] t[i].version > 0 by {
            assert(t[i] == ms[i + 1]);
        }
        lemma_first_pending_splits(t, v);
        assert forall|j: int| 0 <= j < first_pending(ms, v) implies #[trigger] ms[j].version <= v by {
            if j > 0 {
                assert(ms[j] == t[j - 1]);
            }
        }
        assert forall|j: int| first_pending(ms, v) <= j < ms.len() implies #[trigger] ms[j].version > v by {
            assert(ms[j] == t[j - 1]);
        }
    } else if ms.len() > 0 {
        assert forall|j: int| 0 <= j < ms.len() implies #[trigger] ms[j].version > v by {
            if j > 0 {
                assert(ms[0].version < ms[j].version);
            }
        }
    }
}

impl Applier {
    /// Starts the run on a store whose bookkeeping records `recorded` as the
    /// highest applied version (0 for a store on which none was recorded).
    /// The run will apply exactly the migrations above `recorded`.
    pub fn begin(ms: &Vec<Migration>, recorded: i64) -> (r: Applier)
        requires
            well_ordered(ms@),
        ensures
            r@ == begin_spec(ms@, recorded as int),
            progress_wf(r@, ms@),
    {
        let mut i: usize = 0;
        while i < ms.len() && ms[i].version <= recorded
            invariant
                0 <= i <= ms.len(),
                forall|j: int| 0 <= j < i ==> #[trigger] ms@[j].version <= recorded,
            decreases ms.len() - i,
        {
            i = i + 1;
        }
        proof {
            lemma_first_pending_at(ms@, recorded as int, i as int);
        }
        let r = Applier { start: recorded, recorded, cursor: i, applied: Vec::new(), failed: None };
        assert(r@.applied =~= versions(ms@.subrange(i as int, i as int)));
        r
    }

    /// What the runner does next.
    pub fn next_action(&self, ms: &Vec<Migration>) -> (r: Action)
        requires
            progress_wf(self@, ms@),
        ensures
            r == next_spec(self@, ms@),
    {
        match self.failed {
            Some(f) => Action::Abort(f),
            None => if self.cursor < ms.len() {
                Action::Execute(self.cursor)
            } else {
                Action::Finish
            },
        }
    }

    /// Takes in whether the statement that `next_action` asked for committed.
    /// On success its version is recorded and the run moves on; on failure
    /// nothing of it is recorded and the run halts.
    pub fn report(&mut self, ms: &Vec<Migration>, committed: bool)
        requires
            progress_wf(old(self)@, ms@),
            next_spec(old(self)@, ms@) is Execute,
        ensures
            final(self)@ == report_spec(old(self)@, ms@, committed),
            progress_wf(final(self)@, ms@),
    {
        let ghost fp = first_pending(ms@, self.start as int);
        assert(self.cursor < ms.len());
        let v = ms[self.cursor].version;
        if committed {
            self.applied.push(v);
            self.recorded = v;
            self.cursor = self.cursor + 1;
            assert(ms@.subrange(fp, self.cursor as int) =~= ms@.subrange(fp, self.cursor - 1).push(
                ms@[self.cursor - 1],
            ));
            assert(self.applied@ =~= versions(ms@.subrange(fp, self.cursor as int)));
        } else {
            self.failed = Some(v);
        }
    }

    /// The version recorded in the store when the run began.
    pub fn start_version(&self) -> (r: i64)
        ensures
            r == self@.start,
    {
        self.start
    }

    /// The highest version now recorded as applied.
    pub fn recorded_version(&self) -> (r: i64)
        ensures
            r == self@.recorded,
    {
        self.recorded
    }

    /// The versions applied during this run, in the order applied.
    pub fn applied_versions(&self) -> (r: Vec<i64>)
        ensures
            r@ == self@.applied,
    {
        self.applied.clone()
    }

    /// The version whose statement failed, if one did.
    pub fn failed_version(&self) -> (r: Option<i64>)
        ensures
            r == self@.failed,
    {
        self.failed
    }
}

} // verus!
