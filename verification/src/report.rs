//! Failure accounting: per-key outcomes are recorded, never fatal to the
//! run, and aggregated into the totals the operator sees at the end.

use vstd::prelude::*;

verus! {

/// Why a migration step failed. `Connection` is the fatal kind raised at
/// startup or during keyspace enumeration; the other three are per-key and
/// never abort the run.
#[derive(Clone, Copy, Debug, PartialEq, Eq, Structural)]
pub enum MigrationError {
    Connection,
    SourceRead,
    DestinationWrite,
    Unsupported,
}

/// The recorded fate of one key: migrated, or failed with an error kind.
#[derive(Debug)]
pub struct KeyOutcome {
    pub key: String,
    pub result: Result<(), MigrationError>,
}

/// Whether an outcome records a migrated key.
pub open spec fn is_success(o: KeyOutcome) -> bool {
    o.result is Ok
}

/// How many of the outcomes record a migrated key.
pub open spec fn success_count(s: Seq<KeyOutcome>) -> int
    decreases s.len(),
{
    if s.len() == 0 {
        0
    } else {
        success_count(s.drop_last()) + if is_success(s.last()) {
            1int
        } else {
            0int
        }
    }
}

/// The failed outcomes, in the order they were recorded.
pub open spec fn failures_of(s: Seq<KeyOutcome>) -> Seq<KeyOutcome>
    decreases s.len(),
{
    if s.len() == 0 {
        Seq::empty()
    } else if is_success(s.last()) {
        failures_of(s.drop_last())
    } else {
        failures_of(s.drop_last()).push(s.last())
    }
}

/// The totals of a run: how many keys migrated, and the outcomes of the
/// keys that did not.
#[derive(Debug)]
pub struct MigrationSummary {
    pub migrated: usize,
    pub failures: Vec<KeyOutcome>,
}

impl KeyOutcome {
    /// A copy with the same key and result.
    pub fn dup(&self) -> (r: KeyOutcome)
        ensures
            r == *self,
    {
        KeyOutcome { key: self.key.clone(), result: self.result }
    }
}

/// Aggregates per-key outcomes into the run's totals: the count of
/// migrated keys, and every failed outcome, in order. Nothing is dropped:
/// each outcome is either counted or reported.
#[verifier::loop_isolation(false)]
pub fn summarize(outcomes: &Vec<KeyOutcome>) -> (r: MigrationSummary)
    ensures
        r.migrated == success_count(outcomes@),
        r.failures@ == failures_of(outcomes@),
{
    let mut migrated: usize = 0;
    let mut failures: Vec<KeyOutcome> = Vec::new();
    let mut i: usize = 0;
    while i < outcomes.len()
        invariant
            i <= outcomes.len(),
            migrated == success_count(outcomes@.subrange(0, i as int)),
            migrated <= i,
            failures@ == failures_of(outcomes@.subrange(0, i as int)),
        decreases outcomes.len() - i,
    {
        let ghost pre: Seq<KeyOutcome> = outcomes@.subrange(0, i as int);
        let o = &outcomes[i];
        match &o.result {
            Ok(_) => {
                migrated = migrated + 1;
            },
            Err(_) => {
                failures.push(o.dup());
            },
        }
        i = i + 1;
        proof {
            let cur = outcomes@.subrange(0, i as int);
            assert(cur.drop_last() =~= pre);
            assert(cur.last() == outcomes@[i - 1]);
        }
    }
    proof {
        assert(outcomes@.subrange(0, outcomes@.len() as int) =~= outcomes@);
    }
    MigrationSummary { migrated, failures }
}

/// A run with no failures counts every key as migrated and reports none.
pub proof fn lemma_all_success(s: Seq<KeyOutcome>)
    requires
        forall|i: int| 0 <= i < s.len() ==> is_success(#[trigger] s[i]),
    ensures
        success_count(s) == s.len(),
        failures_of(s) == Seq::<KeyOutcome>::empty(),
    decreases s.len(),
{
    if s.len() > 0 {
        lemma_all_success(s.drop_last());
    }
}

/// Partial-failure isolation: where exactly one of the outcomes failed,
/// every other key still counts as migrated and exactly that one key is
/// reported — one bad key never aborts the run.
pub proof fn lemma_single_failure(s: Seq<KeyOutcome>, j: int)
    requires
        0 <= j < s.len(),
        !is_success(s[j]),
        forall|i: int| 0 <= i < s.len() && i != j ==> is_success(#[trigger] s[i]),
    ensures
        success_count(s) == s.len() - 1,
        failures_of(s) == seq![s[j]],
    decreases s.len(),
{
    if j == s.len() - 1 {
        lemma_all_success(s.drop_last());
        assert(failures_of(s) =~= seq![s[j]]);
    } else {
        lemma_single_failure(s.drop_last(), j);
        assert(failures_of(s) =~= seq![s[j]]);
    }
}

} // verus!
