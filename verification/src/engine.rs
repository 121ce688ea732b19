//! The per-batch migration step, with the I/O already performed: given
//! each key of a batch paired with what reading it yielded, replicate every
//! readable value into a destination store and record one outcome per key.
//! One key's failure never touches the other keys or aborts the batch.

use vstd::prelude::*;
use crate::plan::PlanOutcome;
use crate::plan::migration_plan;
use crate::plan::plan_migration;
use crate::report::KeyOutcome;
use crate::report::MigrationError;
use crate::store::MemStore;
use crate::store::StoreV;
use crate::store::apply_ops;
use crate::value::SourceValue;

verus! {

/// One key of a batch, paired with what reading its value yielded: the
/// value, or the error the read failed with.
pub type KeyRead = (String, Result<SourceValue, MigrationError>);

/// The destination keyspace after migrating the batch, in order: each
/// readable value's plan is applied; a failed read or an unplannable value
/// leaves the destination untouched.
pub open spec fn dest_after(s: StoreV, reads: Seq<KeyRead>) -> StoreV
    decreases reads.len(),
{
    if reads.len() == 0 {
        s
    } else {
        let prev = dest_after(s, reads.drop_last());
        match reads.last().1 {
            Ok(v) => match migration_plan(reads.last().0@, v@) {
                Some(ops) => apply_ops(prev, ops),
                None => prev,
            },
            Err(_) => prev,
        }
    }
}

/// The outcome recorded for one key: its read error if the read failed,
/// `Unsupported` if no destination primitive fits the value, success
/// otherwise.
pub open spec fn outcome_for(p: KeyRead) -> KeyOutcome {
    KeyOutcome {
        key: p.0,
        result: match p.1 {
            Ok(v) => if migration_plan(p.0@, v@) is Some {
                Ok(())
            } else {
                Err(MigrationError::Unsupported)
            },
            Err(e) => Err(e),
        },
    }
}

/// The outcomes of a whole batch, one per key, in batch order.
pub open spec fn outcomes_for(reads: Seq<KeyRead>) -> Seq<KeyOutcome> {
    reads.map_values(|p: KeyRead| outcome_for(p))
}

/// Migrates one batch of already-read key values into the destination:
/// every key is attempted exactly once, each readable value is replicated
/// by its plan, and each key's fate is recorded under its own name — a
/// failed read or an unplannable value is reported and skipped, never
/// fatal.
#[verifier::loop_isolation(false)]
pub fn migrate_batch_into(dest: &mut MemStore, reads: &Vec<KeyRead>) -> (r: Vec<KeyOutcome>)
    ensures
        final(dest)@ == dest_after(old(dest)@, reads@),
        r@ == outcomes_for(reads@),
        r@.len() == reads@.len(),
        forall|j: int| 0 <= j < reads@.len() ==> (#[trigger] r@[j]).key == reads@[j].0,
{
    let mut outcomes: Vec<KeyOutcome> = Vec::new();
    let mut i: usize = 0;
    while i < reads.len()
        invariant
            i <= reads.len(),
            dest@ == dest_after(old(dest)@, reads@.subrange(0, i as int)),
            outcomes@.len() == i,
            forall|j: int| 0 <= j < i ==> #[trigger] outcomes@[j] == outcome_for(reads@[j]),
        decreases reads.len() - i,
    {
        let key: &String = &reads[i].0;
        match &reads[i].1 {
            Ok(v) => match plan_migration(key, v) {
                PlanOutcome::Writes(ops) => {
                    dest.apply_plan(&ops);
                    outcomes.push(KeyOutcome { key: key.clone(), result: Ok(()) });
                },
                PlanOutcome::Unsupported => {
                    outcomes.push(
                        KeyOutcome { key: key.clone(), result: Err(MigrationError::Unsupported) },
                    );
                },
            },
            Err(e) => {
                outcomes.push(KeyOutcome { key: key.clone(), result: Err(*e) });
            },
        }
        i = i + 1;
        proof {
            let cur = reads@.subrange(0, i as int);
            assert(cur.drop_last() =~= reads@.subrange(0, i - 1));
            assert(cur.last() == reads@[i - 1]);
        }
    }
    proof {
        assert(reads@.subrange(0, reads@.len() as int) =~= reads@);
        assert(outcomes@ =~= outcomes_for(reads@));
    }
    outcomes
}

} // verus!
