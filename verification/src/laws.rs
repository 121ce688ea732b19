//! The engine's laws: what a whole plan leaves on the destination, proved
//! against the write semantics — idempotence of String, Set and Hash
//! replication, the documented non-idempotence of List replication, order
//! preservation, and type fidelity for hashes.

use vstd::prelude::*;
use crate::plan::OpV;
use crate::plan::fallback_plan;
use crate::plan::hash_plan;
use crate::plan::migration_plan;
use crate::plan::list_plan;
use crate::plan::set_plan;
use crate::plan::string_plan;
use crate::store::EntryV;
use crate::store::StoreV;
use crate::store::apply_op;
use crate::store::apply_ops;
use crate::store::base_hash;
use crate::store::base_list;
use crate::store::base_set;
use crate::store::lemma_to_set_push;
use crate::value::RawValueV;
use crate::value::ScalarV;
use crate::value::SourceValueV;

verus! {

/// The field map a sequence of field writes builds up, later writes to a
/// field winning.
pub open spec fn written_fields(entries: Seq<(Seq<char>, ScalarV)>) -> Map<Seq<char>, ScalarV>
    decreases entries.len(),
{
    if entries.len() == 0 {
        Map::empty()
    } else {
        written_fields(entries.drop_last()).insert(entries.last().0, entries.last().1)
    }
}

/// A String replication overwrites its key with the scalar and touches
/// nothing else.
pub proof fn lemma_string_plan_effect(s: StoreV, key: Seq<char>, v: ScalarV)
    ensures
        apply_ops(s, string_plan(key, v)) == s.insert(key, EntryV::ScalarEntryV(v)),
{
    let p = string_plan(key, v);
    assert(p.drop_last() =~= Seq::<OpV>::empty());
    assert(apply_ops(s, p.drop_last()) == s);
}

/// A List replication extends whatever list its key already holds by the
/// migrated items, in order, and touches nothing else.
pub proof fn lemma_list_plan_effect(s: StoreV, key: Seq<char>, items: Seq<ScalarV>)
    requires
        items.len() > 0,
    ensures
        apply_ops(s, list_plan(key, items)) == s.insert(
            key,
            EntryV::ListEntryV(base_list(s, key) + items),
        ),
    decreases items.len(),
{
    let p = list_plan(key, items);
    assert(p.last() == (OpV::PushBackV { key: key, value: items.last() }));
    if items.len() == 1 {
        assert(p.drop_last() =~= Seq::<OpV>::empty());
        assert(apply_ops(s, p.drop_last()) == s);
        assert(apply_ops(s, p) == apply_op(s, p.last()));
        assert(base_list(s, key).push(items.last()) =~= base_list(s, key) + items);
    } else {
        let front = items.drop_last();
        lemma_list_plan_effect(s, key, front);
        assert(p.drop_last() =~= list_plan(key, front));
        let s1 = s.insert(key, EntryV::ListEntryV(base_list(s, key) + front));
        assert(apply_ops(s, p) == apply_op(s1, p.last()));
        assert(base_list(s1, key) == base_list(s, key) + front);
        assert((base_list(s, key) + front).push(items.last()) =~= base_list(s, key) + items);
        assert(s1.insert(key, EntryV::ListEntryV(base_list(s, key) + items)) =~= s.insert(
            key,
            EntryV::ListEntryV(base_list(s, key) + items),
        ));
    }
}

/// A Set replication unites the migrated members into whatever set its key
/// already holds and touches nothing else.
pub proof fn lemma_set_plan_effect(s: StoreV, key: Seq<char>, members: Seq<ScalarV>)
    requires
        members.len() > 0,
    ensures
        apply_ops(s, set_plan(key, members)) == s.insert(
            key,
            EntryV::SetEntryV(base_set(s, key).union(members.to_set())),
        ),
    decreases members.len(),
{
    let p = set_plan(key, members);
    assert(p.last() == (OpV::AddMemberV { key: key, value: members.last() }));
    lemma_to_set_push(members.drop_last(), members.last());
    assert(members.drop_last().push(members.last()) =~= members);
    if members.len() == 1 {
        assert(p.drop_last() =~= Seq::<OpV>::empty());
        assert(apply_ops(s, p.drop_last()) == s);
        assert(apply_ops(s, p) == apply_op(s, p.last()));
        assert(base_set(s, key).insert(members.last()) =~= base_set(s, key).union(
            members.to_set(),
        ));
    } else {
        let front = members.drop_last();
        lemma_set_plan_effect(s, key, front);
        assert(p.drop_last() =~= set_plan(key, front));
        let s1 = s.insert(key, EntryV::SetEntryV(base_set(s, key).union(front.to_set())));
        assert(apply_ops(s, p) == apply_op(s1, p.last()));
        assert(base_set(s1, key) == base_set(s, key).union(front.to_set()));
        assert(base_set(s, key).union(front.to_set()).insert(members.last()) =~= base_set(
            s,
            key,
        ).union(members.to_set()));
        assert(s1.insert(key, EntryV::SetEntryV(base_set(s, key).union(members.to_set())))
            =~= s.insert(key, EntryV::SetEntryV(base_set(s, key).union(members.to_set()))));
    }
}

/// A Hash replication lays the written fields over whatever hash its key
/// already holds — the written value winning on a shared field — and
/// touches nothing else.
pub proof fn lemma_hash_plan_effect(s: StoreV, key: Seq<char>, entries: Seq<(Seq<char>, ScalarV)>)
    requires
        entries.len() > 0,
    ensures
        apply_ops(s, hash_plan(key, entries)) == s.insert(
            key,
            EntryV::HashEntryV(base_hash(s, key).union_prefer_right(written_fields(entries))),
        ),
    decreases entries.len(),
{
    let p = hash_plan(key, entries);
    let f = entries.last().0;
    let v = entries.last().1;
    assert(p.last() == (OpV::SetFieldV { key: key, field: f, value: v }));
    if entries.len() == 1 {
        assert(p.drop_last() =~= Seq::<OpV>::empty());
        assert(apply_ops(s, p.drop_last()) == s);
        assert(apply_ops(s, p) == apply_op(s, p.last()));
        assert(entries.drop_last() =~= Seq::<(Seq<char>, ScalarV)>::empty());
        assert(written_fields(entries.drop_last()) == Map::<Seq<char>, ScalarV>::empty());
        assert(written_fields(entries) == Map::<Seq<char>, ScalarV>::empty().insert(f, v));
        assert(base_hash(s, key).insert(f, v) =~= base_hash(s, key).union_prefer_right(
            written_fields(entries),
        ));
    } else {
        let front = entries.drop_last();
        lemma_hash_plan_effect(s, key, front);
        assert(p.drop_last() =~= hash_plan(key, front));
        let s1 = s.insert(
            key,
            EntryV::HashEntryV(base_hash(s, key).union_prefer_right(written_fields(front))),
        );
        assert(apply_ops(s, p) == apply_op(s1, p.last()));
        assert(base_hash(s1, key) == base_hash(s, key).union_prefer_right(written_fields(front)));
        assert(base_hash(s, key).union_prefer_right(written_fields(front)).insert(f, v)
            =~= base_hash(s, key).union_prefer_right(written_fields(entries)));
        assert(s1.insert(
            key,
            EntryV::HashEntryV(base_hash(s, key).union_prefer_right(written_fields(entries))),
        ) =~= s.insert(
            key,
            EntryV::HashEntryV(base_hash(s, key).union_prefer_right(written_fields(entries))),
        ));
    }
}

/// Idempotence of String replication: migrating the key a second time
/// leaves the destination exactly as one migration left it.
pub proof fn lemma_string_idempotent(s: StoreV, key: Seq<char>, v: ScalarV)
    ensures
        apply_ops(apply_ops(s, string_plan(key, v)), string_plan(key, v)) == apply_ops(
            s,
            string_plan(key, v),
        ),
{
    lemma_string_plan_effect(s, key, v);
    let s1 = s.insert(key, EntryV::ScalarEntryV(v));
    lemma_string_plan_effect(s1, key, v);
    assert(s1.insert(key, EntryV::ScalarEntryV(v)) =~= s1);
}

/// Idempotence of Set replication: migrating the key a second time leaves
/// the destination exactly as one migration left it — member additions
/// dedupe.
pub proof fn lemma_set_idempotent(s: StoreV, key: Seq<char>, members: Seq<ScalarV>)
    requires
        members.len() > 0,
    ensures
        apply_ops(apply_ops(s, set_plan(key, members)), set_plan(key, members)) == apply_ops(
            s,
            set_plan(key, members),
        ),
{
    lemma_set_plan_effect(s, key, members);
    let joined = base_set(s, key).union(members.to_set());
    let s1 = s.insert(key, EntryV::SetEntryV(joined));
    lemma_set_plan_effect(s1, key, members);
    assert(base_set(s1, key) == joined);
    assert(joined.union(members.to_set()) =~= joined);
    assert(s1.insert(key, EntryV::SetEntryV(joined)) =~= s1);
}

/// Idempotence of Hash replication: migrating the key a second time leaves
/// the destination exactly as one migration left it — each field is simply
/// overwritten with the same value.
pub proof fn lemma_hash_idempotent(s: StoreV, key: Seq<char>, entries: Seq<(Seq<char>, ScalarV)>)
    requires
        entries.len() > 0,
    ensures
        apply_ops(apply_ops(s, hash_plan(key, entries)), hash_plan(key, entries)) == apply_ops(
            s,
            hash_plan(key, entries),
        ),
{
    lemma_hash_plan_effect(s, key, entries);
    let laid = base_hash(s, key).union_prefer_right(written_fields(entries));
    let s1 = s.insert(key, EntryV::HashEntryV(laid));
    lemma_hash_plan_effect(s1, key, entries);
    assert(base_hash(s1, key) == laid);
    assert(laid.union_prefer_right(written_fields(entries)) =~= laid);
    assert(s1.insert(key, EntryV::HashEntryV(laid)) =~= s1);
}

/// Documented non-idempotence of List replication: on a destination that
/// does not hold the key, migrating a List twice appends the items twice
/// over, doubling the destination list's length. The prior list is not
/// cleared first; the duplication is expected, not corrected.
pub proof fn lemma_list_rerun_doubles(s: StoreV, key: Seq<char>, items: Seq<ScalarV>)
    requires
        !s.contains_key(key),
        items.len() > 0,
    ensures
        apply_ops(apply_ops(s, list_plan(key, items)), list_plan(key, items)).contains_key(key),
        apply_ops(apply_ops(s, list_plan(key, items)), list_plan(key, items))[key]
            == EntryV::ListEntryV(items + items),
        (items + items).len() == 2 * items.len(),
{
    lemma_list_plan_effect(s, key, items);
    let s1 = s.insert(key, EntryV::ListEntryV(base_list(s, key) + items));
    assert(base_list(s, key) =~= Seq::<ScalarV>::empty());
    assert(base_list(s, key) + items =~= items);
    lemma_list_plan_effect(s1, key, items);
    assert(base_list(s1, key) == base_list(s, key) + items);
    assert((base_list(s, key) + items) + items =~= items + items);
}

/// Order preservation: on a destination that does not hold the key, one
/// List migration leaves exactly the source sequence, in source order.
pub proof fn lemma_list_order_preserved(s: StoreV, key: Seq<char>, items: Seq<ScalarV>)
    requires
        !s.contains_key(key),
        items.len() > 0,
    ensures
        apply_ops(s, list_plan(key, items)).contains_key(key),
        apply_ops(s, list_plan(key, items))[key] == EntryV::ListEntryV(items),
{
    lemma_list_plan_effect(s, key, items);
    assert(base_list(s, key) + items =~= items);
}

/// With distinct fields, the laid-down field map holds exactly the written
/// fields, each at its written value — whatever order the single-field
/// writes arrive in, this is the map they build.
pub proof fn lemma_written_fields_exact(entries: Seq<(Seq<char>, ScalarV)>)
    requires
        forall|i: int, j: int| 0 <= i < j < entries.len() ==> (#[trigger] entries[i]).0 != (
        #[trigger] entries[j]).0,
    ensures
        forall|i: int| 0 <= i < entries.len() ==> written_fields(entries).contains_key(
            (#[trigger] entries[i]).0,
        ) && written_fields(entries)[entries[i].0] == entries[i].1,
        forall|f: Seq<char>| written_fields(entries).contains_key(f) ==> exists|i: int|
            0 <= i < entries.len() && (#[trigger] entries[i]).0 == f,
    decreases entries.len(),
{
    if entries.len() > 0 {
        lemma_written_fields_exact(entries.drop_last());
        assert forall|i: int| 0 <= i < entries.len() implies written_fields(entries).contains_key(
            (#[trigger] entries[i]).0,
        ) && written_fields(entries)[entries[i].0] == entries[i].1 by {
            if i < entries.len() - 1 {
                assert(entries.drop_last()[i] == entries[i]);
                assert(entries[i].0 != entries.last().0);
            }
        };
        assert forall|f: Seq<char>| written_fields(entries).contains_key(f) implies exists|i: int|
            0 <= i < entries.len() && (#[trigger] entries[i]).0 == f by {
            if f == entries.last().0 {
                assert(entries[entries.len() - 1].0 == f);
            } else {
                assert(written_fields(entries.drop_last()).contains_key(f));
                let i = choose|i: int|
                    0 <= i < entries.drop_last().len() && (#[trigger] entries.drop_last()[i]).0
                        == f;
                assert(entries.drop_last()[i] == entries[i]);
                assert(entries[i].0 == f);
            }
        };
    }
}

/// Type fidelity of Hash replication: on a destination that does not hold
/// the key, a Hash with distinct fields migrates to a hash with exactly
/// those fields, each at its source value, regardless of the order the
/// field writes are performed in.
pub proof fn lemma_hash_fidelity(s: StoreV, key: Seq<char>, entries: Seq<(Seq<char>, ScalarV)>)
    requires
        !s.contains_key(key),
        entries.len() > 0,
        forall|i: int, j: int| 0 <= i < j < entries.len() ==> (#[trigger] entries[i]).0 != (
        #[trigger] entries[j]).0,
    ensures
        apply_ops(s, hash_plan(key, entries)).contains_key(key),
        apply_ops(s, hash_plan(key, entries))[key] == EntryV::HashEntryV(written_fields(entries)),
        forall|i: int| 0 <= i < entries.len() ==> written_fields(entries).contains_key(
            (#[trigger] entries[i]).0,
        ) && written_fields(entries)[entries[i].0] == entries[i].1,
        forall|f: Seq<char>| written_fields(entries).contains_key(f) ==> exists|i: int|
            0 <= i < entries.len() && (#[trigger] entries[i]).0 == f,
{
    lemma_hash_plan_effect(s, key, entries);
    assert(base_hash(s, key) =~= Map::<Seq<char>, ScalarV>::empty());
    assert(base_hash(s, key).union_prefer_right(written_fields(entries)) =~= written_fields(
        entries,
    ));
    lemma_written_fields_exact(entries);
}

/// Fallback handling: an Other-typed key that resolves to a nil value has
/// no write plan for any key — it is reported unsupported, and nothing is
/// written to the destination.
pub proof fn lemma_nil_fallback_unsupported(key: Seq<char>)
    ensures
        fallback_plan(key, RawValueV::NilRawV) is None,
        migration_plan(key, SourceValueV::RawValV(RawValueV::NilRawV)) is None,
{
}

} // verus!

