//! Write planning: from a key and the value read off the source, decide the
//! exact sequence of destination write primitives — or that the value cannot
//! be replicated.

use vstd::prelude::*;
use crate::value::KeyType;
use crate::value::RawItem;
use crate::value::clone_bytes;
use crate::value::RawItemV;
use crate::value::RawValue;
use crate::value::RawValueV;
use crate::value::Scalar;
use crate::value::ScalarV;
use crate::value::SourceValue;
use crate::value::SourceValueV;

verus! {

/// The read primitive the migrator uses for a key of a given type.
#[derive(Clone, Copy, Debug, PartialEq, Eq, Structural)]
pub enum ReadOp {
    FetchScalar,
    FetchRange,
    FetchMembers,
    FetchFields,
    FetchRaw,
}

/// The read primitive matching each key type.
pub open spec fn spec_read_op(t: KeyType) -> ReadOp {
    match t {
        KeyType::StringKind => ReadOp::FetchScalar,
        KeyType::ListKind => ReadOp::FetchRange,
        KeyType::SetKind => ReadOp::FetchMembers,
        KeyType::HashKind => ReadOp::FetchFields,
        KeyType::OtherKind => ReadOp::FetchRaw,
    }
}

/// Dispatches a key's reported type onto the read primitive the migrator
/// uses to fetch its value; exhaustive, so no type can be silently dropped.
pub fn read_op_for(t: KeyType) -> (r: ReadOp)
    ensures
        r == spec_read_op(t),
{
    match t {
        KeyType::StringKind => ReadOp::FetchScalar,
        KeyType::ListKind => ReadOp::FetchRange,
        KeyType::SetKind => ReadOp::FetchMembers,
        KeyType::HashKind => ReadOp::FetchFields,
        KeyType::OtherKind => ReadOp::FetchRaw,
    }
}

/// One write primitive against the destination store.
#[derive(Debug)]
pub enum WriteOp {
    /// Overwrite the whole value under `key` with a scalar.
    SetValue { key: String, value: Scalar },
    /// Append one element at the tail of the list under `key`.
    PushBack { key: String, value: Scalar },
    /// Add one member to the set under `key`.
    AddMember { key: String, value: Scalar },
    /// Write one field of the hash under `key`.
    SetField { key: String, field: String, value: Scalar },
}

/// Mathematical image of a `WriteOp`.
pub enum OpV {
    SetValueV { key: Seq<char>, value: ScalarV },
    PushBackV { key: Seq<char>, value: ScalarV },
    AddMemberV { key: Seq<char>, value: ScalarV },
    SetFieldV { key: Seq<char>, field: Seq<char>, value: ScalarV },
}

impl View for WriteOp {
    type V = OpV;

    open spec fn view(&self) -> OpV {
        match self {
            WriteOp::SetValue { key, value } => (OpV::SetValueV { key: key@, value: value@ }),
            WriteOp::PushBack { key, value } => (OpV::PushBackV { key: key@, value: value@ }),
            WriteOp::AddMember { key, value } => (OpV::AddMemberV { key: key@, value: value@ }),
            WriteOp::SetField { key, field, value } => (
            OpV::SetFieldV { key: key@, field: field@, value: value@ }),
        }
    }
}

/// The images of a sequence of write operations.
pub open spec fn ops_view(ops: Seq<WriteOp>) -> Seq<OpV> {
    ops.map_values(|op: WriteOp| op@)
}

/// The plan for a String-typed value: one overwriting scalar write.
pub open spec fn string_plan(key: Seq<char>, v: ScalarV) -> Seq<OpV> {
    seq![OpV::SetValueV { key: key, value: v }]
}

/// The plan for a List-typed value: append every element, in source order.
/// The destination list is not cleared first, so a rerun appends the
/// elements again — a documented quirk, kept rather than corrected.
pub open spec fn list_plan(key: Seq<char>, items: Seq<ScalarV>) -> Seq<OpV> {
    items.map_values(|v: ScalarV| OpV::PushBackV { key: key, value: v })
}

/// The plan for a Set-typed value: add every member.
pub open spec fn set_plan(key: Seq<char>, members: Seq<ScalarV>) -> Seq<OpV> {
    members.map_values(|v: ScalarV| OpV::AddMemberV { key: key, value: v })
}

/// The plan for a Hash-typed value: write every field.
pub open spec fn hash_plan(key: Seq<char>, entries: Seq<(Seq<char>, ScalarV)>) -> Seq<OpV> {
    entries.map_values(|p: (Seq<char>, ScalarV)| OpV::SetFieldV {
        key: key,
        field: p.0,
        value: p.1,
    })
}

/// Lifts textual items to scalars.
pub open spec fn texts(items: Seq<Seq<char>>) -> Seq<ScalarV> {
    items.map_values(|s: Seq<char>| ScalarV::TextV(s))
}

/// Lifts textual hash entries to scalar-valued fields.
pub open spec fn text_fields(entries: Seq<(Seq<char>, Seq<char>)>) -> Seq<(Seq<char>, ScalarV)> {
    entries.map_values(|p: (Seq<char>, Seq<char>)| (p.0, ScalarV::TextV(p.1)))
}

/// Whether a raw bulk item is a scalar the fallback path can replicate.
pub open spec fn is_scalar_item(it: RawItemV) -> bool {
    match it {
        RawItemV::DataItemV(_) => true,
        RawItemV::IntItemV(_) => true,
        RawItemV::OtherItemV => false,
    }
}

/// The scalar a raw bulk item stands for. Only applied under the guard that
/// every item is a scalar; the value on the remaining arm is never relied on.
pub open spec fn raw_item_scalar(it: RawItemV) -> ScalarV {
    match it {
        RawItemV::DataItemV(b) => ScalarV::BytesV(b),
        RawItemV::IntItemV(i) => ScalarV::IntV(i),
        RawItemV::OtherItemV => ScalarV::IntV(0),
    }
}

/// The scalars of a raw bulk reply.
pub open spec fn raw_scalars(items: Seq<RawItemV>) -> Seq<ScalarV> {
    items.map_values(|it: RawItemV| raw_item_scalar(it))
}

/// The fallback plan for an Other-typed key: a bulk scalar or an integer is
/// written as a String; a collection made entirely of scalars is appended
/// element by element as a List; everything else — a nil/absent value
/// included — cannot be replicated.
pub open spec fn fallback_plan(key: Seq<char>, raw: RawValueV) -> Option<Seq<OpV>> {
    match raw {
        RawValueV::DataRawV(b) => Some(string_plan(key, ScalarV::BytesV(b))),
        RawValueV::IntRawV(i) => Some(string_plan(key, ScalarV::IntV(i))),
        RawValueV::BulkRawV(items) => if forall|j: int|
            0 <= j < items.len() ==> is_scalar_item(#[trigger] items[j]) {
            Some(list_plan(key, raw_scalars(items)))
        } else {
            None
        },
        RawValueV::NilRawV => None,
        RawValueV::OtherRawV => None,
    }
}

/// The whole migration plan for one key: which writes replicate the value
/// read from the source, or `None` where no destination primitive fits.
pub open spec fn migration_plan(key: Seq<char>, v: SourceValueV) -> Option<Seq<OpV>> {
    match v {
        SourceValueV::StrValV(s) => Some(string_plan(key, ScalarV::TextV(s))),
        SourceValueV::ListValV(items) => Some(list_plan(key, texts(items))),
        SourceValueV::SetValV(members) => Some(set_plan(key, texts(members))),
        SourceValueV::HashValV(entries) => Some(hash_plan(key, text_fields(entries))),
        SourceValueV::RawValV(raw) => fallback_plan(key, raw),
    }
}

/// The planner's verdict on one key: the writes to perform, or a report
/// that the value's shape fits no destination primitive.
#[derive(Debug)]
pub enum PlanOutcome {
    Writes(Vec<WriteOp>),
    Unsupported,
}

fn plan_list_items(key: &String, items: &Vec<String>) -> (r: Vec<WriteOp>)
    ensures
        ops_view(r@) == list_plan(key@, texts(items.deep_view())),
{
    let ghost all: Seq<ScalarV> = texts(items.deep_view());
    let mut ops: Vec<WriteOp> = Vec::new();
    let mut i: usize = 0;
    while i < items.len()
        invariant
            i <= items.len(),
            all == texts(items.deep_view()),
            ops@.len() == i,
            forall|j: int| 0 <= j < i ==> (#[trigger] ops@[j])@ == (OpV::PushBackV {
                key: key@,
                value: all[j],
            }),
        decreases items.len() - i,
    {
        let item: String = items[i].clone();
        ops.push(WriteOp::PushBack { key: key.clone(), value: Scalar::Text(item) });
        i = i + 1;
    }
    proof {
        assert(ops_view(ops@) =~= list_plan(key@, all));
    }
    ops
}

fn plan_set_members(key: &String, members: &Vec<String>) -> (r: Vec<WriteOp>)
    ensures
        ops_view(r@) == set_plan(key@, texts(members.deep_view())),
{
    let ghost all: Seq<ScalarV> = texts(members.deep_view());
    let mut ops: Vec<WriteOp> = Vec::new();
    let mut i: usize = 0;
    while i < members.len()
        invariant
            i <= members.len(),
            all == texts(members.deep_view()),
            ops@.len() == i,
            forall|j: int| 0 <= j < i ==> (#[trigger] ops@[j])@ == (OpV::AddMemberV {
                key: key@,
                value: all[j],
            }),
        decreases members.len() - i,
    {
        let member: String = members[i].clone();
        ops.push(WriteOp::AddMember { key: key.clone(), value: Scalar::Text(member) });
        i = i + 1;
    }
    proof {
        assert(ops_view(ops@) =~= set_plan(key@, all));
    }
    ops
}

fn plan_hash_entries(key: &String, entries: &Vec<(String, String)>) -> (r: Vec<WriteOp>)
    ensures
        ops_view(r@) == hash_plan(key@, text_fields(entries.deep_view())),
{
    let ghost all: Seq<(Seq<char>, ScalarV)> = text_fields(entries.deep_view());
    let mut ops: Vec<WriteOp> = Vec::new();
    let mut i: usize = 0;
    while i < entries.len()
        invariant
            i <= entries.len(),
            all == text_fields(entries.deep_view()),
            ops@.len() == i,
            forall|j: int| 0 <= j < i ==> (#[trigger] ops@[j])@ == (OpV::SetFieldV {
                key: key@,
                field: all[j].0,
                value: all[j].1,
            }),
        decreases entries.len() - i,
    {
        let field: String = entries[i].0.clone();
        let value: String = entries[i].1.clone();
        ops.push(WriteOp::SetField {
            key: key.clone(),
            field: field,
            value: Scalar::Text(value),
        });
        i = i + 1;
    }
    proof {
        assert(ops_view(ops@) =~= hash_plan(key@, all));
    }
    ops
}

fn plan_fallback(key: &String, raw: &RawValue) -> (r: PlanOutcome)
    ensures
        (match r {
            PlanOutcome::Writes(ops) => fallback_plan(key@, raw@) == Some(ops_view(ops@)),
            PlanOutcome::Unsupported => fallback_plan(key@, raw@) is None,
        }),
{
    match raw {
        RawValue::DataRaw(b) => {
            let mut ops: Vec<WriteOp> = Vec::new();
            ops.push(WriteOp::SetValue { key: key.clone(), value: Scalar::Bytes(clone_bytes(b)) });
            proof {
                assert(ops_view(ops@) =~= string_plan(key@, ScalarV::BytesV(b@)));
            }
            PlanOutcome::Writes(ops)
        },
        RawValue::IntRaw(i) => {
            let mut ops: Vec<WriteOp> = Vec::new();
            ops.push(WriteOp::SetValue { key: key.clone(), value: Scalar::Int(*i) });
            proof {
                assert(ops_view(ops@) =~= string_plan(key@, ScalarV::IntV(*i as int)));
            }
            PlanOutcome::Writes(ops)
        },
        RawValue::BulkRaw(items) => plan_bulk_items(key, items),
        RawValue::NilRaw => PlanOutcome::Unsupported,
        RawValue::OtherRaw => PlanOutcome::Unsupported,
    }
}

fn plan_bulk_items(key: &String, items: &Vec<RawItem>) -> (r: PlanOutcome)
    ensures
        (match r {
            PlanOutcome::Writes(ops) => fallback_plan(key@, RawValueV::BulkRawV(
                items@.map_values(|it: RawItem| it@),
            )) == Some(ops_view(ops@)),
            PlanOutcome::Unsupported => fallback_plan(key@, RawValueV::BulkRawV(
                items@.map_values(|it: RawItem| it@),
            )) is None,
        }),
{
    let ghost all: Seq<RawItemV> = items@.map_values(|it: RawItem| it@);
    let mut ops: Vec<WriteOp> = Vec::new();
    let mut i: usize = 0;
    while i < items.len()
        invariant
            i <= items.len(),
            all == items@.map_values(|it: RawItem| it@),
            forall|j: int| 0 <= j < i ==> is_scalar_item(#[trigger] all[j]),
            ops@.len() == i,
            forall|j: int| 0 <= j < i ==> (#[trigger] ops@[j])@ == (OpV::PushBackV {
                key: key@,
                value: raw_item_scalar(all[j]),
            }),
        decreases items.len() - i,
    {
        match &items[i] {
            RawItem::DataItem(b) => {
                ops.push(WriteOp::PushBack {
                    key: key.clone(),
                    value: Scalar::Bytes(clone_bytes(b)),
                });
            },
            RawItem::IntItem(n) => {
                ops.push(WriteOp::PushBack { key: key.clone(), value: Scalar::Int(*n) });
            },
            RawItem::OtherItem => {
                proof {
                    assert(!is_scalar_item(all[i as int]));
                }
                return PlanOutcome::Unsupported;
            },
        }
        i = i + 1;
    }
    proof {
        assert(ops_view(ops@) =~= list_plan(key@, raw_scalars(all)));
    }
    PlanOutcome::Writes(ops)
}

/// Plans the destination writes replicating one key's value, by its shape:
/// the single overwrite for a String, the order-preserving appends for a
/// List, the member additions for a Set, the per-field writes for a Hash,
/// and the best-effort fallback for everything else.
pub fn plan_migration(key: &String, v: &SourceValue) -> (r: PlanOutcome)
    ensures
        (match r {
            PlanOutcome::Writes(ops) => migration_plan(key@, v@) == Some(ops_view(ops@)),
            PlanOutcome::Unsupported => migration_plan(key@, v@) is None,
        }),
{
    match v {
        SourceValue::StrVal(s) => {
            let mut ops: Vec<WriteOp> = Vec::new();
            ops.push(WriteOp::SetValue { key: key.clone(), value: Scalar::Text(s.clone()) });
            proof {
                assert(ops_view(ops@) =~= string_plan(key@, ScalarV::TextV(s@)));
            }
            PlanOutcome::Writes(ops)
        },
        SourceValue::ListVal(items) => PlanOutcome::Writes(plan_list_items(key, items)),
        SourceValue::SetVal(members) => PlanOutcome::Writes(plan_set_members(key, members)),
        SourceValue::HashVal(entries) => PlanOutcome::Writes(plan_hash_entries(key, entries)),
        SourceValue::RawVal(raw) => plan_fallback(key, raw),
    }
}

} // verus!
