//! The destination store: the mathematical semantics of the four write
//! primitives, and an executable in-memory store realising them — the
//! library's model of a destination, against which plans can be run and
//! observed.

use vstd::prelude::*;
use crate::plan::OpV;
use crate::plan::WriteOp;
use crate::plan::ops_view;
use crate::value::Scalar;
use crate::value::ScalarV;

verus! {

/// One stored value on the destination, mirroring the shapes the write
/// primitives produce: a scalar, an ordered list, a set, or a field map.
pub enum EntryV {
    ScalarEntryV(ScalarV),
    ListEntryV(Seq<ScalarV>),
    SetEntryV(Set<ScalarV>),
    HashEntryV(Map<Seq<char>, ScalarV>),
}

/// The whole destination keyspace: key to stored value.
pub type StoreV = Map<Seq<char>, EntryV>;

/// The list a push under `k` extends: the list stored there, or the empty
/// list where the key is absent. A prior entry of another shape is replaced
/// rather than refused; the model keeps the write primitives total.
pub open spec fn base_list(s: StoreV, k: Seq<char>) -> Seq<ScalarV> {
    if s.contains_key(k) {
        match s[k] {
            EntryV::ListEntryV(l) => l,
            _ => Seq::empty(),
        }
    } else {
        Seq::empty()
    }
}

/// The set a member addition under `k` extends; as with `base_list`, a
/// prior entry of another shape is replaced.
pub open spec fn base_set(s: StoreV, k: Seq<char>) -> Set<ScalarV> {
    if s.contains_key(k) {
        match s[k] {
            EntryV::SetEntryV(m) => m,
            _ => Set::empty(),
        }
    } else {
        Set::empty()
    }
}

/// The field map a field write under `k` extends; as with `base_list`, a
/// prior entry of another shape is replaced.
pub open spec fn base_hash(s: StoreV, k: Seq<char>) -> Map<Seq<char>, ScalarV> {
    if s.contains_key(k) {
        match s[k] {
            EntryV::HashEntryV(h) => h,
            _ => Map::empty(),
        }
    } else {
        Map::empty()
    }
}

/// What one write primitive does to the destination: an overwriting scalar
/// write, an order-preserving list append, a deduplicating member addition,
/// or a field write that overwrites the field and keeps the rest.
pub open spec fn apply_op(s: StoreV, op: OpV) -> StoreV {
    match op {
        OpV::SetValueV { key, value } => s.insert(key, EntryV::ScalarEntryV(value)),
        OpV::PushBackV { key, value } => s.insert(
            key,
            EntryV::ListEntryV(base_list(s, key).push(value)),
        ),
        OpV::AddMemberV { key, value } => s.insert(
            key,
            EntryV::SetEntryV(base_set(s, key).insert(value)),
        ),
        OpV::SetFieldV { key, field, value } => s.insert(
            key,
            EntryV::HashEntryV(base_hash(s, key).insert(field, value)),
        ),
    }
}

/// What a whole sequence of writes does, applied in order.
pub open spec fn apply_ops(s: StoreV, ops: Seq<OpV>) -> StoreV
    decreases ops.len(),
{
    if ops.len() == 0 {
        s
    } else {
        apply_op(apply_ops(s, ops.drop_last()), ops.last())
    }
}

/// One stored value of the executable store. A set is kept as its members
/// in arrival order, possibly with repeats; a hash as its field writes in
/// arrival order, the last write to a field winning. Their images dedupe.
#[derive(Debug)]
pub enum Entry {
    ScalarEntry(Scalar),
    ListEntry(Vec<Scalar>),
    SetEntry(Vec<Scalar>),
    HashEntry(Vec<(String, Scalar)>),
}

/// The images of a sequence of scalars.
pub open spec fn scalars_view(v: Seq<Scalar>) -> Seq<ScalarV> {
    v.map_values(|x: Scalar| x@)
}

/// The field map that a sequence of field writes leaves behind: later
/// writes to a field overwrite earlier ones.
pub open spec fn fields_view(v: Seq<(String, Scalar)>) -> Map<Seq<char>, ScalarV>
    decreases v.len(),
{
    if v.len() == 0 {
        Map::empty()
    } else {
        fields_view(v.drop_last()).insert(v.last().0@, v.last().1@)
    }
}

impl View for Entry {
    type V = EntryV;

    open spec fn view(&self) -> EntryV {
        match self {
            Entry::ScalarEntry(x) => EntryV::ScalarEntryV(x@),
            Entry::ListEntry(l) => EntryV::ListEntryV(scalars_view(l@)),
            Entry::SetEntry(m) => EntryV::SetEntryV(scalars_view(m@).to_set()),
            Entry::HashEntry(h) => EntryV::HashEntryV(fields_view(h@)),
        }
    }
}

/// The keyspace that a sequence of keyed entries leaves behind: later
/// entries for a key overwrite earlier ones.
pub open spec fn entries_view(v: Seq<(String, Entry)>) -> StoreV
    decreases v.len(),
{
    if v.len() == 0 {
        Map::empty()
    } else {
        entries_view(v.drop_last()).insert(v.last().0@, v.last().1@)
    }
}

/// An in-memory destination store with the write semantics of the wire
/// primitives. It records writes in arrival order; its image is the
/// keyspace they leave behind.
#[derive(Debug)]
pub struct MemStore {
    entries: Vec<(String, Entry)>,
}

impl View for MemStore {
    type V = StoreV;

    closed spec fn view(&self) -> StoreV {
        entries_view(self.entries@)
    }
}

/// In a record whose positions `i..` never carry key `k`, the keyspace at
/// `k` is decided by the first `i` positions alone.
proof fn lemma_skip_unmatched(v: Seq<(String, Entry)>, k: Seq<char>, i: int)
    requires
        0 <= i <= v.len(),
        forall|j: int| i <= j < v.len() ==> (#[trigger] v[j]).0@ != k,
    ensures
        entries_view(v).contains_key(k) == entries_view(v.subrange(0, i)).contains_key(k),
        entries_view(v).contains_key(k) ==> entries_view(v)[k] == entries_view(
            v.subrange(0, i),
        )[k],
    decreases v.len() - i,
{
    if i < v.len() {
        let w = v.drop_last();
        assert(w.subrange(0, i) =~= v.subrange(0, i));
        lemma_skip_unmatched(w, k, i);
    } else {
        assert(v.subrange(0, i) =~= v);
    }
}

/// Same, for the field record of a hash entry.
proof fn lemma_skip_unmatched_fields(v: Seq<(String, Scalar)>, f: Seq<char>, i: int)
    requires
        0 <= i <= v.len(),
        forall|j: int| i <= j < v.len() ==> (#[trigger] v[j]).0@ != f,
    ensures
        fields_view(v).contains_key(f) == fields_view(v.subrange(0, i)).contains_key(f),
        fields_view(v).contains_key(f) ==> fields_view(v)[f] == fields_view(
            v.subrange(0, i),
        )[f],
    decreases v.len() - i,
{
    if i < v.len() {
        let w = v.drop_last();
        assert(w.subrange(0, i) =~= v.subrange(0, i));
        lemma_skip_unmatched_fields(w, f, i);
    } else {
        assert(v.subrange(0, i) =~= v);
    }
}

/// Appending an element to a member record inserts it into the set image.
pub proof fn lemma_to_set_push(s: Seq<ScalarV>, x: ScalarV)
    ensures
        s.push(x).to_set() == s.to_set().insert(x),
{
    assert forall|a: ScalarV| s.push(x).to_set().contains(a) implies s.to_set().insert(
        x,
    ).contains(a) by {
        let i = choose|i: int| 0 <= i < s.push(x).len() && s.push(x)[i] == a;
        if i < s.len() {
            assert(s[i] == a);
        }
    };
    assert forall|a: ScalarV| s.to_set().insert(x).contains(a) implies s.push(
        x,
    ).to_set().contains(a) by {
        if s.to_set().contains(a) {
            let i = choose|i: int| 0 <= i < s.len() && s[i] == a;
            assert(s.push(x)[i] == a);
        } else {
            assert(s.push(x)[s.len() as int] == a);
        }
    };
    assert(s.push(x).to_set() =~= s.to_set().insert(x));
}

fn dup_scalars(v: &Vec<Scalar>) -> (r: Vec<Scalar>)
    ensures
        scalars_view(r@) == scalars_view(v@),
{
    let mut out: Vec<Scalar> = Vec::new();
    let mut i: usize = 0;
    while i < v.len()
        invariant
            i <= v.len(),
            out@.len() == i,
            forall|j: int| 0 <= j < i ==> (#[trigger] out@[j])@ == v@[j]@,
        decreases v.len() - i,
    {
        out.push(v[i].dup());
        i = i + 1;
    }
    proof {
        assert(scalars_view(out@) =~= scalars_view(v@));
    }
    out
}

/// Field records with pointwise equal images have the same field map.
proof fn lemma_fields_view_congruent(a: Seq<(String, Scalar)>, b: Seq<(String, Scalar)>)
    requires
        a.len() == b.len(),
        forall|j: int| 0 <= j < a.len() ==> (#[trigger] a[j]).0@ == b[j].0@ && a[j].1@ == b[j].1@,
    ensures
        fields_view(a) == fields_view(b),
    decreases a.len(),
{
    if a.len() > 0 {
        lemma_fields_view_congruent(a.drop_last(), b.drop_last());
    }
}

fn dup_fields(v: &Vec<(String, Scalar)>) -> (r: Vec<(String, Scalar)>)
    ensures
        fields_view(r@) == fields_view(v@),
{
    let mut out: Vec<(String, Scalar)> = Vec::new();
    let mut i: usize = 0;
    while i < v.len()
        invariant
            i <= v.len(),
            out@.len() == i,
            forall|j: int| 0 <= j < i ==> (#[trigger] out@[j]).0@ == v@[j].0@ && out@[j].1@
                == v@[j].1@,
        decreases v.len() - i,
    {
        let field: String = v[i].0.clone();
        out.push((field, v[i].1.dup()));
        i = i + 1;
    }
    proof {
        lemma_fields_view_congruent(out@, v@);
    }
    out
}

impl MemStore {
    /// An empty destination.
    pub fn new() -> (r: MemStore)
        ensures
            r@ == Map::<Seq<char>, EntryV>::empty(),
    {
        MemStore { entries: Vec::new() }
    }

    /// The position of the entry that decides key `key`, if the key is
    /// present at all.
    fn find_entry(&self, key: &String) -> (r: Option<usize>)
        ensures
            (match r {
                Some(i) => i < self.entries@.len() && self.entries@[i as int].0@ == key@
                    && self@.contains_key(key@) && self@[key@] == self.entries@[i as int].1@,
                None => !self@.contains_key(key@),
            }),
    {
        let mut i: usize = self.entries.len();
        while i > 0
            invariant
                i <= self.entries@.len(),
                forall|j: int| i <= j < self.entries@.len() ==> (#[trigger] self.entries@[j]).0@
                    != key@,
            decreases i,
        {
            i = i - 1;
            if self.entries[i].0 == *key {
                proof {
                    lemma_skip_unmatched(self.entries@, key@, i + 1);
                    let p = self.entries@.subrange(0, i + 1);
                    assert(p.drop_last() =~= self.entries@.subrange(0, i as int));
                    assert(p.last() == self.entries@[i as int]);
                }
                return Some(i);
            }
        }
        proof {
            lemma_skip_unmatched(self.entries@, key@, 0);
        }
        None
    }

    /// Performs one write primitive, leaving exactly the keyspace the
    /// mathematical semantics assigns to it.
    pub fn apply(&mut self, op: &WriteOp)
        ensures
            final(self)@ == apply_op(old(self)@, op@),
    {
        match op {
            WriteOp::SetValue { key, value } => {
                self.entries.push((key.clone(), Entry::ScalarEntry(value.dup())));
                proof {
                    assert(self.entries@.drop_last() =~= old(self).entries@);
                }
            },
            WriteOp::PushBack { key, value } => {
                let mut items: Vec<Scalar> = match self.find_entry(key) {
                    Some(i) => match &self.entries[i].1 {
                        Entry::ListEntry(l) => dup_scalars(l),
                        _ => Vec::new(),
                    },
                    None => Vec::new(),
                };
                proof {
                    assert(scalars_view(items@) =~= base_list(old(self)@, key@));
                }
                items.push(value.dup());
                proof {
                    assert(scalars_view(items@) =~= base_list(old(self)@, key@).push(value@));
                }
                self.entries.push((key.clone(), Entry::ListEntry(items)));
                proof {
                    assert(self.entries@.drop_last() =~= old(self).entries@);
                }
            },
            WriteOp::AddMember { key, value } => {
                let mut members: Vec<Scalar> = match self.find_entry(key) {
                    Some(i) => match &self.entries[i].1 {
                        Entry::SetEntry(m) => dup_scalars(m),
                        _ => Vec::new(),
                    },
                    None => Vec::new(),
                };
                let ghost pre: Seq<ScalarV> = scalars_view(members@);
                proof {
                    assert(pre.to_set() =~= base_set(old(self)@, key@));
                }
                members.push(value.dup());
                proof {
                    assert(scalars_view(members@) =~= pre.push(value@));
                    lemma_to_set_push(pre, value@);
                    assert(scalars_view(members@).to_set() == pre.push(value@).to_set());
                }
                self.entries.push((key.clone(), Entry::SetEntry(members)));
                proof {
                    assert(self.entries@.drop_last() =~= old(self).entries@);
                }
            },
            WriteOp::SetField { key, field, value } => {
                let mut fields: Vec<(String, Scalar)> = match self.find_entry(key) {
                    Some(i) => match &self.entries[i].1 {
                        Entry::HashEntry(h) => dup_fields(h),
                        _ => Vec::new(),
                    },
                    None => Vec::new(),
                };
                let ghost pre: Seq<(String, Scalar)> = fields@;
                proof {
                    assert(fields_view(pre) == base_hash(old(self)@, key@));
                }
                fields.push((field.clone(), value.dup()));
                proof {
                    assert(fields@.drop_last() =~= pre);
                    assert(fields@.last().0@ == field@ && fields@.last().1@ == value@);
                    assert(fields_view(fields@) == fields_view(pre).insert(field@, value@));
                }
                self.entries.push((key.clone(), Entry::HashEntry(fields)));
                proof {
                    assert(self.entries@.drop_last() =~= old(self).entries@);
                }
            },
        }
    }

    /// Performs a whole plan, in order.
    pub fn apply_plan(&mut self, ops: &Vec<WriteOp>)
        ensures
            final(self)@ == apply_ops(old(self)@, ops_view(ops@)),
    {
        let mut i: usize = 0;
        while i < ops.len()
            invariant
                i <= ops.len(),
                self@ == apply_ops(old(self)@, ops_view(ops@).subrange(0, i as int)),
            decreases ops.len() - i,
        {
            self.apply(&ops[i]);
            i = i + 1;
            proof {
                let pv = ops_view(ops@).subrange(0, i as int);
                assert(pv.drop_last() =~= ops_view(ops@).subrange(0, i - 1));
                assert(pv.last() == ops@[i - 1]@);
            }
        }
        proof {
            assert(ops_view(ops@).subrange(0, ops@.len() as int) =~= ops_view(ops@));
        }
    }

    /// Whether the destination holds any value under `key`.
    pub fn has_key(&self, key: &String) -> (r: bool)
        ensures
            r == self@.contains_key(key@),
    {
        match self.find_entry(key) {
            Some(_) => true,
            None => false,
        }
    }

    /// The scalar stored under `key`, where the key holds a scalar.
    pub fn get_scalar(&self, key: &String) -> (r: Option<Scalar>)
        ensures
            (match r {
                Some(x) => self@.contains_key(key@) && self@[key@] == EntryV::ScalarEntryV(x@),
                None => !(self@.contains_key(key@) && self@[key@] is ScalarEntryV),
            }),
    {
        match self.find_entry(key) {
            Some(i) => match &self.entries[i].1 {
                Entry::ScalarEntry(x) => Some(x.dup()),
                _ => None,
            },
            None => None,
        }
    }

    /// The list stored under `key`, in order, where the key holds a list.
    pub fn get_list(&self, key: &String) -> (r: Option<Vec<Scalar>>)
        ensures
            (match r {
                Some(l) => self@.contains_key(key@) && self@[key@] == EntryV::ListEntryV(
                    scalars_view(l@),
                ),
                None => !(self@.contains_key(key@) && self@[key@] is ListEntryV),
            }),
    {
        match self.find_entry(key) {
            Some(i) => match &self.entries[i].1 {
                Entry::ListEntry(l) => Some(dup_scalars(l)),
                _ => None,
            },
            None => None,
        }
    }

    /// Whether the set stored under `key` holds the member `x`.
    #[verifier::loop_isolation(false)]
    pub fn set_contains(&self, key: &String, x: &Scalar) -> (r: bool)
        ensures
            r == (self@.contains_key(key@) && (self@[key@] matches EntryV::SetEntryV(m)
                && m.contains(x@))),
    {
        match self.find_entry(key) {
            Some(i) => match &self.entries[i].1 {
                Entry::SetEntry(m) => {
                    let mut j: usize = 0;
                    while j < m.len()
                        invariant
                            j <= m@.len(),
                            forall|q: int| 0 <= q < j ==> (#[trigger] m@[q])@ != x@,
                        decreases m@.len() - j,
                    {
                        if m[j].content_eq(x) {
                            proof {
                                assert(scalars_view(m@)[j as int] == x@);
                                assert(scalars_view(m@).contains(x@));
                                assert(scalars_view(m@).to_set().contains(x@));
                            }
                            return true;
                        }
                        j = j + 1;
                    }
                    proof {
                        assert(forall|q: int| 0 <= q < m@.len() ==> #[trigger] scalars_view(
                            m@,
                        )[q] != x@);
                        assert(!scalars_view(m@).contains(x@));
                        assert(!scalars_view(m@).to_set().contains(x@));
                    }
                    false
                },
                _ => false,
            },
            None => false,
        }
    }

    /// The value of one field of the hash stored under `key`.
    #[verifier::loop_isolation(false)]
    pub fn get_field(&self, key: &String, field: &String) -> (r: Option<Scalar>)
        ensures
            (match r {
                Some(x) => self@.contains_key(key@) && (self@[key@] matches EntryV::HashEntryV(h)
                    && h.contains_key(field@) && h[field@] == x@),
                None => !(self@.contains_key(key@) && (self@[key@] matches EntryV::HashEntryV(h)
                    && h.contains_key(field@))),
            }),
    {
        match self.find_entry(key) {
            Some(i) => match &self.entries[i].1 {
                Entry::HashEntry(h) => {
                    let mut j: usize = h.len();
                    while j > 0
                        invariant
                            j <= h@.len(),
                            forall|q: int| j <= q < h@.len() ==> (#[trigger] h@[q]).0@ != field@,
                        decreases j,
                    {
                        j = j - 1;
                        if h[j].0 == *field {
                            proof {
                                lemma_skip_unmatched_fields(h@, field@, j + 1);
                                let p = h@.subrange(0, j + 1);
                                assert(p.drop_last() =~= h@.subrange(0, j as int));
                                assert(p.last() == h@[j as int]);
                                assert(fields_view(p) == fields_view(p.drop_last()).insert(
                                    p.last().0@,
                                    p.last().1@,
                                ));
                                assert(fields_view(h@).contains_key(field@));
                                assert(fields_view(h@)[field@] == h@[j as int].1@);
                            }
                            return Some(h[j].1.dup());
                        }
                    }
                    proof {
                        lemma_skip_unmatched_fields(h@, field@, 0);
                    }
                    None
                },
                _ => None,
            },
            None => None,
        }
    }
}

} // verus!
