//! The values the engine moves: key types, scalars, and the shapes a raw
//! read can resolve to.

use vstd::prelude::*;

verus! {

/// The type a source store reports for a key. Everything outside the four
/// supported kinds is `Other` and handled by the fallback path.
#[derive(Clone, Copy, Debug, PartialEq, Eq, Structural)]
pub enum KeyType {
    StringKind,
    ListKind,
    SetKind,
    HashKind,
    OtherKind,
}

/// A single atomic payload: a textual string, a raw byte string, or an
/// integer. This is the element type of every supported value shape.
#[derive(Debug)]
pub enum Scalar {
    Text(String),
    Bytes(Vec<u8>),
    Int(i64),
}

/// Mathematical image of a `Scalar`.
pub enum ScalarV {
    TextV(Seq<char>),
    BytesV(Seq<u8>),
    IntV(int),
}

impl View for Scalar {
    type V = ScalarV;

    open spec fn view(&self) -> ScalarV {
        match self {
            Scalar::Text(s) => ScalarV::TextV(s@),
            Scalar::Bytes(b) => ScalarV::BytesV(b@),
            Scalar::Int(i) => ScalarV::IntV(*i as int),
        }
    }
}

/// A copy of a byte string with the same content.
pub(crate) fn clone_bytes(b: &Vec<u8>) -> (r: Vec<u8>)
    ensures
        r@ == b@,
{
    let mut out: Vec<u8> = Vec::new();
    let mut i: usize = 0;
    while i < b.len()
        invariant
            i <= b.len(),
            out@ == b@.subrange(0, i as int),
        decreases b.len() - i,
    {
        out.push(b[i]);
        i = i + 1;
        proof {
            assert(out@ =~= b@.subrange(0, i as int));
        }
    }
    proof {
        assert(b@.subrange(0, b@.len() as int) =~= b@);
    }
    out
}

fn bytes_eq(a: &Vec<u8>, b: &Vec<u8>) -> (r: bool)
    ensures
        r == (a@ == b@),
{
    if a.len() != b.len() {
        return false;
    }
    let mut i: usize = 0;
    while i < a.len()
        invariant
            i <= a.len(),
            a@.len() == b@.len(),
            forall|j: int| 0 <= j < i ==> a@[j] == b@[j],
        decreases a.len() - i,
    {
        if a[i] != b[i] {
            return false;
        }
        i = i + 1;
    }
    proof {
        assert(a@ =~= b@);
    }
    true
}

impl Scalar {
    /// A copy with the same content.
    pub fn dup(&self) -> (r: Scalar)
        ensures
            r@ == self@,
    {
        match self {
            Scalar::Text(s) => Scalar::Text(s.clone()),
            Scalar::Bytes(b) => Scalar::Bytes(clone_bytes(b)),
            Scalar::Int(i) => Scalar::Int(*i),
        }
    }

    /// Content equality of two scalars.
    pub fn content_eq(&self, other: &Scalar) -> (r: bool)
        ensures
            r == (self@ == other@),
    {
        match self {
            Scalar::Text(a) => match other {
                Scalar::Text(b) => *a == *b,
                _ => false,
            },
            Scalar::Bytes(a) => match other {
                Scalar::Bytes(b) => bytes_eq(a, b),
                _ => false,
            },
            Scalar::Int(a) => match other {
                Scalar::Int(b) => *a == *b,
                _ => false,
            },
        }
    }
}

/// One element of a raw bulk reply: either a scalar the fallback path can
/// replicate, or something it cannot.
#[derive(Debug)]
pub enum RawItem {
    DataItem(Vec<u8>),
    IntItem(i64),
    OtherItem,
}

/// Mathematical image of a `RawItem`.
pub enum RawItemV {
    DataItemV(Seq<u8>),
    IntItemV(int),
    OtherItemV,
}

impl View for RawItem {
    type V = RawItemV;

    open spec fn view(&self) -> RawItemV {
        match self {
            RawItem::DataItem(b) => RawItemV::DataItemV(b@),
            RawItem::IntItem(i) => RawItemV::IntItemV(*i as int),
            RawItem::OtherItem => RawItemV::OtherItemV,
        }
    }
}

/// What a raw, untyped read of an `Other`-typed key can resolve to.
#[derive(Debug)]
pub enum RawValue {
    NilRaw,
    DataRaw(Vec<u8>),
    IntRaw(i64),
    BulkRaw(Vec<RawItem>),
    OtherRaw,
}

/// Mathematical image of a `RawValue`.
pub enum RawValueV {
    NilRawV,
    DataRawV(Seq<u8>),
    IntRawV(int),
    BulkRawV(Seq<RawItemV>),
    OtherRawV,
}

impl View for RawValue {
    type V = RawValueV;

    open spec fn view(&self) -> RawValueV {
        match self {
            RawValue::NilRaw => RawValueV::NilRawV,
            RawValue::DataRaw(b) => RawValueV::DataRawV(b@),
            RawValue::IntRaw(i) => RawValueV::IntRawV(*i as int),
            RawValue::BulkRaw(items) => RawValueV::BulkRawV(
                items@.map_values(|it: RawItem| it@),
            ),
            RawValue::OtherRaw => RawValueV::OtherRawV,
        }
    }
}

/// The result of reading a key's value from the source with the read
/// primitive matching its reported type.
#[derive(Debug)]
pub enum SourceValue {
    StrVal(String),
    ListVal(Vec<String>),
    SetVal(Vec<String>),
    HashVal(Vec<(String, String)>),
    RawVal(RawValue),
}

/// Mathematical image of a `SourceValue`.
pub enum SourceValueV {
    StrValV(Seq<char>),
    ListValV(Seq<Seq<char>>),
    SetValV(Seq<Seq<char>>),
    HashValV(Seq<(Seq<char>, Seq<char>)>),
    RawValV(RawValueV),
}

impl View for SourceValue {
    type V = SourceValueV;

    open spec fn view(&self) -> SourceValueV {
        match self {
            SourceValue::StrVal(s) => SourceValueV::StrValV(s@),
            SourceValue::ListVal(items) => SourceValueV::ListValV(items.deep_view()),
            SourceValue::SetVal(members) => SourceValueV::SetValV(members.deep_view()),
            SourceValue::HashVal(entries) => SourceValueV::HashValV(entries.deep_view()),
            SourceValue::RawVal(r) => SourceValueV::RawValV(r@),
        }
    }
}

/// The key type named by a wire-level type report.
pub open spec fn spec_key_type(s: Seq<char>) -> KeyType {
    if s == "string"@ {
        KeyType::StringKind
    } else if s == "list"@ {
        KeyType::ListKind
    } else if s == "set"@ {
        KeyType::SetKind
    } else if s == "hash"@ {
        KeyType::HashKind
    } else {
        KeyType::OtherKind
    }
}

/// Equality of two string slices, by content.
fn str_eq(a: &str, b: &str) -> (r: bool)
    ensures
        r == (a@ == b@),
{
    let sa: String = a.to_owned();
    let sb: String = b.to_owned();
    sa == sb
}

/// Maps a source store's textual type report onto the closed `KeyType`
/// enumeration; every unrecognised report lands on `Other`.
pub fn parse_key_type(t: &str) -> (k: KeyType)
    ensures
        k == spec_key_type(t@),
{
    if str_eq(t, "string") {
        KeyType::StringKind
    } else if str_eq(t, "list") {
        KeyType::ListKind
    } else if str_eq(t, "set") {
        KeyType::SetKind
    } else if str_eq(t, "hash") {
        KeyType::HashKind
    } else {
        KeyType::OtherKind
    }
}

} // verus!
