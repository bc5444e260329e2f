//! The JSON value model.
//!
//! Generated data is held in [`JsonValue`], a tree of plain values.  Object
//! members keep their insertion order.  A non-integer number is carried as a
//! fixed-point decimal, the value times one million, so that values can be
//! stored, compared and reproduced exactly without floating-point arithmetic.
//!
//! In specifications a value is seen through its view [`JsonV`], the same tree
//! over mathematical sequences.

use vstd::prelude::*;

verus! {

broadcast use vstd::std_specs::vec::group_vec_axioms;

/// The mathematical shape of a JSON value.
#[verifier::ext_equal]
pub enum JsonV {
    Null,
    Bool(bool),
    Int(i64),
    /// A decimal number: the value times one million, to six fractional digits.
    Dec(i64),
    Str(Seq<char>),
    Arr(Seq<JsonV>),
    /// Members in insertion order.
    Obj(Seq<(Seq<char>, JsonV)>),
}

/// A JSON value: the result of generation.
pub enum JsonValue {
    Null,
    Bool(bool),
    Int(i64),
    /// A decimal number: the value times one million, to six fractional digits.
    Dec(i64),
    Str(String),
    Arr(Vec<JsonValue>),
    /// Members in insertion order.
    Obj(Vec<(String, JsonValue)>),
}

impl JsonValue {
    /// The mathematical value this tree holds.
    pub open spec fn v(self) -> JsonV
        decreases self,
    {
        match self {
            JsonValue::Null => JsonV::Null,
            JsonValue::Bool(b) => JsonV::Bool(b),
            JsonValue::Int(i) => JsonV::Int(i),
            JsonValue::Dec(m) => JsonV::Dec(m),
            JsonValue::Str(s) => JsonV::Str(s@),
            JsonValue::Arr(items) => JsonV::Arr(
                Seq::new(
                    items@.len(),
                    |i: int|
                        if 0 <= i < items@.len() {
                            items@[i].v()
                        } else {
                            JsonV::Null
                        },
                ),
            ),
            JsonValue::Obj(entries) => JsonV::Obj(
                Seq::new(
                    entries@.len(),
                    |i: int|
                        if 0 <= i < entries@.len() {
                            (entries@[i].0@, entries@[i].1.v())
                        } else {
                            (Seq::empty(), JsonV::Null)
                        },
                ),
            ),
        }
    }
}

impl View for JsonValue {
    type V = JsonV;

    open spec fn view(&self) -> JsonV {
        self.v()
    }
}

/// Looks a key up among object members, leftmost match first.
pub open spec fn spec_member_index(entries: Seq<(Seq<char>, JsonV)>, key: Seq<char>) -> int
    decreases entries.len(),
{
    if entries.len() == 0 {
        -1
    } else if entries[0].0 == key {
        0
    } else {
        let rest = spec_member_index(entries.skip(1), key);
        if rest == -1 {
            -1
        } else {
            rest + 1
        }
    }
}

/// What a member lookup returns: the value under the first matching key.
pub open spec fn spec_member(entries: Seq<(Seq<char>, JsonV)>, key: Seq<char>) -> Option<JsonV> {
    let i = spec_member_index(entries, key);
    if i == -1 {
        None
    } else {
        Some(entries[i].1)
    }
}

pub proof fn lemma_member_index_range(entries: Seq<(Seq<char>, JsonV)>, key: Seq<char>)
    ensures
        -1 <= spec_member_index(entries, key) < entries.len(),
        spec_member_index(entries, key) >= 0 ==> entries[spec_member_index(entries, key)].0
            == key,
    decreases entries.len(),
{
    if entries.len() > 0 && entries[0].0 != key {
        lemma_member_index_range(entries.skip(1), key);
    }
}

/// No earlier member matches the key than the one the lookup names.
pub proof fn lemma_member_index_first(entries: Seq<(Seq<char>, JsonV)>, key: Seq<char>, j: int)
    requires
        0 <= j < entries.len(),
        entries[j].0 == key,
    ensures
        0 <= spec_member_index(entries, key) <= j,
    decreases entries.len(),
{
    if entries[0].0 != key {
        lemma_member_index_first(entries.skip(1), key, j - 1);
    }
}

impl JsonValue {
    /// Finds the value stored under `key` among this object's members.
    ///
    /// Returns `None` when the value is not an object, or holds no such key.
    pub fn member<'a>(&'a self, key: &str) -> (r: Option<&'a JsonValue>)
        ensures
            match self@ {
                JsonV::Obj(entries) => match r {
                    Some(v) => spec_member(entries, key@) == Some(v@),
                    None => spec_member(entries, key@) is None,
                },
                _ => r is None,
            },
    {
        match self {
            JsonValue::Obj(entries) => {
                let ghost gentries = self@->Obj_0;
                let mut i: usize = 0;
                while i < entries.len()
                    invariant
                        0 <= i <= entries.len(),
                        *self == JsonValue::Obj(*entries),
                        gentries == self@->Obj_0,
                        self@ is Obj,
                        gentries.len() == entries@.len(),
                        forall|j: int|
                            0 <= j < gentries.len() ==> gentries[j] == (
                            entries@[j].0@,
                            entries@[j].1@,
                            ),
                        forall|j: int| 0 <= j < i ==> entries@[j].0@ != key@,
                    decreases entries.len() - i,
                {
                    if str_eq(entries[i].0.as_str(), key) {
                        proof {
                            lemma_member_index_first(gentries, key@, i as int);
                            lemma_member_index_range(gentries, key@);
                            assert(spec_member_index(gentries, key@) == i);
                        }
                        return Some(&entries[i].1);
                    }
                    i = i + 1;
                }
                proof {
                    lemma_member_index_range(gentries, key@);
                    let mi = spec_member_index(gentries, key@);
                    assert(mi >= 0 ==> gentries[mi].0 == key@);
                }
                None
            },
            _ => None,
        }
    }
}

impl JsonValue {
    /// An equal value built afresh: same shape, same contents.
    pub fn deep_clone(&self) -> (r: JsonValue)
        ensures
            r@ == self@,
        decreases *self,
    {
        match self {
            JsonValue::Null => JsonValue::Null,
            JsonValue::Bool(b) => JsonValue::Bool(*b),
            JsonValue::Int(i) => JsonValue::Int(*i),
            JsonValue::Dec(m) => JsonValue::Dec(*m),
            JsonValue::Str(s) => JsonValue::Str(s.clone()),
            JsonValue::Arr(items) => {
                let out = clone_values(items);
                let r = JsonValue::Arr(out);
                proof {
                    let a = r@->Arr_0;
                    let b = self@->Arr_0;
                    assert forall|k: int| 0 <= k < a.len() implies a[k] == b[k] by {
                        assert(a[k] == r->Arr_0@[k]@);
                        assert(b[k] == items@[k]@);
                    }
                    assert(a =~= b);
                }
                r
            },
            JsonValue::Obj(entries) => {
                let out = clone_members(entries);
                let r = JsonValue::Obj(out);
                proof {
                    let a = r@->Obj_0;
                    let b = self@->Obj_0;
                    assert forall|k: int| 0 <= k < a.len() implies a[k] == b[k] by {
                        assert(a[k].0 == r->Obj_0@[k].0@ && a[k].1 == r->Obj_0@[k].1@);
                        assert(b[k].0 == entries@[k].0@ && b[k].1 == entries@[k].1@);
                    }
                    assert(a =~= b);
                }
                r
            },
        }
    }
}

/// Clones every element of a value vector.
fn clone_values(items: &Vec<JsonValue>) -> (r: Vec<JsonValue>)
    ensures
        r@.len() == items@.len(),
        forall|j: int| 0 <= j < items@.len() ==> (#[trigger] r@[j])@ == items@[j]@,
    decreases *items,
{
    let mut out: Vec<JsonValue> = Vec::new();
    let mut i: usize = 0;
    while i < items.len()
        invariant
            0 <= i <= items@.len(),
            out@.len() == i,
            forall|j: int| 0 <= j < i ==> (#[trigger] out@[j])@ == items@[j]@,
        decreases items@.len() - i,
    {
        let c = items[i].deep_clone();
        out.push(c);
        i = i + 1;
    }
    out
}

/// Clones every member of an object vector.
fn clone_members(entries: &Vec<(String, JsonValue)>) -> (r: Vec<(String, JsonValue)>)
    ensures
        r@.len() == entries@.len(),
        forall|j: int|
            0 <= j < entries@.len() ==> (#[trigger] r@[j]).0@ == entries@[j].0@ && r@[j].1@
                == entries@[j].1@,
    decreases *entries,
{
    let mut out: Vec<(String, JsonValue)> = Vec::new();
    let mut i: usize = 0;
    while i < entries.len()
        invariant
            0 <= i <= entries@.len(),
            out@.len() == i,
            forall|j: int|
                0 <= j < i ==> (#[trigger] out@[j]).0@ == entries@[j].0@ && out@[j].1@
                    == entries@[j].1@,
        decreases entries@.len() - i,
    {
        let k = entries[i].0.clone();
        let c = entries[i].1.deep_clone();
        out.push((k, c));
        i = i + 1;
    }
    out
}

/// What a member lookup returns is a value actually present in the object:
/// some member holds exactly that key and that value.  Together with the
/// reference walk this closes the loop: anything a reference resolves to was
/// really generated and stored.
pub proof fn lemma_member_is_present(entries: Seq<(Seq<char>, JsonV)>, key: Seq<char>)
    ensures
        spec_member(entries, key) matches Some(w) ==> exists|j: int|
            0 <= j < entries.len() && #[trigger] entries[j] == (key, w),
{
    lemma_member_index_range(entries, key);
    if spec_member(entries, key) is Some {
        let i = spec_member_index(entries, key);
        assert(entries[i] == (key, entries[i].1));
    }
}

/// A value and its view always sit in the same variant.
pub proof fn lemma_view_variants(x: JsonValue)
    ensures
        (x@ is Null) <==> (x is Null),
        (x@ is Bool) <==> (x is Bool),
        (x@ is Int) <==> (x is Int),
        (x@ is Dec) <==> (x is Dec),
        (x@ is Str) <==> (x is Str),
        (x@ is Arr) <==> (x is Arr),
        (x@ is Obj) <==> (x is Obj),
{
    match x {
        JsonValue::Null => {},
        JsonValue::Bool(_) => {},
        JsonValue::Int(_) => {},
        JsonValue::Dec(_) => {},
        JsonValue::Str(_) => {},
        JsonValue::Arr(_) => {},
        JsonValue::Obj(_) => {},
    }
}

/// Compares two string slices by contents.
pub fn str_eq(a: &str, b: &str) -> (r: bool)
    ensures
        r == (a@ == b@),
{
    let sa = a.to_owned();
    let sb = b.to_owned();
    sa.eq(&sb)
}

} // verus!
