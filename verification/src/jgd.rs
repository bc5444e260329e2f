//! The schema document root.
//!
//! A schema names its format and version, may fix a seed and a locale, and
//! holds exactly one of a single root entity or an ordered collection of
//! named entities.  Generation with a root yields that entity's records;
//! with a collection it yields one object holding every entity's records,
//! generated in declaration order so that later entities may reference
//! earlier ones.  `schema_from_json` reads the document shape out of a plain
//! JSON value tree.

use vstd::prelude::*;
use vstd::string::StringExecFns;
use crate::value::{
    JsonValue, JsonV, str_eq, spec_member, spec_member_index, lemma_member_index_first,
    lemma_member_index_range, lemma_view_variants,
};
use crate::config::GeneratorConfig;
use crate::error::JgdGeneratorError;
use crate::count::{Count, GetCount};
use crate::number::NumberSpec;
use crate::field::{Field, ArraySpec, OptionalSpec};
use crate::entity::{Entity, generate_entities};
use crate::field::{spec_entity_total, spec_entity_value_ok};

verus! {

broadcast use vstd::std_specs::vec::group_vec_axioms;

/// The locale a schema gets when it names none.
pub fn default_locale() -> (r: String)
    ensures
        r@ == "EN"@,
{
    String::from_str("EN")
}

/// A complete schema document.
pub struct Jgd {
    /// The format tag, carried as given.
    pub format: String,
    /// The document's own version text, carried as given.
    pub version: String,
    /// The seed that fixes the whole run, when present.
    pub seed: Option<u64>,
    /// The locale for realistic values.
    pub default_locale: String,
    /// Named entities, in declaration order; exclusive with `root`.
    pub entities: Option<Vec<(String, Entity)>>,
    /// The single root entity; exclusive with `entities`.
    pub root: Option<Entity>,
}

impl Jgd {
    /// A fresh generation context carrying this schema's locale and seed.
    pub fn create_config(&self) -> (r: GeneratorConfig)
        ensures
            r.locale@ == self.default_locale@,
            self.seed matches Some(s) ==> r.rng.state == s,
            r.store() =~= Seq::<(Seq<char>, JsonV)>::empty(),
            r.customs() =~= Seq::<(Seq<char>, JsonV)>::empty(),
    {
        GeneratorConfig::new(self.default_locale.as_str(), self.seed)
    }

    /// Generates the document's data with a fresh context.
    ///
    /// A schema with neither root nor entities yields null.
    pub fn generate(&self) -> (r: Result<JsonValue, JgdGeneratorError>)
        ensures
            (match (&self.root, &self.entities) {
                (Some(e), _) => spec_entity_total(*e),
                (None, Some(es)) => forall|j: int|
                    0 <= j < es@.len() ==> spec_entity_total((#[trigger] es@[j]).1),
                (None, None) => true,
            }) ==> r is Ok,
            self.root is None && self.entities is None ==> (r matches Ok(v) && v@ is Null),
            self.root matches Some(e) && e.count is None && r is Ok ==> (r matches Ok(v) && v@
                is Obj),
            self.root matches Some(e) && e.count is Some && r is Ok ==> (r matches Ok(v) && v@
                is Arr),
            self.root is None && self.entities is Some && r is Ok ==> (r matches Ok(v) && v@
                is Obj),
            (self.root matches Some(e) ==> (e.count is None && r is Ok ==> (r matches Ok(v)
                && v@ matches JsonV::Obj(ms) && ms.len() == e.fields@.len() && (forall|j: int|
                0 <= j < ms.len() ==> (#[trigger] ms[j]).0 == e.fields@[j].0@)))),
            (self.root matches Some(e) ==> (e.count is Some && r is Ok ==> (r matches Ok(v)
                && v@ matches JsonV::Arr(items) && (exists|n: u64|
                (#[trigger] e.count.spec_count_ok(n)) && items.len() <= n && (e.unique_by@.len()
                    == 0 ==> items.len() == n))))),
            (self.entities matches Some(es) ==> (self.root is None && r is Ok ==> (r matches Ok(
                v,
            ) && v@ matches JsonV::Obj(out) && out.len() == es@.len() && (forall|j: int|
                0 <= j < out.len() ==> (#[trigger] out[j]).0 == es@[j].0@)))),
            (self.root matches Some(e) ==> (r matches Ok(v) ==> spec_entity_value_ok(e, v@))),
            (self.entities matches Some(es) ==> (self.root is None ==> (r matches Ok(v) ==> (v@
                matches JsonV::Obj(out) && (forall|j: int|
                0 <= j < out.len() ==> spec_entity_value_ok(
                    es@[j].1,
                    (#[trigger] out[j]).1,
                )))))),
    {
        let mut config = self.create_config();
        self.generate_with_config(&mut config)
    }

    /// Generates the document's data into a caller-supplied context, whose
    /// custom-key registry and seed then apply; completed entities are left
    /// in the context's store.
    pub fn generate_with_config(&self, config: &mut GeneratorConfig) -> (r: Result<
        JsonValue,
        JgdGeneratorError,
    >)
        ensures
            (match (&self.root, &self.entities) {
                (Some(e), _) => spec_entity_total(*e),
                (None, Some(es)) => forall|j: int|
                    0 <= j < es@.len() ==> spec_entity_total((#[trigger] es@[j]).1),
                (None, None) => true,
            }) ==> r is Ok,
            final(config).customs() == old(config).customs(),
            self.root is None && self.entities is None ==> (r matches Ok(v) && v@ is Null),
            self.root matches Some(e) && e.count is None && r is Ok ==> (r matches Ok(v) && v@
                is Obj),
            self.root matches Some(e) && e.count is Some && r is Ok ==> (r matches Ok(v) && v@
                is Arr),
            self.root is None && self.entities is Some && r is Ok ==> (r matches Ok(v) && v@
                is Obj),
            (self.root matches Some(e) ==> (e.count is None && r is Ok ==> (r matches Ok(v)
                && v@ matches JsonV::Obj(ms) && ms.len() == e.fields@.len() && (forall|j: int|
                0 <= j < ms.len() ==> (#[trigger] ms[j]).0 == e.fields@[j].0@)))),
            (self.root matches Some(e) ==> (e.count is Some && r is Ok ==> (r matches Ok(v)
                && v@ matches JsonV::Arr(items) && (exists|n: u64|
                (#[trigger] e.count.spec_count_ok(n)) && items.len() <= n && (e.unique_by@.len()
                    == 0 ==> items.len() == n))))),
            (self.entities matches Some(es) ==> (self.root is None && r is Ok ==> (r matches Ok(
                v,
            ) && v@ matches JsonV::Obj(out) && out.len() == es@.len() && (forall|j: int|
                0 <= j < out.len() ==> (#[trigger] out[j]).0 == es@[j].0@)))),
            (self.root matches Some(e) ==> (r matches Ok(v) ==> spec_entity_value_ok(e, v@))),
            (self.entities matches Some(es) ==> (self.root is None ==> (r matches Ok(v) ==> (v@
                matches JsonV::Obj(out) && (forall|j: int|
                0 <= j < out.len() ==> spec_entity_value_ok(
                    es@[j].1,
                    (#[trigger] out[j]).1,
                )))))),
            self.root is Some ==> final(config).store() == old(config).store(),
            self.root is None && self.entities is None ==> final(config).store() == old(
                config,
            ).store(),
            (self.entities matches Some(es) ==> (self.root is None && r is Ok ==> (r matches Ok(
                v,
            ) && v@ matches JsonV::Obj(out) && final(config).store() == old(config).store()
                + out))),
    {
        if let Some(root) = &self.root {
            return root.generate(config, None);
        }
        if let Some(entities) = &self.entities {
            return generate_entities(entities, config, None);
        }
        Ok(JsonValue::Null)
    }
}

/// The members of an object's entry list, as the association list its views
/// form.
pub open spec fn spec_members_of(entries: Seq<(String, JsonValue)>) -> Seq<(Seq<char>, JsonV)> {
    Seq::new(
        entries.len(),
        |i: int|
            if 0 <= i < entries.len() {
                (entries[i].0@, entries[i].1@)
            } else {
                (Seq::empty(), JsonV::Null)
            },
    )
}

/// Finds the member index of `key` in an object's entry list: the first
/// matching member, exactly as a lookup among the views would find it.
fn member_index(entries: &Vec<(String, JsonValue)>, key: &str) -> (r: Option<usize>)
    ensures
        match r {
            Some(ix) => ix < entries@.len() && spec_member_index(
                spec_members_of(entries@),
                key@,
            ) == ix && spec_member(spec_members_of(entries@), key@) == Some(
                entries@[ix as int].1@,
            ),
            None => spec_member(spec_members_of(entries@), key@) is None,
        },
{
    let ghost ges = spec_members_of(entries@);
    let mut i: usize = 0;
    while i < entries.len()
        invariant
            0 <= i <= entries@.len(),
            ges == spec_members_of(entries@),
            forall|j: int| 0 <= j < i ==> entries@[j].0@ != key@,
        decreases entries@.len() - i,
    {
        if str_eq(entries[i].0.as_str(), key) {
            proof {
                lemma_member_index_first(ges, key@, i as int);
                lemma_member_index_range(ges, key@);
            }
            return Some(i);
        }
        i = i + 1;
    }
    proof {
        lemma_member_index_range(ges, key@);
    }
    None
}

/// Reads a whole number as micro-units, refusing one that the fixed-point
/// range cannot carry.
fn int_to_micros(i: i64) -> (r: Result<i64, String>)
    ensures
        (r is Ok) <==> (-9223372036854 <= i <= 9223372036854),
        r matches Ok(m) ==> m == i * 1000000,
{
    if -9223372036854 <= i && i <= 9223372036854 {
        Ok(i * 1000000)
    } else {
        Err(String::from_str("A numeric literal cannot be represented"))
    }
}

/// Reads a JSON number as micro-units.  Exactly the well-shaped bounds are
/// accepted, to the value they denote.
fn number_to_micros(v: &JsonValue) -> (r: Result<i64, String>)
    ensures
        (r is Ok) <==> spec_micros_ok(v@),
        r matches Ok(m) ==> m == spec_micros_val(v@),
{
    match v {
        JsonValue::Int(i) => int_to_micros(*i),
        JsonValue::Dec(m) => Ok(*m),
        _ => Err(String::from_str("Expected a number")),
    }
}

/// What a count value denotes, if its shape is right: a non-negative whole
/// number, or a two-element array of them.
pub open spec fn spec_count_of(v: JsonV) -> Option<Count> {
    match v {
        JsonV::Int(i) => if i >= 0 {
            Some(Count::Fixed(i as u64))
        } else {
            None
        },
        JsonV::Arr(bs) => if bs.len() == 2 && (bs[0] matches JsonV::Int(a) && a >= 0) && (bs[1]
            matches JsonV::Int(b) && b >= 0) {
            Some(Count::Range(bs[0]->Int_0 as u64, bs[1]->Int_0 as u64))
        } else {
            None
        },
        _ => None,
    }
}

/// Whether a value reads as a bound of a number specification: a whole
/// number the fixed-point range can carry, or a decimal.
pub open spec fn spec_micros_ok(w: JsonV) -> bool {
    match w {
        JsonV::Int(i) => -9223372036854 <= i <= 9223372036854,
        JsonV::Dec(_) => true,
        _ => false,
    }
}

/// The micro-units a well-shaped bound denotes.
pub open spec fn spec_micros_val(w: JsonV) -> int {
    match w {
        JsonV::Int(i) => i * 1000000,
        JsonV::Dec(m) => m as int,
        _ => 0,
    }
}

/// A probability in micro-units, clamped into `[0, 1000000]`.
pub open spec fn spec_clamp_prob(x: int) -> int {
    if x <= 0 {
        0
    } else if x >= 1000000 {
        1000000
    } else {
        x
    }
}

/// Whether a value reads as a number specification: `min` and `max` bounds,
/// and at most a boolean `integer` flag.
pub open spec fn spec_number_shape_ok(v: JsonV) -> bool {
    match v {
        JsonV::Obj(es) => {
            &&& (match spec_member(es, "min"@) {
                Some(w) => spec_micros_ok(w),
                None => false,
            })
            &&& (match spec_member(es, "max"@) {
                Some(w) => spec_micros_ok(w),
                None => false,
            })
            &&& (match spec_member(es, "integer"@) {
                Some(w) => w is Bool,
                None => true,
            })
        },
        _ => false,
    }
}

/// Whether a value reads as a schema field: a scalar, or an object carrying
/// one of the structural members, whichever is discovered first.
pub open spec fn spec_field_shape_ok(v: JsonV) -> bool
    decreases v, 1int,
{
    match v {
        JsonV::Arr(_) => false,
        JsonV::Obj(es) => {
            let ia = spec_member_index(es, "array"@);
            let ifl = spec_member_index(es, "fields"@);
            let inu = spec_member_index(es, "number"@);
            let iop = spec_member_index(es, "optional"@);
            let irf = spec_member_index(es, "ref"@);
            if 0 <= ia < es.len() {
                spec_array_shape_ok(es[ia].1)
            } else if 0 <= ifl < es.len() {
                spec_entity_shape_ok(v)
            } else if 0 <= inu < es.len() {
                spec_number_shape_ok(es[inu].1)
            } else if 0 <= iop < es.len() {
                spec_optional_shape_ok(es[iop].1)
            } else if 0 <= irf < es.len() {
                es[irf].1 is Str
            } else {
                false
            }
        },
        _ => true,
    }
}

/// Whether a value reads as an array specification: an element under `of`,
/// at most a count.
pub open spec fn spec_array_shape_ok(v: JsonV) -> bool
    decreases v, 0int,
{
    match v {
        JsonV::Obj(es) => {
            let iof = spec_member_index(es, "of"@);
            &&& 0 <= iof < es.len()
            &&& spec_field_shape_ok(es[iof].1)
            &&& (match spec_member(es, "count"@) {
                Some(w) => spec_count_of(w) is Some,
                None => true,
            })
        },
        _ => false,
    }
}

/// Whether a value reads as an optional specification: a field under `of`,
/// at most a numeric probability.
pub open spec fn spec_optional_shape_ok(v: JsonV) -> bool
    decreases v, 0int,
{
    match v {
        JsonV::Obj(es) => {
            let iof = spec_member_index(es, "of"@);
            &&& 0 <= iof < es.len()
            &&& spec_field_shape_ok(es[iof].1)
            &&& (match spec_member(es, "prob"@) {
                Some(w) => spec_micros_ok(w),
                None => true,
            })
        },
        _ => false,
    }
}

/// Whether a value reads as an entity: well-shaped head members and a
/// `fields` object of well-shaped fields.
pub open spec fn spec_entity_shape_ok(v: JsonV) -> bool
    decreases v, 0int,
{
    match v {
        JsonV::Obj(es) => {
            let ifx = spec_member_index(es, "fields"@);
            &&& (match spec_member(es, "count"@) {
                Some(w) => spec_count_of(w) is Some,
                None => true,
            })
            &&& (match spec_member(es, "seed"@) {
                Some(w) => w matches JsonV::Int(s) && s >= 0,
                None => true,
            })
            &&& (match spec_member(es, "unique_by"@) {
                Some(w) => w matches JsonV::Arr(names) && (forall|j: int|
                    0 <= j < names.len() ==> (#[trigger] names[j]) is Str),
                None => true,
            })
            &&& 0 <= ifx < es.len()
            &&& (match es[ifx].1 {
                JsonV::Obj(fs) => forall|j: int|
                    0 <= j < fs.len() ==> spec_field_shape_ok((#[trigger] fs[j]).1),
                _ => false,
            })
        },
        _ => false,
    }
}

/// Whether a value reads as a whole schema document.
pub open spec fn spec_schema_shape_ok(v: JsonV) -> bool
    decreases v, 1int,
{
    match v {
        JsonV::Obj(es) => {
            let irt = spec_member_index(es, "root"@);
            let ien = spec_member_index(es, "entities"@);
            &&& (match spec_member(es, "$format"@) {
                Some(w) => w is Str,
                None => false,
            })
            &&& (match spec_member(es, "version"@) {
                Some(w) => w is Str,
                None => false,
            })
            &&& (match spec_member(es, "seed"@) {
                Some(w) => w matches JsonV::Int(s) && s >= 0,
                None => true,
            })
            &&& (match spec_member(es, "defaultLocale"@) {
                Some(w) => w is Str,
                None => true,
            })
            &&& (0 <= irt < es.len() ==> spec_entity_shape_ok(es[irt].1))
            &&& (0 <= ien < es.len() ==> (match es[ien].1 {
                JsonV::Obj(ns) => forall|j: int|
                    0 <= j < ns.len() ==> spec_entity_shape_ok((#[trigger] ns[j]).1),
                _ => false,
            }))
        },
        _ => false,
    }
}

/// Reads a count: a whole number, or a two-element `[low, high]` array.
/// Exactly the well-shaped values are accepted, to what they denote.
fn json_to_count(v: &JsonValue) -> (r: Result<Count, String>)
    ensures
        r matches Ok(c) ==> spec_count_of(v@) == Some(c),
        r is Err ==> spec_count_of(v@) is None,
{
    match v {
        JsonValue::Int(i) => {
            if *i >= 0 {
                Ok(Count::Fixed(*i as u64))
            } else {
                Err(String::from_str("A count cannot be negative"))
            }
        },
        JsonValue::Arr(items) => {
            if items.len() != 2 {
                return Err(String::from_str("A count range needs two bounds"));
            }
            proof {
                lemma_view_variants(items@[0]);
                lemma_view_variants(items@[1]);
            }
            let lo: u64 = match &items[0] {
                JsonValue::Int(a) => {
                    if *a >= 0 {
                        *a as u64
                    } else {
                        return Err(String::from_str("A count cannot be negative"));
                    }
                },
                _ => {
                    return Err(String::from_str("A count bound must be a whole number"));
                },
            };
            let hi: u64 = match &items[1] {
                JsonValue::Int(b) => {
                    if *b >= 0 {
                        *b as u64
                    } else {
                        return Err(String::from_str("A count cannot be negative"));
                    }
                },
                _ => {
                    return Err(String::from_str("A count bound must be a whole number"));
                },
            };
            Ok(Count::Range(lo, hi))
        },
        _ => Err(String::from_str("A count must be a number or a range")),
    }
}

/// Reads one schema field node out of a JSON value.
///
/// Scalars stand for themselves.  An object is, in this order of discovery,
/// an array specification, a nested entity, a number specification, an
/// optional specification, or a reference.  Exactly the well-shaped values
/// are accepted, and the variant mirrors the shape: scalars carry over
/// unchanged, a reference carries its path, a number its bounds and flag.
pub fn json_to_field(v: &JsonValue) -> (r: Result<Field, String>)
    ensures
        (r is Ok) <==> spec_field_shape_ok(v@),
        r matches Ok(f) ==> (match v@ {
            JsonV::Null => f is Null,
            JsonV::Bool(b) => f == Field::Bool(b),
            JsonV::Int(i) => f == Field::I64(i),
            JsonV::Dec(m) => f == Field::Dec(m),
            JsonV::Str(s) => f matches Field::Str(t) && t@ == s,
            JsonV::Arr(_) => false,
            JsonV::Obj(es) => {
                let ia = spec_member_index(es, "array"@);
                let ifl = spec_member_index(es, "fields"@);
                let inu = spec_member_index(es, "number"@);
                let iop = spec_member_index(es, "optional"@);
                let irf = spec_member_index(es, "ref"@);
                if 0 <= ia < es.len() {
                    f is Array
                } else if 0 <= ifl < es.len() {
                    f is Entity
                } else if 0 <= inu < es.len() {
                    f matches Field::Number { number } && (es[inu].1 matches JsonV::Obj(nes)
                        && number.min == spec_micros_val(spec_member(nes, "min"@)->0)
                        && number.max == spec_micros_val(spec_member(nes, "max"@)->0))
                } else if 0 <= iop < es.len() {
                    f is Optional
                } else {
                    f matches Field::Ref { ref_path } && es[irf].1 matches JsonV::Str(p)
                        && ref_path@ == p
                }
            },
        }),
    decreases *v, 1int,
{
    match v {
        JsonValue::Null => Ok(Field::Null),
        JsonValue::Bool(b) => Ok(Field::Bool(*b)),
        JsonValue::Int(i) => Ok(Field::I64(*i)),
        JsonValue::Dec(m) => Ok(Field::Dec(*m)),
        JsonValue::Str(s) => Ok(Field::Str(s.clone())),
        JsonValue::Arr(_) => Err(String::from_str("A field cannot be a plain array")),
        JsonValue::Obj(entries) => {
            proof {
                assert(v@->Obj_0 =~= spec_members_of(entries@));
            }
            if let Some(ix) = member_index(entries, "array") {
                proof {
                    assert(decreases_to!(*v => *entries));
                    assert(decreases_to!(*entries => entries@[ix as int]));
                }
                let spec_value = &entries[ix].1;
                match json_to_array_spec(spec_value) {
                    Ok(a) => Ok(Field::Array { array: a }),
                    Err(e) => Err(e),
                }
            } else if member_index(entries, "fields").is_some() {
                match json_to_entity(v) {
                    Ok(e) => Ok(Field::Entity(Box::new(e))),
                    Err(e) => Err(e),
                }
            } else if let Some(ix) = member_index(entries, "number") {
                let spec_value = &entries[ix].1;
                match json_to_number_spec(spec_value) {
                    Ok(n) => Ok(Field::Number { number: n }),
                    Err(e) => Err(e),
                }
            } else if let Some(ix) = member_index(entries, "optional") {
                proof {
                    assert(decreases_to!(*v => *entries));
                    assert(decreases_to!(*entries => entries@[ix as int]));
                }
                let spec_value = &entries[ix].1;
                match json_to_optional_spec(spec_value) {
                    Ok(o) => Ok(Field::Optional { optional: o }),
                    Err(e) => Err(e),
                }
            } else if let Some(ix) = member_index(entries, "ref") {
                proof {
                    lemma_view_variants(entries@[ix as int].1);
                }
                match &entries[ix].1 {
                    JsonValue::Str(path) => Ok(Field::Ref { ref_path: path.clone() }),
                    _ => Err(String::from_str("A reference must be a string path")),
                }
            } else {
                Err(String::from_str("Unrecognized field shape"))
            }
        },
    }
}

/// Reads an array specification: the element under `of`, the count under
/// `count` when present.  Exactly the well-shaped specifications are
/// accepted, with the count they denote.
fn json_to_array_spec(v: &JsonValue) -> (r: Result<ArraySpec, String>)
    ensures
        (r is Ok) <==> spec_array_shape_ok(v@),
        r matches Ok(a) ==> (v@ matches JsonV::Obj(es) && (match spec_member(es, "count"@) {
            Some(w) => spec_count_of(w) == Some(a.count->0) && a.count is Some,
            None => a.count is None,
        })),
    decreases *v, 0int,
{
    match v {
        JsonValue::Obj(entries) => {
            proof {
                assert(v@->Obj_0 =~= spec_members_of(entries@));
            }
            let of_ix = match member_index(entries, "of") {
                Some(ix) => ix,
                None => {
                    return Err(String::from_str("An array needs an element under of"));
                },
            };
            proof {
                assert(decreases_to!(*v => *entries));
                assert(decreases_to!(*entries => entries@[of_ix as int]));
            }
            let of = match json_to_field(&entries[of_ix].1) {
                Ok(f) => f,
                Err(e) => {
                    return Err(e);
                },
            };
            let count: Option<Count> = match member_index(entries, "count") {
                Some(cix) => {
                    match json_to_count(&entries[cix].1) {
                        Ok(c) => Some(c),
                        Err(e) => {
                            return Err(e);
                        },
                    }
                },
                None => None,
            };
            Ok(ArraySpec { of: Box::new(of), count })
        },
        _ => Err(String::from_str("An array specification must be an object")),
    }
}

/// Reads a number specification: `min`, `max`, and the optional `integer`
/// flag.  Exactly the well-shaped specifications are accepted, with the
/// bounds and flag they denote.
fn json_to_number_spec(v: &JsonValue) -> (r: Result<NumberSpec, String>)
    ensures
        (r is Ok) <==> spec_number_shape_ok(v@),
        r matches Ok(n) ==> (v@ matches JsonV::Obj(es) && {
            &&& n.min == spec_micros_val(spec_member(es, "min"@)->0)
            &&& n.max == spec_micros_val(spec_member(es, "max"@)->0)
            &&& n.integer == (match spec_member(es, "integer"@) {
                Some(w) => w == JsonV::Bool(true),
                None => false,
            })
        }),
{
    match v {
        JsonValue::Obj(entries) => {
            proof {
                assert(v@->Obj_0 =~= spec_members_of(entries@));
            }
            let min: i64 = match member_index(entries, "min") {
                Some(ix) => {
                    match number_to_micros(&entries[ix].1) {
                        Ok(m) => m,
                        Err(e) => {
                            return Err(e);
                        },
                    }
                },
                None => {
                    return Err(String::from_str("A number needs min"));
                },
            };
            let max: i64 = match member_index(entries, "max") {
                Some(ix) => {
                    match number_to_micros(&entries[ix].1) {
                        Ok(m) => m,
                        Err(e) => {
                            return Err(e);
                        },
                    }
                },
                None => {
                    return Err(String::from_str("A number needs max"));
                },
            };
            let integer: bool = match member_index(entries, "integer") {
                Some(ix) => {
                    proof {
                        lemma_view_variants(entries@[ix as int].1);
                    }
                    match &entries[ix].1 {
                        JsonValue::Bool(b) => *b,
                        _ => {
                            return Err(String::from_str("integer must be a boolean"));
                        },
                    }
                },
                None => false,
            };
            Ok(NumberSpec { min, max, integer })
        },
        _ => Err(String::from_str("A number specification must be an object")),
    }
}

/// Reads an optional specification: the field under `of`, the probability
/// under `prob` in `[0, 1]`, half when absent.  Exactly the well-shaped
/// specifications are accepted, with the probability they denote, clamped.
fn json_to_optional_spec(v: &JsonValue) -> (r: Result<OptionalSpec, String>)
    ensures
        (r is Ok) <==> spec_optional_shape_ok(v@),
        r matches Ok(o) ==> (v@ matches JsonV::Obj(es) && o.prob == (match spec_member(
            es,
            "prob"@,
        ) {
            Some(w) => spec_clamp_prob(spec_micros_val(w)),
            None => 500000int,
        })),
    decreases *v, 0int,
{
    match v {
        JsonValue::Obj(entries) => {
            proof {
                assert(v@->Obj_0 =~= spec_members_of(entries@));
            }
            let of_ix = match member_index(entries, "of") {
                Some(ix) => ix,
                None => {
                    return Err(String::from_str("An optional needs a field under of"));
                },
            };
            proof {
                assert(decreases_to!(*v => *entries));
                assert(decreases_to!(*entries => entries@[of_ix as int]));
            }
            let of = match json_to_field(&entries[of_ix].1) {
                Ok(f) => f,
                Err(e) => {
                    return Err(e);
                },
            };
            let prob: u32 = match member_index(entries, "prob") {
                Some(pix) => {
                    match number_to_micros(&entries[pix].1) {
                        Ok(m) => {
                            if m <= 0 {
                                0
                            } else if m >= 1000000 {
                                1000000
                            } else {
                                m as u32
                            }
                        },
                        Err(e) => {
                            return Err(e);
                        },
                    }
                },
                None => 500000,
            };
            Ok(OptionalSpec { of: Box::new(of), prob })
        },
        _ => Err(String::from_str("An optional specification must be an object")),
    }
}

/// Reads a list of unique-field names: every element must be a string.
fn parse_unique_names(names: &Vec<JsonValue>) -> (r: Result<Vec<String>, String>)
    ensures
        (r is Ok) <==> (forall|j: int| 0 <= j < names@.len() ==> (#[trigger] names@[j])@ is Str),
        r matches Ok(u) ==> (u@.len() == names@.len() && (forall|j: int|
            0 <= j < u@.len() ==> ((#[trigger] names@[j])@ matches JsonV::Str(t) && u@[j]@ == t))),
{
    let mut out: Vec<String> = Vec::new();
    let mut i: usize = 0;
    while i < names.len()
        invariant
            0 <= i <= names@.len(),
            out@.len() == i,
            forall|j: int|
                0 <= j < i ==> ((#[trigger] names@[j])@ matches JsonV::Str(t) && out@[j]@ == t),
        decreases names@.len() - i,
    {
        proof {
            lemma_view_variants(names@[i as int]);
        }
        match &names[i] {
            JsonValue::Str(name) => {
                out.push(name.clone());
            },
            _ => {
                return Err(String::from_str("unique_by must hold field names"));
            },
        }
        i = i + 1;
    }
    Ok(out)
}

/// Reads an ordered field map: one schema field per member, in order.
/// Exactly the maps whose every member is well shaped are accepted.
fn parse_field_map(field_entries: &Vec<(String, JsonValue)>) -> (r: Result<
    Vec<(String, Field)>,
    String,
>)
    ensures
        (r is Ok) <==> (forall|j: int|
            0 <= j < field_entries@.len() ==> spec_field_shape_ok(
                (#[trigger] field_entries@[j]).1@,
            )),
        r matches Ok(fs) ==> (fs@.len() == field_entries@.len() && (forall|j: int|
            0 <= j < fs@.len() ==> (#[trigger] fs@[j]).0@ == field_entries@[j].0@)),
    decreases *field_entries, 0int,
{
    let mut out: Vec<(String, Field)> = Vec::new();
    let mut i: usize = 0;
    while i < field_entries.len()
        invariant
            0 <= i <= field_entries@.len(),
            out@.len() == i,
            forall|j: int| 0 <= j < i ==> (#[trigger] out@[j]).0@ == field_entries@[j].0@,
            forall|j: int|
                0 <= j < i ==> spec_field_shape_ok((#[trigger] field_entries@[j]).1@),
        decreases field_entries@.len() - i,
    {
        let key = field_entries[i].0.clone();
        proof {
            assert(decreases_to!(*field_entries => field_entries@[i as int]));
            assert(decreases_to!(field_entries@[i as int] => field_entries@[i as int].1));
        }
        let f = match json_to_field(&field_entries[i].1) {
            Ok(f) => f,
            Err(e) => {
                return Err(e);
            },
        };
        out.push((key, f));
        i = i + 1;
    }
    Ok(out)
}

/// Reads an entity: optional `count` and `seed`, the `unique_by` name list,
/// and the ordered `fields` map.  The head of what comes back mirrors the
/// document: the count it denotes, the seed when one is given, the unique
/// field names in order, and one field per `fields` member, in order.
pub fn json_to_entity(v: &JsonValue) -> (r: Result<Entity, String>)
    ensures
        (r is Ok) <==> spec_entity_shape_ok(v@),
        r matches Ok(e) ==> (v@ matches JsonV::Obj(es) && {
            &&& match spec_member(es, "count"@) {
                Some(w) => spec_count_of(w) == Some(e.count->0) && e.count is Some,
                None => e.count is None,
            }
            &&& match spec_member(es, "seed"@) {
                Some(w) => w matches JsonV::Int(s) && s >= 0 && e.seed == Some(s as u64),
                None => e.seed is None,
            }
            &&& match spec_member(es, "unique_by"@) {
                Some(w) => (w matches JsonV::Arr(names) && e.unique_by@.len() == names.len() && (
                forall|j: int|
                    0 <= j < names.len() ==> (#[trigger] names[j] matches JsonV::Str(t)
                        && e.unique_by@[j]@ == t))),
                None => e.unique_by@.len() == 0,
            }
            &&& (spec_member(es, "fields"@) matches Some(w) && w matches JsonV::Obj(fs)
                && e.fields@.len() == fs.len() && (forall|j: int|
                0 <= j < fs.len() ==> (#[trigger] e.fields@[j]).0@ == fs[j].0))
        }),
    decreases *v, 0int,
{
    match v {
        JsonValue::Obj(entries) => {
            proof {
                assert(v@->Obj_0 =~= spec_members_of(entries@));
            }
            let count: Option<Count> = match member_index(entries, "count") {
                Some(ix) => {
                    match json_to_count(&entries[ix].1) {
                        Ok(c) => Some(c),
                        Err(e) => {
                            return Err(e);
                        },
                    }
                },
                None => None,
            };
            let seed: Option<u64> = match member_index(entries, "seed") {
                Some(ix) => {
                    proof {
                        lemma_view_variants(entries@[ix as int].1);
                    }
                    match &entries[ix].1 {
                        JsonValue::Int(s) => {
                            if *s >= 0 {
                                Some(*s as u64)
                            } else {
                                return Err(String::from_str("A seed cannot be negative"));
                            }
                        },
                        _ => {
                            return Err(String::from_str("A seed must be a whole number"));
                        },
                    }
                },
                None => None,
            };
            let unique_by: Vec<String> = match member_index(entries, "unique_by") {
                Some(ix) => {
                    proof {
                        lemma_view_variants(entries@[ix as int].1);
                    }
                    match &entries[ix].1 {
                        JsonValue::Arr(names) => {
                            match parse_unique_names(names) {
                                Ok(u) => u,
                                Err(e) => {
                                    proof {
                                        let w = entries@[ix as int].1@;
                                        assert(forall|j: int|
                                            0 <= j < names@.len() ==> w->Arr_0[j] == (
                                            #[trigger] names@[j])@);
                                        let jbad = choose|j: int|
                                            0 <= j < names@.len() && !((#[trigger] names@[j])@
                                                is Str);
                                        assert(!(w->Arr_0[jbad] is Str));
                                        assert(!spec_entity_shape_ok(v@));
                                    }
                                    return Err(e);
                                },
                            }
                        },
                        _ => {
                            return Err(String::from_str("unique_by must be a list"));
                        },
                    }
                },
                None => Vec::new(),
            };
            let fields_ix = match member_index(entries, "fields") {
                Some(ix) => ix,
                None => {
                    return Err(String::from_str("An entity needs fields"));
                },
            };
            proof {
                assert(decreases_to!(*v => *entries));
                assert(decreases_to!(*entries => entries@[fields_ix as int]));
                assert(decreases_to!(entries@[fields_ix as int] => entries@[
                    fields_ix as int].1));
                lemma_view_variants(entries@[fields_ix as int].1);
            }
            let fields = match &entries[fields_ix].1 {
                JsonValue::Obj(field_entries) => {
                    proof {
                        assert(entries@[fields_ix as int].1@->Obj_0 =~= spec_members_of(
                            field_entries@,
                        ));
                    }
                    match parse_field_map(field_entries) {
                        Ok(fs) => fs,
                        Err(e) => {
                            proof {
                                let w = entries@[fields_ix as int].1@;
                                assert(forall|j: int|
                                    0 <= j < field_entries@.len() ==> w->Obj_0[j].1 == (
                                    #[trigger] field_entries@[j]).1@);
                                let jbad = choose|j: int|
                                    0 <= j < field_entries@.len() && !spec_field_shape_ok(
                                        (#[trigger] field_entries@[j]).1@,
                                    );
                                assert(!spec_field_shape_ok(w->Obj_0[jbad].1));
                                assert(!spec_entity_shape_ok(v@));
                            }
                            return Err(e);
                        },
                    }
                },
                _ => {
                    return Err(String::from_str("fields must be an object"));
                },
            };
            Ok(Entity { count, seed, unique_by, fields })
        },
        _ => Err(String::from_str("An entity must be an object")),
    }
}

/// Reads a named entity collection: one entity per member, in order.
/// Exactly the collections whose every member is well shaped are accepted.
fn parse_entities(named: &Vec<(String, JsonValue)>) -> (r: Result<Vec<(String, Entity)>, String>)
    ensures
        (r is Ok) <==> (forall|j: int|
            0 <= j < named@.len() ==> spec_entity_shape_ok((#[trigger] named@[j]).1@)),
        r matches Ok(es) ==> (es@.len() == named@.len() && (forall|j: int|
            0 <= j < es@.len() ==> (#[trigger] es@[j]).0@ == named@[j].0@)),
    decreases *named, 0int,
{
    let mut out: Vec<(String, Entity)> = Vec::new();
    let mut i: usize = 0;
    while i < named.len()
        invariant
            0 <= i <= named@.len(),
            out@.len() == i,
            forall|j: int| 0 <= j < i ==> (#[trigger] out@[j]).0@ == named@[j].0@,
            forall|j: int| 0 <= j < i ==> spec_entity_shape_ok((#[trigger] named@[j]).1@),
        decreases named@.len() - i,
    {
        let name = named[i].0.clone();
        proof {
            assert(decreases_to!(*named => named@[i as int]));
            assert(decreases_to!(named@[i as int] => named@[i as int].1));
        }
        let e = match json_to_entity(&named[i].1) {
            Ok(e) => e,
            Err(e) => {
                return Err(e);
            },
        };
        out.push((name, e));
        i = i + 1;
    }
    Ok(out)
}

/// Reads a whole schema document out of a JSON value: the required format
/// and version tags, the optional seed and locale, and one of `root` or
/// `entities`.  Exactly the well-shaped documents are accepted, and what
/// comes back mirrors the document head exactly: the format and version
/// texts, the seed when one is given, the locale with its default, and the
/// presence of each mode.
pub fn schema_from_json(v: &JsonValue) -> (r: Result<Jgd, String>)
    ensures
        (r is Ok) <==> spec_schema_shape_ok(v@),
        r matches Ok(j) ==> (v@ matches JsonV::Obj(es) && {
            &&& (spec_member(es, "$format"@) matches Some(w) && w matches JsonV::Str(t)
                && j.format@ == t)
            &&& (spec_member(es, "version"@) matches Some(w) && w matches JsonV::Str(t)
                && j.version@ == t)
            &&& match spec_member(es, "seed"@) {
                Some(w) => w matches JsonV::Int(s) && s >= 0 && j.seed == Some(s as u64),
                None => j.seed is None,
            }
            &&& match spec_member(es, "defaultLocale"@) {
                Some(w) => w matches JsonV::Str(t) && j.default_locale@ == t,
                None => j.default_locale@ == "EN"@,
            }
            &&& (spec_member(es, "root"@) is Some <==> j.root is Some)
            &&& (spec_member(es, "entities"@) is Some <==> j.entities is Some)
        }),
{
    match v {
        JsonValue::Obj(entries) => {
            proof {
                assert(v@->Obj_0 =~= spec_members_of(entries@));
            }
            let format: String = match member_index(entries, "$format") {
                Some(ix) => {
                    proof {
                        lemma_view_variants(entries@[ix as int].1);
                    }
                    match &entries[ix].1 {
                        JsonValue::Str(s) => s.clone(),
                        _ => {
                            return Err(String::from_str("$format must be a string"));
                        },
                    }
                },
                None => {
                    return Err(String::from_str("A schema needs $format"));
                },
            };
            let version: String = match member_index(entries, "version") {
                Some(ix) => {
                    proof {
                        lemma_view_variants(entries@[ix as int].1);
                    }
                    match &entries[ix].1 {
                        JsonValue::Str(s) => s.clone(),
                        _ => {
                            return Err(String::from_str("version must be a string"));
                        },
                    }
                },
                None => {
                    return Err(String::from_str("A schema needs version"));
                },
            };
            let seed: Option<u64> = match member_index(entries, "seed") {
                Some(ix) => {
                    proof {
                        lemma_view_variants(entries@[ix as int].1);
                    }
                    match &entries[ix].1 {
                        JsonValue::Int(s) => {
                            if *s >= 0 {
                                Some(*s as u64)
                            } else {
                                return Err(String::from_str("A seed cannot be negative"));
                            }
                        },
                        _ => {
                            return Err(String::from_str("A seed must be a whole number"));
                        },
                    }
                },
                None => None,
            };
            let locale: String = match member_index(entries, "defaultLocale") {
                Some(ix) => {
                    proof {
                        lemma_view_variants(entries@[ix as int].1);
                    }
                    match &entries[ix].1 {
                        JsonValue::Str(s) => s.clone(),
                        _ => {
                            return Err(String::from_str("defaultLocale must be a string"));
                        },
                    }
                },
                None => default_locale(),
            };
            let root: Option<Entity> = match member_index(entries, "root") {
                Some(ix) => {
                    match json_to_entity(&entries[ix].1) {
                        Ok(e) => Some(e),
                        Err(e) => {
                            return Err(e);
                        },
                    }
                },
                None => None,
            };
            let entities: Option<Vec<(String, Entity)>> = match member_index(entries, "entities") {
                Some(ix) => {
                    proof {
                        lemma_view_variants(entries@[ix as int].1);
                    }
                    match &entries[ix].1 {
                        JsonValue::Obj(named) => {
                            proof {
                                assert(entries@[ix as int].1@->Obj_0 =~= spec_members_of(named@));
                            }
                            match parse_entities(named) {
                                Ok(out) => Some(out),
                                Err(e) => {
                                    proof {
                                        let w = entries@[ix as int].1@;
                                        assert(forall|j: int|
                                            0 <= j < named@.len() ==> w->Obj_0[j].1 == (
                                            #[trigger] named@[j]).1@);
                                        let jbad = choose|j: int|
                                            0 <= j < named@.len() && !spec_entity_shape_ok(
                                                (#[trigger] named@[j]).1@,
                                            );
                                        assert(!spec_entity_shape_ok(w->Obj_0[jbad].1));
                                        assert(!spec_schema_shape_ok(v@));
                                    }
                                    return Err(e);
                                },
                            }
                        },
                        _ => {
                            return Err(String::from_str("entities must be an object"));
                        },
                    }
                },
                None => None,
            };
            Ok(Jgd { format, version, seed, default_locale: locale, entities, root })
        },
        _ => Err(String::from_str("A schema must be an object")),
    }
}

} // verus!
