//! Named record generation, with uniqueness enforcement.
//!
//! An entity resolves its cardinality, then fills its field map once per
//! record.  With a non-empty `unique_by` list, each candidate's fingerprint —
//! the joined `field:value` pairs over those fields — must be new; duplicates
//! are retried up to a fixed bound, and when the bound is exhausted the
//! collection simply stops short of the requested cardinality rather than
//! failing the run.  An absent cardinality produces one bare object, not a
//! one-element array.

use vstd::prelude::*;
use vstd::string::StringExecFns;
use crate::value::{JsonValue, JsonV, spec_member, str_eq};
use crate::config::{GeneratorConfig, LocalConfig};
use crate::error::JgdGeneratorError;
use crate::count::{Count, GetCount};
use crate::field::{
    Field, generate_fields, spec_entity_total, spec_entity_value_ok, spec_fields_value_ok,
};
use crate::jsontext::{spec_json_text, json_to_string, spec_dec_str, dec_to_string};
use crate::numfmt::{spec_i64_str, i64_to_string};
use crate::rng::Prng;

verus! {

broadcast use vstd::std_specs::vec::group_vec_axioms;

/// How many candidates one record slot may try before the collection stops
/// short.
pub const MAX_ATTEMPTS: u64 = 1000;

/// A value as it appears inside a fingerprint: a string stays bare, a number
/// or boolean prints canonically, anything structured prints as JSON.
pub open spec fn spec_fp_value(v: JsonV) -> Seq<char> {
    match v {
        JsonV::Str(s) => s,
        JsonV::Int(i) => spec_i64_str(i as int),
        JsonV::Dec(m) => spec_dec_str(m as int),
        JsonV::Bool(b) => if b {
            "true"@
        } else {
            "false"@
        },
        JsonV::Null => "null"@,
        _ => spec_json_text(v),
    }
}

/// One `field:value` fingerprint part; an absent field reads `missing`.
pub open spec fn spec_fp_part(entries: Seq<(Seq<char>, JsonV)>, f: Seq<char>) -> Seq<char> {
    match spec_member(entries, f) {
        Some(w) => f + ":"@ + spec_fp_value(w),
        None => f + ":missing"@,
    }
}

/// The parts over the given fields, joined with `|`.
pub open spec fn spec_fp_parts(entries: Seq<(Seq<char>, JsonV)>, fs: Seq<Seq<char>>) -> Seq<char>
    decreases fs.len(),
{
    if fs.len() == 0 {
        Seq::empty()
    } else if fs.len() == 1 {
        spec_fp_part(entries, fs[0])
    } else {
        spec_fp_parts(entries, fs.drop_last()) + "|"@ + spec_fp_part(entries, fs.last())
    }
}

/// The fingerprint of a candidate record over the given fields.  Only an
/// object has field values to read; any other shape fingerprints empty.
pub open spec fn spec_fingerprint(v: JsonV, fs: Seq<Seq<char>>) -> Seq<char> {
    match v {
        JsonV::Obj(entries) => spec_fp_parts(entries, fs),
        _ => Seq::empty(),
    }
}

/// The views of a list of field names.
pub open spec fn spec_names(fields: Seq<String>) -> Seq<Seq<char>> {
    Seq::new(
        fields.len(),
        |i: int|
            if 0 <= i < fields.len() {
                fields[i]@
            } else {
                Seq::empty()
            },
    )
}

/// Computes the fingerprint of a candidate record over the given fields.
pub fn fingerprint(obj: &JsonValue, unique_fields: &Vec<String>) -> (r: String)
    ensures
        r@ == spec_fingerprint(obj@, spec_names(unique_fields@)),
{
    let ghost fs = spec_names(unique_fields@);
    match obj {
        JsonValue::Obj(_) => {
            let ghost entries = obj@->Obj_0;
            let mut out = String::new();
            let mut i: usize = 0;
            while i < unique_fields.len()
                invariant
                    0 <= i <= unique_fields@.len(),
                    fs == spec_names(unique_fields@),
                    fs.len() == unique_fields@.len(),
                    forall|j: int| 0 <= j < fs.len() ==> fs[j] == (
                    #[trigger] unique_fields@[j])@,
                    obj@ matches JsonV::Obj(e) && e == entries,
                    out@ == spec_fp_parts(entries, fs.subrange(0, i as int)),
                decreases unique_fields@.len() - i,
            {
                if i > 0 {
                    out.append("|");
                }
                let f = unique_fields[i].as_str();
                out.append(f);
                match obj.member(f) {
                    Some(w) => {
                        out.append(":");
                        let t = fp_value_text(w);
                        out.append(t.as_str());
                    },
                    None => {
                        out.append(":missing");
                    },
                }
                proof {
                    let pre = fs.subrange(0, i as int);
                    let cur = fs.subrange(0, i + 1 as int);
                    assert(cur.drop_last() =~= pre);
                    assert(cur.last() == fs[i as int]);
                    if i == 0 {
                        assert(cur.len() == 1 && cur[0] == fs[0]);
                        assert(out@ =~= spec_fp_parts(entries, cur));
                    } else {
                        assert(out@ =~= spec_fp_parts(entries, cur));
                    }
                }
                i = i + 1;
            }
            proof {
                assert(fs.subrange(0, fs.len() as int) =~= fs);
            }
            out
        },
        _ => {
            let out = String::new();
            out
        },
    }
}

/// Renders one value for a fingerprint.
fn fp_value_text(v: &JsonValue) -> (r: String)
    ensures
        r@ == spec_fp_value(v@),
{
    match v {
        JsonValue::Str(s) => s.clone(),
        JsonValue::Int(i) => i64_to_string(*i),
        JsonValue::Dec(m) => dec_to_string(*m),
        JsonValue::Bool(b) => {
            if *b {
                let mut out = String::new();
                out.append("true");
                out
            } else {
                let mut out = String::new();
                out.append("false");
                out
            }
        },
        JsonValue::Null => {
            let mut out = String::new();
            out.append("null");
            out
        },
        _ => json_to_string(v),
    }
}

/// Whether the set already holds this fingerprint.
fn contains_str(set: &Vec<String>, s: &str) -> (r: bool)
    ensures
        r == (exists|t: int| 0 <= t < set@.len() && (#[trigger] set@[t])@ == s@),
{
    let mut i: usize = 0;
    while i < set.len()
        invariant
            0 <= i <= set@.len(),
            forall|t: int| 0 <= t < i ==> (#[trigger] set@[t])@ != s@,
        decreases set@.len() - i,
    {
        if str_eq(set[i].as_str(), s) {
            return true;
        }
        i = i + 1;
    }
    false
}

/// A named record specification: cardinality, an optional dedicated seed,
/// the fields whose combination must stay unique, and the ordered field map.
pub struct Entity {
    /// How many records; absent means one bare object.
    pub count: Option<Count>,
    /// A dedicated seed for this entity's candidate stream.
    pub seed: Option<u64>,
    /// Fields whose joined values must differ between accepted records.
    pub unique_by: Vec<String>,
    /// The fields of each record, in declaration order.
    pub fields: Vec<(String, Field)>,
}

impl Entity {
    /// Generates this entity's records.
    ///
    /// An absent cardinality yields the single record itself; a present one
    /// yields an array of as many accepted records, fewer only under
    /// uniqueness pressure — and exactly as many when `unique_by` is empty.
    /// No two accepted records of a uniqueness-constrained entity share a
    /// fingerprint.  The store of completed entities is read, never changed.
    pub fn generate(&self, config: &mut GeneratorConfig, local: Option<&LocalConfig>) -> (r:
        Result<JsonValue, JgdGeneratorError>)
        ensures
            final(config).store() == old(config).store(),
            final(config).customs() == old(config).customs(),
            final(config).gen_value == old(config).gen_value,
            final(config).custom_values == old(config).custom_values,
            final(config).fake_keys == old(config).fake_keys,
            final(config).fake_generator == old(config).fake_generator,
            final(config).locale == old(config).locale,
            spec_entity_total(*self) ==> r is Ok,
            r matches Ok(v) ==> spec_entity_value_ok(*self, v@),
            self.seed is Some ==> final(config).rng.state == self.count.spec_count_state(
                old(config).rng.state,
            ),
            (self.count is None && r is Ok) ==> (r matches Ok(v) && v@ matches JsonV::Obj(ms)
                && ms.len() == self.fields@.len() && (forall|j: int|
                0 <= j < ms.len() ==> (#[trigger] ms[j]).0 == self.fields@[j].0@)),
            (self.count is Some && r is Ok) ==> (r matches Ok(v) && v@ matches JsonV::Arr(items)
                && (exists|n: u64|
                (#[trigger] self.count.spec_count_ok(n)) && items.len() <= n && (
                self.unique_by@.len() == 0 ==> items.len() == n))),
            (self.count is Some && self.unique_by@.len() > 0 && r is Ok) ==> (r matches Ok(v)
                && v@ matches JsonV::Arr(items) && (forall|i: int, j: int|
                0 <= i < j < items.len() ==> spec_fingerprint(
                    #[trigger] items[i],
                    spec_names(self.unique_by@),
                ) != spec_fingerprint(#[trigger] items[j], spec_names(self.unique_by@)))),
        decreases *self,
    {
        let count_items = self.count.count(config);
        let ent_rng: Option<Prng> = match self.seed {
            Some(s) => Some(Prng::seed_from_u64(s)),
            None => None,
        };
        let mut local2 = LocalConfig::from_current_with_config(ent_rng, count_items, local);
        let saved: Option<Prng> = match self.seed {
            Some(s) => {
                let old_rng = config.rng;
                config.rng = Prng::seed_from_u64(s);
                Some(old_rng)
            },
            None => None,
        };
        let ghost ub = spec_names(self.unique_by@);
        let mut items: Vec<JsonValue> = Vec::new();
        let mut fps: Vec<String> = Vec::new();
        let mut i: u64 = 0;
        let mut exhausted = false;
        while i < count_items && !exhausted
            invariant
                self.seed is Some <==> saved is Some,
                saved matches Some(p) ==> p.state == self.count.spec_count_state(
                    old(config).rng.state,
                ),
                0 <= i <= count_items,
                items@.len() <= i,
                self.unique_by@.len() == 0 && !exhausted ==> items@.len() == i,
                ub == spec_names(self.unique_by@),
                self.count is None ==> items@.len() == 0,
                self.count is None ==> i == 0,
                forall|t: int|
                    0 <= t < items@.len() ==> ((#[trigger] items@[t])@ matches JsonV::Obj(ms)
                        && spec_fields_value_ok(self.fields@, ms)),
                exhausted ==> self.count is Some,
                exhausted ==> self.unique_by@.len() > 0,
                self.count.spec_count_ok(count_items),
                self.unique_by@.len() > 0 ==> fps@.len() == items@.len(),
                self.unique_by@.len() == 0 ==> fps@.len() == 0,
                forall|t: int|
                    0 <= t < fps@.len() && t < items@.len() ==> (#[trigger] fps@[t])@
                        == spec_fingerprint(items@[t]@, ub),
                forall|t1: int, t2: int|
                    0 <= t1 < t2 < fps@.len() ==> (#[trigger] fps@[t1])@ != (
                    #[trigger] fps@[t2])@,
                config.gen_value == old(config).gen_value,
                config.custom_values == old(config).custom_values,
                config.fake_keys == old(config).fake_keys,
                config.fake_generator == old(config).fake_generator,
                config.locale == old(config).locale,
                self.count is None ==> count_items == 1,
            decreases count_items - i,
        {
            local2.set_index(#[verifier::truncate] (i as usize));
            let mut accepted: Option<JsonValue> = None;
            let mut attempt: u64 = 0;
            while attempt < MAX_ATTEMPTS && accepted.is_none()
                invariant
                self.seed is Some <==> saved is Some,
                saved matches Some(p) ==> p.state == self.count.spec_count_state(
                    old(config).rng.state,
                ),
                    0 <= attempt <= MAX_ATTEMPTS,
                    ub == spec_names(self.unique_by@),
                    self.count is None ==> items@.len() == 0,
                    forall|t: int|
                        0 <= t < fps@.len() && t < items@.len() ==> (#[trigger] fps@[t])@
                            == spec_fingerprint(items@[t]@, ub),
                    forall|t1: int, t2: int|
                        0 <= t1 < t2 < fps@.len() ==> (#[trigger] fps@[t1])@ != (
                        #[trigger] fps@[t2])@,
                    self.unique_by@.len() == 0 ==> fps@.len() == 0,
                    accepted is None && self.unique_by@.len() > 0 ==> fps@.len() == items@.len(),
                    accepted is Some && self.unique_by@.len() > 0 ==> fps@.len() == items@.len()
                        + 1,
                    accepted matches Some(c) ==> (self.unique_by@.len() > 0 ==> fps@.last()@
                        == spec_fingerprint(c@, ub)),
                    accepted matches Some(c) ==> (c@ matches JsonV::Obj(ms) && ms.len()
                        == self.fields@.len() && spec_fields_value_ok(self.fields@, ms) && (
                    forall|j: int|
                        0 <= j < ms.len() ==> (#[trigger] ms[j]).0 == self.fields@[j].0@)),
                    accepted is None ==> (attempt == 0 || fps@.len() > 0),
                    forall|t: int|
                        0 <= t < items@.len() ==> ((#[trigger] items@[t])@ matches JsonV::Obj(
                            ms,
                        ) && spec_fields_value_ok(self.fields@, ms)),
                    config.gen_value == old(config).gen_value,
                    config.custom_values == old(config).custom_values,
                    config.fake_keys == old(config).fake_keys,
                    config.fake_generator == old(config).fake_generator,
                    config.locale == old(config).locale,
                decreases MAX_ATTEMPTS - attempt,
            {
                attempt = attempt + 1;
                proof {
                    assert(decreases_to!(*self => self.fields));
                }
                let candidate = match generate_fields(&self.fields, config, &mut local2) {
                    Ok(v) => v,
                    Err(e) => {
                        if let Some(old_rng) = saved {
                            config.rng = old_rng;
                        }
                        return Err(e);
                    },
                };
                if self.unique_by.len() == 0 {
                    accepted = Some(candidate);
                } else {
                    let fp = fingerprint(&candidate, &self.unique_by);
                    if !contains_str(&fps, fp.as_str()) {
                        fps.push(fp);
                        accepted = Some(candidate);
                    }
                }
            }
            match accepted {
                Some(obj) => {
                    if self.count.is_none() {
                        if let Some(old_rng) = saved {
                            config.rng = old_rng;
                        }
                        proof {
                            assert(obj@ is Obj);
                        }
                        return Ok(obj);
                    }
                    items.push(obj);
                },
                None => {
                    proof {
                        assert(attempt == MAX_ATTEMPTS);
                        assert(fps@.len() > 0);
                        assert(self.unique_by@.len() > 0);
                        assert(items@.len() > 0);
                        assert(self.count is Some);
                    }
                    exhausted = true;
                },
            }
            i = i + 1;
        }
        if let Some(old_rng) = saved {
            config.rng = old_rng;
        }
        let r = JsonValue::Arr(items);
        proof {
            assert(self.count.spec_count_ok(count_items));
            if self.unique_by@.len() > 0 {
                let got = r@->Arr_0;
                assert forall|t1: int, t2: int| 0 <= t1 < t2 < got.len() implies spec_fingerprint(
                    #[trigger] got[t1],
                    ub,
                ) != spec_fingerprint(#[trigger] got[t2], ub) by {
                    assert(got[t1] == items@[t1]@);
                    assert(got[t2] == items@[t2]@);
                    assert(fps@[t1]@ == spec_fingerprint(items@[t1]@, ub));
                    assert(fps@[t2]@ == spec_fingerprint(items@[t2]@, ub));
                }
            }
        }
        Ok(r)
    }

}

/// Generates a named collection of entities, in declaration order, storing
/// each completed one before the next begins, so that later entities may
/// reference earlier ones.  The result object holds one member per entity;
/// the store grows by exactly those members, in order.
pub fn generate_entities(
    entities: &Vec<(String, Entity)>,
    config: &mut GeneratorConfig,
    local: Option<&LocalConfig>,
) -> (r: Result<JsonValue, JgdGeneratorError>)
    ensures
        final(config).customs() == old(config).customs(),
        (forall|j: int|
            0 <= j < entities@.len() ==> spec_entity_total((#[trigger] entities@[j]).1)) ==> r
            is Ok,
        (r matches Ok(v) ==> (v@ matches JsonV::Obj(out) && (forall|j: int|
            0 <= j < out.len() ==> spec_entity_value_ok(
                entities@[j].1,
                (#[trigger] out[j]).1,
            )))),
        (r matches Ok(v) ==> (v@ matches JsonV::Obj(out) && out.len() == entities@.len() && (
        forall|j: int| 0 <= j < out.len() ==> (#[trigger] out[j]).0 == entities@[j].0@)
            && final(config).store() == old(config).store() + out)),
{
    let mut local2 = LocalConfig::from_current_with_config(None, 0, local);
    let mut out: Vec<(String, JsonValue)> = Vec::new();
    let mut i: usize = 0;
    while i < entities.len()
        invariant
            0 <= i <= entities@.len(),
            out@.len() == i,
            forall|j: int| 0 <= j < i ==> (#[trigger] out@[j]).0@ == entities@[j].0@,
            forall|j: int|
                0 <= j < i ==> spec_entity_value_ok(entities@[j].1, (#[trigger] out@[j]).1@),
            config.customs() == old(config).customs(),
            config.store() =~= old(config).store() + Seq::new(
                out@.len(),
                |j: int|
                    if 0 <= j < out@.len() {
                        (out@[j].0@, out@[j].1@)
                    } else {
                        (Seq::empty(), JsonV::Null)
                    },
            ),
        decreases entities@.len() - i,
    {
        let name = entities[i].0.clone();
        local2.entity_name = Some(entities[i].0.clone());
        let ghost pre_store = config.store();
        let generated = match entities[i].1.generate(config, Some(&local2)) {
            Ok(v) => v,
            Err(e) => {
                return Err(e);
            },
        };
        let copy = generated.deep_clone();
        let ghost pre2 = config.store();
        config.store_value(name.clone(), copy);
        out.push((name, generated));
        proof {
            assert(config.store() =~= old(config).store() + Seq::new(
                out@.len(),
                |j: int|
                    if 0 <= j < out@.len() {
                        (out@[j].0@, out@[j].1@)
                    } else {
                        (Seq::empty(), JsonV::Null)
                    },
            ));
        }
        i = i + 1;
    }
    let r = JsonValue::Obj(out);
    proof {
        let got = r@->Obj_0;
        assert(got.len() == entities@.len());
        assert(config.store() =~= old(config).store() + got);
    }
    Ok(r)
}

} // verus!
