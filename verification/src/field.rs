//! The schema tree and its evaluator.
//!
//! A [`Field`] is one node of the schema: an array of a sub-field, a nested
//! entity, a ranged number, a probability-gated optional, a reference to an
//! earlier entity, a literal string possibly holding placeholders, or a plain
//! literal.  Evaluation dispatches on the variant, threading the generation
//! context; any nested failure aborts the whole call with no partial result.

use vstd::prelude::*;
use vstd::string::StringExecFns;
use crate::value::{JsonValue, JsonV, spec_member};
use crate::config::{GeneratorConfig, LocalConfig, spec_split, spec_walk, spec_walk_get, spec_walk_total};
use crate::error::JgdGeneratorError;
use crate::count::{Count, GetCount};
use crate::number::NumberSpec;
use crate::entity::Entity;
use crate::replacer::{ReplacerCollection, spec_scan, spec_template_resolvable};
use crate::rng::Prng;
use crate::number::spec_trunc;

verus! {

/// The scale of probabilities: this many micro-units mean certainty.
pub const PROB_SCALE: u32 = 1000000;

/// An array of elements generated from one sub-field.
pub struct ArraySpec {
    /// The element specification.
    pub of: Box<Field>,
    /// How many elements; absent means one.
    pub count: Option<Count>,
}

/// A value generated with a given probability, null otherwise.
pub struct OptionalSpec {
    /// The wrapped specification.
    pub of: Box<Field>,
    /// The probability of generating the value, in micro-units of one:
    /// `0` never, `1000000` always.
    pub prob: u32,
}

/// One node of the schema tree.
pub enum Field {
    /// An array of a repeated sub-field.
    Array { array: ArraySpec },
    /// A nested record.
    Entity(Box<Entity>),
    /// A ranged number.
    Number { number: NumberSpec },
    /// A probability-gated value.
    Optional { optional: OptionalSpec },
    /// A dot-separated reference into an earlier entity.
    Ref { ref_path: String },
    /// A literal string, possibly holding placeholders.
    Str(String),
    /// A literal boolean.
    Bool(bool),
    /// A literal whole number.
    I64(i64),
    /// A literal decimal, the value times one million.
    Dec(i64),
    /// The literal null.
    Null,
}

/// Whether evaluating a field can never fail: literals always succeed, a
/// placeholder-free string passes through, a number needs a non-empty range,
/// arrays and optionals are as safe as what they wrap, and a nested entity
/// as safe as its fields.  References and templated strings may fail at run
/// time, so they never count as safe.
pub open spec fn spec_field_total(f: Field) -> bool
    decreases f,
{
    match f {
        Field::Array { array } => spec_field_total(*array.of),
        Field::Entity(e) => spec_entity_total(*e),
        Field::Number { number } => if number.integer {
            spec_trunc(number.min as int) <= spec_trunc(number.max as int)
        } else {
            number.min <= number.max
        },
        Field::Optional { optional } => spec_field_total(*optional.of),
        Field::Ref { ref_path } => false,
        Field::Str(s) => spec_scan(s@, 0).len() == 0,
        Field::Bool(_) => true,
        Field::I64(_) => true,
        Field::Dec(_) => true,
        Field::Null => true,
    }
}

/// Whether every field of an ordered field map is safe.
pub open spec fn spec_fields_total(fields: Seq<(String, Field)>) -> bool
    decreases fields,
{
    forall|j: int| 0 <= j < fields.len() ==> spec_field_total((#[trigger] fields[j]).1)
}

/// Whether generating an entity can never fail.
pub open spec fn spec_entity_total(e: Entity) -> bool
    decreases e,
{
    spec_fields_total(e.fields@)
}

/// The law a generated value obeys for its field specification: literals
/// carry over unchanged, numbers lie in their range, arrays hold as many
/// law-abiding elements as their count allows, optionals are null or
/// law-abiding, nested entities obey their own law.  A reference may carry
/// any stored value, and a templated string any substitution result.
pub open spec fn spec_field_value_ok(f: Field, v: JsonV) -> bool
    decreases f,
{
    match f {
        Field::Bool(b) => v == JsonV::Bool(b),
        Field::I64(i) => v == JsonV::Int(i),
        Field::Dec(m) => v == JsonV::Dec(m),
        Field::Null => v is Null,
        Field::Str(s) => if spec_scan(s@, 0).len() == 0 {
            v == JsonV::Str(s@)
        } else if spec_scan(s@, 0)[0].length == s@.len() {
            true
        } else {
            v is Str
        },
        Field::Number { number } => if number.integer {
            v matches JsonV::Int(k) && spec_trunc(number.min as int) <= k <= spec_trunc(
                number.max as int,
            )
        } else {
            v matches JsonV::Dec(m2) && number.min <= m2 <= number.max
        },
        Field::Array { array } => v matches JsonV::Arr(items) && array.count.spec_count_ok(
            items.len() as u64,
        ) && (forall|j: int|
            0 <= j < items.len() ==> spec_field_value_ok(*array.of, #[trigger] items[j])),
        Field::Optional { optional } => v is Null || spec_field_value_ok(*optional.of, v),
        Field::Ref { ref_path } => true,
        Field::Entity(e) => spec_entity_value_ok(*e, v),
    }
}

/// The law an object of generated members obeys for an ordered field map:
/// one member per field, in order, each obeying its field's law.
pub open spec fn spec_fields_value_ok(
    fields: Seq<(String, Field)>,
    ms: Seq<(Seq<char>, JsonV)>,
) -> bool
    decreases fields,
{
    &&& ms.len() == fields.len()
    &&& (forall|j: int|
        0 <= j < fields.len() ==> ((#[trigger] ms[j]).0 == fields[j].0@ && spec_field_value_ok(
            fields[j].1,
            ms[j].1,
        )))
}

/// The law an entity's output obeys: a bare law-abiding record without a
/// count, an array of law-abiding records with one.
pub open spec fn spec_entity_value_ok(e: Entity, v: JsonV) -> bool
    decreases e,
{
    match e.count {
        None => v matches JsonV::Obj(ms) && spec_fields_value_ok(e.fields@, ms),
        Some(_) => v matches JsonV::Arr(items) && (forall|j: int|
            0 <= j < items.len() ==> ((#[trigger] items[j]) matches JsonV::Obj(ms)
                && spec_fields_value_ok(e.fields@, ms))),
    }
}

/// Whether the probability gate passes: certainty always does, impossibility
/// never, anything between at its rate.
pub fn prob_gate(rng: &mut Prng, prob: u32) -> (r: bool)
    ensures
        prob == 0 ==> !r,
        prob >= PROB_SCALE ==> r,
{
    let k = rng.next_u64_in(0, 999999);
    k < prob as u64
}

impl Field {
    /// Evaluates this node to a value.
    ///
    /// Literals pass through unchanged; the other variants draw from the
    /// run's stream.  The store of completed entities is read, never changed.
    pub fn generate(&self, config: &mut GeneratorConfig, local: &mut LocalConfig) -> (r: Result<
        JsonValue,
        JgdGeneratorError,
    >)
        ensures
            final(config).store() == old(config).store(),
            final(config).customs() == old(config).customs(),
            final(config).gen_value == old(config).gen_value,
            final(config).custom_values == old(config).custom_values,
            final(config).fake_keys == old(config).fake_keys,
            final(config).fake_generator == old(config).fake_generator,
            final(config).locale == old(config).locale,
            (*self matches Field::Bool(b) ==> (r matches Ok(v) && v@ == JsonV::Bool(b))),
            (*self matches Field::I64(i) ==> (r matches Ok(v) && v@ == JsonV::Int(i))),
            (*self matches Field::Dec(m) ==> (r matches Ok(v) && v@ == JsonV::Dec(m))),
            (*self is Null ==> (r matches Ok(v) && v@ is Null)),
            (*self matches Field::Optional { optional } && optional.prob == 0 ==> (r matches Ok(v)
                && v@ is Null)),
            (*self matches Field::Number { number } ==> ((r is Ok) <==> (if number.integer {
                spec_trunc(number.min as int) <= spec_trunc(number.max as int)
            } else {
                number.min <= number.max
            }))),
            (*self matches Field::Number { number } ==> (number.integer && r is Ok ==> (r
                matches Ok(v) && v@ matches JsonV::Int(k) && spec_trunc(number.min as int) <= k
                <= spec_trunc(number.max as int)))),
            (*self matches Field::Number { number } ==> (!number.integer && r is Ok ==> (r
                matches Ok(v) && v@ matches JsonV::Dec(m) && number.min <= m <= number.max))),
            spec_field_total(*self) ==> r is Ok,
            r matches Ok(v) ==> spec_field_value_ok(*self, v@),
            ((*self is Bool || *self is I64 || *self is Dec || *self is Null)
                ==> final(config).rng == old(config).rng),
            (*self matches Field::Str(s) ==> (spec_scan(s@, 0).len() == 0 ==> (r matches Ok(v)
                && v@ == JsonV::Str(s@) && final(config).rng == old(config).rng))),
            (*self matches Field::Str(s) ==> ((r is Err) <==> !spec_template_resolvable(
                s@,
                old(config).customs(),
            ))),
            (*self matches Field::Ref { ref_path } ==> (r matches Err(e) ==> e.message@
                == "The path "@ + ref_path@ + " is not found"@)),
            (*self matches Field::Ref { ref_path } ==> (r matches Ok(v) ==> ({
                let segs = spec_split(ref_path@, '.');
                spec_member(old(config).store(), segs[0]) matches Some(root) && spec_walk(
                    root,
                    segs.skip(1),
                    v@,
                )
            }))),
            (*self matches Field::Ref { ref_path } ==> ({
                let segs = spec_split(ref_path@, '.');
                match spec_member(old(config).store(), segs[0]) {
                    Some(root) => {
                        &&& (spec_walk_total(root, segs.skip(1)) ==> r is Ok)
                        &&& (match spec_walk_get(root, segs.skip(1)) {
                            Some(out) => r matches Ok(v) && v@ == out && final(config).rng == old(
                                config,
                            ).rng,
                            None => true,
                        })
                    },
                    None => r is Err,
                }
            })),
        decreases *self,
    {
        match self {
            Field::Array { array } => array.generate(config, local),
            Field::Entity(entity) => entity.generate(config, Some(local)),
            Field::Number { number } => number.generate(config),
            Field::Optional { optional } => optional.generate(config, local),
            Field::Ref { ref_path } => generate_for_ref(ref_path.as_str(), config, local),
            Field::Str(value) => generate_string(value, config, local),
            Field::Bool(b) => Ok(JsonValue::Bool(*b)),
            Field::I64(i) => Ok(JsonValue::Int(*i)),
            Field::Dec(m) => Ok(JsonValue::Dec(*m)),
            Field::Null => Ok(JsonValue::Null),
        }
    }
}

impl ArraySpec {
    /// Evaluates to an array: the resolved count decides the length, and the
    /// element specification is evaluated that many times, in order.
    pub fn generate(&self, config: &mut GeneratorConfig, local: &mut LocalConfig) -> (r: Result<
        JsonValue,
        JgdGeneratorError,
    >)
        ensures
            final(config).store() == old(config).store(),
            final(config).customs() == old(config).customs(),
            final(config).gen_value == old(config).gen_value,
            final(config).custom_values == old(config).custom_values,
            final(config).fake_keys == old(config).fake_keys,
            final(config).fake_generator == old(config).fake_generator,
            final(config).locale == old(config).locale,
            spec_field_total(*self.of) ==> r is Ok,
            (r matches Ok(v) ==> (v@ matches JsonV::Arr(items) && self.count.spec_count_ok(
                items.len() as u64,
            ) && items.len() <= u64::MAX && (forall|j: int|
                0 <= j < items.len() ==> spec_field_value_ok(*self.of, #[trigger] items[j])))),
        decreases *self,
    {
        let n = self.count.count(config);
        let mut items: Vec<JsonValue> = Vec::new();
        let mut i: u64 = 0;
        while i < n
            invariant
                0 <= i <= n,
                items@.len() == i,
                self.count.spec_count_ok(n),
                forall|j: int|
                    0 <= j < i ==> spec_field_value_ok(*self.of, (#[trigger] items@[j])@),
                config.gen_value == old(config).gen_value,
                config.custom_values == old(config).custom_values,
                config.fake_keys == old(config).fake_keys,
                config.fake_generator == old(config).fake_generator,
                config.locale == old(config).locale,
            decreases n - i,
        {
            proof {
                assert(decreases_to!(*self => *self.of));
            }
            let element = match self.of.generate(config, local) {
                Ok(v) => v,
                Err(e) => {
                    return Err(e);
                },
            };
            items.push(element);
            i = i + 1;
        }
        let r = JsonValue::Arr(items);
        proof {
            assert(r@ matches JsonV::Arr(got) && got.len() == n);
        }
        Ok(r)
    }
}

impl OptionalSpec {
    /// Evaluates to the wrapped field's value when the probability gate
    /// passes, to null otherwise.  A probability of zero always yields null.
    pub fn generate(&self, config: &mut GeneratorConfig, local: &mut LocalConfig) -> (r: Result<
        JsonValue,
        JgdGeneratorError,
    >)
        ensures
            final(config).store() == old(config).store(),
            final(config).customs() == old(config).customs(),
            final(config).gen_value == old(config).gen_value,
            final(config).custom_values == old(config).custom_values,
            final(config).fake_keys == old(config).fake_keys,
            final(config).fake_generator == old(config).fake_generator,
            final(config).locale == old(config).locale,
            spec_field_total(*self.of) ==> r is Ok,
            r matches Ok(v) ==> (v@ is Null || spec_field_value_ok(*self.of, v@)),
            self.prob == 0 ==> (r matches Ok(v) && v@ is Null),
            (*self.of matches Field::Bool(b) ==> (self.prob >= PROB_SCALE ==> (r matches Ok(v)
                && v@ == JsonV::Bool(b)))),
            (*self.of matches Field::I64(i) ==> (self.prob >= PROB_SCALE ==> (r matches Ok(v)
                && v@ == JsonV::Int(i)))),
            (*self.of matches Field::Dec(m) ==> (self.prob >= PROB_SCALE ==> (r matches Ok(v)
                && v@ == JsonV::Dec(m)))),
            (*self.of matches Field::Str(s) ==> (self.prob >= PROB_SCALE && spec_scan(
                s@,
                0,
            ).len() == 0 ==> (r matches Ok(v) && v@ == JsonV::Str(s@)))),
            (*self.of matches Field::Number { number } ==> (self.prob >= PROB_SCALE
                && number.integer && spec_trunc(number.min as int) <= spec_trunc(
                number.max as int,
            ) ==> (r matches Ok(v) && v@ matches JsonV::Int(k) && spec_trunc(number.min as int)
                <= k <= spec_trunc(number.max as int)))),
        decreases *self,
    {
        if prob_gate(&mut config.rng, self.prob) {
            proof {
                assert(decreases_to!(*self => *self.of));
            }
            self.of.generate(config, local)
        } else {
            Ok(JsonValue::Null)
        }
    }
}

/// Resolves a reference field: looks the dot-separated path up in the store
/// of completed entities.  A value that comes back lies in the referenced
/// entity at the referenced member; a path that does not resolve is an error
/// naming it.
fn generate_for_ref(ref_path: &str, config: &mut GeneratorConfig, local: &LocalConfig) -> (r:
    Result<JsonValue, JgdGeneratorError>)
    ensures
        final(config).store() == old(config).store(),
        final(config).customs() == old(config).customs(),
        final(config).gen_value == old(config).gen_value,
        final(config).custom_values == old(config).custom_values,
        final(config).fake_keys == old(config).fake_keys,
        final(config).fake_generator == old(config).fake_generator,
        final(config).locale == old(config).locale,
        (r matches Err(e) ==> e.message@ == "The path "@ + ref_path@ + " is not found"@),
        (r matches Ok(v) ==> ({
            let segs = spec_split(ref_path@, '.');
            spec_member(old(config).store(), segs[0]) matches Some(root) && spec_walk(
                root,
                segs.skip(1),
                v@,
            )
        })),
        ({
            let segs = spec_split(ref_path@, '.');
            match spec_member(old(config).store(), segs[0]) {
                Some(root) => {
                    &&& (spec_walk_total(root, segs.skip(1)) ==> r is Ok)
                    &&& (match spec_walk_get(root, segs.skip(1)) {
                        Some(out) => r matches Ok(v) && v@ == out && final(config).rng == old(
                            config,
                        ).rng,
                        None => true,
                    })
                },
                None => r is Err,
            }
        }),
{
    match config.get_value_from_path(ref_path) {
        Some(v) => Ok(v),
        None => {
            let mut message = String::from_str("The path ");
            message.append(ref_path);
            message.append(" is not found");
            let entity = match &local.entity_name {
                Some(e) => Some(e.clone()),
                None => None,
            };
            let field = match &local.field_name {
                Some(f) => Some(f.clone()),
                None => None,
            };
            Err(JgdGeneratorError { message, entity, field })
        },
    }
}

/// Evaluates a literal string: text without placeholders passes through
/// unchanged, text with them goes through template substitution.
fn generate_string(value: &String, config: &mut GeneratorConfig, local: &LocalConfig) -> (r:
    Result<JsonValue, JgdGeneratorError>)
    ensures
        final(config).store() == old(config).store(),
        final(config).customs() == old(config).customs(),
        final(config).gen_value == old(config).gen_value,
        final(config).custom_values == old(config).custom_values,
        final(config).fake_keys == old(config).fake_keys,
        final(config).fake_generator == old(config).fake_generator,
        final(config).locale == old(config).locale,
        spec_scan(value@, 0).len() == 0 ==> (r matches Ok(v) && v@ == JsonV::Str(value@)
            && final(config).rng == old(config).rng),
        (spec_scan(value@, 0).len() > 0 && spec_scan(value@, 0)[0].length != value@.len() && r
            is Ok) ==> (r matches Ok(v) && v@ is Str),
        (r is Err) <==> !spec_template_resolvable(value@, old(config).customs()),
{
    let replacers = ReplacerCollection::new(value.clone());
    if replacers.is_empty() {
        return Ok(JsonValue::Str(value.clone()));
    }
    replacers.replace(config, Some(local))
}

/// Evaluates an ordered field map to an object: one member per field, in
/// declaration order, each the value of its field.
pub fn generate_fields(
    fields: &Vec<(String, Field)>,
    config: &mut GeneratorConfig,
    local: &mut LocalConfig,
) -> (r: Result<JsonValue, JgdGeneratorError>)
    ensures
        final(config).store() == old(config).store(),
        final(config).customs() == old(config).customs(),
        final(config).gen_value == old(config).gen_value,
        final(config).custom_values == old(config).custom_values,
        final(config).fake_keys == old(config).fake_keys,
        final(config).fake_generator == old(config).fake_generator,
        final(config).locale == old(config).locale,
        spec_fields_total(fields@) ==> r is Ok,
        (r matches Ok(v) ==> (v@ matches JsonV::Obj(entries) && spec_fields_value_ok(
            fields@,
            entries,
        ))),
        (r matches Ok(v) ==> (v@ matches JsonV::Obj(entries) && entries.len() == fields@.len()
            && (forall|j: int|
            0 <= j < entries.len() ==> (#[trigger] entries[j]).0 == fields@[j].0@))),
    decreases *fields,
{
    let mut out: Vec<(String, JsonValue)> = Vec::new();
    let mut i: usize = 0;
    while i < fields.len()
        invariant
            0 <= i <= fields@.len(),
            out@.len() == i,
            forall|j: int| 0 <= j < i ==> (#[trigger] out@[j]).0@ == fields@[j].0@,
            forall|j: int|
                0 <= j < i ==> spec_field_value_ok(fields@[j].1, (#[trigger] out@[j]).1@),
            config.gen_value == old(config).gen_value,
            config.custom_values == old(config).custom_values,
            config.fake_keys == old(config).fake_keys,
            config.fake_generator == old(config).fake_generator,
            config.locale == old(config).locale,
        decreases fields@.len() - i,
    {
        let key = fields[i].0.clone();
        local.field_name = Some(fields[i].0.clone());
        proof {
            assert(decreases_to!(*fields => fields@[i as int]));
            assert(decreases_to!(fields@[i as int] => fields@[i as int].1));
        }
        let value = match fields[i].1.generate(config, local) {
            Ok(v) => v,
            Err(e) => {
                return Err(e);
            },
        };
        out.push((key, value));
        i = i + 1;
    }
    let r = JsonValue::Obj(out);
    proof {
        assert(r@ matches JsonV::Obj(entries) && entries.len() == fields@.len() && (forall|j: int|
            0 <= j < entries.len() ==> (#[trigger] entries[j]).0 == fields@[j].0@));
    }
    Ok(r)
}

} // verus!
