//! The generation context.
//!
//! One run owns one [`GeneratorConfig`]: the seeded random stream, the value
//! catalog, a registry of custom keys, and the store of entities generated so
//! far, which later entities reach through dot-separated reference paths.
//! A [`LocalConfig`] rides along to name the entity and field being worked
//! on, so a failure can say where it arose.

use vstd::prelude::*;
use crate::rng::Prng;
use crate::value::{JsonValue, JsonV, spec_member, str_eq};
use crate::fake_keys::FakeKeys;
use crate::provider::FakeGenerator;
use crate::arguments::{spec_find1, lemma_find1_range};
use crate::strutil::chars_slice;
use crate::externs::entropy_u64;

verus! {

broadcast use vstd::std_specs::vec::group_vec_axioms;

/// Splits a sequence at every separator; one part more than separators.
pub open spec fn spec_split(s: Seq<char>, c: char) -> Seq<Seq<char>>
    decreases s.len(),
{
    let i = spec_find1(s, c);
    if 0 <= i < s.len() {
        seq![s.take(i)] + spec_split(s.skip(i + 1), c)
    } else {
        seq![s]
    }
}

/// One step of a reference walk: from value `v`, the segment `seg` reaches
/// `w`.  An object is entered at the member named by the segment; in an array
/// some element, an object, is entered the same way.
pub open spec fn spec_step(v: JsonV, seg: Seq<char>, w: JsonV) -> bool {
    match v {
        JsonV::Obj(es) => spec_member(es, seg) == Some(w),
        JsonV::Arr(items) => exists|i: int|
            #![trigger items[i]]
            {
                &&& 0 <= i < items.len()
                &&& items[i] matches JsonV::Obj(es) && spec_member(es, seg) == Some(w)
            },
        _ => false,
    }
}

/// What a walk through objects alone returns: entering the named member at
/// every step.  Any array on the way makes the outcome depend on the pick,
/// and this function returns nothing.
pub open spec fn spec_walk_get(v: JsonV, segs: Seq<Seq<char>>) -> Option<JsonV>
    decreases segs.len(),
{
    if segs.len() == 0 {
        Some(v)
    } else {
        match v {
            JsonV::Obj(es) => match spec_member(es, segs[0]) {
                Some(w) => spec_walk_get(w, segs.skip(1)),
                None => None,
            },
            _ => None,
        }
    }
}

/// Whether a walk succeeds whichever array elements are picked: every step
/// enters an object member, or a non-empty array all of whose elements are
/// objects carrying the member.
pub open spec fn spec_walk_total(v: JsonV, segs: Seq<Seq<char>>) -> bool
    decreases segs.len(),
{
    if segs.len() == 0 {
        true
    } else {
        match v {
            JsonV::Obj(es) => match spec_member(es, segs[0]) {
                Some(w) => spec_walk_total(w, segs.skip(1)),
                None => false,
            },
            JsonV::Arr(items) => items.len() > 0 && (forall|i: int|
                0 <= i < items.len() ==> (match #[trigger] items[i] {
                    JsonV::Obj(es) => match spec_member(es, segs[0]) {
                        Some(w) => spec_walk_total(w, segs.skip(1)),
                        None => false,
                    },
                    _ => false,
                })),
            _ => false,
        }
    }
}

/// Whether following the segments from `v` can end at `out`.
pub open spec fn spec_walk(v: JsonV, segs: Seq<Seq<char>>, out: JsonV) -> bool
    decreases segs.len(),
{
    if segs.len() == 0 {
        out == v
    } else {
        exists|w: JsonV| #[trigger] spec_step(v, segs[0], w) && spec_walk(w, segs.skip(1), out)
    }
}

/// A walk to `b` followed by one step to `c` is a walk to `c`.
pub proof fn lemma_walk_snoc(a: JsonV, p: Seq<Seq<char>>, b: JsonV, s: Seq<char>, c: JsonV)
    requires
        spec_walk(a, p, b),
        spec_step(b, s, c),
    ensures
        spec_walk(a, p.push(s), c),
    decreases p.len(),
{
    if p.len() == 0 {
        assert(b == a);
        assert(p.push(s)[0] == s);
        assert(p.push(s).skip(1) =~= Seq::<Seq<char>>::empty());
        assert(spec_step(a, p.push(s)[0], c) && spec_walk(c, p.push(s).skip(1), c));
    } else {
        let w = choose|w: JsonV| #[trigger] spec_step(a, p[0], w) && spec_walk(w, p.skip(1), b);
        lemma_walk_snoc(w, p.skip(1), b, s, c);
        assert(p.skip(1).push(s) =~= p.push(s).skip(1));
        assert(p.push(s)[0] == p[0]);
        assert(spec_step(a, p.push(s)[0], w) && spec_walk(w, p.push(s).skip(1), c));
    }
}

/// The mutable state of one generation run.
pub struct GeneratorConfig {
    /// The locale code the run was started with.
    pub locale: String,
    /// The catalog's key table.
    pub fake_keys: FakeKeys,
    /// The value catalog.
    pub fake_generator: FakeGenerator,
    /// The run's random stream.
    pub rng: Prng,
    /// Completed entities by name, in generation order.
    pub gen_value: Vec<(String, JsonValue)>,
    /// Custom keys and the values they resolve to.
    pub custom_values: Vec<(String, JsonValue)>,
}

impl GeneratorConfig {
    /// The store of completed entities as a mathematical association list.
    pub open spec fn store(&self) -> Seq<(Seq<char>, JsonV)> {
        Seq::new(
            self.gen_value@.len(),
            |i: int|
                if 0 <= i < self.gen_value@.len() {
                    (self.gen_value@[i].0@, self.gen_value@[i].1@)
                } else {
                    (Seq::empty(), JsonV::Null)
                },
        )
    }

    /// The registry of custom keys as a mathematical association list.
    pub open spec fn customs(&self) -> Seq<(Seq<char>, JsonV)> {
        Seq::new(
            self.custom_values@.len(),
            |i: int|
                if 0 <= i < self.custom_values@.len() {
                    (self.custom_values@[i].0@, self.custom_values@[i].1@)
                } else {
                    (Seq::empty(), JsonV::Null)
                },
        )
    }

    /// A fresh context: an explicit seed fixes the whole run; without one the
    /// machine's entropy seeds it.  The store starts empty.
    pub fn new(locale: &str, seed: Option<u64>) -> (r: GeneratorConfig)
        ensures
            r.locale@ == locale@,
            r.store() =~= Seq::<(Seq<char>, JsonV)>::empty(),
            r.customs() =~= Seq::<(Seq<char>, JsonV)>::empty(),
            seed matches Some(s) ==> r.rng.state == s,
    {
        let s: u64 = match seed {
            Some(s) => s,
            None => entropy_u64(),
        };
        GeneratorConfig {
            locale: locale.to_owned(),
            fake_keys: FakeKeys::new(),
            fake_generator: FakeGenerator::new(locale),
            rng: Prng::seed_from_u64(s),
            gen_value: Vec::new(),
            custom_values: Vec::new(),
        }
    }

    /// Records a completed entity under its name, at the end of the store.
    pub fn store_value(&mut self, name: String, value: JsonValue)
        ensures
            final(self).store() == old(self).store().push((name@, value@)),
            final(self).customs() == old(self).customs(),
            final(self).rng == old(self).rng,
            final(self).locale == old(self).locale,
            final(self).fake_keys == old(self).fake_keys,
    {
        let ghost pre = self.store();
        self.gen_value.push((name, value));
        proof {
            assert(self.store() =~= pre.push((name@, value@)));
            assert(self.customs() =~= old(self).customs());
        }
    }

    /// Registers a custom key and the value it resolves to.
    pub fn add_custom_key(&mut self, name: String, value: JsonValue)
        ensures
            final(self).customs() == old(self).customs().push((name@, value@)),
            final(self).store() == old(self).store(),
            final(self).rng == old(self).rng,
    {
        let ghost pre = self.customs();
        self.custom_values.push((name, value));
        proof {
            assert(self.customs() =~= pre.push((name@, value@)));
            assert(self.store() =~= old(self).store());
        }
    }

    /// The value a custom key resolves to, if the key is registered.
    pub fn get_custom_key(&self, key: &str) -> (r: Option<JsonValue>)
        ensures
            match r {
                Some(v) => spec_member(self.customs(), key@) == Some(v@),
                None => spec_member(self.customs(), key@) is None,
            },
    {
        let mut i: usize = 0;
        while i < self.custom_values.len()
            invariant
                0 <= i <= self.custom_values@.len(),
                forall|j: int| 0 <= j < i ==> self.custom_values@[j].0@ != key@,
            decreases self.custom_values@.len() - i,
        {
            if str_eq(self.custom_values[i].0.as_str(), key) {
                let v = self.custom_values[i].1.deep_clone();
                proof {
                    crate::value::lemma_member_index_first(self.customs(), key@, i as int);
                    crate::value::lemma_member_index_range(self.customs(), key@);
                }
                return Some(v);
            }
            i = i + 1;
        }
        proof {
            crate::value::lemma_member_index_range(self.customs(), key@);
        }
        None
    }

    /// Looks the first path segment up in the store of completed entities.
    fn store_lookup(&self, key: &str) -> (r: Option<&JsonValue>)
        ensures
            match r {
                Some(v) => spec_member(self.store(), key@) == Some(v@),
                None => spec_member(self.store(), key@) is None,
            },
    {
        let mut i: usize = 0;
        while i < self.gen_value.len()
            invariant
                0 <= i <= self.gen_value@.len(),
                forall|j: int| 0 <= j < i ==> self.gen_value@[j].0@ != key@,
            decreases self.gen_value@.len() - i,
        {
            if str_eq(self.gen_value[i].0.as_str(), key) {
                proof {
                    crate::value::lemma_member_index_first(self.store(), key@, i as int);
                    crate::value::lemma_member_index_range(self.store(), key@);
                }
                return Some(&self.gen_value[i].1);
            }
            i = i + 1;
        }
        proof {
            crate::value::lemma_member_index_range(self.store(), key@);
        }
        None
    }

    /// Resolves a dot-separated reference path against the store.
    ///
    /// The first segment names a completed entity; each further segment enters
    /// an object member, or first picks a random element of an array and then
    /// enters it.  Any value that comes back was reachable that way: it lies
    /// in the stored entity at the referenced member.  A path that resolves
    /// whichever elements the picks land on is owed a value; one that crosses
    /// only objects resolves to exactly the walked value, drawing nothing.
    pub fn get_value_from_path(&mut self, path: &str) -> (r: Option<JsonValue>)
        ensures
            final(self).gen_value == old(self).gen_value,
            final(self).custom_values == old(self).custom_values,
            final(self).fake_keys == old(self).fake_keys,
            final(self).fake_generator == old(self).fake_generator,
            final(self).locale == old(self).locale,
            final(self).store() == old(self).store(),
            final(self).customs() == old(self).customs(),
            ({
                let segs = spec_split(path@, '.');
                match r {
                    Some(v) => spec_member(old(self).store(), segs[0]) matches Some(root)
                        && spec_walk(root, segs.skip(1), v@),
                    None => true,
                }
            }),
            spec_member(old(self).store(), spec_split(path@, '.')[0]) is None ==> r is None,
            ({
                let segs = spec_split(path@, '.');
                match spec_member(old(self).store(), segs[0]) {
                    Some(root) => {
                        &&& (spec_walk_total(root, segs.skip(1)) ==> r is Some)
                        &&& (match spec_walk_get(root, segs.skip(1)) {
                            Some(out) => r matches Some(v) && v@ == out && final(self).rng == old(
                                self,
                            ).rng,
                            None => true,
                        })
                    },
                    None => r is None,
                }
            }),
    {
        let segs = split_string(path);
        proof {
            assert(spec_split(path@, '.').len() > 0) by {
                lemma_split_nonempty(path@, '.');
            }
        }
        let first = &segs[0];
        let root: JsonValue = match self.store_lookup(first.as_str()) {
            Some(v) => v.deep_clone(),
            None => {
                return None;
            },
        };
        let ghost groot = root@;
        let mut cur = root;
        let mut k: usize = 1;
        while k < segs.len()
            invariant
                1 <= k <= segs@.len(),
                segs@.len() == spec_split(path@, '.').len(),
                forall|j: int|
                    0 <= j < segs@.len() ==> (#[trigger] segs@[j])@ == spec_split(path@, '.')[j],
                spec_member(old(self).store(), spec_split(path@, '.')[0]) == Some(groot),
                spec_walk(groot, spec_split(path@, '.').subrange(1, k as int), cur@),
                spec_walk_total(groot, spec_split(path@, '.').skip(1)) ==> spec_walk_total(
                    cur@,
                    spec_split(path@, '.').skip(k as int),
                ),
                (spec_walk_get(groot, spec_split(path@, '.').skip(1)) matches Some(out) ==> (
                spec_walk_get(cur@, spec_split(path@, '.').skip(k as int)) == Some(out)
                    && self.rng == old(self).rng)),
                self.gen_value == old(self).gen_value,
                self.custom_values == old(self).custom_values,
                self.fake_keys == old(self).fake_keys,
                self.fake_generator == old(self).fake_generator,
                self.locale == old(self).locale,
            decreases segs@.len() - k,
        {
            let ghost gsegs = spec_split(path@, '.');
            let ghost prefix = gsegs.subrange(1, k as int);
            proof {
                assert(gsegs.skip(k as int)[0] == gsegs[k as int]);
                assert(gsegs.skip(k as int).skip(1) =~= gsegs.skip(k + 1 as int));
                assert(gsegs.skip(k as int).len() == gsegs.len() - k);
            }
            let seg = segs[k].as_str();
            let next: JsonValue = match &cur {
                JsonValue::Obj(_) => {
                    match cur.member(seg) {
                        Some(v) => v.deep_clone(),
                        None => {
                            return None;
                        },
                    }
                },
                JsonValue::Arr(items) => {
                    if items.len() == 0 {
                        return None;
                    }
                    let idx = self.rng.next_index(items.len());
                    let elem = &items[idx];
                    proof {
                        assert(cur@->Arr_0[idx as int] == elem@);
                    }
                    match elem {
                        JsonValue::Obj(_) => {
                            match elem.member(seg) {
                                Some(v) => {
                                    proof {
                                        assert(spec_step(cur@, seg@, v@));
                                    }
                                    v.deep_clone()
                                },
                                None => {
                                    return None;
                                },
                            }
                        },
                        _ => {
                            return None;
                        },
                    }
                },
                _ => {
                    return None;
                },
            };
            proof {
                assert(spec_step(cur@, seg@, next@));
                lemma_walk_snoc(groot, prefix, cur@, seg@, next@);
                assert(prefix.push(seg@) =~= gsegs.subrange(1, k + 1 as int));
            }
            cur = next;
            k = k + 1;
        }
        proof {
            assert(spec_split(path@, '.').subrange(1, segs@.len() as int) =~= spec_split(
                path@,
                '.',
            ).skip(1));
            assert(spec_split(path@, '.').skip(segs@.len() as int) =~= Seq::<Seq<char>>::empty());
        }
        Some(cur)
    }
}

/// A split sequence always has at least one part.
pub proof fn lemma_split_nonempty(s: Seq<char>, c: char)
    ensures
        spec_split(s, c).len() >= 1,
{
}

/// Splits a string at every separating dot.
fn split_string(path: &str) -> (r: Vec<String>)
    ensures
        r@.len() == spec_split(path@, '.').len(),
        forall|j: int| 0 <= j < r@.len() ==> (#[trigger] r@[j])@ == spec_split(path@, '.')[j],
{
    let v = crate::strutil::to_chars(path);
    let mut rest: Vec<char> = v;
    let mut parts: Vec<String> = Vec::new();
    loop
        invariant
            Seq::new(parts@.len(), |i: int| parts@[i]@) + spec_split(rest@, '.') =~= spec_split(
                path@,
                '.',
            ),
        decreases rest@.len(),
    {
        let ghost done = Seq::new(parts@.len(), |i: int| parts@[i]@);
        let mut i: usize = 0;
        let n = rest.len();
        let mut found: Option<usize> = None;
        while i < n && found.is_none()
            invariant
                0 <= i <= n,
                n == rest@.len(),
                match found {
                    Some(ix) => ix == i && i < n && rest@[ix as int] == '.' && forall|j: int|
                        0 <= j < ix ==> rest@[j] != '.',
                    None => forall|j: int| 0 <= j < i ==> rest@[j] != '.',
                },
            decreases n - i, (if found is None { 1int } else { 0int }),
        {
            if rest[i] == '.' {
                found = Some(i);
            } else {
                i = i + 1;
            }
        }
        match found {
            Some(idx) => {
                proof {
                    crate::arguments::lemma_find1_first(rest@, '.', idx as int);
                    crate::arguments::lemma_find1_range(rest@, '.');
                    assert(spec_find1(rest@, '.') == idx);
                }
                let head = crate::strutil::string_slice(rest.as_slice(), 0, idx);
                let tail = chars_slice(rest.as_slice(), idx + 1, n);
                proof {
                    assert(head@ =~= rest@.take(idx as int));
                    assert(tail@ =~= rest@.skip(idx + 1));
                    assert(spec_split(rest@, '.') == seq![rest@.take(idx as int)] + spec_split(
                        tail@,
                        '.',
                    ));
                }
                parts.push(head);
                proof {
                    assert(Seq::new(parts@.len(), |i: int| parts@[i]@) =~= done.push(
                        rest@.take(idx as int),
                    ));
                    assert(done.push(rest@.take(idx as int)) + spec_split(tail@, '.') =~= done + (
                    seq![rest@.take(idx as int)] + spec_split(tail@, '.')));
                }
                rest = tail;
            },
            None => {
                proof {
                    crate::arguments::lemma_find1_range(rest@, '.');
                    assert(spec_find1(rest@, '.') == -1);
                    assert(spec_split(rest@, '.') == seq![rest@]);
                }
                let last = crate::strutil::string_slice(rest.as_slice(), 0, n);
                proof {
                    assert(last@ =~= rest@);
                }
                parts.push(last);
                proof {
                    assert(Seq::new(parts@.len(), |i: int| parts@[i]@) =~= done.push(rest@));
                    assert(done.push(rest@) =~= done + seq![rest@]);
                }
                return parts;
            },
        }
    }
}

/// Trace state carried beside the context: the names of the entity and field
/// being generated, the repetition indices above them, and an optional
/// dedicated random stream for a seeded entity.
pub struct LocalConfig {
    /// The dedicated stream of a seeded entity, when one is active.
    pub rng: Option<Prng>,
    /// The entity being generated, where known.
    pub entity_name: Option<String>,
    /// The field being generated, where known.
    pub field_name: Option<String>,
    /// Repetition indices, innermost first.
    pub indices: Vec<usize>,
    /// How many records the innermost repetition asks for.
    pub count_items: u64,
}

impl LocalConfig {
    /// A fresh trace with no location information.
    pub fn new(rng: Option<Prng>) -> (r: LocalConfig)
        ensures
            r.rng == rng,
            r.entity_name is None,
            r.field_name is None,
            r.indices@.len() == 0,
            r.count_items == 0,
    {
        LocalConfig { rng, entity_name: None, field_name: None, indices: Vec::new(), count_items: 0 }
    }

    /// A trace built from explicit parts; the new index comes first, then the
    /// parent's indices, and the names carry over as given.
    pub fn from_current(
        rng: Option<Prng>,
        count_items: u64,
        entity_name: Option<&str>,
        field_name: Option<&str>,
        index: Option<usize>,
        parents: Option<&Vec<usize>>,
    ) -> (r: LocalConfig)
        ensures
            r.rng == rng,
            r.count_items == count_items,
            (match entity_name {
                Some(e) => r.entity_name matches Some(t) && t@ == e@,
                None => r.entity_name is None,
            }),
            (match field_name {
                Some(f) => r.field_name matches Some(t) && t@ == f@,
                None => r.field_name is None,
            }),
            r.indices@ == (match index {
                Some(ix) => seq![ix],
                None => Seq::<usize>::empty(),
            }) + (match parents {
                Some(ps) => ps@,
                None => Seq::<usize>::empty(),
            }),
    {
        let ghost head: Seq<usize> = match index {
            Some(ix) => seq![ix],
            None => Seq::empty(),
        };
        let mut indices: Vec<usize> = Vec::new();
        if let Some(ix) = index {
            indices.push(ix);
        }
        proof {
            assert(indices@ =~= head);
        }
        if let Some(ps) = parents {
            let mut i: usize = 0;
            while i < ps.len()
                invariant
                    0 <= i <= ps@.len(),
                    indices@ == head + ps@.subrange(0, i as int),
                decreases ps@.len() - i,
            {
                indices.push(ps[i]);
                proof {
                    assert(indices@ =~= head + ps@.subrange(0, i + 1 as int));
                }
                i = i + 1;
            }
            proof {
                assert(ps@.subrange(0, ps@.len() as int) =~= ps@);
            }
        } else {
            proof {
                assert(indices@ =~= head + Seq::<usize>::empty());
            }
        }
        LocalConfig {
            rng,
            entity_name: match entity_name {
                Some(e) => Some(e.to_owned()),
                None => None,
            },
            field_name: match field_name {
                Some(f) => Some(f.to_owned()),
                None => None,
            },
            indices,
            count_items,
        }
    }

    /// A child trace: the parent's names and indices carry over, a given
    /// stream wins over the parent's, and the new repetition starts at zero.
    pub fn from_current_with_config(
        rng: Option<Prng>,
        count_items: u64,
        parent_config: Option<&LocalConfig>,
    ) -> (r: LocalConfig)
        ensures
            r.count_items == count_items,
            rng is Some ==> r.rng == rng,
            (match parent_config {
                Some(p) => {
                    &&& (rng is None ==> r.rng == p.rng)
                    &&& (match &p.entity_name {
                        Some(e) => r.entity_name matches Some(t) && t@ == e@,
                        None => r.entity_name is None,
                    })
                    &&& (match &p.field_name {
                        Some(f) => r.field_name matches Some(t) && t@ == f@,
                        None => r.field_name is None,
                    })
                    &&& r.indices@ == seq![0usize] + p.indices@
                },
                None => {
                    &&& (rng is None ==> r.rng is None)
                    &&& r.entity_name is None
                    &&& r.field_name is None
                    &&& r.indices@ == seq![0usize]
                },
            }),
    {
        match parent_config {
            Some(config) => {
                let use_rng = if rng.is_some() {
                    rng
                } else {
                    config.rng
                };
                LocalConfig::from_current(
                    use_rng,
                    count_items,
                    match &config.entity_name {
                        Some(e) => Some(e.as_str()),
                        None => None,
                    },
                    match &config.field_name {
                        Some(f) => Some(f.as_str()),
                        None => None,
                    },
                    Some(0),
                    Some(&config.indices),
                )
            },
            None => LocalConfig::from_current(rng, count_items, None, None, Some(0), None),
        }
    }

    /// The repetition index at the given depth, when one is recorded.
    pub fn get_index(&self, depth: usize) -> (r: Option<usize>)
        ensures
            match r {
                Some(ix) => depth < self.indices@.len() && ix == self.indices@[depth as int],
                None => depth >= self.indices@.len(),
            },
    {
        if depth < self.indices.len() {
            Some(self.indices[depth])
        } else {
            None
        }
    }

    /// Replaces the innermost repetition index, if any is recorded.
    pub fn set_index(&mut self, index: usize)
        ensures
            old(self).indices@.len() == 0 ==> *final(self) == *old(self),
            old(self).indices@.len() > 0 ==> final(self).indices@ == old(self).indices@.update(
                0,
                index,
            ),
    {
        if self.indices.len() > 0 {
            self.indices.set(0, index);
        }
    }
}

} // verus!
