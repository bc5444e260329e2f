//! Placeholder scanning and template substitution.
//!
//! A literal string may hold placeholders, `${key}` or `${key(args)}`.  The
//! scanner finds them left to right: after `${` the key runs to the first
//! `}` or `(`; arguments, when present, run from that `(` to the `)` that
//! immediately precedes the closing `}`.  Both key and argument text must be
//! non-empty; anything else is not a placeholder, and scanning resumes one
//! character further on.  Nested `${` carries no special meaning: the scanner
//! applies the same policy throughout.
//!
//! A string that is exactly one placeholder resolves to the provider's value
//! itself, whatever its type.  Mixed text is rewritten right to left, each
//! span replaced by the provider's value as text, so the spans recorded
//! earlier stay valid and all surrounding characters are kept exactly.

use vstd::prelude::*;
use crate::value::{JsonValue, JsonV, spec_member};
use crate::config::{GeneratorConfig, LocalConfig};
use crate::error::JgdGeneratorError;
use crate::provider::spec_known_key;
use crate::jsontext::{spec_json_text, json_to_string};
use crate::strutil::{string_slice, to_chars, chars_slice, from_chars};

verus! {

broadcast use vstd::std_specs::vec::group_vec_axioms, vstd::seq::group_seq_axioms;

/// The mathematical shape of one found placeholder.
pub struct ReplV {
    /// Index of the `$`.
    pub start: int,
    /// Index one past the closing `}`.
    pub end: int,
    /// `end - start`.
    pub length: int,
    /// The key between `${` and the first `}` or `(`.
    pub key: Seq<char>,
    /// Key plus raw argument text, parentheses included.
    pub pattern: Seq<char>,
    /// The whole matched text, `${` and `}` included.
    pub tag: Seq<char>,
}

/// One placeholder found in a template string.
pub struct Replacer {
    /// Character index of the `$`.
    pub start: usize,
    /// Character index one past the closing `}`.
    pub end: usize,
    /// How many characters the placeholder spans.
    pub length: usize,
    /// The key between `${` and the first `}` or `(`.
    pub key: String,
    /// Key plus raw argument text, parentheses included.
    pub pattern: String,
    /// The whole matched text, `${` and `}` included.
    pub tag: String,
}

impl View for Replacer {
    type V = ReplV;

    open spec fn view(&self) -> ReplV {
        ReplV {
            start: self.start as int,
            end: self.end as int,
            length: self.length as int,
            key: self.key@,
            pattern: self.pattern@,
            tag: self.tag@,
        }
    }
}

/// The first index at or after `j` holding `}` or `(`, `-1` when none does.
pub open spec fn spec_find_stop(s: Seq<char>, j: int) -> int
    decreases s.len() - j,
{
    if j < 0 || j >= s.len() {
        -1
    } else if s[j] == '}' || s[j] == '(' {
        j
    } else {
        spec_find_stop(s, j + 1)
    }
}

/// The first index at or after `j` holding `c`, `-1` when none does.
pub open spec fn spec_find_at(s: Seq<char>, j: int, c: char) -> int
    decreases s.len() - j,
{
    if j < 0 || j >= s.len() {
        -1
    } else if s[j] == c {
        j
    } else {
        spec_find_at(s, j + 1, c)
    }
}

proof fn lemma_find_stop_props(s: Seq<char>, j: int)
    requires
        j >= 0,
    ensures
        spec_find_stop(s, j) == -1 || (j <= spec_find_stop(s, j) < s.len() && (s[spec_find_stop(
            s,
            j,
        )] == '}' || s[spec_find_stop(s, j)] == '(')),
        spec_find_stop(s, j) >= 0 ==> forall|t: int|
            j <= t < spec_find_stop(s, j) ==> s[t] != '}' && s[t] != '(',
        spec_find_stop(s, j) == -1 ==> forall|t: int| j <= t < s.len() ==> s[t] != '}' && s[t]
            != '(',
    decreases s.len() - j,
{
    if j < s.len() && !(s[j] == '}' || s[j] == '(') {
        lemma_find_stop_props(s, j + 1);
    }
}

proof fn lemma_find_at_props(s: Seq<char>, j: int, c: char)
    requires
        j >= 0,
    ensures
        spec_find_at(s, j, c) == -1 || (j <= spec_find_at(s, j, c) < s.len() && s[spec_find_at(
            s,
            j,
            c,
        )] == c),
        spec_find_at(s, j, c) >= 0 ==> forall|t: int| j <= t < spec_find_at(s, j, c) ==> s[t] != c,
        spec_find_at(s, j, c) == -1 ==> forall|t: int| j <= t < s.len() ==> s[t] != c,
    decreases s.len() - j,
{
    if j < s.len() && s[j] != c {
        lemma_find_at_props(s, j + 1, c);
    }
}

/// What a placeholder starting exactly at `i` looks like, if one does.
pub open spec fn spec_match_at(s: Seq<char>, i: int) -> Option<ReplV> {
    if !(0 <= i && i + 2 <= s.len() && s[i] == '$' && s[i + 1] == '{') {
        None
    } else {
        let kend = spec_find_stop(s, i + 2);
        if kend == -1 || kend == i + 2 {
            None
        } else if s[kend] == '}' {
            Some(
                ReplV {
                    start: i,
                    end: kend + 1,
                    length: kend + 1 - i,
                    key: s.subrange(i + 2, kend),
                    pattern: s.subrange(i + 2, kend),
                    tag: s.subrange(i, kend + 1),
                },
            )
        } else {
            let hend = spec_find_at(s, kend + 1, '}');
            if hend == -1 || !(hend - 1 >= kend + 2 && s[hend - 1] == ')') {
                None
            } else {
                Some(
                    ReplV {
                        start: i,
                        end: hend + 1,
                        length: hend + 1 - i,
                        key: s.subrange(i + 2, kend),
                        pattern: s.subrange(i + 2, kend) + s.subrange(kend, hend),
                        tag: s.subrange(i, hend + 1),
                    },
                )
            }
        }
    }
}

/// A match starting at `i` spans at least three characters from `i` on, and
/// ends within the text.
proof fn lemma_match_at_props(s: Seq<char>, i: int)
    ensures
        spec_match_at(s, i) matches Some(m) ==> m.start == i && i + 3 <= m.end <= s.len()
            && m.length == m.end - m.start,
{
    if 0 <= i && i + 2 <= s.len() && s[i] == '$' && s[i + 1] == '{' {
        lemma_find_stop_props(s, i + 2);
        let kend = spec_find_stop(s, i + 2);
        if kend >= 0 && kend != i + 2 && s[kend] != '}' {
            lemma_find_at_props(s, kend + 1, '}');
        }
    }
}

/// All placeholders of `s` from position `i` on, leftmost first.
pub open spec fn spec_scan(s: Seq<char>, i: int) -> Seq<ReplV>
    decreases s.len() - i,
        when 0 <= i
{
    if i + 2 > s.len() {
        Seq::empty()
    } else {
        match spec_match_at(s, i) {
            Some(m) => {
                let nxt = if i + 1 <= m.end <= s.len() {
                    m.end
                } else {
                    i + 1
                };
                seq![m] + spec_scan(s, nxt)
            },
            None => spec_scan(s, i + 1),
        }
    }
}

/// Scanned placeholders lie in order, inside the text, without overlap.
pub proof fn lemma_scan_wf(s: Seq<char>, i: int)
    requires
        0 <= i,
    ensures
        forall|j: int|
            0 <= j < spec_scan(s, i).len() ==> {
                let m = #[trigger] spec_scan(s, i)[j];
                &&& i <= m.start
                &&& m.start + 3 <= m.end <= s.len()
                &&& m.length == m.end - m.start
            },
        forall|j: int|
            0 <= j && j + 1 < spec_scan(s, i).len() ==> #[trigger] spec_scan(s, i)[j].end
                <= spec_scan(s, i)[j + 1].start,
    decreases s.len() - i,
{
    if i + 2 > s.len() {
    } else {
        match spec_match_at(s, i) {
            Some(m) => {
                lemma_match_at_props(s, i);
                lemma_scan_wf(s, m.end);
                let sc = spec_scan(s, i);
                let rest = spec_scan(s, m.end);
                assert(sc == seq![m] + rest);
                assert(seq![m].len() == 1);
                assert((seq![m] + rest).len() == 1 + rest.len());
                assert(sc.len() == 1 + rest.len());
                assert((seq![m] + rest)[0] == seq![m][0]);
                assert(sc[0] == m);
                assert forall|j: int| 0 <= j < sc.len() implies {
                    let mm = #[trigger] sc[j];
                    &&& i <= mm.start
                    &&& mm.start + 3 <= mm.end <= s.len()
                    &&& mm.length == mm.end - mm.start
                } by {
                    if j >= 1 {
                        assert((seq![m] + rest)[j] == rest[j - 1]);
                    }
                }
                assert forall|j: int| 0 <= j && j + 1 < sc.len() implies #[trigger] sc[j].end
                    <= sc[j + 1].start by {
                    if j == 0 {
                        assert((seq![m] + rest)[1] == rest[0]);
                        assert(m.end <= rest[0].start);
                    } else {
                        assert((seq![m] + rest)[j] == rest[j - 1]);
                        assert((seq![m] + rest)[j + 1] == rest[j]);
                    }
                }
            },
            None => {
                lemma_scan_wf(s, i + 1);
                assert(spec_scan(s, i) == spec_scan(s, i + 1));
            },
        }
    }
}

/// A matched key holds neither `(` nor `}`: it stopped at the first of them.
proof fn lemma_match_key_plain(s: Seq<char>, i: int)
    ensures
        spec_match_at(s, i) matches Some(m) ==> forall|t: int|
            0 <= t < m.key.len() ==> m.key[t] != '(' && m.key[t] != '}',
{
    if 0 <= i && i + 2 <= s.len() && s[i] == '$' && s[i + 1] == '{' {
        lemma_find_stop_props(s, i + 2);
    }
}

/// Every scanned placeholder's key is free of `(` and `}`.
pub proof fn lemma_scan_keys_plain(s: Seq<char>, i: int)
    requires
        0 <= i,
    ensures
        forall|j: int, t: int|
            0 <= j < spec_scan(s, i).len() && 0 <= t < spec_scan(s, i)[j].key.len()
                ==> #[trigger] spec_scan(s, i)[j].key[t] != '(',
    decreases s.len() - i,
{
    if i + 2 > s.len() {
    } else {
        match spec_match_at(s, i) {
            Some(m) => {
                lemma_match_at_props(s, i);
                lemma_match_key_plain(s, i);
                lemma_scan_keys_plain(s, m.end);
                let sc = spec_scan(s, i);
                let rest = spec_scan(s, m.end);
                assert(sc == seq![m] + rest);
                assert forall|j: int, t: int|
                    0 <= j < sc.len() && 0 <= t < sc[j].key.len() implies #[trigger] sc[j].key[t]
                    != '(' by {
                    if j == 0 {
                        assert((seq![m] + rest)[0] == m);
                    } else {
                        assert((seq![m] + rest)[j] == rest[j - 1]);
                    }
                }
            },
            None => {
                lemma_scan_keys_plain(s, i + 1);
                assert(spec_scan(s, i) == spec_scan(s, i + 1));
            },
        }
    }
}

/// A key without `(` splits into itself and no arguments.
pub proof fn lemma_plain_key_pattern(k: Seq<char>)
    requires
        forall|t: int| 0 <= t < k.len() ==> k[t] != '(',
    ensures
        crate::key_parser::spec_pattern_key(k) == k,
{
    crate::arguments::lemma_find1_range(k, '(');
    let i = crate::arguments::spec_find1(k, '(');
    if i >= 0 {
        assert(k[i] == '(');
    }
}

/// Finds the first `}` or `(` at or after `from`.
fn find_stop(v: &[char], from: usize) -> (r: Option<usize>)
    requires
        from <= v@.len(),
    ensures
        match r {
            Some(k) => spec_find_stop(v@, from as int) == k,
            None => spec_find_stop(v@, from as int) == -1,
        },
{
    let mut i: usize = from;
    while i < v.len()
        invariant
            from <= i <= v@.len(),
            forall|t: int| from <= t < i ==> v@[t] != '}' && v@[t] != '(',
        decreases v@.len() - i,
    {
        if v[i] == '}' || v[i] == '(' {
            proof {
                lemma_find_stop_props(v@, from as int);
                lemma_find_stop_skip(v@, from as int, i as int);
            }
            return Some(i);
        }
        i = i + 1;
    }
    proof {
        lemma_find_stop_skip_none(v@, from as int);
    }
    None
}

/// If nothing before `k` stops the search and `k` stops it, the search finds `k`.
proof fn lemma_find_stop_skip(s: Seq<char>, j: int, k: int)
    requires
        0 <= j <= k < s.len(),
        forall|t: int| j <= t < k ==> s[t] != '}' && s[t] != '(',
        s[k] == '}' || s[k] == '(',
    ensures
        spec_find_stop(s, j) == k,
    decreases k - j,
{
    if j < k {
        lemma_find_stop_skip(s, j + 1, k);
    }
}

/// If nothing from `j` on stops the search, it finds nothing.
proof fn lemma_find_stop_skip_none(s: Seq<char>, j: int)
    requires
        0 <= j,
        forall|t: int| j <= t < s.len() ==> s[t] != '}' && s[t] != '(',
    ensures
        spec_find_stop(s, j) == -1,
    decreases s.len() - j,
{
    if j < s.len() {
        lemma_find_stop_skip_none(s, j + 1);
    }
}

/// Finds the first `c` at or after `from`.
fn find_at(v: &[char], from: usize, c: char) -> (r: Option<usize>)
    requires
        from <= v@.len(),
    ensures
        match r {
            Some(k) => spec_find_at(v@, from as int, c) == k,
            None => spec_find_at(v@, from as int, c) == -1,
        },
{
    let mut i: usize = from;
    while i < v.len()
        invariant
            from <= i <= v@.len(),
            forall|t: int| from <= t < i ==> v@[t] != c,
        decreases v@.len() - i,
    {
        if v[i] == c {
            proof {
                lemma_find_at_skip(v@, from as int, i as int, c);
            }
            return Some(i);
        }
        i = i + 1;
    }
    proof {
        lemma_find_at_skip_none(v@, from as int, c);
    }
    None
}

proof fn lemma_find_at_skip(s: Seq<char>, j: int, k: int, c: char)
    requires
        0 <= j <= k < s.len(),
        forall|t: int| j <= t < k ==> s[t] != c,
        s[k] == c,
    ensures
        spec_find_at(s, j, c) == k,
    decreases k - j,
{
    if j < k {
        lemma_find_at_skip(s, j + 1, k, c);
    }
}

proof fn lemma_find_at_skip_none(s: Seq<char>, j: int, c: char)
    requires
        0 <= j,
        forall|t: int| j <= t < s.len() ==> s[t] != c,
    ensures
        spec_find_at(s, j, c) == -1,
    decreases s.len() - j,
{
    if j < s.len() {
        lemma_find_at_skip_none(s, j + 1, c);
    }
}

/// Tries to read a placeholder starting exactly at `i`.
fn match_at(v: &[char], i: usize) -> (r: Option<Replacer>)
    requires
        i + 2 <= v@.len(),
    ensures
        match r {
            Some(m) => spec_match_at(v@, i as int) == Some(m@),
            None => spec_match_at(v@, i as int) is None,
        },
{
    if !(v[i] == '$' && v[i + 1] == '{') {
        return None;
    }
    let kend = match find_stop(v, i + 2) {
        Some(k) => k,
        None => {
            return None;
        },
    };
    proof {
        lemma_find_stop_props(v@, i + 2 as int);
    }
    if kend == i + 2 {
        return None;
    }
    if v[kend] == '}' {
        let key = string_slice(v, i + 2, kend);
        let tag = string_slice(v, i, kend + 1);
        let pattern = string_slice(v, i + 2, kend);
        return Some(
            Replacer {
                start: i,
                end: kend + 1,
                length: kend + 1 - i,
                key,
                pattern,
                tag,
            },
        );
    }
    let hend = match find_at(v, kend + 1, '}') {
        Some(h) => h,
        None => {
            return None;
        },
    };
    proof {
        lemma_find_at_props(v@, kend + 1 as int, '}');
    }
    if !(hend - kend >= 3 && v[hend - 1] == ')') {
        return None;
    }
    let key = string_slice(v, i + 2, kend);
    let args = string_slice(v, kend, hend);
    let mut pattern = key.clone();
    pattern.append(args.as_str());
    let tag = string_slice(v, i, hend + 1);
    proof {
        assert(pattern@ =~= v@.subrange(i + 2, kend as int) + v@.subrange(kend as int, hend as int));
    }
    Some(
        Replacer {
            start: i,
            end: hend + 1,
            length: hend + 1 - i,
            key,
            pattern,
            tag,
        },
    )
}

/// Finds every placeholder of the text, leftmost first.
fn scan_all(v: &[char]) -> (r: Vec<Replacer>)
    ensures
        r@.len() == spec_scan(v@, 0).len(),
        forall|j: int| 0 <= j < r@.len() ==> (#[trigger] r@[j])@ == spec_scan(v@, 0)[j],
{
    let mut out: Vec<Replacer> = Vec::new();
    let mut i: usize = 0;
    while v.len() >= 2 && i <= v.len() - 2
        invariant
            0 <= i,
            i <= v@.len() + 1,
            Seq::new(out@.len(), |j: int| out@[j]@) + spec_scan(v@, i as int) =~= spec_scan(v@, 0),
        decreases v@.len() + 2 - i,
    {
        let ghost done = Seq::new(out@.len(), |j: int| out@[j]@);
        match match_at(v, i) {
            Some(m) => {
                proof {
                    lemma_match_at_props(v@, i as int);
                }
                let nxt = m.end;
                out.push(m);
                proof {
                    assert(Seq::new(out@.len(), |j: int| out@[j]@) =~= done.push(
                        spec_match_at(v@, i as int)->0,
                    ));
                    assert(done.push(spec_match_at(v@, i as int)->0) + spec_scan(v@, nxt as int)
                        =~= done + (seq![spec_match_at(v@, i as int)->0] + spec_scan(
                        v@,
                        nxt as int,
                    )));
                }
                i = nxt;
            },
            None => {
                i = i + 1;
            },
        }
    }
    proof {
        assert(spec_scan(v@, i as int) =~= Seq::<ReplV>::empty());
        assert(Seq::new(out@.len(), |j: int| out@[j]@) =~= spec_scan(v@, 0));
    }
    out
}

/// Every placeholder found in one template string.
pub struct ReplacerCollection {
    /// The template text.
    pub value: String,
    /// The placeholders, leftmost first.
    pub collection: Vec<Replacer>,
    /// Whether the whole text is exactly one placeholder.
    pub full_replace: bool,
}

impl ReplacerCollection {
    /// Scans a template string for placeholders.
    pub fn new(value: String) -> (r: ReplacerCollection)
        ensures
            r.value@ == value@,
            r.collection@.len() == spec_scan(value@, 0).len(),
            forall|j: int|
                0 <= j < r.collection@.len() ==> (#[trigger] r.collection@[j])@ == spec_scan(
                    value@,
                    0,
                )[j],
            r.full_replace == (spec_scan(value@, 0).len() > 0 && spec_scan(value@, 0)[0].length
                == value@.len()),
            r.wf(),
    {
        let chars = to_chars(value.as_str());
        let collection = scan_all(chars.as_slice());
        let full_replace = if collection.len() > 0 {
            collection[0].length == value.as_str().unicode_len()
        } else {
            false
        };
        ReplacerCollection { value, collection, full_replace }
    }

    /// Whether the text holds no placeholder at all.
    pub fn is_empty(&self) -> (r: bool)
        ensures
            r == (self.collection@.len() == 0),
    {
        self.collection.len() == 0
    }

    /// The single placeholder of a full-replacement template.
    pub fn get_full_replacer(&self) -> (r: &Replacer)
        requires
            self.collection@.len() > 0,
        ensures
            *r == self.collection@[0],
    {
        &self.collection[0]
    }
}

/// A value as template text: a string stays itself, anything else prints as
/// canonical JSON.
pub open spec fn spec_value_text(v: JsonV) -> Seq<char> {
    match v {
        JsonV::Str(s) => s,
        _ => spec_json_text(v),
    }
}

/// Renders a resolved value for splicing into surrounding text.
fn value_to_text(v: &JsonValue) -> (r: String)
    ensures
        r@ == spec_value_text(v@),
{
    match v {
        JsonValue::Str(s) => s.clone(),
        _ => json_to_string(v),
    }
}

/// The text with `[start, end)` replaced by `rep`.
pub open spec fn spec_splice(s: Seq<char>, start: int, end: int, rep: Seq<char>) -> Seq<char> {
    s.take(start) + rep + s.skip(end)
}

/// The text after the placeholders from `k` on are each replaced, rightmost
/// first, by the matching replacement.
pub open spec fn spec_spliced(
    s: Seq<char>,
    ms: Seq<ReplV>,
    reps: Seq<Seq<char>>,
    k: int,
) -> Seq<char>
    decreases ms.len() - k,
{
    if k < 0 || k >= ms.len() {
        s
    } else {
        spec_splice(spec_spliced(s, ms, reps, k + 1), ms[k].start, ms[k].end, reps[k])
    }
}

/// Replacements not yet applied do not matter: two replacement tables that
/// agree from `k` on splice to the same text.
proof fn lemma_spliced_frame(
    s: Seq<char>,
    ms: Seq<ReplV>,
    reps1: Seq<Seq<char>>,
    reps2: Seq<Seq<char>>,
    k: int,
)
    requires
        reps1.len() == ms.len(),
        reps2.len() == ms.len(),
        forall|j: int| k <= j < ms.len() ==> reps1[j] == reps2[j],
    ensures
        spec_spliced(s, ms, reps1, k) == spec_spliced(s, ms, reps2, k),
    decreases ms.len() - k,
{
    if 0 <= k < ms.len() {
        lemma_spliced_frame(s, ms, reps1, reps2, k + 1);
    }
}

/// Whether substitution of a template can succeed against the given custom
/// registry: a text without placeholders always can; one that is exactly one
/// placeholder needs its full pattern registered or its key known to the
/// catalog; mixed text needs every bare key registered or known.
pub open spec fn spec_template_resolvable(s: Seq<char>, customs: Seq<(Seq<char>, JsonV)>) -> bool {
    let ms = spec_scan(s, 0);
    if ms.len() == 0 {
        true
    } else if ms[0].length == s.len() {
        spec_member(customs, ms[0].pattern) is Some || spec_known_key(
            crate::key_parser::spec_pattern_key(ms[0].pattern),
        )
    } else {
        forall|j: int|
            0 <= j < ms.len() ==> (spec_member(customs, (#[trigger] ms[j]).key) is Some
                || spec_known_key(ms[j].key))
    }
}

impl ReplacerCollection {
    /// A collection is well formed when it holds exactly what scanning its
    /// own text finds.  `new` establishes this; substitution relies on it for
    /// the spans to lie inside the text.
    pub open spec fn wf(&self) -> bool {
        &&& self.collection@.len() == spec_scan(self.value@, 0).len()
        &&& forall|j: int|
            0 <= j < self.collection@.len() ==> (#[trigger] self.collection@[j])@ == spec_scan(
                self.value@,
                0,
            )[j]
        &&& self.full_replace == (spec_scan(self.value@, 0).len() > 0 && spec_scan(
            self.value@,
            0,
        )[0].length == self.value@.len())
    }

    /// Substitutes every placeholder.
    ///
    /// A template that is exactly one placeholder resolves to the provider's
    /// value itself: a custom registry entry for the full pattern, else the
    /// catalog's value, whose native type is preserved.  Mixed text resolves
    /// right to left: each span is replaced by the value of its bare key as
    /// text, every character around the spans kept exactly.  The call fails
    /// precisely when a needed key is neither registered nor known, naming
    /// the offending pattern.
    #[verifier::rlimit(50)]
    pub fn replace(&self, config: &mut GeneratorConfig, local_config: Option<&LocalConfig>) -> (r:
        Result<JsonValue, JgdGeneratorError>)
        requires
            self.wf(),
        ensures
            final(config).gen_value == old(config).gen_value,
            final(config).custom_values == old(config).custom_values,
            final(config).fake_keys == old(config).fake_keys,
            final(config).fake_generator == old(config).fake_generator,
            final(config).locale == old(config).locale,
            final(config).store() == old(config).store(),
            final(config).customs() == old(config).customs(),
            ({
                let ms = Seq::new(
                    self.collection@.len(),
                    |j: int|
                        if 0 <= j < self.collection@.len() {
                            self.collection@[j]@
                        } else {
                            arbitrary()
                        },
                )
                ;
                &&& (self.collection@.len() == 0 ==> (r matches Ok(v) && v@ == JsonV::Str(
                    self.value@,
                ) && final(config).rng == old(config).rng))
                &&& ((r is Err) <==> !spec_template_resolvable(self.value@, old(config).customs()))
                &&& (self.collection@.len() > 0 ==> (r matches Err(e) ==> (exists|j: int|
                    0 <= j < self.collection@.len() && e.message@
                        == "Error to process the pattern "@ + (
                    #[trigger] self.collection@[j])@.pattern)))
                &&& (self.collection@.len() > 0 && self.full_replace ==> (spec_member(
                    old(config).customs(),
                    ms[0].pattern,
                ) matches Some(w) ==> (r matches Ok(v) && v@ == w)))
                &&& (self.collection@.len() > 0 && self.full_replace && spec_member(
                    old(config).customs(),
                    ms[0].pattern,
                ) is None && crate::key_parser::spec_pattern_key(ms[0].pattern)
                    == "number.digit"@ && r is Ok ==> (r matches Ok(v) && v@ matches JsonV::Int(
                    d,
                ) && 0 <= d <= 9))
                &&& (self.collection@.len() > 0 && self.full_replace && spec_member(
                    old(config).customs(),
                    ms[0].pattern,
                ) is None && crate::key_parser::spec_pattern_key(ms[0].pattern)
                    == "boolean.boolean"@ && r is Ok ==> (r matches Ok(v) && v@ is Bool))
                &&& (self.collection@.len() > 0 && !self.full_replace ==> ((r is Ok) ==> (exists|
                    reps: Seq<Seq<char>>,
                |
                    reps.len() == ms.len() && r->Ok_0@ == JsonV::Str(
                        #[trigger] spec_spliced(self.value@, ms, reps, 0),
                    ))))
            }),
    {
        let ghost ms = Seq::new(
            self.collection@.len(),
            |j: int|
                if 0 <= j < self.collection@.len() {
                    self.collection@[j]@
                } else {
                    arbitrary()
                },
        );
        let (entity_name, field_name): (Option<String>, Option<String>) = match local_config {
            Some(lc) => {
                let e = match &lc.entity_name {
                    Some(e) => Some(e.clone()),
                    None => None,
                };
                let f = match &lc.field_name {
                    Some(f) => Some(f.clone()),
                    None => None,
                };
                (e, f)
            },
            None => (None, None),
        };
        if self.collection.len() == 0 {
            return Ok(JsonValue::Str(self.value.clone()));
        }
        if self.full_replace {
            let replacer = &self.collection[0];
            if let Some(v) = config.get_custom_key(replacer.pattern.as_str()) {
                return Ok(v);
            }
            let generated = config.fake_generator.generate_by_key(
                replacer.pattern.as_str(),
                &mut config.rng,
            );
            match generated {
                Ok(v) => {
                    return Ok(v);
                },
                Err(_) => {
                    let mut message = String::new();
                    message.append("Error to process the pattern ");
                    message.append(replacer.pattern.as_str());
                    proof {
                        assert(message@ =~= "Error to process the pattern "@ + ms[0].pattern);
                    }
                    return Err(
                        JgdGeneratorError { message, entity: entity_name, field: field_name },
                    );
                },
            }
        }
        let mut chars = to_chars(self.value.as_str());
        let ghost whole = self.value@;
        let mut k: usize = self.collection.len();
        let ghost mut reps: Seq<Seq<char>> = Seq::new(ms.len() as nat, |j: int| Seq::empty());
        proof {
            lemma_scan_wf(whole, 0);
            assert forall|j: int| 0 <= j < ms.len() implies ms[j] == spec_scan(whole, 0)[j] by {
                assert(ms[j] == self.collection@[j]@);
            }
            assert forall|j: int|
                0 <= j < ms.len() implies 0 <= (#[trigger] ms[j]).start && ms[j].start + 3
                    <= ms[j].end <= whole.len() by {
                assert(ms[j] == spec_scan(whole, 0)[j]);
            }
            assert forall|j: int| 0 <= j && j + 1 < ms.len() implies #[trigger] ms[j].end <= ms[j
                + 1].start by {
                assert(ms[j] == spec_scan(whole, 0)[j]);
                assert(ms[j + 1] == spec_scan(whole, 0)[j + 1]);
            }
        }
        while k > 0
            invariant
                self.wf(),
                whole == self.value@,
                self.collection@.len() > 0,
                !self.full_replace,
                forall|j: int|
                    k <= j < ms.len() ==> (spec_member(old(config).customs(), (
                    #[trigger] ms[j]).key) is Some || spec_known_key(ms[j].key)),
                config.gen_value == old(config).gen_value,
                config.custom_values == old(config).custom_values,
                config.fake_keys == old(config).fake_keys,
                config.fake_generator == old(config).fake_generator,
                config.locale == old(config).locale,
                0 <= k <= self.collection@.len(),
                ms.len() == self.collection@.len(),
                reps.len() == ms.len(),
                forall|j: int|
                    0 <= j < ms.len() ==> ms[j] == (#[trigger] self.collection@[j])@,
                forall|j: int|
                    0 <= j < ms.len() ==> 0 <= (#[trigger] ms[j]).start && ms[j].start + 3
                        <= ms[j].end <= whole.len(),
                forall|j: int|
                    0 <= j && j + 1 < ms.len() ==> #[trigger] ms[j].end <= ms[j + 1].start,
                chars@ == spec_spliced(whole, ms, reps, k as int),
                k == ms.len() ==> chars@ == whole,
                forall|j: int| 0 <= j < k ==> chars@.len() >= ms[j].end,
            decreases k,
        {
            k = k - 1;
            let replacer = &self.collection[k];
            proof {
                assert(config.customs() =~= old(config).customs());
                lemma_scan_keys_plain(whole, 0);
                assert(ms[k as int] == spec_scan(whole, 0)[k as int]);
                assert forall|t: int| 0 <= t < ms[k as int].key.len() implies ms[k as int].key[t]
                    != '(' by {
                    assert(spec_scan(whole, 0)[k as int].key[t] != '(');
                }
                lemma_plain_key_pattern(ms[k as int].key);
            }
            let resolved: JsonValue = match config.get_custom_key(replacer.key.as_str()) {
                Some(v) => v,
                None => {
                    let generated = config.fake_generator.generate_by_key(
                        replacer.key.as_str(),
                        &mut config.rng,
                    );
                    match generated {
                        Ok(v) => v,
                        Err(_) => {
                            let mut message = String::new();
                            message.append("Error to process the pattern ");
                            message.append(replacer.pattern.as_str());
                            proof {
                                assert(message@ =~= "Error to process the pattern "@ + ms[
                                k as int].pattern);
                                assert(!spec_template_resolvable(
                                    self.value@,
                                    old(config).customs(),
                                ));
                            }
                            return Err(
                                JgdGeneratorError {
                                    message,
                                    entity: entity_name,
                                    field: field_name,
                                },
                            );
                        },
                    }
                },
            };
            let rep_text = value_to_text(&resolved);
            let rep_chars = to_chars(rep_text.as_str());
            let ghost old_chars = chars@;
            let ghost old_reps = reps;
            chars = splice_chars(&chars, replacer.start, replacer.end, rep_chars.as_slice());
            proof {
                reps = reps.update(k as int, rep_text@);
                lemma_spliced_frame(whole, ms, old_reps, reps, k + 1 as int);
                assert(chars@ == spec_splice(
                    spec_spliced(whole, ms, reps, k + 1 as int),
                    ms[k as int].start,
                    ms[k as int].end,
                    reps[k as int],
                ));
                assert(chars@ == spec_spliced(whole, ms, reps, k as int));
                lemma_spliced_len(whole, ms, reps, k as int);
            }
        }
        let out = from_chars(chars.as_slice());
        proof {
            assert(out@ == spec_spliced(whole, ms, reps, 0));
            assert(spec_scan(self.value@, 0).len() > 0);
            assert(spec_scan(self.value@, 0)[0].length != self.value@.len());
            let sc = spec_scan(self.value@, 0);
            assert forall|j: int|
                0 <= j < sc.len() implies (spec_member(old(config).customs(), (
            #[trigger] sc[j]).key) is Some || spec_known_key(sc[j].key)) by {
                assert(sc[j] == self.collection@[j]@);
                assert(ms[j] == self.collection@[j]@);
                assert(spec_member(old(config).customs(), ms[j].key) is Some || spec_known_key(
                    ms[j].key,
                ));
            }
            assert(spec_template_resolvable(self.value@, old(config).customs()));
        }
        Ok(JsonValue::Str(out))
    }
}

/// Splicing placeholders from `k` on never cuts text before the end of an
/// earlier placeholder: the prefix up to `ms[k-1].end` stays as long.
proof fn lemma_spliced_len(s: Seq<char>, ms: Seq<ReplV>, reps: Seq<Seq<char>>, k: int)
    requires
        0 <= k <= ms.len(),
        forall|j: int|
            0 <= j < ms.len() ==> 0 <= (#[trigger] ms[j]).start && ms[j].start + 3 <= ms[j].end
                <= s.len(),
        forall|j: int| 0 <= j && j + 1 < ms.len() ==> #[trigger] ms[j].end <= ms[j + 1].start,
    ensures
        forall|j: int| 0 <= j < k ==> spec_spliced(s, ms, reps, k).len() >= ms[j].end,
    decreases ms.len() - k,
{
    if k < ms.len() {
        lemma_spliced_len(s, ms, reps, k + 1);
        let inner = spec_spliced(s, ms, reps, k + 1);
        assert(spec_spliced(s, ms, reps, k) == spec_splice(
            inner,
            ms[k].start,
            ms[k].end,
            reps[k],
        ));
        let st = ms[k].start;
        let en = ms[k].end;
        let rp = reps[k];
        assert(inner.len() >= en);
        assert(0 <= st <= en <= inner.len());
        assert(inner.take(st).len() == st);
        assert(inner.skip(en).len() == inner.len() - en);
        let sp = spec_splice(inner, st, en, rp);
        assert(sp.len() == inner.take(st).len() + rp.len() + inner.skip(en).len());
        assert(sp.len() == st + rp.len() + (inner.len() - en));
        if k > 0 {
            assert forall|j: int| 0 <= j < k implies ms[j].end <= ms[k].start by {
                lemma_ms_ordered(ms, j, k);
            }
        }
    }
}

/// Placeholder spans are ordered transitively: an earlier one ends before a
/// later one starts.
proof fn lemma_ms_ordered(ms: Seq<ReplV>, j: int, k: int)
    requires
        0 <= j < k < ms.len(),
        forall|t: int|
            0 <= t < ms.len() ==> 0 <= (#[trigger] ms[t]).start && ms[t].start + 3 <= ms[t].end,
        forall|t: int| 0 <= t && t + 1 < ms.len() ==> #[trigger] ms[t].end <= ms[t + 1].start,
    ensures
        ms[j].end <= ms[k].start,
    decreases k - j,
{
    if j + 1 < k {
        lemma_ms_ordered(ms, j, k - 1);
        assert(ms[k - 1].end <= ms[k].start);
    }
}

/// Splicing touches nothing around the span: the text before `start` and
/// the text after `end` reappear exactly, around the replacement.
pub proof fn lemma_splice_preserves_context(s: Seq<char>, start: int, end: int, rep: Seq<char>)
    requires
        0 <= start <= end <= s.len(),
    ensures
        spec_splice(s, start, end, rep).len() == start + rep.len() + (s.len() - end),
        spec_splice(s, start, end, rep).take(start) == s.take(start),
        spec_splice(s, start, end, rep).subrange(start, start + rep.len()) == rep,
        spec_splice(s, start, end, rep).skip(start + rep.len()) == s.skip(end),
{
    let sp = spec_splice(s, start, end, rep);
    assert(sp.take(start) =~= s.take(start));
    assert(sp.subrange(start, start + rep.len()) =~= rep);
    assert(sp.skip(start + rep.len()) =~= s.skip(end));
}

/// The characters with `[start, end)` replaced by `rep`.
fn splice_chars(v: &Vec<char>, start: usize, end: usize, rep: &[char]) -> (r: Vec<char>)
    requires
        start <= end <= v@.len(),
    ensures
        r@ == spec_splice(v@, start as int, end as int, rep@),
{
    let mut out: Vec<char> = chars_slice(v.as_slice(), 0, start);
    let mut i: usize = 0;
    while i < rep.len()
        invariant
            0 <= i <= rep@.len(),
            out@ == v@.take(start as int) + rep@.subrange(0, i as int),
            start <= end <= v@.len(),
        decreases rep@.len() - i,
    {
        out.push(rep[i]);
        proof {
            assert(out@ =~= v@.take(start as int) + rep@.subrange(0, i + 1 as int));
        }
        i = i + 1;
    }
    proof {
        assert(rep@.subrange(0, rep@.len() as int) =~= rep@);
    }
    let mut j: usize = end;
    while j < v.len()
        invariant
            end <= j <= v@.len(),
            out@ == v@.take(start as int) + rep@ + v@.subrange(end as int, j as int),
        decreases v@.len() - j,
    {
        out.push(v[j]);
        proof {
            assert(out@ =~= v@.take(start as int) + rep@ + v@.subrange(end as int, j + 1 as int));
        }
        j = j + 1;
    }
    proof {
        assert(v@.subrange(end as int, v@.len() as int) =~= v@.skip(end as int));
        assert(out@ =~= spec_splice(v@, start as int, end as int, rep@));
    }
    out
}

} // verus!
