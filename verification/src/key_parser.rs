//! Splitting a placeholder pattern into key and argument text.
//!
//! A pattern such as `lorem.words(3..5)` splits at its first parenthesis:
//! the key before it, the argument text from it on.

use vstd::prelude::*;
use crate::arguments::{Arguments, spec_find1, spec_arguments};
use crate::strutil::{to_chars, string_slice};

verus! {

/// The key part of a pattern: everything before the first parenthesis.
pub open spec fn spec_pattern_key(s: Seq<char>) -> Seq<char> {
    let i = spec_find1(s, '(');
    if i >= 0 {
        s.take(i)
    } else {
        s
    }
}

/// The argument part of a pattern: the first parenthesis and all that follows.
pub open spec fn spec_pattern_args(s: Seq<char>) -> Seq<char> {
    let i = spec_find1(s, '(');
    if i >= 0 {
        s.skip(i)
    } else {
        Seq::empty()
    }
}

/// A pattern taken apart: the catalog key and its parsed arguments.
pub struct KeyParser {
    /// The key before any parenthesis.
    pub key: String,
    /// The parsed argument text.
    pub arguments: Arguments,
}

impl KeyParser {
    /// Takes a pattern apart at its first parenthesis.
    pub fn parse(value: &str) -> (r: KeyParser)
        ensures
            r.key@ == spec_pattern_key(value@),
            r.arguments@ == spec_arguments(spec_pattern_args(value@)),
    {
        let v = to_chars(value);
        let mut i: usize = 0;
        let n = v.len();
        while i < n && v[i] != '('
            invariant
                0 <= i <= n,
                n == v@.len(),
                v@ == value@,
                forall|j: int| 0 <= j < i ==> v@[j] != '(',
            decreases n - i,
        {
            i = i + 1;
        }
        proof {
            lemma_no_paren_before(value@, i as int);
        }
        let key = string_slice(v.as_slice(), 0, i);
        let argtext = string_slice(v.as_slice(), i, n);
        let arguments = Arguments::parse(argtext.as_str());
        proof {
            assert(value@.take(value@.len() as int) =~= value@);
            assert(value@.skip(value@.len() as int) =~= Seq::<char>::empty());
        }
        KeyParser { key, arguments }
    }
}

/// If no parenthesis stands before `i`, and `i` is its position or the end,
/// then the split point of the pattern is `i`.
proof fn lemma_no_paren_before(s: Seq<char>, i: int)
    requires
        0 <= i <= s.len(),
        forall|j: int| 0 <= j < i ==> s[j] != '(',
        i < s.len() ==> s[i] == '(',
    ensures
        i < s.len() ==> spec_find1(s, '(') == i,
        i == s.len() ==> spec_find1(s, '(') == -1,
    decreases s.len(),
{
    if s.len() > 0 && i > 0 {
        lemma_no_paren_before(s.skip(1), i - 1);
    }
}

} // verus!
