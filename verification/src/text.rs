//! Comparing and copying pieces of text.

use vstd::prelude::*;
use vstd::string::StrSliceExecFns;

verus! {

/// The code of a character, with the ASCII capitals mapped to their small
/// letters.
pub open spec fn spec_lower_code(c: char) -> u32 {
    if 'A' <= c && c <= 'Z' {
        (c as u32 + 32) as u32
    } else {
        c as u32
    }
}

/// See [`spec_lower_code`].
pub fn lower_code(c: char) -> (r: u32)
    ensures
        r == spec_lower_code(c),
{
    if 'A' <= c && c <= 'Z' {
        c as u32 + 32
    } else {
        c as u32
    }
}

/// True when two texts are the same but for the case of their ASCII letters.
pub open spec fn spec_eq_ignore_ascii_case(a: Seq<char>, b: Seq<char>) -> bool {
    a.len() == b.len() && forall|i: int|
        0 <= i < a.len() ==> spec_lower_code(#[trigger] a[i]) == spec_lower_code(b[i])
}

/// True when two texts are the same but for the case of their ASCII letters.
pub fn eq_ignore_ascii_case(a: &str, b: &str) -> (r: bool)
    ensures
        r == spec_eq_ignore_ascii_case(a@, b@),
{
    let n = a.unicode_len();
    if n != b.unicode_len() {
        return false;
    }
    let mut i: usize = 0;
    while i < n
        invariant
            n == a@.len(),
            n == b@.len(),
            i <= n,
            forall|k: int| 0 <= k < i ==> spec_lower_code(#[trigger] a@[k]) == spec_lower_code(b@[k]),
        decreases n - i,
    {
        if lower_code(a.get_char(i)) != lower_code(b.get_char(i)) {
            return false;
        }
        i += 1;
    }
    true
}

/// True when two texts are the same.
pub fn same_text(a: &str, b: &str) -> (r: bool)
    ensures
        r == (a@ == b@),
{
    a.to_owned() == b.to_owned()
}

/// A copy of a list of texts.
pub fn clone_texts(texts: &Vec<String>) -> (r: Vec<String>)
    ensures
        r@ == texts@,
{
    let mut copy: Vec<String> = Vec::with_capacity(texts.len());
    let mut i: usize = 0;
    while i < texts.len()
        invariant
            i <= texts@.len(),
            copy@ == texts@.take(i as int),
        decreases texts@.len() - i,
    {
        copy.push(texts[i].clone());
        assert(texts@.take(i as int).push(texts@[i as int]) =~= texts@.take(i as int + 1));
        i += 1;
    }
    assert(texts@.take(texts@.len() as int) =~= texts@);
    copy
}

/// Comparing texts without regard to case is reflexive and symmetric.
pub proof fn lemma_eq_ignore_ascii_case_symmetric(a: Seq<char>, b: Seq<char>)
    ensures
        spec_eq_ignore_ascii_case(a, a),
        spec_eq_ignore_ascii_case(a, b) == spec_eq_ignore_ascii_case(b, a),
{
    if spec_eq_ignore_ascii_case(a, b) {
        assert forall|i: int| 0 <= i < b.len() implies spec_lower_code(#[trigger] b[i])
            == spec_lower_code(a[i]) by {
            assert(spec_lower_code(a[i]) == spec_lower_code(b[i]));
        }
    }
    if spec_eq_ignore_ascii_case(b, a) {
        assert forall|i: int| 0 <= i < a.len() implies spec_lower_code(#[trigger] a[i])
            == spec_lower_code(b[i]) by {
            assert(spec_lower_code(b[i]) == spec_lower_code(a[i]));
        }
    }
}

} // verus!
