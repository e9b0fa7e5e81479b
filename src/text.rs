use vstd::prelude::*;
use vstd::string::*;

verus! {

/// Whether `token` occurs in `s` as a contiguous run of characters.
pub open spec fn contains_seq(s: Seq<char>, token: Seq<char>) -> bool {
    exists|i: int| 0 <= i <= s.len() - token.len() && #[trigger] s.subrange(i, i + token.len()) == token
}

/// The characters of a string, one element each.
pub fn chars_of(s: &str) -> (r: Vec<char>)
    ensures
        r@ == s@,
{
    let n = s.unicode_len();
    let mut r: Vec<char> = Vec::new();
    let mut i: usize = 0;
    while i < n
        invariant
            n == s@.len(),
            i <= n,
            r@ == s@.subrange(0, i as int),
        decreases n - i,
    {
        r.push(s.get_char(i));
        i = i + 1;
        assert(r@ =~= s@.subrange(0, i as int));
    }
    assert(r@ =~= s@);
    r
}

/// Whether `token` occurs at position `at` of `s`.
fn occurs_at(s: &Vec<char>, token: &Vec<char>, at: usize) -> (r: bool)
    requires
        at + token@.len() <= s@.len(),
    ensures
        r == (s@.subrange(at as int, at + token@.len()) == token@),
{
    let n = s.len();
    let mut k: usize = 0;
    while k < token.len()
        invariant
            n == s@.len(),
            at + token@.len() <= s@.len(),
            k <= token@.len(),
            forall|j: int| 0 <= j < k ==> s@[at + j] == token@[j],
        decreases token@.len() - k,
    {
        if s[at + k] != token[k] {
            assert(s@.subrange(at as int, at + token@.len())[k as int] != token@[k as int]);
            return false;
        }
        k = k + 1;
    }
    assert(s@.subrange(at as int, at + token@.len()) =~= token@);
    true
}

/// Whether `token` occurs anywhere in `s`.
pub fn contains_chars(s: &Vec<char>, token: &Vec<char>) -> (r: bool)
    ensures
        r == contains_seq(s@, token@),
{
    if token.len() > s.len() {
        return false;
    }
    let last = s.len() - token.len();
    let mut at: usize = 0;
    while at <= last
        invariant
            last == s@.len() - token@.len(),
            token@.len() <= s@.len(),
            forall|i: int| 0 <= i < at ==> #[trigger] s@.subrange(i, i + token@.len()) != token@,
        decreases last + 1 - at,
    {
        if occurs_at(s, token, at) {
            return true;
        }
        if at == last {
            return false;
        }
        at = at + 1;
    }
    false
}

} // verus!
