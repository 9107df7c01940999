use vstd::prelude::*;
use vstd::string::*;

verus! {

/// Index of the first NUL character of `s`, or its length if there is none.
pub open spec fn nul_index(s: Seq<char>) -> nat
    decreases s.len(),
{
    if s.len() == 0 {
        0
    } else if s[0] == '\0' {
        0
    } else {
        1 + nul_index(s.drop_first())
    }
}

/// The characters of `s` that come before its first NUL character.
pub open spec fn before_nul(s: Seq<char>) -> Seq<char> {
    s.take(nul_index(s) as int)
}

pub proof fn lemma_nul_index(s: Seq<char>)
    ensures
        nul_index(s) <= s.len(),
        forall|i: int| 0 <= i < nul_index(s) ==> s[i] != '\0',
        nul_index(s) < s.len() ==> s[nul_index(s) as int] == '\0',
    decreases s.len(),
{
    if s.len() > 0 && s[0] != '\0' {
        lemma_nul_index(s.drop_first());
        assert forall|i: int| 0 <= i < nul_index(s) implies s[i] != '\0' by {
            if i > 0 {
                assert(s[i] == s.drop_first()[i - 1]);
            }
        }
    }
}

/// Cutting at the first NUL keeps exactly the characters before position `k`
/// when `k` holds a NUL and none comes earlier; a text without NUL is kept
/// whole.
pub proof fn lemma_before_nul(s: Seq<char>, k: int)
    requires
        0 <= k <= s.len(),
        k < s.len() ==> s[k] == '\0',
        forall|i: int| 0 <= i < k ==> s[i] != '\0',
    ensures
        before_nul(s) == s.take(k),
        (forall|i: int| 0 <= i < s.len() ==> s[i] != '\0') ==> before_nul(s) == s,
{
    lemma_nul_index(s);
    let n = nul_index(s) as int;
    if n < k {
        assert(s[n] == '\0');
    }
    if k < n {
        assert(s[k] != '\0');
    }
    assert(n == k);
    if forall|i: int| 0 <= i < s.len() ==> s[i] != '\0' {
        if n < s.len() {
            assert(s[n] == '\0');
        }
        assert(s.take(n) =~= s);
    }
}

/// Cuts `s` at its first NUL character; without one, `s` is kept whole.
pub fn truncate_at_nul(s: &str) -> (r: String)
    ensures
        r@ == before_nul(s@),
{
    let len = s.unicode_len();
    let mut k: usize = 0;
    while k < len
        invariant
            len == s@.len(),
            k <= len,
            forall|i: int| 0 <= i < k ==> s@[i] != '\0',
        ensures
            k <= len,
            k < len ==> s@[k as int] == '\0',
            forall|i: int| 0 <= i < k ==> s@[i] != '\0',
        decreases len - k,
    {
        if s.get_char(k) == '\0' {
            break;
        }
        k = k + 1;
    }
    proof {
        lemma_before_nul(s@, k as int);
    }
    String::from_str(s.substring_char(0, k))
}

} // verus!
