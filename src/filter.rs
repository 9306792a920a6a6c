//! Classification of network interfaces by name.

use vstd::prelude::*;
use vstd::string::*;

verus! {

/// `p` is a prefix of `s`.
pub open spec fn has_prefix(s: Seq<char>, p: Seq<char>) -> bool {
    p.len() <= s.len() && s.subrange(0, p.len() as int) == p
}

/// A primary (Ethernet or Wi-Fi) adapter is recognised by one of the name
/// prefixes `en`, `eth`, `ens` or `enp`; every other name (loopback,
/// bridges, container and virtual adapters, unknown names) is rejected.
pub open spec fn is_primary_name(name: Seq<char>) -> bool {
    has_prefix(name, seq!['e', 'n'])
        || has_prefix(name, seq!['e', 't', 'h'])
        || has_prefix(name, seq!['e', 'n', 's'])
        || has_prefix(name, seq!['e', 'n', 'p'])
}

/// Whether `prefix` is a prefix of `s`, compared character by character.
pub fn starts_with(s: &str, prefix: &str) -> (r: bool)
    ensures
        r == has_prefix(s@, prefix@),
{
    let n = s.unicode_len();
    let m = prefix.unicode_len();
    if m > n {
        return false;
    }
    let mut i: usize = 0;
    while i < m
        invariant
            m == prefix@.len(),
            n == s@.len(),
            m <= n,
            i <= m,
            forall|j: int| 0 <= j < i ==> s@[j] == prefix@[j],
        decreases m - i,
    {
        if s.get_char(i) != prefix.get_char(i) {
            assert(s@.subrange(0, m as int)[i as int] != prefix@[i as int]);
            return false;
        }
        i = i + 1;
    }
    assert(s@.subrange(0, m as int) =~= prefix@);
    true
}

/// Whether traffic of the interface `name` counts towards the totals.
/// The decision depends on the name alone.
pub fn is_valid_interface(name: &str) -> (r: bool)
    ensures
        r == is_primary_name(name@),
{
    proof {
        reveal_strlit("en");
        reveal_strlit("eth");
        reveal_strlit("ens");
        reveal_strlit("enp");
    }
    let a = starts_with(name, "en");
    let b = starts_with(name, "eth");
    let c = starts_with(name, "ens");
    let d = starts_with(name, "enp");
    assert("en"@ =~= seq!['e', 'n']);
    assert("eth"@ =~= seq!['e', 't', 'h']);
    assert("ens"@ =~= seq!['e', 'n', 's']);
    assert("enp"@ =~= seq!['e', 'n', 'p']);
    a || b || c || d
}

} // verus!
