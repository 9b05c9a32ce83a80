//! Canonical identifier form for package names, and the fixed skip set.
//!
//! A package name may contain hyphens; wherever an identifier is required
//! (artifact stems, invocation names, linkage aliases) the normalized form,
//! with every `-` replaced by `_`, is used instead. The skip set is a fixed
//! substring predicate over raw names marking packages that must never
//! receive a rule nor appear in any dependent's linkage references.

use vstd::prelude::*;

verus! {

/// A raw package name with every `-` replaced by `_`.
pub open spec fn normalized(s: Seq<char>) -> Seq<char> {
    s.map(|_i: int, c: char| if c == '-' { '_' } else { c })
}

/// `needle` occurs in `hay` starting at position `at`.
pub open spec fn occurs_at(hay: Seq<char>, needle: Seq<char>, at: int) -> bool {
    0 <= at && at + needle.len() <= hay.len() && forall|k: int|
        0 <= k < needle.len() ==> hay[at + k] == needle[k]
}

/// `needle` occurs somewhere in `hay`.
pub open spec fn contains_seq(hay: Seq<char>, needle: Seq<char>) -> bool {
    exists|at: int| occurs_at(hay, needle, at)
}

/// Raw names of packages that the plan leaves out entirely.
pub open spec fn skip_name(name: Seq<char>) -> bool {
    contains_seq(name, "winapi"@) || contains_seq(name, "redox"@)
}

/// Replaces every `-` in a package name with `_`.
pub fn normalize_crate_name(crate_name: &str) -> (r: String)
    ensures
        r@ == normalized(crate_name@),
{
    let n = crate_name.unicode_len();
    let mut out = String::new();
    let mut i: usize = 0;
    while i < n
        invariant
            n == crate_name@.len(),
            i <= n,
            out@ == normalized(crate_name@.take(i as int)),
        decreases n - i,
    {
        let c = crate_name.get_char(i);
        if c == '-' {
            out.append("_");
            proof {
                reveal_strlit("_");
            }
        } else {
            out.append(crate_name.substring_char(i, i + 1));
        }
        proof {
            assert(out@ =~= normalized(crate_name@.take(i as int + 1)));
        }
        i = i + 1;
    }
    proof {
        assert(crate_name@.take(n as int) =~= crate_name@);
    }
    out
}

/// True when `needle` occurs in `hay` as a contiguous run of characters.
pub fn contains_str(hay: &str, needle: &str) -> (r: bool)
    ensures
        r == contains_seq(hay@, needle@),
{
    let hn = hay.unicode_len();
    let nn = needle.unicode_len();
    if nn > hn {
        proof {
            assert(forall|at: int| !occurs_at(hay@, needle@, at));
        }
        return false;
    }
    let mut at: usize = 0;
    while at <= hn - nn
        invariant
            hn == hay@.len(),
            nn == needle@.len(),
            nn <= hn,
            at <= hn - nn + 1,
            forall|p: int| 0 <= p < at ==> !occurs_at(hay@, needle@, p),
        decreases hn - nn - at + 1,
    {
        let mut k: usize = 0;
        let mut all_match = true;
        while k < nn
            invariant
                hn == hay@.len(),
                nn == needle@.len(),
                at + nn <= hn,
                k <= nn,
                all_match ==> forall|q: int| 0 <= q < k ==> hay@[at + q] == needle@[q],
                !all_match ==> !occurs_at(hay@, needle@, at as int),
            decreases nn - k,
        {
            if hay.get_char(at + k) != needle.get_char(k) {
                all_match = false;
            }
            k = k + 1;
        }
        if all_match {
            proof {
                assert(occurs_at(hay@, needle@, at as int));
            }
            return true;
        }
        at = at + 1;
    }
    proof {
        assert(forall|p: int| occurs_at(hay@, needle@, p) ==> 0 <= p <= hn - nn);
    }
    false
}

/// True when two string slices hold the same characters.
pub fn str_eq(a: &str, b: &str) -> (r: bool)
    ensures
        r == (a@ == b@),
{
    let an = a.unicode_len();
    let bn = b.unicode_len();
    if an != bn {
        return false;
    }
    let mut i: usize = 0;
    while i < an
        invariant
            an == a@.len(),
            an == b@.len(),
            i <= an,
            forall|j: int| 0 <= j < i ==> a@[j] == b@[j],
        decreases an - i,
    {
        if a.get_char(i) != b.get_char(i) {
            return false;
        }
        i = i + 1;
    }
    proof {
        assert(a@ =~= b@);
    }
    true
}

/// True for packages that the plan generator must skip: names containing
/// `winapi` or `redox` mark crates the plan cannot build.
pub fn skip_dep(name: &str) -> (r: bool)
    ensures
        r == skip_name(name@),
{
    contains_str(name, "winapi") || contains_str(name, "redox")
}

} // verus!
