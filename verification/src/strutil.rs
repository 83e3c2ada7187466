//! Helpers for reasoning about vectors of strings and for building strings
//! character by character.

use vstd::prelude::*;

verus! {

/// The elements of `v`, each viewed as its character sequence.
pub open spec fn strs(v: Seq<String>) -> Seq<Seq<char>> {
    v.map_values(|x: String| x@)
}

/// True when some element of `v` has exactly the characters `s`.
pub open spec fn seq_has_str(v: Seq<String>, s: Seq<char>) -> bool {
    exists|i: int| 0 <= i < v.len() && v[i]@ == s
}

/// True when the elements of `v` are pairwise distinct as character sequences.
pub open spec fn distinct_strs(v: Seq<String>) -> bool {
    forall|i: int, j: int| 0 <= i < j < v.len() ==> v[i]@ != v[j]@
}

/// Compares two string slices by contents.
pub fn str_eq(a: &str, b: &str) -> (r: bool)
    ensures
        r == (a@ == b@),
{
    let x: String = a.to_owned();
    let y: String = b.to_owned();
    x == y
}

/// Index of the first element of `v` whose characters are exactly `s`.
pub fn find_str(v: &Vec<String>, s: &str) -> (r: Option<usize>)
    ensures
        match r {
            Some(i) => i < v@.len() && v@[i as int]@ == s@
                && (forall|j: int| 0 <= j < i ==> v@[j]@ != s@),
            None => !seq_has_str(v@, s@),
        },
{
    let mut i: usize = 0;
    while i < v.len()
        invariant
            i <= v@.len(),
            forall|j: int| 0 <= j < i ==> v@[j]@ != s@,
        decreases v@.len() - i,
    {
        if str_eq(v[i].as_str(), s) {
            return Some(i);
        }
        i += 1;
    }
    None
}

/// Whether some element of `v` has exactly the characters of `s`.
pub fn contains_str(v: &Vec<String>, s: &str) -> (r: bool)
    ensures
        r == seq_has_str(v@, s@),
{
    match find_str(v, s) {
        Some(_) => true,
        None => false,
    }
}

/// Appends `s` unless an element with the same characters is already present.
pub fn push_unique(v: &mut Vec<String>, s: &str)
    ensures
        seq_has_str(old(v)@, s@) ==> final(v)@ == old(v)@,
        !seq_has_str(old(v)@, s@) ==> final(v)@.len() == old(v)@.len() + 1
            && final(v)@.subrange(0, old(v)@.len() as int) == old(v)@
            && final(v)@[old(v)@.len() as int]@ == s@,
        forall|t: Seq<char>|
            seq_has_str(final(v)@, t) <==> (seq_has_str(old(v)@, t) || t == s@),
        distinct_strs(old(v)@) ==> distinct_strs(final(v)@),
{
    if !contains_str(v, s) {
        let ghost pre = v@;
        v.push(s.to_owned());
        proof {
            assert(final(v)@.subrange(0, pre.len() as int) =~= pre);
            assert forall|t: Seq<char>|
                seq_has_str(final(v)@, t) <==> (seq_has_str(pre, t) || t == s@) by {
                if seq_has_str(pre, t) {
                    let i = choose|i: int| 0 <= i < pre.len() && pre[i]@ == t;
                    assert(final(v)@[i]@ == t);
                }
                if t == s@ {
                    assert(final(v)@[pre.len() as int]@ == t);
                }
                if seq_has_str(final(v)@, t) {
                    let i = choose|i: int|
                        0 <= i < final(v)@.len() && final(v)@[i]@ == t;
                    if i < pre.len() {
                        assert(pre[i]@ == t);
                    }
                }
            }
        }
    } else {
        proof {
            assert forall|t: Seq<char>|
                seq_has_str(v@, t) <==> (seq_has_str(v@, t) || t == s@) by {
                if t == s@ {
                    assert(seq_has_str(v@, t));
                }
            }
        }
    }
}

/// Removes the first element whose characters are exactly `s`, if any.
pub fn remove_str(v: &mut Vec<String>, s: &str)
    requires
        distinct_strs(old(v)@),
    ensures
        distinct_strs(final(v)@),
        forall|t: Seq<char>|
            seq_has_str(final(v)@, t) <==> (seq_has_str(old(v)@, t) && t != s@),
        final(v)@.len() == if seq_has_str(old(v)@, s@) {
            old(v)@.len() - 1
        } else {
            old(v)@.len() as int
        },
{
    let ghost pre = v@;
    match find_str(v, s) {
        Some(i) => {
            v.remove(i);
            proof {
                assert forall|t: Seq<char>|
                    seq_has_str(final(v)@, t) <==> (seq_has_str(pre, t) && t != s@) by {
                    if seq_has_str(final(v)@, t) {
                        let k = choose|k: int|
                            0 <= k < final(v)@.len() && final(v)@[k]@ == t;
                        if k < i {
                            assert(pre[k]@ == t);
                            assert(t != s@);
                        } else {
                            assert(pre[k + 1]@ == t);
                            assert(t != s@);
                        }
                    }
                    if seq_has_str(pre, t) && t != s@ {
                        let k = choose|k: int| 0 <= k < pre.len() && pre[k]@ == t;
                        if k < i {
                            assert(final(v)@[k]@ == t);
                        } else {
                            assert(k != i);
                            assert(final(v)@[k - 1]@ == t);
                        }
                    }
                }
                assert forall|a: int, b: int|
                    0 <= a < b < final(v)@.len() implies final(v)@[a]@ != final(v)@[b]@ by {
                    let a0 = if a < i { a } else { a + 1 };
                    let b0 = if b < i { b } else { b + 1 };
                    assert(final(v)@[a]@ == pre[a0]@);
                    assert(final(v)@[b]@ == pre[b0]@);
                }
            }
        },
        None => {
            proof {
                assert forall|t: Seq<char>|
                    seq_has_str(v@, t) <==> (seq_has_str(pre, t) && t != s@) by {
                    if seq_has_str(pre, t) && t == s@ {
                        assert(!seq_has_str(pre, s@));
                    }
                }
            }
        },
    }
}

/// Clones a vector of strings, preserving each element's characters.
pub fn clone_strs(v: &Vec<String>) -> (r: Vec<String>)
    ensures
        r@.len() == v@.len(),
        forall|i: int| 0 <= i < v@.len() ==> r@[i]@ == v@[i]@,
{
    let mut out: Vec<String> = Vec::new();
    let mut i: usize = 0;
    while i < v.len()
        invariant
            i <= v@.len(),
            out@.len() == i,
            forall|j: int| 0 <= j < i ==> out@[j]@ == v@[j]@,
        decreases v@.len() - i,
    {
        out.push(v[i].clone());
        i += 1;
    }
    out
}

/// True when `s` ends with the characters `suffix`.
pub open spec fn spec_ends_with(s: Seq<char>, suffix: Seq<char>) -> bool {
    s.len() >= suffix.len() && s.subrange(s.len() - suffix.len(), s.len() as int) == suffix
}

/// True when `s` begins with the characters `prefix`.
pub open spec fn spec_starts_with(s: Seq<char>, prefix: Seq<char>) -> bool {
    s.len() >= prefix.len() && s.subrange(0, prefix.len() as int) == prefix
}

/// Whether `s` ends with `suffix`, compared character by character.
pub fn str_ends_with(s: &str, suffix: &str) -> (r: bool)
    ensures
        r == spec_ends_with(s@, suffix@),
{
    let n = s.unicode_len();
    let m = suffix.unicode_len();
    if m > n {
        return false;
    }
    let tail = s.substring_char(n - m, n);
    let r = str_eq(tail, suffix);
    proof {
        if r {
            assert(s@.subrange(s@.len() - suffix@.len(), s@.len() as int) == suffix@);
        }
    }
    r
}

/// Whether `s` begins with `prefix`, compared character by character.
pub fn str_starts_with(s: &str, prefix: &str) -> (r: bool)
    ensures
        r == spec_starts_with(s@, prefix@),
{
    let n = s.unicode_len();
    let m = prefix.unicode_len();
    if m > n {
        return false;
    }
    let head = s.substring_char(0, m);
    str_eq(head, prefix)
}

} // verus!
