//! Small helpers on byte strings.

use vstd::prelude::*;

verus! {

/// The position of the first occurrence of `needle` in `s`, if any.
pub open spec fn first_index_of<T>(s: Seq<T>, needle: T) -> Option<int> {
    if exists|i: int| 0 <= i < s.len() && s[i] == needle {
        Some(choose|i: int| is_first_index_of(s, needle, i))
    } else {
        None
    }
}

/// `i` is the position of the first occurrence of `needle` in `s`.
pub open spec fn is_first_index_of<T>(s: Seq<T>, needle: T, i: int) -> bool {
    &&& 0 <= i < s.len()
    &&& s[i] == needle
    &&& forall|j: int| 0 <= j < i ==> s[j] != needle
}

/// There is at most one first occurrence, and `first_index_of` names it.
pub proof fn lemma_first_index_unique<T>(s: Seq<T>, needle: T, i: int)
    requires
        is_first_index_of(s, needle, i),
    ensures
        first_index_of(s, needle) == Some(i),
{
    let c = choose|k: int| is_first_index_of(s, needle, k);
    assert(is_first_index_of(s, needle, c));
    if c < i {
        assert(s[c] != needle);
    } else if i < c {
        assert(s[i] != needle);
    }
}

/// Where `needle` occurs, `first_index_of` names its first occurrence.
pub proof fn lemma_first_index_exists<T>(s: Seq<T>, needle: T)
    requires
        exists|i: int| 0 <= i < s.len() && s[i] == needle,
    ensures
        first_index_of(s, needle) matches Some(i) && is_first_index_of(s, needle, i),
{
    let w = choose|i: int| 0 <= i < s.len() && s[i] == needle;
    lemma_first_occurrence(s, needle, w);
}

/// Before any occurrence of `needle` at or before `upto` there is a first one.
proof fn lemma_first_occurrence<T>(s: Seq<T>, needle: T, upto: int)
    requires
        0 <= upto < s.len(),
        s[upto] == needle,
    ensures
        exists|i: int| is_first_index_of(s, needle, i),
    decreases upto,
{
    if exists|j: int| 0 <= j < upto && s[j] == needle {
        let j = choose|j: int| 0 <= j < upto && s[j] == needle;
        lemma_first_occurrence(s, needle, j);
    } else {
        assert(is_first_index_of(s, needle, upto));
    }
}

/// Without an occurrence there is no first one.
pub proof fn lemma_first_index_absent<T>(s: Seq<T>, needle: T)
    requires
        forall|j: int| 0 <= j < s.len() ==> s[j] != needle,
    ensures
        first_index_of(s, needle) is None,
{
}

/// Finds the first occurrence of `needle` in `s`.
pub fn find_byte(s: &[u8], needle: u8) -> (found: Option<usize>)
    ensures
        found matches Some(i) ==> is_first_index_of(s@, needle, i as int),
        found is None ==> forall|j: int| 0 <= j < s@.len() ==> s@[j] != needle,
        match found {
            Some(i) => first_index_of(s@, needle) == Some(i as int),
            None => first_index_of(s@, needle) is None,
        },
{
    let mut i: usize = 0;
    while i < s.len()
        invariant
            i <= s@.len(),
            forall|j: int| 0 <= j < i ==> s@[j] != needle,
        decreases s@.len() - i,
    {
        if s[i] == needle {
            proof {
                lemma_first_index_unique(s@, needle, i as int);
            }
            return Some(i);
        }
        i = i + 1;
    }
    proof {
        lemma_first_index_absent(s@, needle);
    }
    None
}

/// Whether two byte strings hold the same bytes.
pub fn bytes_equal(a: &[u8], b: &[u8]) -> (same: bool)
    ensures
        same == (a@ == b@),
{
    if a.len() != b.len() {
        return false;
    }
    let mut i: usize = 0;
    while i < a.len()
        invariant
            i <= a@.len(),
            a@.len() == b@.len(),
            forall|j: int| 0 <= j < i ==> a@[j] == b@[j],
        decreases a@.len() - i,
    {
        if a[i] != b[i] {
            return false;
        }
        i = i + 1;
    }
    assert(a@ =~= b@);
    true
}

/// A fresh copy of `s[from..to]`.
pub fn copy_range(s: &[u8], from: usize, to: usize) -> (out: Vec<u8>)
    requires
        from <= to <= s@.len(),
    ensures
        out@ == s@.subrange(from as int, to as int),
{
    let mut out: Vec<u8> = Vec::new();
    let mut i: usize = from;
    while i < to
        invariant
            from <= i <= to <= s@.len(),
            out@ == s@.subrange(from as int, i as int),
        decreases to - i,
    {
        out.push(s[i]);
        assert(out@ =~= s@.subrange(from as int, i + 1));
        i = i + 1;
    }
    out
}

} // verus!
