//! Character-level string predicates and the verified scans that decide them.

use vstd::prelude::*;

verus! {

/// The UTF-8 byte length of a character sequence.
pub open spec fn byte_len(s: Seq<char>) -> nat {
    vstd::utf8::encode_utf8(s).len()
}

/// The byte length as `str::len` reports it.
pub open spec fn str_byte_len(s: Seq<char>) -> int {
    (byte_len(s) as usize) as int
}

/// `needle` occurs in `hay` starting at index `i`.
pub open spec fn substr_at(hay: Seq<char>, i: int, needle: Seq<char>) -> bool {
    &&& 0 <= i
    &&& i + needle.len() <= hay.len()
    &&& forall|k: int| 0 <= k < needle.len() ==> hay[i + k] == needle[k]
}

/// `needle` occurs somewhere in `hay`.
pub open spec fn contains_substr(hay: Seq<char>, needle: Seq<char>) -> bool {
    exists|i: int| substr_at(hay, i, needle)
}

/// Some element of `needles` occurs in `hay`.
pub open spec fn contains_any_substr(hay: Seq<char>, needles: Seq<Seq<char>>) -> bool {
    exists|k: int| 0 <= k < needles.len() && contains_substr(hay, needles[k])
}

/// `p` is a prefix of `s`.
pub open spec fn has_prefix(s: Seq<char>, p: Seq<char>) -> bool {
    p.len() <= s.len() && (forall|k: int| 0 <= k < p.len() ==> s[k] == p[k])
}

/// Character-for-character string equality.
pub fn str_eq(a: &str, b: &str) -> (r: bool)
    ensures
        r == (a@ == b@),
{
    let n = a.unicode_len();
    if n != b.unicode_len() {
        proof {
            if a@ == b@ {
                assert(a@.len() == b@.len());
            }
        }
        return false;
    }
    let mut i: usize = 0;
    while i < n
        invariant
            i <= n,
            n == a@.len(),
            n == b@.len(),
            forall|k: int| 0 <= k < i ==> a@[k] == b@[k],
        decreases n - i,
    {
        if a.get_char(i) != b.get_char(i) {
            return false;
        }
        i += 1;
    }
    proof {
        assert(a@ =~= b@);
    }
    true
}

/// Whether `p` begins `s`.
pub fn starts_with(s: &str, p: &str) -> (r: bool)
    ensures
        r == has_prefix(s@, p@),
{
    let n = s.unicode_len();
    let m = p.unicode_len();
    if m > n {
        return false;
    }
    let mut k: usize = 0;
    while k < m
        invariant
            k <= m,
            m <= n,
            n == s@.len(),
            m == p@.len(),
            forall|j: int| 0 <= j < k ==> s@[j] == p@[j],
        decreases m - k,
    {
        if s.get_char(k) != p.get_char(k) {
            return false;
        }
        k += 1;
    }
    true
}

/// The position of the first occurrence of `needle` in `hay`, if any.
pub fn find_substr(hay: &str, needle: &str) -> (r: Option<usize>)
    ensures
        match r {
            Some(i) => substr_at(hay@, i as int, needle@) && (forall|j: int|
                0 <= j < i ==> !substr_at(hay@, j, needle@)),
            None => !contains_substr(hay@, needle@),
        },
{
    let n = hay.unicode_len();
    let m = needle.unicode_len();
    if m > n {
        return None;
    }
    let mut i: usize = 0;
    while i <= n - m
        invariant
            m <= n,
            n == hay@.len(),
            m == needle@.len(),
            i <= n - m + 1,
            forall|j: int| 0 <= j < i ==> !substr_at(hay@, j, needle@),
        decreases n - m + 1 - i,
    {
        let mut k: usize = 0;
        let mut matched = true;
        while k < m
            invariant
                k <= m,
                m <= n,
                i + m <= n,
                n == hay@.len(),
                m == needle@.len(),
                matched ==> forall|j: int| 0 <= j < k ==> hay@[i + j] == needle@[j],
                !matched ==> !substr_at(hay@, i as int, needle@),
            decreases m - k,
        {
            if hay.get_char(i + k) != needle.get_char(k) {
                matched = false;
                k = m;
            } else {
                k = k + 1;
            }
        }
        if matched {
            return Some(i);
        }
        i += 1;
    }
    proof {
        assert forall|j: int| 0 <= j implies !substr_at(hay@, j, needle@) by {
            if substr_at(hay@, j, needle@) {
                assert(j + needle@.len() <= hay@.len());
                assert(j < i);
            }
        }
    }
    None
}

/// Whether `needle` occurs anywhere in `hay`.
pub fn contains_str(hay: &str, needle: &str) -> (r: bool)
    ensures
        r == contains_substr(hay@, needle@),
{
    match find_substr(hay, needle) {
        Some(_) => true,
        None => false,
    }
}

/// Whether any element of `needles` occurs in `hay`.
pub fn contains_any_str(hay: &str, needles: &Vec<String>) -> (r: bool)
    ensures
        r == contains_any_substr(hay@, needles.deep_view()),
{
    let mut k: usize = 0;
    while k < needles.len()
        invariant
            k <= needles.len(),
            needles.deep_view().len() == needles.len(),
            forall|j: int| 0 <= j < k ==> !contains_substr(hay@, needles.deep_view()[j]),
        decreases needles.len() - k,
    {
        proof {
            assert(needles.deep_view()[k as int] == needles@[k as int]@);
        }
        if contains_str(hay, needles[k].as_str()) {
            return true;
        }
        k += 1;
    }
    false
}

/// Whether `s` equals some element of `list`.
pub fn string_list_has(list: &Vec<String>, s: &str) -> (r: bool)
    ensures
        r == list.deep_view().contains(s@),
{
    let mut k: usize = 0;
    while k < list.len()
        invariant
            k <= list.len(),
            list.deep_view().len() == list.len(),
            forall|j: int| 0 <= j < k ==> list.deep_view()[j] != s@,
        decreases list.len() - k,
    {
        proof {
            assert(list.deep_view()[k as int] == list@[k as int]@);
        }
        if str_eq(list[k].as_str(), s) {
            proof {
                assert(list.deep_view().contains(s@));
            }
            return true;
        }
        k += 1;
    }
    proof {
        if list.deep_view().contains(s@) {
            let j = choose|j: int| 0 <= j < list.deep_view().len() && list.deep_view()[j] == s@;
            assert(list.deep_view()[j] != s@);
        }
    }
    false
}

} // verus!
