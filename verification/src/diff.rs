//! Reduces the diff entries of one commit to a line/file/byte statistic,
//! honoring the ignored-path and allowed-extension filters.

use vstd::prelude::*;

use crate::text::{contains_any_substr, contains_any_str, str_byte_len, string_list_has};
use crate::Stats;
use vstd::string::StringSliceAdditionalSpecFns;

verus! {

/// One entry of a commit's diff collection, as the remote API reports it.
/// The body is absent for binary or oversized files.
pub struct DiffInfo {
    pub old_path: Option<String>,
    pub new_path: Option<String>,
    pub diff: Option<String>,
}

/// The path an entry is accounted under: the new path when present,
/// otherwise the old path, otherwise empty.
pub open spec fn effective_path(d: DiffInfo) -> Seq<char> {
    match d.new_path {
        Some(p) => p@,
        None => match d.old_path {
            Some(p) => p@,
            None => Seq::<char>::empty(),
        },
    }
}

/// The index of the last `'.'` in `p`, or `-1` if there is none.
pub open spec fn rfind_dot(p: Seq<char>) -> int
    decreases p.len(),
{
    if p.len() == 0 {
        -1
    } else if p[p.len() - 1] == '.' {
        p.len() - 1
    } else {
        rfind_dot(p.drop_last())
    }
}

/// The extension a path is filtered by: a `'.'` followed by everything after
/// the last `'.'` of the path; for a path without one, the whole path.
pub open spec fn ext_of(p: Seq<char>) -> Seq<char> {
    seq!['.'] + p.subrange(rfind_dot(p) + 1, p.len() as int)
}

/// An entry is counted when its path avoids every ignored substring and
/// its extension is in the allow-list.
pub open spec fn entry_counted(d: DiffInfo, exts: Seq<Seq<char>>, ignored: Seq<Seq<char>>) -> bool {
    &&& !contains_any_substr(effective_path(d), ignored)
    &&& exts.contains(ext_of(effective_path(d)))
}

/// Position `i` begins an addition line: a line starting with `'+'` whose
/// first three characters are not the `"+++"` header marker.
pub open spec fn is_add_mark(s: Seq<char>, i: int) -> bool {
    &&& 0 <= i < s.len()
    &&& (i == 0 || s[i - 1] == '\n')
    &&& s[i] == '+'
    &&& !(i + 3 <= s.len() && s[i + 1] == '+' && s[i + 2] == '+')
}

/// Position `i` begins a deletion line: a line starting with `'-'` whose
/// first three characters are not the `"---"` header marker.
pub open spec fn is_del_mark(s: Seq<char>, i: int) -> bool {
    &&& 0 <= i < s.len()
    &&& (i == 0 || s[i - 1] == '\n')
    &&& s[i] == '-'
    &&& !(i + 3 <= s.len() && s[i + 1] == '-' && s[i + 2] == '-')
}

/// How many addition lines begin before position `i`.
pub open spec fn count_adds_upto(s: Seq<char>, i: int) -> nat
    decreases i,
{
    if i <= 0 {
        0
    } else {
        count_adds_upto(s, i - 1) + (if is_add_mark(s, i - 1) {
            1nat
        } else {
            0nat
        })
    }
}

/// How many deletion lines begin before position `i`.
pub open spec fn count_dels_upto(s: Seq<char>, i: int) -> nat
    decreases i,
{
    if i <= 0 {
        0
    } else {
        count_dels_upto(s, i - 1) + (if is_del_mark(s, i - 1) {
            1nat
        } else {
            0nat
        })
    }
}

/// The addition lines of a whole diff body.
pub open spec fn count_adds(s: Seq<char>) -> nat {
    count_adds_upto(s, s.len() as int)
}

/// The deletion lines of a whole diff body.
pub open spec fn count_dels(s: Seq<char>) -> nat {
    count_dels_upto(s, s.len() as int)
}

/// The mathematical value of an accumulated statistic.
pub struct Tally {
    pub additions: int,
    pub deletions: int,
    pub files: int,
    pub size: int,
}

/// What a single diff entry contributes.
pub open spec fn entry_tally(d: DiffInfo, exts: Seq<Seq<char>>, ignored: Seq<Seq<char>>) -> Tally {
    if entry_counted(d, exts, ignored) {
        match d.diff {
            Some(c) => Tally {
                additions: count_adds(c@) as int,
                deletions: count_dels(c@) as int,
                files: 1,
                size: str_byte_len(c@),
            },
            None => Tally { additions: 0, deletions: 0, files: 1, size: 0 },
        }
    } else {
        Tally { additions: 0, deletions: 0, files: 0, size: 0 }
    }
}

pub open spec fn tally_add(a: Tally, b: Tally) -> Tally {
    Tally {
        additions: a.additions + b.additions,
        deletions: a.deletions + b.deletions,
        files: a.files + b.files,
        size: a.size + b.size,
    }
}

/// What a whole diff collection contributes, summed in order.
pub open spec fn diffs_tally(ds: Seq<DiffInfo>, exts: Seq<Seq<char>>, ignored: Seq<Seq<char>>) -> Tally
    decreases ds.len(),
{
    if ds.len() == 0 {
        Tally { additions: 0, deletions: 0, files: 0, size: 0 }
    } else {
        tally_add(diffs_tally(ds.drop_last(), exts, ignored), entry_tally(ds.last(), exts, ignored))
    }
}

pub proof fn lemma_tally_nonneg(ds: Seq<DiffInfo>, exts: Seq<Seq<char>>, ignored: Seq<Seq<char>>)
    ensures
        diffs_tally(ds, exts, ignored).additions >= 0,
        diffs_tally(ds, exts, ignored).deletions >= 0,
        diffs_tally(ds, exts, ignored).files >= 0,
        diffs_tally(ds, exts, ignored).size >= 0,
    decreases ds.len(),
{
    if ds.len() > 0 {
        lemma_tally_nonneg(ds.drop_last(), exts, ignored);
    }
}

/// Every prefix contributes no more than the whole collection, componentwise.
pub proof fn lemma_tally_prefix(
    ds: Seq<DiffInfo>,
    exts: Seq<Seq<char>>,
    ignored: Seq<Seq<char>>,
    i: int,
)
    requires
        0 <= i <= ds.len(),
    ensures
        diffs_tally(ds.take(i), exts, ignored).additions <= diffs_tally(ds, exts, ignored).additions,
        diffs_tally(ds.take(i), exts, ignored).deletions <= diffs_tally(ds, exts, ignored).deletions,
        diffs_tally(ds.take(i), exts, ignored).files <= diffs_tally(ds, exts, ignored).files,
        diffs_tally(ds.take(i), exts, ignored).size <= diffs_tally(ds, exts, ignored).size,
    decreases ds.len(),
{
    if i == ds.len() {
        assert(ds.take(i) =~= ds);
    } else {
        assert(ds.take(i) =~= ds.drop_last().take(i));
        lemma_tally_prefix(ds.drop_last(), exts, ignored, i);
    }
}

/// Counted marks never outnumber the positions scanned.
proof fn lemma_count_bounds(s: Seq<char>, i: int)
    requires
        i >= 0,
    ensures
        count_adds_upto(s, i) <= i,
        count_dels_upto(s, i) <= i,
    decreases i,
{
    if i > 0 {
        lemma_count_bounds(s, i - 1);
    }
}

/// Counts the addition and deletion lines of one diff body.
fn count_marks(s: &str) -> (r: (usize, usize))
    ensures
        r.0 == count_adds(s@),
        r.1 == count_dels(s@),
{
    let n = s.unicode_len();
    let mut adds: usize = 0;
    let mut dels: usize = 0;
    let mut i: usize = 0;
    while i < n
        invariant
            i <= n,
            n == s@.len(),
            adds == count_adds_upto(s@, i as int),
            dels == count_dels_upto(s@, i as int),
        decreases n - i,
    {
        proof {
            lemma_count_bounds(s@, i as int);
        }
        let at_start = if i == 0 {
            true
        } else {
            s.get_char(i - 1) == '\n'
        };
        if at_start {
            let c = s.get_char(i);
            if c == '+' {
                let header = n >= 3 && i < n - 2 && s.get_char(i + 1) == '+' && s.get_char(i + 2)
                    == '+';
                if !header {
                    adds += 1;
                }
            } else if c == '-' {
                let header = n >= 3 && i < n - 2 && s.get_char(i + 1) == '-' && s.get_char(i + 2)
                    == '-';
                if !header {
                    dels += 1;
                }
            }
        }
        i += 1;
    }
    (adds, dels)
}

proof fn lemma_rfind_dot_bounds(p: Seq<char>)
    ensures
        -1 <= rfind_dot(p) < p.len(),
    decreases p.len(),
{
    if p.len() > 0 && p[p.len() - 1] != '.' {
        lemma_rfind_dot_bounds(p.drop_last());
    }
}

/// The index after the last `'.'` of `p`, or `0` if `p` has no `'.'`.
fn suffix_start(p: &str) -> (r: usize)
    ensures
        r == rfind_dot(p@) + 1,
{
    let n = p.unicode_len();
    proof {
        assert(p@.take(n as int) =~= p@);
    }
    let mut j = n;
    while j > 0
        invariant
            j <= n,
            n == p@.len(),
            rfind_dot(p@) == rfind_dot(p@.take(j as int)),
        decreases j,
    {
        if p.get_char(j - 1) == '.' {
            proof {
                assert(p@.take(j as int)[j - 1] == p@[j - 1]);
            }
            return j;
        }
        proof {
            assert(p@.take(j as int).drop_last() =~= p@.take(j - 1));
            assert(p@.take(j as int)[j - 1] == p@[j - 1]);
        }
        j -= 1;
    }
    proof {
        assert(p@.take(0) =~= Seq::<char>::empty());
    }
    0
}

/// The extension string an entry is filtered by.
fn extension_of(p: &str) -> (r: String)
    ensures
        r@ == ext_of(p@),
{
    let n = p.unicode_len();
    proof {
        lemma_rfind_dot_bounds(p@);
    }
    let start = suffix_start(p);
    let mut ext = String::from_str(".");
    ext.append(p.substring_char(start, n));
    proof {
        reveal_strlit(".");
        assert("."@ =~= seq!['.']);
        assert(ext@ =~= ext_of(p@));
    }
    ext
}

/// Reduces a commit's diff entries to a statistic: entries whose path
/// carries an ignored substring or an extension outside the allow-list
/// contribute nothing; every other entry counts one file, and its body,
/// when present, contributes its addition lines, deletion lines and byte
/// size. `lines` is the sum of additions and deletions.
pub fn analyze_diffs(
    diffs: &Vec<DiffInfo>,
    valid_extensions: &Vec<String>,
    ignored_paths: &Vec<String>,
) -> (r: Stats)
    requires
        diffs_tally(diffs@, valid_extensions.deep_view(), ignored_paths.deep_view()).additions
            + diffs_tally(diffs@, valid_extensions.deep_view(), ignored_paths.deep_view()).deletions
            <= u32::MAX,
        diffs_tally(diffs@, valid_extensions.deep_view(), ignored_paths.deep_view()).files
            <= u32::MAX,
        diffs_tally(diffs@, valid_extensions.deep_view(), ignored_paths.deep_view()).size
            <= u64::MAX,
    ensures
        r.additions == diffs_tally(diffs@, valid_extensions.deep_view(), ignored_paths.deep_view()).additions,
        r.deletions == diffs_tally(diffs@, valid_extensions.deep_view(), ignored_paths.deep_view()).deletions,
        r.files == diffs_tally(diffs@, valid_extensions.deep_view(), ignored_paths.deep_view()).files,
        r.size == diffs_tally(diffs@, valid_extensions.deep_view(), ignored_paths.deep_view()).size,
        r.lines == r.additions + r.deletions,
        crate::stats_wf(r),
{
    let ghost exts = valid_extensions.deep_view();
    let ghost ign = ignored_paths.deep_view();
    let empty_path = String::new();
    let mut additions: u32 = 0;
    let mut deletions: u32 = 0;
    let mut files: u32 = 0;
    let mut size: u64 = 0;
    let n = diffs.len();
    let mut i: usize = 0;
    while i < n
        invariant
            i <= n,
            n == diffs@.len(),
            exts == valid_extensions.deep_view(),
            ign == ignored_paths.deep_view(),
            empty_path@ == Seq::<char>::empty(),
            additions == diffs_tally(diffs@.take(i as int), exts, ign).additions,
            deletions == diffs_tally(diffs@.take(i as int), exts, ign).deletions,
            files == diffs_tally(diffs@.take(i as int), exts, ign).files,
            size == diffs_tally(diffs@.take(i as int), exts, ign).size,
            diffs_tally(diffs@, exts, ign).additions + diffs_tally(diffs@, exts, ign).deletions
                <= u32::MAX,
            diffs_tally(diffs@, exts, ign).files <= u32::MAX,
            diffs_tally(diffs@, exts, ign).size <= u64::MAX,
        decreases n - i,
    {
        proof {
            lemma_tally_nonneg(diffs@.take(i as int), exts, ign);
            lemma_tally_nonneg(diffs@.take(i + 1), exts, ign);
            lemma_tally_prefix(diffs@, exts, ign, i + 1);
            assert(diffs@.take(i + 1).drop_last() =~= diffs@.take(i as int));
            assert(diffs@.take(i + 1).last() == diffs@[i as int]);
        }
        let d = &diffs[i];
        let path: &String = match &d.new_path {
            Some(p) => p,
            None => match &d.old_path {
                Some(p) => p,
                None => &empty_path,
            },
        };
        proof {
            assert(path@ == effective_path(diffs@[i as int]));
        }
        let ignored_hit = contains_any_str(path.as_str(), ignored_paths);
        if !ignored_hit {
            let ext = extension_of(path.as_str());
            let allowed = string_list_has(valid_extensions, ext.as_str());
            if allowed {
                files += 1;
                match &d.diff {
                    Some(content) => {
                        proof {
                            assert(entry_counted(diffs@[i as int], exts, ign));
                            assert(diffs@[i as int].diff == Some(*content));
                            assert(entry_tally(diffs@[i as int], exts, ign).size
                                == str_byte_len(content@));
                        }
                        let (a, dl) = count_marks(content.as_str());
                        additions += a as u32;
                        deletions += dl as u32;
                        let cs = content.as_str();
                        let len = cs.len();
                        proof {
                            assert(cs.spec_bytes() == vstd::utf8::encode_utf8(content@));
                            assert(len as int == str_byte_len(content@));
                        }
                        size += len as u64;
                    },
                    None => {},
                }
            }
        }
        i += 1;
    }
    proof {
        assert(diffs@.take(n as int) =~= diffs@);
    }
    let lines = additions + deletions;
    Stats { additions, deletions, lines, files, size }
}

} // verus!
