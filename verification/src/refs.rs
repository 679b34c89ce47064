//! Resolves which branch and tag a commit belongs to: the first entry of
//! each kind from the ref-membership list, with a merge-commit override
//! parsed out of the commit message.

use vstd::prelude::*;

use crate::text::{has_prefix, str_eq, starts_with, substr_at};

verus! {

/// One ref-membership entry, as the remote API reports it.
pub struct RefInfo {
    pub ref_type: String,
    pub name: String,
}

/// The resolved branch and tag of one commit.
pub struct BranchInfo {
    pub branches: String,
    pub tags: String,
}

/// The name of the first entry of the given kind, in API order, or the
/// literal `"unknown"` when there is none.
pub open spec fn first_name(refs: Seq<RefInfo>, kind: Seq<char>) -> Seq<char>
    decreases refs.len(),
{
    if refs.len() == 0 {
        "unknown"@
    } else if refs[0].ref_type@ == kind {
        refs[0].name@
    } else {
        first_name(refs.drop_first(), kind)
    }
}

fn first_ref_name(refs: &Vec<RefInfo>, kind: &str) -> (r: String)
    ensures
        r@ == first_name(refs@, kind@),
{
    proof {
        assert(refs@.skip(0) =~= refs@);
    }
    let mut i: usize = 0;
    while i < refs.len()
        invariant
            i <= refs@.len(),
            first_name(refs@, kind@) == first_name(refs@.skip(i as int), kind@),
        decreases refs@.len() - i,
    {
        proof {
            assert(refs@.skip(i as int)[0] == refs@[i as int]);
            assert(refs@.skip(i as int).drop_first() =~= refs@.skip(i + 1));
        }
        if str_eq(refs[i].ref_type.as_str(), kind) {
            return refs[i].name.clone();
        }
        i += 1;
    }
    String::from_str("unknown")
}

/// Selects the first branch and the first tag of the membership list, each
/// defaulting to `"unknown"` when absent. No ordering beyond the API's is
/// imposed.
pub fn select_refs(refs: &Vec<RefInfo>) -> (r: BranchInfo)
    ensures
        r.branches@ == first_name(refs@, "branch"@),
        r.tags@ == first_name(refs@, "tag"@),
{
    let branches = first_ref_name(refs, "branch");
    let tags = first_ref_name(refs, "tag");
    BranchInfo { branches, tags }
}

/// The quoted-name phrase a merge commit's message is searched for.
pub open spec fn merge_pattern() -> Seq<char> {
    "Merge branch '"@
}

/// Position `j` closes a quoted name opened at match position `i`: the
/// first quote after the phrase, with at least one character before it.
pub open spec fn merge_close_at(m: Seq<char>, i: int, j: int) -> bool {
    &&& i + merge_pattern().len() < j < m.len()
    &&& m[j] == '\''
    &&& forall|k: int| i + merge_pattern().len() <= k < j ==> m[k] != '\''
}

/// The phrase followed by a non-empty quoted name occurs at position `i`.
pub open spec fn merge_match_at(m: Seq<char>, i: int) -> bool {
    &&& substr_at(m, i, merge_pattern())
    &&& exists|j: int| merge_close_at(m, i, j)
}

/// The name between the quotes of the match at position `i`.
pub open spec fn merge_group(m: Seq<char>, i: int) -> Seq<char> {
    let j = choose|j: int| merge_close_at(m, i, j);
    m.subrange(i + merge_pattern().len(), j)
}

/// `i` is the leftmost match position.
pub open spec fn leftmost_merge_match(m: Seq<char>, i: int) -> bool {
    merge_match_at(m, i) && (forall|k: int| 0 <= k < i ==> !merge_match_at(m, k))
}

/// Relies on `regex::Regex::captures` with the pattern
/// `Merge branch '([^']+)'`: it finds the leftmost occurrence of the
/// phrase followed by at least one non-quote character and a closing
/// quote, and group 1 is exactly the characters between the quotes.
#[verifier::external_body]
fn capture_merge_branch(message: &str) -> (r: Option<String>)
    ensures
        match r {
            Some(name) => exists|i: int|
                leftmost_merge_match(message@, i) && name@ == merge_group(message@, i),
            None => forall|i: int| !merge_match_at(message@, i),
        },
{
    match regex::Regex::new("Merge branch '([^']+)'") {
        Ok(re) => match re.captures(message) {
            Some(caps) => caps.get(1).map(|g| g.as_str().to_string()),
            None => None,
        },
        Err(_) => None,
    }
}

/// A message overrides the API-derived branch when it starts with the
/// merge phrase and the quoted-name pattern matches somewhere in it.
pub open spec fn merge_override(m: Seq<char>) -> bool {
    has_prefix(m, "Merge branch"@) && (exists|i: int| merge_match_at(m, i))
}

/// `r` is the branch the commit resolves to: the quoted name of the
/// leftmost pattern match when the message declares a merge, otherwise the
/// API-derived branch.
pub open spec fn branch_from(m: Seq<char>, api: Seq<char>, r: Seq<char>) -> bool {
    if merge_override(m) {
        exists|i: int| leftmost_merge_match(m, i) && r == merge_group(m, i)
    } else {
        r == api
    }
}

/// Applies the merge-commit override: a message starting with
/// `"Merge branch"` whose quoted branch name parses replaces the
/// API-derived branch; otherwise that branch stands.
pub fn resolve_branch(message: &str, api_branch: String) -> (r: String)
    ensures
        branch_from(message@, api_branch@, r@),
{
    if starts_with(message, "Merge branch") {
        match capture_merge_branch(message) {
            Some(name) => name,
            None => api_branch,
        }
    } else {
        api_branch
    }
}

} // verus!
