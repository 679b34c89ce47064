//! The discovered projects and commits, and the exclusion filter applied
//! to the project list before any work is scheduled.

use vstd::prelude::*;

use crate::text::string_list_has;

verus! {

/// One project of the analyzed group.
pub struct Project {
    pub id: i64,
    pub name: String,
}

/// One commit of a project's history, as the remote API reports it.
pub struct Commit {
    pub id: String,
    pub author_email: String,
    pub author_name: String,
    pub message: String,
    pub committed_date: String,
}

/// The projects that remain after dropping the excluded names, in order.
pub open spec fn kept_projects(ps: Seq<Project>, excluded: Seq<Seq<char>>) -> Seq<Project>
    decreases ps.len(),
{
    if ps.len() == 0 {
        Seq::<Project>::empty()
    } else {
        kept_projects(ps.drop_last(), excluded) + (if excluded.contains(ps.last().name@) {
            Seq::<Project>::empty()
        } else {
            seq![ps.last()]
        })
    }
}

/// Drops every project whose name is on the excluded list, keeping the
/// rest in their original order.
pub fn filter_projects(projects: Vec<Project>, excluded: &Vec<String>) -> (r: Vec<Project>)
    ensures
        r@ == kept_projects(projects@, excluded.deep_view()),
{
    let ghost orig = projects@;
    let ghost ex = excluded.deep_view();
    let mut projects = projects;
    let mut r: Vec<Project> = Vec::new();
    let n = projects.len();
    let mut i: usize = 0;
    proof {
        assert(orig.take(0) =~= Seq::<Project>::empty());
    }
    while projects.len() > 0
        invariant
            i + projects@.len() == n,
            orig.len() == n,
            ex == excluded.deep_view(),
            forall|k: int| 0 <= k < projects@.len() ==> projects@[k] == orig[i + k],
            r@ == kept_projects(orig.take(i as int), ex),
        decreases projects@.len(),
    {
        let p = projects.remove(0);
        proof {
            assert(p == orig[i as int]);
            assert(orig.take(i + 1).drop_last() =~= orig.take(i as int));
            assert(orig.take(i + 1).last() == orig[i as int]);
        }
        let excluded_hit = string_list_has(excluded, p.name.as_str());
        let ghost prev = r@;
        if !excluded_hit {
            r.push(p);
        }
        proof {
            if excluded_hit {
                assert(r@ =~= kept_projects(orig.take(i + 1), ex));
            } else {
                assert(r@ =~= prev + seq![orig[i as int]]);
                assert(r@ =~= kept_projects(orig.take(i + 1), ex));
            }
        }
        i += 1;
    }
    proof {
        assert(orig.take(n as int) =~= orig);
    }
    r
}

} // verus!
