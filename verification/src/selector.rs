//! The server selector.
//!
//! Joins the endpoint catalog (configuration file paths) with the remote load
//! reports by domain-name substring match, keeps only operationally active
//! reports, and picks the match with the lowest reported load. The join uses
//! first-match semantics: an active report is paired with the first catalog
//! entry whose path contains the report's domain, so catalog order resolves
//! ambiguous multi-match domains; ties between equal loads go to the report
//! seen first. This is a pure function of catalog and reports.

use vstd::prelude::*;
use crate::text::{contains_substring, has_substring};

verus! {

/// One remote endpoint's reported state, as extracted from the load feed.
#[derive(Debug, PartialEq, Eq)]
pub struct LoadReport {
    /// The endpoint's domain-identifying name.
    pub domain: Vec<u8>,
    /// The operational status code; only `ACTIVE_STATUS` is eligible.
    pub status: i64,
    /// The reported load; lower is preferable.
    pub load: i64,
}

/// The status code of an operationally active endpoint.
pub const ACTIVE_STATUS: i64 = 1;

/// A report is eligible for selection only when its endpoint is active.
pub open spec fn is_active(r: LoadReport) -> bool {
    r.status == ACTIVE_STATUS
}

/// The first index at or after `j` of a catalog path that contains `domain`.
pub open spec fn first_match_from(catalog: Seq<Vec<u8>>, domain: Seq<u8>, j: int) -> Option<int>
    decreases catalog.len() - j,
{
    if j < 0 || j >= catalog.len() {
        None
    } else if has_substring(catalog[j]@, domain) {
        Some(j)
    } else {
        first_match_from(catalog, domain, j + 1)
    }
}

/// The index of the first catalog path that contains `domain`.
pub open spec fn first_match(catalog: Seq<Vec<u8>>, domain: Seq<u8>) -> Option<int> {
    first_match_from(catalog, domain, 0)
}

/// The candidate catalog index that report `r` contributes: the first catalog
/// path containing its domain, provided the report is active.
pub open spec fn candidate_of(catalog: Seq<Vec<u8>>, r: LoadReport) -> Option<int> {
    if is_active(r) {
        first_match(catalog, r.domain@)
    } else {
        None
    }
}

/// The winning `(load, catalog index)` pair among the first `n` reports:
/// lowest load, earliest report on ties.
pub open spec fn best_upto(catalog: Seq<Vec<u8>>, reports: Seq<LoadReport>, n: int) -> Option<
    (int, int),
>
    decreases n,
{
    if n <= 0 {
        None
    } else {
        let prev = best_upto(catalog, reports, n - 1);
        match candidate_of(catalog, reports[n - 1]) {
            Option::None => prev,
            Option::Some(j) => {
                let l = reports[n - 1].load as int;
                match prev {
                    Option::None => Some((l, j)),
                    Option::Some(b) => if l < b.0 {
                        Some((l, j))
                    } else {
                        prev
                    },
                }
            },
        }
    }
}

/// The winning `(load, catalog index)` pair over all reports, if any active
/// report matches some catalog entry.
pub open spec fn spec_best(catalog: Seq<Vec<u8>>, reports: Seq<LoadReport>) -> Option<(int, int)> {
    best_upto(catalog, reports, reports.len() as int)
}

/// The index of the first catalog path containing `domain`, if any.
fn find_first_match(catalog: &Vec<Vec<u8>>, domain: &Vec<u8>) -> (r: Option<usize>)
    ensures
        r matches Some(j) ==> j < catalog@.len() && first_match(catalog@, domain@) == Some(
            j as int,
        ),
        r is None ==> first_match(catalog@, domain@) is None,
{
    let mut j: usize = 0;
    while j < catalog.len()
        invariant
            j <= catalog@.len(),
            first_match(catalog@, domain@) == first_match_from(catalog@, domain@, j as int),
        decreases catalog@.len() - j,
    {
        if contains_substring(&catalog[j], domain) {
            return Some(j);
        }
        j += 1;
    }
    None
}

/// Pick the catalog path of the active, catalog-matched report with the
/// lowest load: the path at the catalog index that `spec_best` names, or
/// nothing when no active report matches any catalog entry.
pub fn select_best_endpoint(catalog: &Vec<Vec<u8>>, reports: &Vec<LoadReport>) -> (r: Option<
    Vec<u8>,
>)
    ensures
        spec_best(catalog@, reports@) matches Some(b) ==> (r matches Some(p) && 0 <= b.1
            < catalog@.len() && p@ == catalog@[b.1]@),
        spec_best(catalog@, reports@) is None ==> r is None,
{
    let mut best_load: i64 = 0;
    let mut best_idx: usize = 0;
    let mut have: bool = false;
    let mut i: usize = 0;
    while i < reports.len()
        invariant
            i <= reports@.len(),
            have ==> best_idx < catalog@.len() && best_upto(catalog@, reports@, i as int) == Some(
                (best_load as int, best_idx as int),
            ),
            !have ==> best_upto(catalog@, reports@, i as int) is None,
        decreases reports@.len() - i,
    {
        let rep = &reports[i];
        if rep.status == ACTIVE_STATUS {
            match find_first_match(catalog, &rep.domain) {
                Option::Some(j) => {
                    assert(candidate_of(catalog@, reports@[i as int]) == Some(j as int));
                    if !have || rep.load < best_load {
                        best_load = rep.load;
                        best_idx = j;
                        have = true;
                    }
                },
                Option::None => {
                    assert(candidate_of(catalog@, reports@[i as int]) is None);
                },
            }
        } else {
            assert(candidate_of(catalog@, reports@[i as int]) is None);
        }
        i += 1;
    }
    if have {
        Some(catalog[best_idx].clone())
    } else {
        None
    }
}

/// Selection is sound and minimal: a winner is the candidate of some active
/// report whose domain occurs in the winning catalog path, its load is the
/// least among all candidates, and there is no winner exactly when no active
/// report matches any catalog entry.
pub proof fn lemma_best_upto_sound(catalog: Seq<Vec<u8>>, reports: Seq<LoadReport>, n: int)
    requires
        0 <= n <= reports.len(),
    ensures
        best_upto(catalog, reports, n) matches Some(b) ==> exists|i: int|
            0 <= i < n && is_active(#[trigger] reports[i]) && candidate_of(catalog, reports[i])
                == Some(b.1) && reports[i].load == b.0,
        best_upto(catalog, reports, n) matches Some(b) ==> forall|i: int|
            0 <= i < n && #[trigger] candidate_of(catalog, reports[i]) is Some ==> b.0
                <= reports[i].load,
        best_upto(catalog, reports, n) is None ==> forall|i: int| 0 <= i < n ==> #[trigger]
            candidate_of(catalog, reports[i]) is None,
    decreases n,
{
    if n > 0 {
        lemma_best_upto_sound(catalog, reports, n - 1);
    }
}

/// A first match lies in the catalog and really contains the domain.
pub proof fn lemma_first_match_from_sound(catalog: Seq<Vec<u8>>, domain: Seq<u8>, j: int)
    requires
        0 <= j,
    ensures
        first_match_from(catalog, domain, j) matches Some(k) ==> j <= k < catalog.len()
            && has_substring(catalog[k]@, domain),
        first_match_from(catalog, domain, j) is None ==> forall|k: int|
            j <= k < catalog.len() ==> !has_substring(#[trigger] catalog[k]@, domain),
    decreases catalog.len() - j,
{
    if 0 <= j < catalog.len() && !has_substring(catalog[j]@, domain) {
        lemma_first_match_from_sound(catalog, domain, j + 1);
    }
}

/// Selection returns only an endpoint whose path contains the domain of some
/// active report, and returns nothing exactly when no active report's domain
/// occurs in any catalog path.
pub proof fn lemma_selection_sound(catalog: Seq<Vec<u8>>, reports: Seq<LoadReport>)
    ensures
        spec_best(catalog, reports) matches Some(b) ==> exists|i: int|
            0 <= i < reports.len() && is_active(#[trigger] reports[i]) && 0 <= b.1 < catalog.len()
                && has_substring(catalog[b.1]@, reports[i].domain@) && reports[i].load == b.0,
        spec_best(catalog, reports) is None ==> forall|i: int, j: int|
            0 <= i < reports.len() && 0 <= j < catalog.len() && is_active(#[trigger] reports[i])
                ==> !has_substring(#[trigger] catalog[j]@, reports[i].domain@),
{
    lemma_best_upto_sound(catalog, reports, reports.len() as int);
    if spec_best(catalog, reports) is Some {
        let b = spec_best(catalog, reports)->Some_0;
        let i = choose|i: int|
            0 <= i < reports.len() && is_active(#[trigger] reports[i]) && candidate_of(
                catalog,
                reports[i],
            ) == Some(b.1) && reports[i].load == b.0;
        lemma_first_match_from_sound(catalog, reports[i].domain@, 0);
    } else {
        assert forall|i: int, j: int|
            0 <= i < reports.len() && 0 <= j < catalog.len() && is_active(
                #[trigger] reports[i],
            ) implies !has_substring(#[trigger] catalog[j]@, reports[i].domain@) by {
            assert(candidate_of(catalog, reports[i]) is None);
            lemma_first_match_from_sound(catalog, reports[i].domain@, 0);
        }
    }
}

/// With every report inactive, selection returns nothing, whatever the
/// catalog holds.
pub proof fn lemma_all_inactive_selects_none(catalog: Seq<Vec<u8>>, reports: Seq<LoadReport>)
    requires
        forall|i: int| 0 <= i < reports.len() ==> !is_active(#[trigger] reports[i]),
    ensures
        spec_best(catalog, reports) is None,
{
    lemma_best_upto_sound(catalog, reports, reports.len() as int);
    if spec_best(catalog, reports) is Some {
        let b = spec_best(catalog, reports)->Some_0;
        let i = choose|i: int|
            0 <= i < reports.len() && is_active(#[trigger] reports[i]) && candidate_of(
                catalog,
                reports[i],
            ) == Some(b.1) && reports[i].load == b.0;
        assert(false);
    }
}

proof fn lemma_best_upto_agree(
    catalog: Seq<Vec<u8>>,
    r1: Seq<LoadReport>,
    r2: Seq<LoadReport>,
    n: int,
)
    requires
        0 <= n <= r1.len(),
        n <= r2.len(),
        forall|i: int| 0 <= i < n ==> r1[i] == r2[i],
    ensures
        best_upto(catalog, r1, n) == best_upto(catalog, r2, n),
    decreases n,
{
    if n > 0 {
        lemma_best_upto_agree(catalog, r1, r2, n - 1);
    }
}

/// An active report whose domain occurs in no catalog path contributes no
/// candidate: appending it to the reports leaves the selection unchanged.
pub proof fn lemma_unmatched_report_no_candidate(
    catalog: Seq<Vec<u8>>,
    reports: Seq<LoadReport>,
    r: LoadReport,
)
    requires
        forall|j: int| 0 <= j < catalog.len() ==> !has_substring(#[trigger] catalog[j]@, r.domain@),
    ensures
        candidate_of(catalog, r) is None,
        spec_best(catalog, reports.push(r)) == spec_best(catalog, reports),
{
    lemma_first_match_from_sound(catalog, r.domain@, 0);
    if first_match(catalog, r.domain@) is Some {
        let k = first_match(catalog, r.domain@)->Some_0;
        assert(has_substring(catalog[k]@, r.domain@));
        assert(false);
    }
    let rp = reports.push(r);
    assert(rp[rp.len() - 1] == r);
    lemma_best_upto_agree(catalog, rp, reports, reports.len() as int);
}

} // verus!
