use crate::errors::CliError;
use crate::ids::{
    contains_u64, dedup, find_index_u64, lemma_dedup_props, lemma_remove_first_at,
    lemma_remove_first_props, remove_first,
};
use crate::numbers::{dec_str, u64_to_string};
use vstd::prelude::*;
use vstd::string::StringExecFns;

verus! {

// The review API client: resolves a set of reference identifiers into
// review-request records via the remote paginated listing endpoint. The
// library owns every decision of the fetch — which URL to request next,
// which records of a page to keep, and when to stop — while the caller
// performs one HTTP GET per requested page and hands the decoded records
// back, strictly one page at a time.

/// The author of a review request.
#[derive(Debug, PartialEq)]
pub struct User {
    pub id: u64,
    pub name: String,
    pub username: String,
}

/// A review request as the remote API describes it.
#[derive(Debug, PartialEq)]
pub struct MergeRequest {
    pub iid: u64,
    pub title: String,
    pub description: String,
    pub author: User,
}

impl MergeRequest {
    /// The one-line rendering of a review request.
    pub open spec fn spec_summary(&self) -> Seq<char> {
        self.title@ + " by "@ + self.author.name@
    }

    /// Renders the request as `{title} by {author display name}`.
    pub fn summary(&self) -> (r: String)
        ensures
            r@ == self.spec_summary(),
    {
        self.title.clone().concat(" by ").concat(self.author.name.as_str())
    }
}

/// The coordinates of a project on the remote review API: the API base
/// URL, the numeric project identifier, and the private token a caller
/// attaches to every request it sends.
#[derive(Debug)]
pub struct Project {
    pub base_url: String,
    pub project_id: u64,
    pub api_token: String,
}

/// The listing URL for one page of a project's merge requests.
pub open spec fn page_url_spec(base: Seq<char>, project_id: nat, page: nat) -> Seq<char> {
    base + "/api/v4/projects/"@ + dec_str(project_id) + "/merge_requests?page="@ + dec_str(page)
}

/// The URL of the single record of one merge request.
pub open spec fn record_url_spec(base: Seq<char>, project_id: nat, id: nat) -> Seq<char> {
    base + "/api/v4/projects/"@ + dec_str(project_id) + "/merge_requests/"@ + dec_str(id)
}

impl Project {
    /// Makes a project handle from its coordinates.
    pub fn new(base_url: String, project_id: u64, api_token: String) -> (r: Project)
        ensures
            r.base_url@ == base_url@,
            r.project_id == project_id,
            r.api_token@ == api_token@,
    {
        Project { base_url, project_id, api_token }
    }

    /// The listing URL for the given page of this project's merge
    /// requests.
    pub fn page_url(&self, page: u64) -> (r: String)
        ensures
            r@ == page_url_spec(self.base_url@, self.project_id as nat, page as nat),
    {
        self.base_url.clone().concat("/api/v4/projects/").concat(
            u64_to_string(self.project_id).as_str(),
        ).concat("/merge_requests?page=").concat(u64_to_string(page).as_str())
    }

    /// The URL of the single record of the merge request `id` in this
    /// project.
    pub fn record_url(&self, id: u64) -> (r: String)
        ensures
            r@ == record_url_spec(self.base_url@, self.project_id as nat, id as nat),
    {
        self.base_url.clone().concat("/api/v4/projects/").concat(
            u64_to_string(self.project_id).as_str(),
        ).concat("/merge_requests/").concat(u64_to_string(id).as_str())
    }
}

/// The identifiers of a list of records.
pub open spec fn mr_iids(s: Seq<MergeRequest>) -> Seq<u64> {
    s.map_values(|mr: MergeRequest| mr.iid)
}

/// Whether `y` is still needed or already found.
pub open spec fn in_flight(needed: Seq<u64>, found: Seq<MergeRequest>, y: u64) -> bool {
    needed.contains(y) || mr_iids(found).contains(y)
}

/// A paginated fetch in flight: the identifiers still needed, the records
/// found so far, and the index of the page to request next.
#[derive(Debug)]
pub struct FetchState {
    pub needed: Vec<u64>,
    pub found: Vec<MergeRequest>,
    pub page: u64,
}

impl FetchState {
    /// Internal consistency: no identifier is waited for twice, no record
    /// was taken twice, and nothing is both found and still needed.
    pub open spec fn inv(&self) -> bool {
        &&& self.needed@.no_duplicates()
        &&& mr_iids(self.found@).no_duplicates()
        &&& forall|y: u64| #[trigger]
            self.needed@.contains(y) ==> !mr_iids(self.found@).contains(y)
    }

    /// Whether `y` belongs to the identifiers this fetch was asked for:
    /// still needed, or already found.
    pub open spec fn requested(&self, y: u64) -> bool {
        in_flight(self.needed@, self.found@, y)
    }
}

/// What one page does to a fetch: the records are considered in page
/// order, each record whose identifier is still needed is taken, once,
/// and its identifier retired; everything else on the page is dropped.
pub open spec fn apply_page(
    needed: Seq<u64>,
    found: Seq<MergeRequest>,
    page: Seq<MergeRequest>,
) -> (Seq<u64>, Seq<MergeRequest>)
    decreases page.len(),
{
    if page.len() == 0 {
        (needed, found)
    } else {
        let mr = page[0];
        if needed.contains(mr.iid) {
            apply_page(remove_first(needed, mr.iid), found.push(mr), page.drop_first())
        } else {
            apply_page(needed, found, page.drop_first())
        }
    }
}

/// The outcome of feeding one page to a fetch.
#[derive(Debug)]
pub enum FetchStep {
    /// Every requested identifier is resolved; the records, in the order
    /// they were found.
    Done(Vec<MergeRequest>),
    /// Identifiers remain and the page still had records: request the
    /// next page.
    Continue(FetchState),
    /// The listing ran out of pages with identifiers outstanding.
    Fail(CliError),
}

/// A comma-separated list of identifiers.
pub open spec fn id_list_msg(ids: Seq<u64>) -> Seq<char>
    decreases ids.len(),
{
    if ids.len() == 0 {
        Seq::empty()
    } else if ids.len() == 1 {
        dec_str(ids[0] as nat)
    } else {
        id_list_msg(ids.drop_last()) + ", "@ + dec_str(ids.last() as nat)
    }
}

/// Message for a listing that ran out of pages while identifiers were
/// outstanding.
pub open spec fn unresolved_ids_msg(ids: Seq<u64>) -> Seq<char> {
    "Ran out of pages before finding merge requests with iids: "@ + id_list_msg(ids)
}

/// Renders a comma-separated list of identifiers.
fn id_list_string(ids: &Vec<u64>) -> (r: String)
    ensures
        r@ == id_list_msg(ids@),
{
    let n = ids.len();
    let mut r = String::new();
    let mut i: usize = 0;
    while i < n
        invariant
            i <= n == ids@.len(),
            r@ == id_list_msg(ids@.subrange(0, i as int)),
        decreases n - i,
    {
        proof {
            assert(ids@.subrange(0, i + 1).drop_last() =~= ids@.subrange(0, i as int));
            assert(ids@.subrange(0, i + 1).last() == ids@[i as int]);
        }
        if i > 0 {
            r.append(", ");
        }
        r.append(u64_to_string(ids[i]).as_str());
        proof {
            if i == 0 {
                assert(r@ =~= dec_str(ids@[0] as nat));
            }
        }
        i = i + 1;
    }
    proof {
        assert(ids@.subrange(0, n as int) =~= ids@);
    }
    r
}

/// Begins a bulk fetch for `ids`: the identifiers are deduplicated and,
/// when any remain, the fetch opens at page 0 with nothing found yet. An
/// empty identifier set needs no fetch at all, so no page is ever
/// requested for it and the result is empty.
pub fn fetch_start(ids: &Vec<u64>) -> (r: Option<FetchState>)
    ensures
        r is None <==> ids@.len() == 0,
        r matches Some(st) ==> ({
            &&& st.inv()
            &&& st.page == 0
            &&& st.found@.len() == 0
            &&& st.needed@ == dedup(ids@)
            &&& st.needed@.len() > 0
            &&& forall|y: u64| #[trigger] st.needed@.contains(y) == ids@.contains(y)
        }),
{
    if ids.len() == 0 {
        return None;
    }
    let n = ids.len();
    let mut needed: Vec<u64> = Vec::new();
    let mut i: usize = 0;
    while i < n
        invariant
            i <= n == ids@.len(),
            needed@ == dedup(ids@.subrange(0, i as int)),
        decreases n - i,
    {
        proof {
            assert(ids@.subrange(0, i + 1).drop_last() =~= ids@.subrange(0, i as int));
            assert(ids@.subrange(0, i + 1).last() == ids@[i as int]);
        }
        let x = ids[i];
        if !contains_u64(&needed, x) {
            needed.push(x);
        }
        i = i + 1;
    }
    proof {
        assert(ids@.subrange(0, n as int) =~= ids@);
        lemma_dedup_props(ids@);
        assert(mr_iids(Seq::<MergeRequest>::empty()) =~= Seq::<u64>::empty());
    }
    Some(FetchState { needed, found: Vec::new(), page: 0 })
}

/// Applies one fetched page to a fetch in flight.
///
/// An empty page while identifiers are outstanding means the listing ran
/// out: the fetch fails, naming the unresolved identifiers. Otherwise
/// every record whose identifier is still needed is taken, once —
/// records on a shared page that nobody asked for are dropped, as is a
/// second record with an identifier already taken — and the fetch is
/// done when nothing is needed any more, or else moves to the next page.
/// Whatever the page held, an identifier is in flight after the page
/// exactly when it was in flight before it.
pub fn fetch_on_page(st: FetchState, page: Vec<MergeRequest>) -> (r: FetchStep)
    requires
        st.inv(),
        st.needed@.len() > 0,
        st.page < u64::MAX,
    ensures
        page@.len() == 0 ==> (r is Fail && r->Fail_0 is NotFound && r->Fail_0.spec_message()
            == unresolved_ids_msg(st.needed@)),
        page@.len() > 0 ==> ({
            let (needed2, found2) = apply_page(st.needed@, st.found@, page@);
            &&& (needed2.len() == 0 ==> r is Done && r->Done_0@ == found2)
            &&& (needed2.len() > 0 ==> r is Continue && r->Continue_0.needed@ == needed2
                && r->Continue_0.found@ == found2 && r->Continue_0.page == st.page + 1
                && r->Continue_0.inv() && r->Continue_0.needed@.len() > 0)
        }),
        r is Done ==> (forall|y: u64| #[trigger]
            mr_iids(r->Done_0@).contains(y) == st.requested(y)) && mr_iids(
            r->Done_0@,
        ).no_duplicates(),
        r is Continue ==> (forall|y: u64| #[trigger]
            r->Continue_0.requested(y) == st.requested(y)),
{
    if page.len() == 0 {
        let msg = String::from_str(
            "Ran out of pages before finding merge requests with iids: ",
        ).concat(id_list_string(&st.needed).as_str());
        return FetchStep::Fail(CliError::NotFound(msg));
    }
    let mut needed = st.needed;
    let mut found = st.found;
    let page_no = st.page;
    let mut pg = page;
    while pg.len() > 0
        invariant
            apply_page(st.needed@, st.found@, page@) == apply_page(needed@, found@, pg@),
            needed@.no_duplicates(),
            mr_iids(found@).no_duplicates(),
            forall|y: u64| #[trigger] needed@.contains(y) ==> !mr_iids(found@).contains(y),
            forall|y: u64|
                in_flight(needed@, found@, y) == #[trigger] in_flight(st.needed@, st.found@, y),
        decreases pg.len(),
    {
        let ghost needed0 = needed@;
        let ghost found0 = found@;
        let ghost pg0 = pg@;
        let mr = pg.remove(0);
        proof {
            assert(pg@ =~= pg0.drop_first());
        }
        match find_index_u64(&needed, mr.iid) {
            None => {
                proof {
                    assert(!needed0.contains(mr.iid));
                }
            },
            Some(k) => {
                proof {
                    assert(needed0[k as int] == mr.iid);
                    assert(needed0.contains(mr.iid));
                    lemma_remove_first_at(needed0, k as int, mr.iid);
                    lemma_remove_first_props(needed0, mr.iid);
                }
                let _ = needed.remove(k);
                found.push(mr);
                proof {
                    assert(needed@ == remove_first(needed0, mr.iid));
                    assert(mr_iids(found@) =~= mr_iids(found0).push(found@.last().iid));
                    let fi = mr_iids(found0);
                    let x = found@.last().iid;
                    assert(!fi.contains(x));
                    assert(mr_iids(found@).no_duplicates()) by {
                        assert forall|a: int, b: int|
                            0 <= a < b < mr_iids(found@).len() implies mr_iids(found@)[a]
                            != mr_iids(found@)[b] by {
                            if b < fi.len() {
                            } else {
                                assert(mr_iids(found@)[b] == x);
                                assert(fi[a] == mr_iids(found@)[a]);
                                assert(fi.contains(fi[a]));
                            }
                        }
                    }
                    assert forall|y: u64| #[trigger]
                        needed@.contains(y) implies !mr_iids(found@).contains(y) by {
                        assert(y != x);
                        assert(needed0.contains(y));
                        assert(!fi.contains(y));
                        if mr_iids(found@).contains(y) {
                            let w = choose|j: int|
                                0 <= j < mr_iids(found@).len() && mr_iids(found@)[j] == y;
                            assert(w < fi.len());
                            assert(fi[w] == y);
                        }
                    }
                    assert forall|y: u64|
                        in_flight(needed@, found@, y) == #[trigger] in_flight(
                        needed0,
                        found0,
                        y,
                    ) by {
                        if mr_iids(found@).contains(y) {
                            let w = choose|j: int|
                                0 <= j < mr_iids(found@).len() && mr_iids(found@)[j] == y;
                            if w < fi.len() {
                                assert(fi[w] == y);
                            } else {
                                assert(y == x);
                            }
                        }
                        if fi.contains(y) {
                            let w = choose|j: int| 0 <= j < fi.len() && fi[j] == y;
                            assert(mr_iids(found@)[w] == y);
                        }
                        if y == x {
                            assert(mr_iids(found@)[fi.len() as int] == x);
                        }
                    }
                }
            },
        }
    }
    proof {
        assert(apply_page(needed@, found@, pg@) == (needed@, found@));
    }
    if needed.len() == 0 {
        FetchStep::Done(found)
    } else {
        FetchStep::Continue(FetchState { needed, found, page: page_no + 1 })
    }
}

} // verus!
