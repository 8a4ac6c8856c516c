use crate::errors::CliError;
use crate::extract::{extract_ids, extract_ids_spec};
use crate::numbers::{dec_val, valid_number};
use crate::range::{commits_between, CommitRecord};
use crate::tags::{empty_prefix_msg, resolve_latest, starts_with, suffix_of, Tag};
use vstd::prelude::*;

verus! {

// The orchestrator: composes tag resolution, range traversal and
// reference extraction in sequence, short-circuiting on the first error.
// The network resolution of the extracted identifiers is then driven by
// the caller through the fetch state machine, page by page.

/// Everything the pipeline derives from the repository: the release tag
/// the notes start after, the commits since that tag, and the unique
/// review-request identifiers those commits reference.
#[derive(Debug)]
pub struct ReleasePlan {
    pub tag: Tag,
    pub commits: Vec<CommitRecord>,
    pub ids: Vec<u64>,
}

/// Resolves the latest release tag under `tag_prefix`, walks the commits
/// from that tag (exclusive) up to `up_to` (inclusive), and extracts the
/// review-request identifiers those commits reference. Fails fast: the
/// first error of any stage is handed back unchanged, and no partial
/// result is produced.
pub fn plan_release(repo: &git2::Repository, tag_prefix: &str, up_to: &str) -> (r: Result<
    ReleasePlan,
    CliError,
>)
    ensures
        tag_prefix@.len() == 0 ==> (r is Err && r->Err_0 is Configuration
            && r->Err_0.spec_message() == empty_prefix_msg()),
        r is Err && r->Err_0 is Configuration ==> tag_prefix@.len() == 0,
        r is Err && (r->Err_0 is NotFound || r->Err_0 is Parse) ==> tag_prefix@.len() > 0,
        r is Ok ==> ({
            let plan = r->Ok_0;
            &&& starts_with(plan.tag.name@, tag_prefix@)
            &&& valid_number(suffix_of(plan.tag.name@, tag_prefix@))
            &&& dec_val(suffix_of(plan.tag.name@, tag_prefix@)) == plan.tag.number as nat
            &&& plan.ids@ == extract_ids_spec(plan.commits@)
        }),
        r is Err ==> (r->Err_0 is Configuration || r->Err_0 is History || r->Err_0 is NotFound
            || r->Err_0 is Parse || r->Err_0 is RefNotFound),
{
    let tag = match resolve_latest(repo, tag_prefix) {
        Ok(t) => t,
        Err(e) => {
            return Err(e);
        },
    };
    let commits = match commits_between(repo, up_to, tag.name.as_str()) {
        Ok(c) => c,
        Err(e) => {
            return Err(e);
        },
    };
    let ids = extract_ids(&commits);
    Ok(ReleasePlan { tag, commits, ids })
}

} // verus!
