use crate::errors::CliError;
use crate::repo::{
    git_commit_data, git_find_branch_oid, git_find_reference_oid, git_revwalk_collect,
    git_revwalk_new, git_revwalk_set_range,
};
use vstd::prelude::*;
use vstd::string::StringExecFns;

verus! {

// The range walker: resolves two symbolic names and enumerates the
// commits reachable from the upper one but not from the lower one.

/// A commit as the library reads it: its backend identity, its free-text
/// message and its author's display name (empty when the backend could
/// not read the corresponding text as UTF-8).
#[derive(Debug)]
pub struct CommitRecord {
    pub id: git2::Oid,
    pub message: String,
    pub author_name: String,
}

/// Message for a name that none of the lookup strategies could resolve.
pub open spec fn ref_not_found_msg(name: Seq<char>) -> Seq<char> {
    "Could not resolve '"@ + name + "': tried reference, tag and branch lookups"@
}

/// Message for a traversal failure of the storage backend.
pub open spec fn history_err_msg(cause: Seq<char>) -> Seq<char> {
    "Error walking commits: "@ + cause
}

/// Resolves a symbolic name to a commit identity by trying, in order: a
/// direct reference lookup (HEAD, fully-qualified refs), a tag-name
/// lookup under `refs/tags/`, and a local branch-name lookup. The first
/// strategy that succeeds wins; when all three fail, the name is reported
/// as unresolved together with the strategy order attempted.
pub fn resolve_ref(repo: &git2::Repository, name: &str) -> (r: Result<git2::Oid, CliError>)
    ensures
        r is Err ==> (r->Err_0 is RefNotFound && r->Err_0.spec_message() == ref_not_found_msg(
            name@,
        )),
{
    match git_find_reference_oid(repo, name) {
        Ok(oid) => {
            return Ok(oid);
        },
        Err(_) => {},
    }
    let mut tag_ref = String::from_str("refs/tags/");
    tag_ref.append(name);
    match git_find_reference_oid(repo, tag_ref.as_str()) {
        Ok(oid) => {
            return Ok(oid);
        },
        Err(_) => {},
    }
    match git_find_branch_oid(repo, name) {
        Ok(oid) => {
            return Ok(oid);
        },
        Err(_) => {},
    }
    let msg = String::from_str("Could not resolve '").concat(name).concat(
        "': tried reference, tag and branch lookups",
    );
    Err(CliError::RefNotFound(msg))
}

/// Turns the identities a walk yielded into commit records: on success,
/// exactly one record per identity, in the same order, each carrying that
/// identity; a failing lookup fails the whole assembly, so a shortened
/// list is never handed back as a success. An unreadable message or
/// author name becomes the empty string.
pub fn assemble_records(repo: &git2::Repository, oids: &Vec<git2::Oid>) -> (r: Result<
    Vec<CommitRecord>,
    CliError,
>)
    ensures
        r is Ok ==> (r->Ok_0@.len() == oids@.len() && forall|i: int|
            0 <= i < oids@.len() ==> r->Ok_0@[i].id == oids@[i]),
        r is Err ==> r->Err_0 is History,
{
    let n = oids.len();
    let mut out: Vec<CommitRecord> = Vec::new();
    let mut i: usize = 0;
    while i < n
        invariant
            i <= n == oids@.len(),
            out@.len() == i,
            forall|k: int| 0 <= k < i ==> out@[k].id == oids@[k],
        decreases n - i,
    {
        match git_commit_data(repo, oids[i]) {
            Err(cause) => {
                return Err(history_error(cause));
            },
            Ok(data) => {
                let (message_opt, author_opt) = data;
                let message = match message_opt {
                    Some(m) => m,
                    None => String::new(),
                };
                let author_name = match author_opt {
                    Some(a) => a,
                    None => String::new(),
                };
                out.push(CommitRecord { id: oids[i], message, author_name });
            },
        }
        i = i + 1;
    }
    Ok(out)
}

/// Enumerates the commits reachable from `upper_ref` but not from
/// `lower_ref`, newest first: the lower commit and its ancestors are
/// excluded, the upper commit is included, and the range is empty when
/// both names resolve to the same commit. Which identities the walk
/// yields is decided by the repository, through the facade; the records
/// for them come from `assemble_records`, which pins one record per
/// yielded identity, in walk order. An unresolved name or any failure of
/// the traversal is an error; a truncated range is never returned
/// silently (the drain fails whole, and so does the assembly).
pub fn commits_between(repo: &git2::Repository, upper_ref: &str, lower_ref: &str) -> (r: Result<
    Vec<CommitRecord>,
    CliError,
>)
    ensures
        r is Err ==> (r->Err_0 is RefNotFound || r->Err_0 is History),
        r is Err && r->Err_0 is RefNotFound ==> (r->Err_0.spec_message() == ref_not_found_msg(
            upper_ref@,
        ) || r->Err_0.spec_message() == ref_not_found_msg(lower_ref@)),
{
    let upper = match resolve_ref(repo, upper_ref) {
        Ok(oid) => oid,
        Err(e) => {
            return Err(e);
        },
    };
    let lower = match resolve_ref(repo, lower_ref) {
        Ok(oid) => oid,
        Err(e) => {
            return Err(e);
        },
    };
    let mut walk = match git_revwalk_new(repo) {
        Ok(w) => w,
        Err(cause) => {
            return Err(history_error(cause));
        },
    };
    match git_revwalk_set_range(&mut walk, upper, lower) {
        Ok(_) => {},
        Err(cause) => {
            return Err(history_error(cause));
        },
    }
    let oids = match git_revwalk_collect(walk) {
        Ok(oids) => oids,
        Err(cause) => {
            return Err(history_error(cause));
        },
    };
    assemble_records(repo, &oids)
}

/// Wraps a backend failure as a history error.
fn history_error(cause: String) -> (r: CliError)
    ensures
        r is History && r.spec_message() == history_err_msg(cause@),
{
    CliError::History(String::from_str("Error walking commits: ").concat(cause.as_str()))
}

} // verus!
