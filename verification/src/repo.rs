use vstd::prelude::*;

verus! {

// The repository query facade: a narrow, read-only adapter over the
// source-control storage backend. Everything the library learns about a
// repository comes through the functions below; what they return depends
// on the repository on disk, so their contracts promise nothing about the
// values handed back, and all logic that consumes them is verified for
// every possible outcome.
//
// Each failure is reported as the backend's own error message, which the
// callers wrap into their error taxonomy.

/// git2::Repository, the opaque handle to a repository on disk.
#[verifier::external_type_specification]
#[verifier::external_body]
pub struct ExRepository(git2::Repository);

/// git2::Oid, the content-addressed identity of a commit. The library
/// only carries these values; it never looks inside one.
#[verifier::external_type_specification]
#[verifier::external_body]
pub struct ExOid(git2::Oid);

/// git2::Revwalk, the backend's traversal over the commit graph.
#[verifier::external_type_specification]
#[verifier::external_body]
pub struct ExRevwalk<'repo>(git2::Revwalk<'repo>);

/// git2::Error, named here because the backend's iterator yields it; the
/// wrappers below turn each one into its message.
#[verifier::external_type_specification]
#[verifier::external_body]
pub struct ExGitError(git2::Error);

/// Relies on git2::Repository::tag_names: lists the names of the tags
/// matching the fnmatch pattern; a name that is not valid UTF-8 comes back
/// as None.
#[verifier::external_body]
pub(crate) fn git_tag_names(repo: &git2::Repository, pattern: &str) -> (r: Result<
    Vec<Option<String>>,
    String,
>) {
    match repo.tag_names(Some(pattern)) {
        Ok(names) => Ok(names.iter().map(|item| item.ok().flatten().map(str::to_string)).collect()),
        Err(e) => Err(e.message().to_string()),
    }
}

/// Relies on git2::Repository::find_reference, Reference::peel_to_commit
/// and Commit::id: resolves a reference name (HEAD, a fully-qualified ref)
/// to the identity of the commit it points at.
#[verifier::external_body]
pub(crate) fn git_find_reference_oid(repo: &git2::Repository, name: &str) -> (r: Result<
    git2::Oid,
    String,
>) {
    repo.find_reference(name).and_then(|re| re.peel_to_commit()).map(|c| c.id()).map_err(
        |e| e.message().to_string(),
    )
}

/// Relies on git2::Repository::find_branch (local namespace), Branch::get,
/// Reference::peel_to_commit and Commit::id: resolves a local branch name
/// to the identity of the commit at its tip.
#[verifier::external_body]
pub(crate) fn git_find_branch_oid(repo: &git2::Repository, name: &str) -> (r: Result<
    git2::Oid,
    String,
>) {
    repo.find_branch(name, git2::BranchType::Local).and_then(
        |b| b.get().peel_to_commit(),
    ).map(|c| c.id()).map_err(|e| e.message().to_string())
}

/// Relies on git2::Repository::revwalk: creates a fresh, empty revision
/// walker over this repository's commit graph.
#[verifier::external_body]
pub(crate) fn git_revwalk_new<'repo>(repo: &'repo git2::Repository) -> (r: Result<
    git2::Revwalk<'repo>,
    String,
>) {
    repo.revwalk().map_err(|e| e.message().to_string())
}

/// Relies on git2::Revwalk::push_range, called with `<lower>..<upper>`:
/// seeds the walk at the upper commit and marks the lower commit, and
/// thereby its ancestors, as uninteresting, so the walk yields what is
/// reachable from the upper end but not from the lower one.
#[verifier::external_body]
pub(crate) fn git_revwalk_set_range(
    walk: &mut git2::Revwalk<'_>,
    upper: git2::Oid,
    lower: git2::Oid,
) -> (r: Result<(), String>) {
    let range = format!("{}..{}", lower, upper);
    walk.push_range(range.as_str()).map_err(|e| e.message().to_string())
}

/// Relies on the Iterator impl of git2::Revwalk: drains the walk and
/// hands back the yielded commit identities in walk order. The first
/// failing step fails the whole drain, so a truncated list is never
/// handed back as a success.
#[verifier::external_body]
pub(crate) fn git_revwalk_collect(walk: git2::Revwalk<'_>) -> (r: Result<Vec<git2::Oid>, String>) {
    walk.collect::<Result<Vec<git2::Oid>, git2::Error>>().map_err(|e| e.message().to_string())
}

/// Relies on git2::Repository::find_commit, Commit::message,
/// Commit::author and Signature::name: looks a commit up by identity and
/// hands out its message and its author's name; either is None when it is
/// not valid UTF-8.
#[verifier::external_body]
pub(crate) fn git_commit_data(repo: &git2::Repository, oid: git2::Oid) -> (r: Result<
    (Option<String>, Option<String>),
    String,
>) {
    match repo.find_commit(oid) {
        Ok(c) => {
            let message = c.message().ok().map(|s| s.to_string());
            let sig = c.author();
            let author = sig.name().ok().map(|s| s.to_string());
            Ok((message, author))
        },
        Err(e) => Err(e.message().to_string()),
    }
}

} // verus!
