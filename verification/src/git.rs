//! The version-control collaborator: entry points over the git2 crate that
//! hand the library plain values — raw commits, tags, statuses — and take
//! plain values back. Every call into git2 stands behind a trusted wrapper;
//! what depends on the repository's state on disk cannot be promised, so
//! the wrappers state nothing of their outcomes and the verified logic
//! treats every outcome.

use vstd::prelude::*;

use git2::Repository;

use crate::chars::{spec_trim_ws, trim_ws};
use crate::error::Error;
use crate::history::{GitCommit, Tag};

verus! {

#[verifier::external_type_specification]
#[verifier::external_body]
pub struct ExRepository(Repository);

/// Which files a status query reports.
#[derive(Debug, Clone, Copy, PartialEq, Eq, Structural)]
pub enum StatusShow {
    Index,
    Workdir,
    IndexAndWorkdir,
}

/// Relies on git2::Repository::discover: opens the repository at or above
/// the given path.
#[verifier::external_body]
pub fn discover_repo(cwd: &str) -> (r: Result<Repository, Error>) {
    match Repository::discover(cwd) {
        Ok(repo) => Ok(repo),
        Err(e) => Err(Error::msg(e.message())),
    }
}

/// Relies on git2::Repository::is_bare.
#[verifier::external_body]
fn repo_is_bare(repo: &Repository) -> (r: bool) {
    repo.is_bare()
}

/// Relies on git2::Repository::workdir: the working directory of the
/// repository, when it has one.
#[verifier::external_body]
fn repo_workdir(repo: &Repository) -> (r: Option<String>) {
    repo.workdir().map(|p| p.to_string_lossy().to_string())
}

/// Relies on git2::Repository::statuses: each pending file with its raw
/// status bits, untracked files included.
#[verifier::external_body]
fn status_entries(repo: &Repository, show: StatusShow) -> (r: Result<
    Vec<(Option<String>, u32)>,
    Error,
>) {
    let g2show = match show {
        StatusShow::Index => git2::StatusShow::Index,
        StatusShow::Workdir => git2::StatusShow::Workdir,
        StatusShow::IndexAndWorkdir => git2::StatusShow::IndexAndWorkdir,
    };
    let mut opts = git2::StatusOptions::new();
    opts.show(g2show).include_untracked(true);
    match repo.statuses(Some(&mut opts)) {
        Ok(statuses) => Ok(
            statuses.iter().map(|e| (e.path().ok().map(|p| p.to_string()), e.status().bits())).collect(),
        ),
        Err(e) => Err(Error::msg(e.message())),
    }
}

/// Relies on git2::Index::add_all and git2::Index::write: stages every
/// change under the working directory.
#[verifier::external_body]
fn index_add_all(repo: &Repository) -> (r: Result<(), Error>) {
    let go = || -> Result<(), git2::Error> {
        let mut index = repo.index()?;
        index.add_all(["*"].iter(), git2::IndexAddOption::DEFAULT, None)?;
        index.write()
    };
    go().map_err(|e| Error::msg(e.message()))
}

/// Relies on git2::Repository::commit: writes the staged tree as a new
/// commit on the head and returns its id.
#[verifier::external_body]
fn commit_head(repo: &Repository, message: &str) -> (r: Result<String, Error>) {
    let go = || -> Result<String, git2::Error> {
        let sig = repo.signature()?;
        let head_commit = repo.head()?.peel_to_commit()?;
        let tree = repo.find_tree(repo.index()?.write_tree()?)?;
        let oid = repo.commit(Some("HEAD"), &sig, &sig, message, &tree, &[&head_commit])?;
        Ok(oid.to_string())
    };
    go().map_err(|e| Error::msg(e.message()))
}

/// Relies on git2::Commit accessors: the id, timestamp and message of the
/// commit with the given id; text that is not UTF-8 is empty.
#[verifier::external_body]
fn commit_meta(repo: &Repository, id: &str) -> (r: Result<(String, i64, String), Error>) {
    let go = || -> Result<(String, i64, String), git2::Error> {
        let c = repo.find_commit(git2::Oid::from_str(id)?)?;
        Ok((c.id().to_string(), c.time().seconds(), c.message().unwrap_or("").into()))
    };
    go().map_err(|e| Error::msg(e.message()))
}

/// Relies on git2::Commit::author and committer: their names and emails;
/// text that is not UTF-8 is empty.
#[verifier::external_body]
fn commit_people(repo: &Repository, id: &str) -> (r: Result<
    (String, String, String, String),
    Error,
>) {
    let go = || -> Result<(String, String, String, String), git2::Error> {
        let c = repo.find_commit(git2::Oid::from_str(id)?)?;
        let (a, m) = (c.author(), c.committer());
        Ok((
            a.name().unwrap_or("").into(),
            a.email().unwrap_or("").into(),
            m.name().unwrap_or("").into(),
            m.email().unwrap_or("").into(),
        ))
    };
    go().map_err(|e| Error::msg(e.message()))
}

/// The raw data of the commit with the given id, assembled from its parts.
fn find_commit_data(repo: &Repository, id: &str) -> (r: Result<GitCommit, Error>) {
    let meta = match commit_meta(repo, id) {
        Ok(meta) => meta,
        Err(e) => {
            return Err(e);
        },
    };
    let who = match commit_people(repo, id) {
        Ok(who) => who,
        Err(e) => {
            return Err(e);
        },
    };
    Ok(GitCommit {
        id: meta.0,
        timestamp: meta.1,
        author_name: who.0,
        author_email: who.1,
        committer_name: who.2,
        committer_email: who.3,
        message: meta.2,
    })
}

/// Relies on git2::Repository::revwalk: the ids of all commits reachable
/// from the head, the newest first (revwalk order).
#[verifier::external_body]
fn revwalk_ids(repo: &Repository) -> (r: Result<Vec<String>, Error>) {
    let go = || -> Result<Vec<String>, git2::Error> {
        let mut walk = repo.revwalk()?;
        walk.push_head()?;
        let mut ids = Vec::new();
        for oid in walk {
            ids.push(oid?.to_string());
        }
        Ok(ids)
    };
    go().map_err(|e| Error::msg(e.message()))
}

/// Relies on git2::Repository::tag: creates an annotated tag on the head.
#[verifier::external_body]
fn tag_head(repo: &Repository, name: &str, message: &str) -> (r: Result<(), Error>) {
    let go = || -> Result<(), git2::Error> {
        let sig = repo.signature()?;
        let target = repo.head()?.peel(git2::ObjectType::Commit)?;
        repo.tag(name, &target, &sig, message, false)?;
        Ok(())
    };
    go().map_err(|e| Error::msg(e.message()))
}

/// Relies on git2::Remote::push: pushes the configured refspecs to the
/// named remote.
#[verifier::external_body]
fn push_remote(repo: &Repository, remote_name: &str) -> (r: Result<(), Error>) {
    let go = || -> Result<(), git2::Error> {
        let mut remote = repo.find_remote(remote_name)?;
        let refspecs: [String; 0] = [];
        remote.push::<String>(&refspecs, None)
    };
    go().map_err(|e| Error::msg(e.message()))
}

/// Relies on git2::Config::get_string: the URL configured for the named
/// remote, when the configuration holds one.
#[verifier::external_body]
pub fn repo_origin_url(repo: &Repository, origin_name: &str) -> (r: Result<Option<String>, Error>) {
    let cfg = match repo.config() {
        Ok(c) => c,
        Err(e) => {
            return Err(Error::msg(e.message()));
        },
    };
    Ok(cfg.get_string(&format!("remote.{origin_name}.url")).ok())
}

/// Relies on git2::Repository::references: the full names of all
/// references; a name that is not UTF-8 is skipped.
#[verifier::external_body]
fn reference_names(repo: &Repository) -> (r: Result<Vec<String>, Error>) {
    let go = || -> Result<Vec<String>, git2::Error> {
        let refs = repo.references()?;
        let mut names = Vec::new();
        for rf in refs {
            if let Ok(n) = rf?.name() {
                names.push(n.to_string());
            }
        }
        Ok(names)
    };
    go().map_err(|e| Error::msg(e.message()))
}

/// Relies on git2::Reference::resolve: the target id and short name of a
/// reference; `None` when it has no direct target.
#[verifier::external_body]
fn ref_target(repo: &Repository, full_name: &str) -> (r: Result<Option<(String, String)>, Error>) {
    let go = || -> Result<Option<(String, String)>, git2::Error> {
        let rf = repo.find_reference(full_name)?.resolve()?;
        match rf.target() {
            Some(t) => Ok(Some((t.to_string(), rf.shorthand().unwrap_or("").into()))),
            None => Ok(None),
        }
    };
    go().map_err(|e| Error::msg(e.message()))
}

/// Relies on git2::Reference::peel_to_tag: the annotation message of the
/// tag behind a reference; `None` for a lightweight tag.
#[verifier::external_body]
fn ref_tag_message(repo: &Repository, full_name: &str) -> (r: Option<String>) {
    let rf = repo.find_reference(full_name).ok()?.resolve().ok()?;
    rf.peel_to_tag().ok()?.message().ok().flatten().map(String::from)
}

/// Relies on git2::Reference::peel_to_commit: the id and timestamp of the
/// commit behind a reference.
#[verifier::external_body]
fn ref_commit(repo: &Repository, full_name: &str) -> (r: Result<(String, i64), Error>) {
    let go = || -> Result<(String, i64), git2::Error> {
        let c = repo.find_reference(full_name)?.resolve()?.peel_to_commit()?;
        Ok((c.id().to_string(), c.time().seconds()))
    };
    go().map_err(|e| Error::msg(e.message()))
}

/// Relies on git2::Repository::tag_names: the names of all tags; a name
/// that is not UTF-8 is skipped.
#[verifier::external_body]
pub fn list_tags(repo: &Repository) -> (r: Result<Vec<String>, Error>) {
    match repo.tag_names(None) {
        Ok(names) => Ok(
            names.iter().filter_map(|t| t.ok().flatten().map(|s| s.to_string())).collect(),
        ),
        Err(e) => Err(Error::msg(e.message())),
    }
}

// ------------------------------------------------------------------
// Verified entry points
// ------------------------------------------------------------------
/// Returns the complete commit history, the newest commit first.
pub fn commit_log(repo: &Repository) -> (r: Result<Vec<GitCommit>, Error>) {
    let ids = match revwalk_ids(repo) {
        Ok(ids) => ids,
        Err(e) => {
            return Err(e);
        },
    };
    let mut commits: Vec<GitCommit> = Vec::new();
    let n = ids.len();
    let mut i: usize = 0;
    while i < n
        invariant
            i <= n,
            n == ids@.len(),
        decreases n - i,
    {
        match find_commit_data(repo, ids[i].as_str()) {
            Ok(c) => commits.push(c),
            Err(e) => {
                return Err(e);
            },
        }
        i = i + 1;
    }
    Ok(commits)
}

/// Retrieves all the repo tag references: of all references, those under
/// `refs/tags/`, resolved to their tag data, with the tag message trimmed
/// of surrounding whitespace.
pub fn get_tag_refs(repo: &Repository) -> (r: Result<Vec<Tag>, Error>)
    ensures
        match r {
            Ok(tags) => forall|i: int|
                0 <= i < tags@.len() ==> match (#[trigger] tags@[i]).message {
                    Some(msg) => msg@ == spec_trim_ws(msg@),
                    None => true,
                },
            Err(e) => true,
        },
{
    let names = match reference_names(repo) {
        Ok(names) => names,
        Err(e) => {
            return Err(e);
        },
    };
    let mut tags: Vec<Tag> = Vec::new();
    let n = names.len();
    let mut i: usize = 0;
    while i < n
        invariant
            i <= n,
            n == names@.len(),
            forall|j: int|
                0 <= j < tags@.len() ==> match (#[trigger] tags@[j]).message {
                    Some(msg) => msg@ == spec_trim_ws(msg@),
                    None => true,
                },
        decreases n - i,
    {
        if crate::chars::starts_with_str(names[i].as_str(), "refs/tags/") {
            match ref_target(repo, names[i].as_str()) {
                Ok(Some(target)) => {
                    let message = match ref_tag_message(repo, names[i].as_str()) {
                        Some(msg) => {
                            let trimmed = trim_ws(msg.as_str());
                            proof {
                                crate::chars::lemma_trim_ws_idempotent(msg@);
                            }
                            Some(trimmed)
                        },
                        None => None,
                    };
                    match ref_commit(repo, names[i].as_str()) {
                        Ok(ci) => {
                            tags.push(
                                Tag {
                                    id: target.0,
                                    timestamp: ci.1,
                                    name: target.1,
                                    name_full: names[i].clone(),
                                    message,
                                    commit_id: ci.0,
                                },
                            );
                        },
                        Err(e) => {
                            return Err(e);
                        },
                    }
                },
                Ok(None) => {},
                Err(e) => {
                    return Err(e);
                },
            }
        }
        i = i + 1;
    }
    Ok(tags)
}

/// Checks the repo status: each pending file with its raw status bits; an
/// error on a bare repository.
pub fn repo_status(repo: &Repository, show: StatusShow) -> (r: Result<
    Vec<(Option<String>, u32)>,
    Error,
>) {
    if repo_is_bare(repo) {
        return Err(Error::msg("cannot report status on bare repository"));
    }
    status_entries(repo, show)
}

/// Checks if the repo has unstaged or untracked files.
pub fn git_status(cwd: &str, show: StatusShow) -> (r: Result<Vec<(Option<String>, u32)>, Error>) {
    let repo = match discover_repo(cwd) {
        Ok(repo) => repo,
        Err(e) => {
            return Err(e);
        },
    };
    repo_status(&repo, show)
}

/// Adds all changes to the index.
pub fn git_add_all(cwd: &str) -> (r: Result<(), Error>) {
    let repo = match discover_repo(cwd) {
        Ok(repo) => repo,
        Err(e) => {
            return Err(e);
        },
    };
    index_add_all(&repo)
}

/// Adds all changes to the index.
pub fn add_all_changes(cwd: &str) -> (r: Result<(), Error>) {
    git_add_all(cwd)
}

/// Commits the staged changes to git; an error when nothing is staged.
pub fn commit_changes(cwd: &str, message: &str) -> (r: Result<GitCommit, Error>) {
    let repo = match discover_repo(cwd) {
        Ok(repo) => repo,
        Err(e) => {
            return Err(e);
        },
    };
    let staged = match repo_status(&repo, StatusShow::Index) {
        Ok(entries) => entries,
        Err(e) => {
            return Err(e);
        },
    };
    if staged.len() == 0 {
        return Err(Error::msg("nothing to commit"));
    }
    let id = match commit_head(&repo, message) {
        Ok(id) => id,
        Err(e) => {
            return Err(e);
        },
    };
    find_commit_data(&repo, id.as_str())
}

/// Sets an annotated tag on the head.
pub fn set_annotated_tag(cwd: &str, tag: &str, message: &str) -> (r: Result<(), Error>) {
    let repo = match discover_repo(cwd) {
        Ok(repo) => repo,
        Err(e) => {
            return Err(e);
        },
    };
    tag_head(&repo, tag, message)
}

/// Pushes to the `origin` remote with its configured refspecs (tags follow
/// when the configuration says so).
pub fn push_with_tags(cwd: &str) -> (r: Result<(), Error>) {
    let repo = match discover_repo(cwd) {
        Ok(repo) => repo,
        Err(e) => {
            return Err(e);
        },
    };
    push_remote(&repo, "origin")
}

/// Returns the git root directory, when the path lies in a repository with
/// a working directory.
pub fn get_root_dir(cwd: &str) -> (r: Option<String>) {
    match discover_repo(cwd) {
        Ok(repo) => repo_workdir(&repo),
        Err(e) => None,
    }
}

} // verus!
