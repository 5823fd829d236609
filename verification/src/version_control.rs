//! What version control says of a script, and which commit a script is
//! pinned to.

use vstd::prelude::*;

verus! {

/// What the repository around a script says.
#[derive(Debug)]
pub struct RepoProbe {
    /// Whether the commit hash that was given for the script names a commit
    /// of the repository. It is `false` where none was given.
    pub hint_is_commit: bool,
    /// The hash of the commit that the repository's head points to, if it
    /// points to one.
    pub head: Option<String>,
}

/// What was found out about one script of a transform.
#[derive(Debug)]
pub struct ScriptProbe {
    /// Whether the path exists.
    pub exists: bool,
    /// Whether the path is a regular file.
    pub is_file: bool,
    /// The absolute form of the path. It is read only where the path is a
    /// regular file.
    pub absolute: String,
    /// The repository that the script's directory lies in, if it lies in one.
    pub repository: Option<RepoProbe>,
}

/// The commit that a script is pinned to. A script outside a repository is
/// pinned to none. Inside one, a given hash that names a commit is kept;
/// otherwise the script is pinned to the head commit, if there is one.
pub open spec fn resolved_hash(hint: Option<Seq<char>>, repository: Option<RepoProbe>) -> Option<
    Seq<char>,
> {
    match repository {
        None => None,
        Some(repo) => if hint is Some && repo.hint_is_commit {
            hint
        } else {
            repo.head.deep_view()
        },
    }
}

/// Decides which commit a script is pinned to.
pub fn resolve_hash(hint: &Option<String>, repository: &Option<RepoProbe>) -> (r: Option<String>)
    ensures
        r.deep_view() == resolved_hash(hint.deep_view(), *repository),
{
    match repository {
        None => None,
        Some(repo) => {
            if hint.is_some() && repo.hint_is_commit {
                hint.clone()
            } else {
                repo.head.clone()
            }
        },
    }
}

/// What has happened so far while a repository is brought to a pinned
/// commit. Each field is `None` until the step was tried.
#[derive(Clone, Copy, Debug, PartialEq, Eq, Structural)]
pub struct CheckoutLog {
    /// Whether the name of the reference under the head could be read.
    pub head_read: Option<bool>,
    /// Whether the uncommitted changes were stashed.
    pub stashed: Option<bool>,
    /// Whether the head was detached at the pinned commit.
    pub detached: Option<bool>,
    /// Whether the stash was popped again, after the head could not be
    /// detached.
    pub unstashed: Option<bool>,
}

/// The next step of bringing a repository to a pinned commit.
#[derive(Clone, Copy, Debug, PartialEq, Eq, Structural)]
pub enum CheckoutStep {
    /// Read the name of the reference under the head.
    ReadHead,
    /// Stash the uncommitted changes.
    Stash,
    /// Detach the head at the pinned commit.
    Detach,
    /// Pop the stash.
    Unstash,
    /// The repository stands at the pinned commit.
    Ready,
    /// The repository could not be brought to the pinned commit.
    Failed,
}

/// What has happened so far while a repository is brought back to where it
/// was. Each field is `None` until the step was tried.
#[derive(Clone, Copy, Debug, PartialEq, Eq, Structural)]
pub struct RestoreLog {
    /// Whether the head was pointed at its former reference.
    pub restored: Option<bool>,
    /// Whether the stash was popped.
    pub unstashed: Option<bool>,
}

/// The next step of bringing a repository back to where it was.
#[derive(Clone, Copy, Debug, PartialEq, Eq, Structural)]
pub enum RestoreStep {
    /// Point the head at its former reference.
    RestoreHead,
    /// Pop the stash.
    Unstash,
    /// The repository is back where it was.
    Ready,
    /// The repository could not be brought back.
    Failed,
}

impl CheckoutLog {
    /// The log of a checkout of which nothing was tried yet.
    pub open spec fn spec_fresh() -> CheckoutLog {
        CheckoutLog { head_read: None, stashed: None, detached: None, unstashed: None }
    }

    /// The log of a checkout of which nothing was tried yet.
    #[verifier::when_used_as_spec(spec_fresh)]
    pub fn fresh() -> (r: CheckoutLog)
        ensures
            r == CheckoutLog::spec_fresh(),
    {
        CheckoutLog { head_read: None, stashed: None, detached: None, unstashed: None }
    }
}

impl RestoreLog {
    /// The log of a restoration of which nothing was tried yet.
    pub open spec fn spec_fresh() -> RestoreLog {
        RestoreLog { restored: None, unstashed: None }
    }

    /// The log of a restoration of which nothing was tried yet.
    #[verifier::when_used_as_spec(spec_fresh)]
    pub fn fresh() -> (r: RestoreLog)
        ensures
            r == RestoreLog::spec_fresh(),
    {
        RestoreLog { restored: None, unstashed: None }
    }
}

/// The next step of a checkout. The name of the head's reference is read
/// first, and the checkout fails where it cannot be read. Then the changes
/// are stashed; that this fails is no obstacle. Then the head is detached.
/// Where that fails, a stash that was made is popped, and the checkout has
/// failed.
pub open spec fn spec_checkout_step(log: CheckoutLog) -> CheckoutStep {
    match log.head_read {
        None => CheckoutStep::ReadHead,
        Some(false) => CheckoutStep::Failed,
        Some(true) => match log.stashed {
            None => CheckoutStep::Stash,
            Some(did_stash) => match log.detached {
                None => CheckoutStep::Detach,
                Some(true) => CheckoutStep::Ready,
                Some(false) => if did_stash && log.unstashed is None {
                    CheckoutStep::Unstash
                } else {
                    CheckoutStep::Failed
                },
            },
        },
    }
}

/// The next step of a restoration. The head is pointed at its former
/// reference first, and the restoration fails where that fails. Then a
/// stash that was made is popped.
pub open spec fn spec_restore_step(did_stash: bool, log: RestoreLog) -> RestoreStep {
    match log.restored {
        None => RestoreStep::RestoreHead,
        Some(false) => RestoreStep::Failed,
        Some(true) => if did_stash {
            match log.unstashed {
                None => RestoreStep::Unstash,
                Some(true) => RestoreStep::Ready,
                Some(false) => RestoreStep::Failed,
            }
        } else {
            RestoreStep::Ready
        },
    }
}

} // verus!
