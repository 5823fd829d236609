//! Running the scripts of a transform, one request at a time.
//!
//! The library does not start a process or touch a repository itself. It
//! says what is to be done next, is told how that went, and decides what
//! follows. A run begins with `Transform::apply` and goes on with
//! `Execution::step` until the request is `Finished` or `Failed`.

use crate::clock::{date_text, spec_date_text, spec_time_text, time_text, utc_now, Moment};
use crate::database::entry::data::{Data, DataView};
use crate::error::DbError;
use crate::metadata::Metadata;
use crate::text::copy_texts;
use crate::utils::{
    output_paths, parse_args_at, safe_git_checkout_commit, safe_git_checkout_commit_restore,
    spec_output_paths, spec_parse_args, verify_file_path,
};
use crate::version_control::{
    spec_checkout_step, spec_restore_step, CheckoutLog, CheckoutStep, RestoreLog, RestoreStep,
};
use vstd::prelude::*;

verus! {

/// What is to be done next.
#[derive(Debug)]
pub enum Request {
    /// Look for the repository around the directory of `script`, and see
    /// whether `commit` is written as a commit id.
    Locate { script: String, commit: String },
    /// Read the name of the reference under the repository's head.
    ReadHead,
    /// Stash the uncommitted changes of the repository.
    Stash,
    /// Detach the repository's head at `commit`.
    Detach { commit: String },
    /// Pop the repository's stash.
    Unstash,
    /// Point the repository's head at `reference`.
    RestoreHead { reference: String },
    /// See whether `script` exists and is a regular file.
    Probe { script: String },
    /// Run `script` with the arguments `args` and collect what it writes to
    /// its standard output.
    Run { script: String, args: Vec<String> },
    /// Nothing: every script has run, and this is the dataset they made.
    Finished(Data),
    /// Nothing: the run has failed.
    Failed(DbError),
}

/// What a request is, apart from how it is held in memory.
pub enum RequestView {
    Locate { script: Seq<char>, commit: Seq<char> },
    ReadHead,
    Stash,
    Detach { commit: Seq<char> },
    Unstash,
    RestoreHead { reference: Seq<char> },
    Probe { script: Seq<char> },
    Run { script: Seq<char>, args: Seq<Seq<char>> },
    Finished(DataView),
    Failed(DbError),
}

impl View for Request {
    type V = RequestView;

    open spec fn view(&self) -> RequestView {
        match self {
            Request::Locate { script, commit } => RequestView::Locate {
                script: script@,
                commit: commit@,
            },
            Request::ReadHead => RequestView::ReadHead,
            Request::Stash => RequestView::Stash,
            Request::Detach { commit } => RequestView::Detach { commit: commit@ },
            Request::Unstash => RequestView::Unstash,
            Request::RestoreHead { reference } => RequestView::RestoreHead {
                reference: reference@,
            },
            Request::Probe { script } => RequestView::Probe { script: script@ },
            Request::Run { script, args } => RequestView::Run {
                script: script@,
                args: args.deep_view(),
            },
            Request::Finished(data) => RequestView::Finished(data@),
            Request::Failed(e) => RequestView::Failed(*e),
        }
    }
}

/// How a script ended, and what it wrote to its standard output.
#[derive(Debug)]
pub struct Output {
    /// Whether the script reported success.
    pub success: bool,
    /// What the script wrote to its standard output.
    pub stdout: Vec<u8>,
}

/// How a request went.
#[derive(Debug)]
pub enum Reply {
    /// The answer to `Locate`.
    Located { in_repository: bool, commit_ok: bool },
    /// The answer to `ReadHead`: the name, if it could be read.
    Head(Option<String>),
    /// The answer to `Stash`, `Detach`, `Unstash` and `RestoreHead`: whether
    /// it was done.
    Status(bool),
    /// The answer to `Probe`.
    Probed { exists: bool, is_file: bool },
    /// The answer to `Run`: the output, if the script could be started.
    Ran(Option<Output>),
}

/// What a run is waiting for.
#[derive(Clone, Copy, Debug, PartialEq, Eq, Structural)]
pub enum Phase {
    /// The answer to `Locate`.
    Locating,
    /// The answer to a step of the checkout.
    CheckingOut,
    /// The answer to `Probe`.
    Probing,
    /// The answer to `Run`.
    Running,
    /// The answer to a step of the restoration.
    Restoring,
    /// Nothing: the run is over.
    Done,
}

/// What a run is, apart from how it is held in memory.
pub struct ExecutionView {
    /// The scripts of the transform.
    pub scripts: Seq<Seq<char>>,
    /// The argument text of each script.
    pub args: Seq<Option<Seq<char>>>,
    /// The commit that each script is pinned to.
    pub hashes: Seq<Option<Seq<char>>>,
    /// The id of the dataset that is being made.
    pub new_id: u64,
    /// The paths that the next script is given.
    pub paths: Seq<Seq<char>>,
    /// The position of the script that is being run.
    pub index: usize,
    /// What the run is waiting for.
    pub phase: Phase,
    /// The name of the reference that the head was under before the checkout.
    pub head_name: Seq<char>,
    /// The checkout of the script that is being run.
    pub checkout: CheckoutLog,
    /// The restoration after the script that is being run.
    pub restore: RestoreLog,
    /// The failure that ends the run once the repository is restored.
    pub failure: Option<DbError>,
}

/// The argument text of a script that has none.
pub open spec fn no_args() -> Seq<char> {
    ""@
}

/// Whether the steps of a checkout were tried in their order.
spec fn in_order(log: CheckoutLog) -> bool {
    &&& log.stashed is Some ==> log.head_read == Some(true)
    &&& log.detached is Some ==> log.stashed is Some
    &&& log.unstashed is Some ==> log.detached == Some(false) && log.stashed == Some(true)
}

/// The least of three numbers.
pub open spec fn shortest(a: nat, b: nat, c: nat) -> nat {
    if a <= b && a <= c {
        a
    } else if b <= c {
        b
    } else {
        c
    }
}

impl ExecutionView {
    /// Whether the repository of the script that was last run was left as
    /// it was found: a head that was detached was pointed back, or that was
    /// tried; a stash that was made was popped, or that was tried, unless
    /// the head could not be pointed back.
    pub open spec fn settled(self) -> bool {
        &&& self.checkout.detached == Some(true) ==> self.restore.restored is Some
        &&& self.checkout.stashed == Some(true) && self.checkout.detached == Some(false)
            ==> self.checkout.unstashed is Some
        &&& self.checkout.stashed == Some(true) && self.restore.restored == Some(true)
            ==> self.restore.unstashed is Some
    }

    /// The run ends with the failure `e`.
    pub open spec fn stop(self, e: DbError) -> (ExecutionView, RequestView) {
        (ExecutionView { phase: Phase::Done, failure: Some(e), ..self }, RequestView::Failed(e))
    }

    /// The script at `index` is taken up, or the run ends where there is
    /// none. A pinned script is located first; one that is not pinned is
    /// probed at once.
    pub open spec fn begin(self) -> (ExecutionView, RequestView) {
        let s = ExecutionView {
            checkout: CheckoutLog::spec_fresh(),
            restore: RestoreLog::spec_fresh(),
            ..self
        };
        if s.index >= s.scripts.len() {
            (
                ExecutionView { phase: Phase::Done, ..s },
                RequestView::Finished(
                    DataView { id: s.new_id, md: Map::empty(), paths: s.paths },
                ),
            )
        } else {
            match s.hashes[s.index as int] {
                Some(commit) => (
                    ExecutionView { phase: Phase::Locating, ..s },
                    RequestView::Locate { script: s.scripts[s.index as int], commit },
                ),
                None => (
                    ExecutionView { phase: Phase::Probing, ..s },
                    RequestView::Probe { script: s.scripts[s.index as int] },
                ),
            }
        }
    }

    /// The checkout goes on with its next step; once the repository stands
    /// at the pinned commit, the script is probed.
    pub open spec fn checkout_on(self) -> (ExecutionView, RequestView) {
        let s = ExecutionView { phase: Phase::CheckingOut, ..self };
        match spec_checkout_step(s.checkout) {
            CheckoutStep::ReadHead => (s, RequestView::ReadHead),
            CheckoutStep::Stash => (s, RequestView::Stash),
            CheckoutStep::Detach => (
                s,
                RequestView::Detach {
                    commit: match s.hashes[s.index as int] {
                        Some(commit) => commit,
                        None => no_args(),
                    },
                },
            ),
            CheckoutStep::Unstash => (s, RequestView::Unstash),
            CheckoutStep::Ready => (
                ExecutionView { phase: Phase::Probing, ..s },
                RequestView::Probe { script: s.scripts[s.index as int] },
            ),
            CheckoutStep::Failed => s.stop(DbError::CheckoutFailed(s.index)),
        }
    }

    /// The restoration goes on with its next step; once the repository is
    /// back where it was, the run ends with the failure that was met, or
    /// goes on with the next script where none was.
    pub open spec fn restore_on(self) -> (ExecutionView, RequestView) {
        let s = ExecutionView { phase: Phase::Restoring, ..self };
        match spec_restore_step(s.checkout.stashed == Some(true), s.restore) {
            RestoreStep::RestoreHead => (s, RequestView::RestoreHead { reference: s.head_name }),
            RestoreStep::Unstash => (s, RequestView::Unstash),
            RestoreStep::Ready => match s.failure {
                Some(e) => s.stop(e),
                None => ExecutionView { index: (s.index + 1) as usize, ..s }.begin(),
            },
            RestoreStep::Failed => s.stop(DbError::RestoreFailed(s.index)),
        }
    }

    /// The script at `index` is given up because of `e`, or has succeeded
    /// where `e` is `None`. A repository that stands at a pinned commit is
    /// restored first.
    pub open spec fn leave(self, e: Option<DbError>) -> (ExecutionView, RequestView) {
        let s = ExecutionView { failure: e, ..self };
        if s.checkout.detached == Some(true) {
            s.restore_on()
        } else {
            match e {
                Some(e) => s.stop(e),
                None => ExecutionView { index: (s.index + 1) as usize, ..s }.begin(),
            }
        }
    }

    /// The run of the scripts `scripts` for the dataset `new_id` at its
    /// beginning, and what is to be done first. The first script is given
    /// the paths `paths`. Of the three lists only as many entries count as
    /// the shortest of them has.
    pub open spec fn start(
        scripts: Seq<Seq<char>>,
        args: Seq<Option<Seq<char>>>,
        hashes: Seq<Option<Seq<char>>>,
        paths: Seq<Seq<char>>,
        new_id: u64,
    ) -> (ExecutionView, RequestView) {
        let n = shortest(scripts.len(), args.len(), hashes.len()) as int;
        (ExecutionView {
            scripts: scripts.take(n),
            args: args.take(n),
            hashes: hashes.take(n),
            new_id,
            paths,
            index: 0,
            phase: Phase::Done,
            head_name: no_args(),
            checkout: CheckoutLog::spec_fresh(),
            restore: RestoreLog::spec_fresh(),
            failure: None,
        }).begin()
    }

    /// The run after the reply `reply` came in on the date `date` at the
    /// time `time`, and what is to be done next. A reply that does not
    /// answer the request that was made ends the run, after the restoration
    /// of the repository where a script was about to run or running.
    pub open spec fn advance(self, reply: Reply, date: Seq<char>, time: Seq<char>) -> (
        ExecutionView,
        RequestView,
    ) {
        match self.phase {
            Phase::Locating => match reply {
                Reply::Located { in_repository, commit_ok } => if !in_repository {
                    (
                        ExecutionView { phase: Phase::Probing, ..self },
                        RequestView::Probe { script: self.scripts[self.index as int] },
                    )
                } else if !commit_ok {
                    self.stop(DbError::BadCommitId(self.index))
                } else {
                    self.checkout_on()
                },
                _ => self.stop(DbError::UnexpectedReply),
            },
            Phase::CheckingOut => match (spec_checkout_step(self.checkout), reply) {
                (CheckoutStep::ReadHead, Reply::Head(Some(name))) => ExecutionView {
                    head_name: name@,
                    checkout: CheckoutLog { head_read: Some(true), ..self.checkout },
                    ..self
                }.checkout_on(),
                (CheckoutStep::ReadHead, Reply::Head(None)) => ExecutionView {
                    checkout: CheckoutLog { head_read: Some(false), ..self.checkout },
                    ..self
                }.checkout_on(),
                (CheckoutStep::Stash, Reply::Status(done)) => ExecutionView {
                    checkout: CheckoutLog { stashed: Some(done), ..self.checkout },
                    ..self
                }.checkout_on(),
                (CheckoutStep::Detach, Reply::Status(done)) => ExecutionView {
                    checkout: CheckoutLog { detached: Some(done), ..self.checkout },
                    ..self
                }.checkout_on(),
                (CheckoutStep::Unstash, Reply::Status(done)) => ExecutionView {
                    checkout: CheckoutLog { unstashed: Some(done), ..self.checkout },
                    ..self
                }.checkout_on(),
                _ => self.stop(DbError::UnexpectedReply),
            },
            Phase::Probing => match reply {
                Reply::Probed { exists, is_file } => if !exists {
                    self.leave(Some(DbError::ScriptMissing(self.index)))
                } else if !is_file {
                    self.leave(Some(DbError::ScriptNotAFile(self.index)))
                } else {
                    match spec_parse_args(
                        match self.args[self.index as int] {
                            Some(text) => text,
                            None => no_args(),
                        },
                        self.new_id,
                        date,
                        time,
                    ) {
                        Some(text) => (
                            ExecutionView { phase: Phase::Running, ..self },
                            RequestView::Run {
                                script: self.scripts[self.index as int],
                                args: self.paths.push(text),
                            },
                        ),
                        None => self.leave(Some(DbError::BadPattern)),
                    }
                },
                _ => self.leave(Some(DbError::UnexpectedReply)),
            },
            Phase::Running => match reply {
                Reply::Ran(Some(output)) => if !output.success {
                    self.leave(Some(DbError::ScriptFailed(self.index)))
                } else {
                    match spec_output_paths(output.stdout@, self.index) {
                        Ok(paths) => ExecutionView { paths, ..self }.leave(None),
                        Err(e) => self.leave(Some(e)),
                    }
                },
                Reply::Ran(None) => self.leave(Some(DbError::LaunchFailed(self.index))),
                _ => self.leave(Some(DbError::UnexpectedReply)),
            },
            Phase::Restoring => match (
                spec_restore_step(self.checkout.stashed == Some(true), self.restore),
                reply,
            ) {
                (RestoreStep::RestoreHead, Reply::Status(done)) => ExecutionView {
                    restore: RestoreLog { restored: Some(done), ..self.restore },
                    ..self
                }.restore_on(),
                (RestoreStep::Unstash, Reply::Status(done)) => ExecutionView {
                    restore: RestoreLog { unstashed: Some(done), ..self.restore },
                    ..self
                }.restore_on(),
                _ => self.stop(DbError::UnexpectedReply),
            },
            Phase::Done => self.stop(DbError::UnexpectedReply),
        }
    }
}

/// A run of the scripts of a transform.
pub struct Execution {
    script_paths: Vec<String>,
    script_args: Vec<Option<String>>,
    script_git_hashes: Vec<Option<String>>,
    count: usize,
    new_id: u64,
    paths: Vec<String>,
    index: usize,
    phase: Phase,
    head_name: String,
    checkout: CheckoutLog,
    restore: RestoreLog,
    failure: Option<DbError>,
}

impl View for Execution {
    type V = ExecutionView;

    closed spec fn view(&self) -> ExecutionView {
        ExecutionView {
            scripts: self.script_paths.deep_view().take(self.count as int),
            args: self.script_args.deep_view().take(self.count as int),
            hashes: self.script_git_hashes.deep_view().take(self.count as int),
            new_id: self.new_id,
            paths: self.paths.deep_view(),
            index: self.index,
            phase: self.phase,
            head_name: self.head_name@,
            checkout: self.checkout,
            restore: self.restore,
            failure: self.failure,
        }
    }
}

impl Execution {
    /// What holds of every run: the position lies within the scripts, the
    /// logs fit what the run is waiting for, and a run that is over has left
    /// its repository settled unless a reply came out of turn.
    #[verifier::type_invariant]
    spec fn well_formed(self) -> bool {
        &&& self.count <= self.script_paths.len()
        &&& self.count <= self.script_args.len()
        &&& self.count <= self.script_git_hashes.len()
        &&& self.index <= self.count
        &&& self.phase != Phase::Done ==> self.index < self.count
        &&& self.phase == Phase::Locating ==> {
            &&& self.script_git_hashes[self.index as int] is Some
            &&& self.checkout == CheckoutLog::spec_fresh()
            &&& self.restore == RestoreLog::spec_fresh()
        }
        &&& self.phase == Phase::CheckingOut ==> {
            &&& self.script_git_hashes[self.index as int] is Some
            &&& self.restore == RestoreLog::spec_fresh()
            &&& in_order(self.checkout)
            &&& spec_checkout_step(self.checkout) != CheckoutStep::Ready
            &&& spec_checkout_step(self.checkout) != CheckoutStep::Failed
        }
        &&& self.phase == Phase::Probing || self.phase == Phase::Running ==> {
            &&& self.restore == RestoreLog::spec_fresh()
            &&& self.checkout == CheckoutLog::spec_fresh() || spec_checkout_step(self.checkout)
                == CheckoutStep::Ready
        }
        &&& self.phase == Phase::Restoring ==> {
            &&& spec_checkout_step(self.checkout) == CheckoutStep::Ready
            &&& spec_restore_step(self.checkout.stashed == Some(true), self.restore)
                != RestoreStep::Ready
            &&& spec_restore_step(self.checkout.stashed == Some(true), self.restore)
                != RestoreStep::Failed
        }
        &&& self.phase == Phase::Done ==> self@.settled() || self.failure == Some(
            DbError::UnexpectedReply,
        )
    }

    /// Begins a run of the scripts `script_paths` for the dataset `new_id`.
    /// The first script is given the paths `paths`.
    pub(crate) fn start(
        script_paths: Vec<String>,
        script_args: Vec<Option<String>>,
        script_git_hashes: Vec<Option<String>>,
        paths: Vec<String>,
        new_id: u64,
    ) -> (r: (Execution, Request))
        ensures
            (r.0@, r.1@) == ExecutionView::start(
                script_paths.deep_view(),
                script_args.deep_view(),
                script_git_hashes.deep_view(),
                paths.deep_view(),
                new_id,
            ),
    {
        let mut count = script_paths.len();
        if script_args.len() < count {
            count = script_args.len();
        }
        if script_git_hashes.len() < count {
            count = script_git_hashes.len();
        }
        let run = Execution {
            script_paths,
            script_args,
            script_git_hashes,
            count,
            new_id,
            paths,
            index: 0,
            phase: Phase::Done,
            head_name: "".to_owned(),
            checkout: CheckoutLog::fresh(),
            restore: RestoreLog::fresh(),
            failure: None,
        };
        run.begin(0)
    }

    /// Whether the run is over.
    pub fn is_done(&self) -> (r: bool)
        ensures
            r == (self@.phase == Phase::Done),
    {
        self.phase == Phase::Done
    }

    /// Ends the run with the failure `e`.
    fn stop(self, e: DbError) -> (r: (Execution, Request))
        requires
            self@.settled() || e == DbError::UnexpectedReply,
        ensures
            (r.0@, r.1@) == self@.stop(e),
    {
        proof {
            use_type_invariant(&self);
        }
        (Execution { phase: Phase::Done, failure: Some(e), ..self }, Request::Failed(e))
    }

    /// Takes up the script at `index`, or ends the run where there is none.
    fn begin(self, index: usize) -> (r: (Execution, Request))
        requires
            index <= self@.scripts.len(),
        ensures
            (r.0@, r.1@) == (ExecutionView { index, ..self@ }).begin(),
    {
        proof {
            use_type_invariant(&self);
        }
        if index >= self.count {
            let data = Data { id: self.new_id, md: Metadata::new(), paths: copy_texts(&self.paths) };
            (
                Execution {
                    index,
                    phase: Phase::Done,
                    checkout: CheckoutLog::fresh(),
                    restore: RestoreLog::fresh(),
                    ..self
                },
                Request::Finished(data),
            )
        } else {
            let script = self.script_paths[index].clone();
            match &self.script_git_hashes[index] {
                Some(commit) => {
                    let commit = commit.clone();
                    (
                        Execution {
                            index,
                            phase: Phase::Locating,
                            checkout: CheckoutLog::fresh(),
                            restore: RestoreLog::fresh(),
                            ..self
                        },
                        Request::Locate { script, commit },
                    )
                },
                None => (
                    Execution {
                        index,
                        phase: Phase::Probing,
                        checkout: CheckoutLog::fresh(),
                        restore: RestoreLog::fresh(),
                        ..self
                    },
                    Request::Probe { script },
                ),
            }
        }
    }

    /// Goes on with the checkout whose log is `checkout`.
    fn checkout_on(self, checkout: CheckoutLog, head_name: String) -> (r: (Execution, Request))
        requires
            self@.phase == Phase::Locating || self@.phase == Phase::CheckingOut,
            self@.restore == RestoreLog::spec_fresh(),
            in_order(checkout),
        ensures
            (r.0@, r.1@) == (ExecutionView { checkout, head_name: head_name@, ..self@ }).checkout_on(),
    {
        proof {
            use_type_invariant(&self);
        }
        let index = self.index;
        match safe_git_checkout_commit(&checkout) {
            CheckoutStep::ReadHead => (
                Execution { phase: Phase::CheckingOut, checkout, head_name, ..self },
                Request::ReadHead,
            ),
            CheckoutStep::Stash => (
                Execution { phase: Phase::CheckingOut, checkout, head_name, ..self },
                Request::Stash,
            ),
            CheckoutStep::Detach => {
                let commit = match &self.script_git_hashes[index] {
                    Some(commit) => commit.clone(),
                    None => "".to_owned(),
                };
                (
                    Execution { phase: Phase::CheckingOut, checkout, head_name, ..self },
                    Request::Detach { commit },
                )
            },
            CheckoutStep::Unstash => (
                Execution { phase: Phase::CheckingOut, checkout, head_name, ..self },
                Request::Unstash,
            ),
            CheckoutStep::Ready => {
                let script = self.script_paths[index].clone();
                (
                    Execution { phase: Phase::Probing, checkout, head_name, ..self },
                    Request::Probe { script },
                )
            },
            CheckoutStep::Failed => {
                let e = DbError::CheckoutFailed(index);
                (
                    Execution {
                        phase: Phase::Done,
                        failure: Some(e),
                        checkout,
                        head_name,
                        ..self
                    },
                    Request::Failed(e),
                )
            },
        }
    }

    /// Goes on with the restoration whose log is `restore`, for a script
    /// that has ended with `failure`.
    fn restore_on(self, restore: RestoreLog, failure: Option<DbError>) -> (r: (
        Execution,
        Request,
    ))
        requires
            self@.phase == Phase::Probing || self@.phase == Phase::Running || self@.phase
                == Phase::Restoring,
            spec_checkout_step(self@.checkout) == CheckoutStep::Ready,
            restore.restored is None ==> restore.unstashed is None,
        ensures
            (r.0@, r.1@) == (ExecutionView { restore, failure, ..self@ }).restore_on(),
    {
        proof {
            use_type_invariant(&self);
        }
        let index = self.index;
        let did_stash = match self.checkout.stashed {
            Some(did) => did,
            None => false,
        };
        match safe_git_checkout_commit_restore(did_stash, &restore) {
            RestoreStep::RestoreHead => {
                let reference = self.head_name.clone();
                (
                    Execution { phase: Phase::Restoring, restore, failure, ..self },
                    Request::RestoreHead { reference },
                )
            },
            RestoreStep::Unstash => (
                Execution { phase: Phase::Restoring, restore, failure, ..self },
                Request::Unstash,
            ),
            RestoreStep::Ready => match failure {
                Some(e) => (
                    Execution { phase: Phase::Done, restore, failure: Some(e), ..self },
                    Request::Failed(e),
                ),
                None => {
                    let run = Execution { phase: Phase::Done, restore, failure, ..self };
                    run.begin(index + 1)
                },
            },
            RestoreStep::Failed => {
                let e = DbError::RestoreFailed(index);
                (
                    Execution { phase: Phase::Done, restore, failure: Some(e), ..self },
                    Request::Failed(e),
                )
            },
        }
    }

    /// Gives up the script at hand because of `e`, or goes on after it
    /// where `e` is `None`; `paths` are the paths for the next script.
    fn leave(self, e: Option<DbError>, paths: Vec<String>) -> (r: (Execution, Request))
        requires
            self@.phase == Phase::Probing || self@.phase == Phase::Running,
        ensures
            (r.0@, r.1@) == (ExecutionView { paths: paths.deep_view(), ..self@ }).leave(e),
    {
        proof {
            use_type_invariant(&self);
        }
        let index = self.index;
        let detached = match self.checkout.detached {
            Some(done) => done,
            None => false,
        };
        let run = Execution { paths, ..self };
        if detached {
            run.restore_on(RestoreLog::fresh(), e)
        } else {
            match e {
                Some(e) => (
                    Execution { phase: Phase::Done, failure: Some(e), ..run },
                    Request::Failed(e),
                ),
                None => {
                    let run = Execution { phase: Phase::Done, failure: None, ..run };
                    run.begin(index + 1)
                },
            }
        }
    }

    /// Takes in how the last request went, on the date `date` at the time
    /// `time`, and says what is to be done next. Once the run is over, the
    /// repository of the last script was left as it was found, unless a reply
    /// did not answer its request.
    #[verifier::rlimit(50)]
    pub fn advance(self, reply: Reply, date: &str, time: &str) -> (r: (Execution, Request))
        ensures
            (r.0@, r.1@) == self@.advance(reply, date@, time@),
            r.0@.phase == Phase::Done ==> r.0@.settled() || r.0@.failure == Some(
                DbError::UnexpectedReply,
            ),
            r.0@.phase == Phase::Done <==> (r.1 is Finished || r.1 is Failed),
    {
        proof {
            use_type_invariant(&self);
        }
        let index = self.index;
        let r = match self.phase {
            Phase::Locating => match reply {
                Reply::Located { in_repository, commit_ok } => {
                    if !in_repository {
                        let script = self.script_paths[index].clone();
                        (Execution { phase: Phase::Probing, ..self }, Request::Probe { script })
                    } else if !commit_ok {
                        self.stop(DbError::BadCommitId(index))
                    } else {
                        let checkout = self.checkout;
                        let head_name = self.head_name.clone();
                        self.checkout_on(checkout, head_name)
                    }
                },
                _ => self.stop(DbError::UnexpectedReply),
            },
            Phase::CheckingOut => {
                let log = self.checkout;
                match (safe_git_checkout_commit(&log), reply) {
                    (CheckoutStep::ReadHead, Reply::Head(Some(name))) => self.checkout_on(
                        CheckoutLog { head_read: Some(true), ..log },
                        name,
                    ),
                    (CheckoutStep::ReadHead, Reply::Head(None)) => {
                        let head_name = self.head_name.clone();
                        self.checkout_on(CheckoutLog { head_read: Some(false), ..log }, head_name)
                    },
                    (CheckoutStep::Stash, Reply::Status(done)) => {
                        let head_name = self.head_name.clone();
                        self.checkout_on(CheckoutLog { stashed: Some(done), ..log }, head_name)
                    },
                    (CheckoutStep::Detach, Reply::Status(done)) => {
                        let head_name = self.head_name.clone();
                        self.checkout_on(CheckoutLog { detached: Some(done), ..log }, head_name)
                    },
                    (CheckoutStep::Unstash, Reply::Status(done)) => {
                        let head_name = self.head_name.clone();
                        self.checkout_on(CheckoutLog { unstashed: Some(done), ..log }, head_name)
                    },
                    _ => self.stop(DbError::UnexpectedReply),
                }
            },
            Phase::Probing => match reply {
                Reply::Probed { exists, is_file } => {
                    let paths = copy_texts(&self.paths);
                    match verify_file_path(exists, is_file, index) {
                        Err(e) => self.leave(Some(e), paths),
                        Ok(()) => {
                            let filled = match &self.script_args[index] {
                                Some(text) => parse_args_at(text.as_str(), self.new_id, date, time),
                                None => parse_args_at("", self.new_id, date, time),
                            };
                            match filled {
                                Ok(text) => {
                                    let script = self.script_paths[index].clone();
                                    let mut args = paths;
                                    let ghost before = args.deep_view();
                                    args.push(text);
                                    assert(args.deep_view() == before.push(text@));
                                    (
                                        Execution { phase: Phase::Running, ..self },
                                        Request::Run { script, args },
                                    )
                                },
                                Err(_) => self.leave(Some(DbError::BadPattern), paths),
                            }
                        },
                    }
                },
                _ => {
                    let paths = copy_texts(&self.paths);
                    self.leave(Some(DbError::UnexpectedReply), paths)
                },
            },
            Phase::Running => match reply {
                Reply::Ran(Some(output)) => {
                    if !output.success {
                        let paths = copy_texts(&self.paths);
                        self.leave(Some(DbError::ScriptFailed(index)), paths)
                    } else {
                        match output_paths(output.stdout.as_slice(), index) {
                            Ok(paths) => self.leave(None, paths),
                            Err(e) => {
                                let paths = copy_texts(&self.paths);
                                self.leave(Some(e), paths)
                            },
                        }
                    }
                },
                Reply::Ran(None) => {
                    let paths = copy_texts(&self.paths);
                    self.leave(Some(DbError::LaunchFailed(index)), paths)
                },
                _ => {
                    let paths = copy_texts(&self.paths);
                    self.leave(Some(DbError::UnexpectedReply), paths)
                },
            },
            Phase::Restoring => {
                let log = self.restore;
                let failure = self.failure;
                let did_stash = match self.checkout.stashed {
                    Some(did) => did,
                    None => false,
                };
                match (safe_git_checkout_commit_restore(did_stash, &log), reply) {
                    (RestoreStep::RestoreHead, Reply::Status(done)) => self.restore_on(
                        RestoreLog { restored: Some(done), ..log },
                        failure,
                    ),
                    (RestoreStep::Unstash, Reply::Status(done)) => self.restore_on(
                        RestoreLog { unstashed: Some(done), ..log },
                        failure,
                    ),
                    _ => self.stop(DbError::UnexpectedReply),
                }
            },
            Phase::Done => self.stop(DbError::UnexpectedReply),
        };
        proof {
            use_type_invariant(&r.0);
        }
        r
    }

    /// Takes in how the last request went, at the present time, and says
    /// what is to be done next.
    pub fn step(self, reply: Reply) -> (r: (Execution, Request))
        ensures
            exists|now: Moment|
                now.in_range() && (r.0@, r.1@) == #[trigger] self@.advance(
                    reply,
                    spec_date_text(now),
                    spec_time_text(now),
                ),
            r.0@.phase == Phase::Done ==> r.0@.settled() || r.0@.failure == Some(
                DbError::UnexpectedReply,
            ),
            r.0@.phase == Phase::Done <==> (r.1 is Finished || r.1 is Failed),
    {
        let now = utc_now();
        let date = date_text(&now);
        let time = time_text(&now);
        self.advance(reply, date.as_str(), time.as_str())
    }
}

} // verus!
