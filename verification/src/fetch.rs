//! The artifact fetch orchestrator: the cache-check, build-trigger,
//! re-check protocol for serving a virtual wheel, as a state machine.
//! The transport layer performs each requested action against the object
//! store or the build worker and feeds the outcome back.

use vstd::prelude::*;

use crate::errors::ServiceError;

verus! {

/// The query parameter of a download request: the source archive to build
/// from when the artifact is not cached yet.
pub struct Archive {
    pub archive: String,
}

/// The build order sent to the worker.
pub struct WorkerRequest {
    pub project: String,
    pub filename: String,
    pub archive_url: String,
}

/// What an object-store lookup came back with.
pub enum StoreLookup {
    /// The object exists; these are its bytes.
    Found { body: Vec<u8> },
    /// The store answered that no such key exists.
    NotFound,
    /// Any other store failure.
    Failure { message: String },
}

/// What the synchronous build-worker call came back with.
pub enum WorkerOutcome {
    /// The worker accepted the build, finished it, and persisted the
    /// artifact.
    Accepted,
    /// Transport error or non-success status from the worker.
    Rejected { message: String },
}

/// Where the orchestration stands.
#[derive(Clone, Copy, Debug, PartialEq, Eq, Structural)]
pub enum FetchPhase {
    CheckingCache,
    TriggeringBuild,
    ReCheckingCache,
    Serving,
    Failed,
}

/// What the transport layer must do next.
pub enum FetchAction {
    /// Look the key up in the object store and report back.
    LookupStore { key: String },
    /// Send the build order to the worker and report back.
    TriggerBuild { request: WorkerRequest },
    /// Answer the client with these bytes.
    Serve { body: Vec<u8>, content_type: String },
    /// Answer the client with this failure.
    Fail { error: ServiceError },
}

/// `{project}/{filename}`: the store key of an artifact.
pub open spec fn object_key_chars(project: Seq<char>, filename: Seq<char>) -> Seq<char> {
    project + seq!['/'] + filename
}

/// One download request's walk through the protocol.
pub struct FetchOrchestrator {
    pub project: String,
    pub filename: String,
    pub archive_url: String,
    pub phase: FetchPhase,
}

impl FetchOrchestrator {
    /// Start orchestrating one `(project, filename)` download whose
    /// source archive lives at `archive_url`.
    pub fn new(project: String, filename: String, archive_url: String) -> (r: Self)
        ensures
            r.project@ == project@,
            r.filename@ == filename@,
            r.archive_url@ == archive_url@,
            r.phase == FetchPhase::CheckingCache,
    {
        FetchOrchestrator { project, filename, archive_url, phase: FetchPhase::CheckingCache }
    }

    /// The object-store key of the artifact this request is after.
    pub fn object_key(&self) -> (r: String)
        ensures
            r@ == object_key_chars(self.project@, self.filename@),
    {
        let mut r = self.project.clone();
        r.append("/");
        r.append(self.filename.as_str());
        proof {
            reveal_strlit("/");
            assert("/"@ =~= seq!['/']);
            assert(r@ =~= object_key_chars(self.project@, self.filename@));
        }
        r
    }

    /// The first step: look the artifact up in the object store.
    pub fn initial_action(&self) -> (a: FetchAction)
        requires
            self.phase == FetchPhase::CheckingCache,
        ensures
            a matches FetchAction::LookupStore { key } && key@ == object_key_chars(
                self.project@,
                self.filename@,
            ),
    {
        FetchAction::LookupStore { key: self.object_key() }
    }

    /// Step on the outcome of the first cache check: found bytes are
    /// served as a zip artifact, a miss triggers a build, and any other
    /// store failure ends the request with an infrastructure error.
    pub fn on_cache_check(&mut self, outcome: StoreLookup) -> (a: FetchAction)
        requires
            old(self).phase == FetchPhase::CheckingCache,
        ensures
            final(self).project == old(self).project,
            final(self).filename == old(self).filename,
            final(self).archive_url == old(self).archive_url,
            match outcome {
                StoreLookup::Found { body } => {
                    &&& final(self).phase == FetchPhase::Serving
                    &&& a matches FetchAction::Serve { body: b, content_type: ct } && b@ == body@
                        && ct@ == "application/zip"@
                },
                StoreLookup::NotFound => {
                    &&& final(self).phase == FetchPhase::TriggeringBuild
                    &&& a matches FetchAction::TriggerBuild { request } && request.project@ == old(
                        self,
                    ).project@ && request.filename@ == old(self).filename@ && request.archive_url@
                        == old(self).archive_url@
                },
                StoreLookup::Failure { .. } => {
                    &&& final(self).phase == FetchPhase::Failed
                    &&& a matches FetchAction::Fail {
                        error: ServiceError::StoreInfrastructure { message },
                    } && message@ == "Error while looking for file "@ + old(self).filename@
                },
            },
    {
        match outcome {
            StoreLookup::Found { body } => {
                self.phase = FetchPhase::Serving;
                FetchAction::Serve { body, content_type: String::from_str("application/zip") }
            },
            StoreLookup::NotFound => {
                self.phase = FetchPhase::TriggeringBuild;
                FetchAction::TriggerBuild {
                    request: WorkerRequest {
                        project: self.project.clone(),
                        filename: self.filename.clone(),
                        archive_url: self.archive_url.clone(),
                    },
                }
            },
            StoreLookup::Failure { .. } => {
                self.phase = FetchPhase::Failed;
                let mut message = String::from_str("Error while looking for file ");
                message.append(self.filename.as_str());
                FetchAction::Fail { error: ServiceError::StoreInfrastructure { message } }
            },
        }
    }

    /// Step on the worker's answer: an accepted (and therefore finished)
    /// build leads to the re-check, a rejected one ends the request with
    /// a build-trigger error. No retry is attempted.
    pub fn on_worker_result(&mut self, outcome: WorkerOutcome) -> (a: FetchAction)
        requires
            old(self).phase == FetchPhase::TriggeringBuild,
        ensures
            final(self).project == old(self).project,
            final(self).filename == old(self).filename,
            final(self).archive_url == old(self).archive_url,
            match outcome {
                WorkerOutcome::Accepted => {
                    &&& final(self).phase == FetchPhase::ReCheckingCache
                    &&& a matches FetchAction::LookupStore { key } && key@ == object_key_chars(
                        old(self).project@,
                        old(self).filename@,
                    )
                },
                WorkerOutcome::Rejected { message } => {
                    &&& final(self).phase == FetchPhase::Failed
                    &&& a matches FetchAction::Fail {
                        error: ServiceError::BuildTrigger { message: m },
                    } && m@ == message@
                },
            },
    {
        match outcome {
            WorkerOutcome::Accepted => {
                self.phase = FetchPhase::ReCheckingCache;
                FetchAction::LookupStore { key: self.object_key() }
            },
            WorkerOutcome::Rejected { message } => {
                self.phase = FetchPhase::Failed;
                FetchAction::Fail { error: ServiceError::BuildTrigger { message } }
            },
        }
    }

    /// Step on the outcome of the re-check after a build: found bytes are
    /// served; anything else means the worker claimed success while the
    /// artifact is absent, a consistency failure that is never retried.
    pub fn on_recheck(&mut self, outcome: StoreLookup) -> (a: FetchAction)
        requires
            old(self).phase == FetchPhase::ReCheckingCache,
        ensures
            final(self).project == old(self).project,
            final(self).filename == old(self).filename,
            final(self).archive_url == old(self).archive_url,
            match outcome {
                StoreLookup::Found { body } => {
                    &&& final(self).phase == FetchPhase::Serving
                    &&& a matches FetchAction::Serve { body: b, content_type: ct } && b@ == body@
                        && ct@ == "application/zip"@
                },
                StoreLookup::NotFound | StoreLookup::Failure { .. } => {
                    &&& final(self).phase == FetchPhase::Failed
                    &&& a matches FetchAction::Fail {
                        error: ServiceError::BuildConsistency { message },
                    } && message@ == "Worker reported success but the artifact is missing"@
                },
            },
    {
        match outcome {
            StoreLookup::Found { body } => {
                self.phase = FetchPhase::Serving;
                FetchAction::Serve { body, content_type: String::from_str("application/zip") }
            },
            StoreLookup::NotFound | StoreLookup::Failure { .. } => {
                self.phase = FetchPhase::Failed;
                FetchAction::Fail {
                    error: ServiceError::BuildConsistency {
                        message: String::from_str(
                            "Worker reported success but the artifact is missing",
                        ),
                    },
                }
            },
        }
    }
}

} // verus!
