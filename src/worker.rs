//! The version-bump workflow of one webhook: the gating rules, then fetching
//! the tracked file, bumping its version, and committing it through three
//! dependent remote steps (tree, commit, ref update).
//!
//! The decisions are a state machine. A driver performs each action and hands
//! its result back as the next event. Each remote step is asked for only after
//! the one before it succeeded; a failure ends the workflow, and the ref is
//! moved only by the last step.
use vstd::prelude::*;

use crate::app_apis::{decoded_text, FileConteAppDataApi, GithubCommitData, GithubTreeData};
use crate::app_config::{AppConfig, RepositoryConfig};
use crate::app_errors::{AppErrors, DecodeFailure, Operation};
use crate::text::{extend_chars, from_chars, same_text, to_chars};
use crate::version_bump::version_bump;
use crate::webhook_data::WebWebHook;

verus! {

/// The sender type of pushes made by an app.
pub open spec fn bot_sender_type() -> Seq<char> {
    "Bot"@
}

/// Why a webhook is deliberately left alone.
#[derive(Clone, Copy, Debug, PartialEq, Eq, Structural)]
pub enum SkipReason {
    /// The pushed ref is not one of the observed refs.
    RefNotObserved,
    /// The push came from a bot and bot pushes are not acted on.
    BotCommitsDisabled,
    /// The push came from this app itself.
    SelfAuthored,
}

/// Whether the push is skipped, and why.
pub open spec fn gate(
    observed_refs: Seq<Seq<char>>,
    pushed_ref: Seq<char>,
    commit_when_sender_is_bot: bool,
    sender_type: Seq<char>,
    sender_login: Seq<char>,
    app_name: Seq<char>,
) -> Option<SkipReason> {
    if !observed_refs.contains(pushed_ref) {
        Some(SkipReason::RefNotObserved)
    } else if sender_type == bot_sender_type() {
        if !commit_when_sender_is_bot {
            Some(SkipReason::BotCommitsDisabled)
        } else if sender_login == app_name {
            Some(SkipReason::SelfAuthored)
        } else {
            None
        }
    } else {
        None
    }
}

/// The tree to create: the base tree plus one blob holding the new text.
pub struct TreeRequest {
    pub base_tree: String,
    pub path: String,
    pub mode: String,
    pub type_: String,
    pub content: String,
}

/// The commit to create on top of the parent.
pub struct CommitRequest {
    pub message: String,
    pub parents: Vec<String>,
    pub tree: String,
}

/// The ref to move, by force, to the new commit.
pub struct RefUpdateRequest {
    pub ref_: String,
    pub sha: String,
    pub force: bool,
}

/// How a workflow ended.
pub enum WorkflowOutcome {
    Skipped(SkipReason),
    /// The ref now points to a commit holding the new version.
    Committed { new_version: String },
    Failed(AppErrors),
}

/// What stays fixed for the whole workflow.
pub struct BumpJob {
    pub installation_id: u128,
    pub owner: String,
    pub repo: String,
    pub target_ref: String,
    /// The commit that the new commit is built on.
    pub parent_commit: String,
    pub file_path: String,
    pub pattern: String,
}

/// Where the workflow stands.
pub enum WorkflowPhase {
    AwaitingToken,
    AwaitingFile { token: String },
    AwaitingTree { token: String, new_version: String },
    AwaitingCommit { token: String, new_version: String },
    AwaitingRef { new_version: String },
    Finished(WorkflowOutcome),
}

pub struct VersionBumpWorkflow {
    pub job: BumpJob,
    pub phase: WorkflowPhase,
}

/// What the driver must do next.
pub enum WorkflowAction {
    /// Obtain an access token for the installation.
    AcquireToken { installation_id: u128 },
    /// Read the tracked file of the repository.
    FetchFile { token: String, owner: String, repo: String, path: String },
    CreateTree { token: String, owner: String, repo: String, request: TreeRequest },
    CreateCommit { token: String, owner: String, repo: String, request: CommitRequest },
    UpdateRef { token: String, owner: String, repo: String, request: RefUpdateRequest },
    /// Stop: the phase holds the outcome.
    Finish,
}

/// What the driver reports back. A remote result carries the response's
/// status and body, or the cause of a transport failure.
pub enum WorkflowEvent {
    TokenAcquired(Result<String, AppErrors>),
    FileFetched(Result<FileConteAppDataApi, String>),
    TreeCreated(Result<(u16, GithubTreeData), String>),
    CommitCreated(Result<(u16, GithubCommitData), String>),
    RefUpdated(Result<u16, String>),
}

/// The status with which the platform reports a created object.
pub const STATUS_CREATED: u16 = 201;

/// The message of the commit that records `version`.
pub open spec fn commit_message(version: Seq<char>) -> Seq<char> {
    "Increase version to "@ + version
}

/// What a fetched file becomes: the path, the new text and the new version,
/// or the failure.
pub open spec fn prepared_file(file: FileConteAppDataApi, pattern: Seq<char>) -> Result<
    (Seq<char>, Seq<char>, Seq<char>),
    AppErrors,
> {
    if file.encoding@ != "base64"@ {
        Err(AppErrors::FailedToDecodeFile(DecodeFailure::UnsupportedEncoding))
    } else {
        match decoded_text(file.content@) {
            Err(f) => Err(AppErrors::FailedToDecodeFile(f)),
            Ok(text) => match version_bump(text, pattern) {
                Err(f) => Err(AppErrors::FailedToIncreaseVersionInFile(f)),
                Ok((new_text, version)) => Ok((file.path@, new_text, version)),
            },
        }
    }
}

impl VersionBumpWorkflow {
    /// `next` is `self` ended with `outcome`, and nothing more is asked.
    pub open spec fn ends_with(self, next: VersionBumpWorkflow, action: WorkflowAction, outcome: WorkflowOutcome) -> bool {
        next == (VersionBumpWorkflow { job: self.job, phase: WorkflowPhase::Finished(outcome) }) && action
            == WorkflowAction::Finish
    }

    /// `next` and `action` are what `self` does on `event`.
    pub open spec fn next_step(
        self,
        event: WorkflowEvent,
        next: VersionBumpWorkflow,
        action: WorkflowAction,
    ) -> bool {
        let job = self.job;
        match (self.phase, event) {
            (WorkflowPhase::AwaitingToken, WorkflowEvent::TokenAcquired(acquired)) => match acquired {
                Ok(token) => {
                    &&& next == (VersionBumpWorkflow { job, phase: WorkflowPhase::AwaitingFile { token } })
                    &&& action == (WorkflowAction::FetchFile {
                        token,
                        owner: job.owner,
                        repo: job.repo,
                        path: job.file_path,
                    })
                },
                Err(e) => self.ends_with(next, action, WorkflowOutcome::Failed(e)),
            },
            (WorkflowPhase::AwaitingFile { token }, WorkflowEvent::FileFetched(fetched)) => match fetched {
                Ok(file) => match prepared_file(file, job.pattern@) {
                    Err(e) => self.ends_with(next, action, WorkflowOutcome::Failed(e)),
                    Ok((path, content, version)) => {
                        &&& next.job == job
                        &&& next.phase matches WorkflowPhase::AwaitingTree { token: t, new_version: v } && t
                            == token && v@ == version
                        &&& action matches WorkflowAction::CreateTree { token: t, owner, repo, request } && t
                            == token && owner == job.owner && repo == job.repo && request.base_tree
                            == job.parent_commit && request.path@ == path && request.mode@ == "100644"@
                            && request.type_@ == "blob"@ && request.content@ == content
                    },
                },
                Err(cause) => self.ends_with(
                    next,
                    action,
                    WorkflowOutcome::Failed(AppErrors::ApiFailure(Operation::GetRepoFileContent, cause)),
                ),
            },
            (
                WorkflowPhase::AwaitingTree { token, new_version },
                WorkflowEvent::TreeCreated(created),
            ) => match created {
                Ok((status, tree)) => if status != STATUS_CREATED {
                    self.ends_with(
                        next,
                        action,
                        WorkflowOutcome::Failed(AppErrors::UnexpectedStatus(Operation::CreateTree, status)),
                    )
                } else {
                    &&& next == (VersionBumpWorkflow {
                        job,
                        phase: WorkflowPhase::AwaitingCommit { token, new_version },
                    })
                    &&& action matches WorkflowAction::CreateCommit { token: t, owner, repo, request } && t
                        == token && owner == job.owner && repo == job.repo && request.message@
                        == commit_message(new_version@) && request.parents@ == seq![job.parent_commit]
                        && request.tree == tree.sha
                },
                Err(cause) => self.ends_with(
                    next,
                    action,
                    WorkflowOutcome::Failed(AppErrors::ApiFailure(Operation::CreateTree, cause)),
                ),
            },
            (
                WorkflowPhase::AwaitingCommit { token, new_version },
                WorkflowEvent::CommitCreated(created),
            ) => match created {
                Ok((status, commit)) => if status != STATUS_CREATED {
                    self.ends_with(
                        next,
                        action,
                        WorkflowOutcome::Failed(AppErrors::UnexpectedStatus(Operation::CreateCommit, status)),
                    )
                } else {
                    &&& next == (VersionBumpWorkflow { job, phase: WorkflowPhase::AwaitingRef { new_version } })
                    &&& action == (WorkflowAction::UpdateRef {
                        token,
                        owner: job.owner,
                        repo: job.repo,
                        request: RefUpdateRequest { ref_: job.target_ref, sha: commit.sha, force: true },
                    })
                },
                Err(cause) => self.ends_with(
                    next,
                    action,
                    WorkflowOutcome::Failed(AppErrors::ApiFailure(Operation::CreateCommit, cause)),
                ),
            },
            (WorkflowPhase::AwaitingRef { new_version }, WorkflowEvent::RefUpdated(updated)) => match updated {
                Ok(status) => if 200 <= status < 300 {
                    self.ends_with(next, action, WorkflowOutcome::Committed { new_version })
                } else {
                    self.ends_with(
                        next,
                        action,
                        WorkflowOutcome::Failed(AppErrors::UnexpectedStatus(Operation::UpdateReference, status)),
                    )
                },
                Err(cause) => self.ends_with(
                    next,
                    action,
                    WorkflowOutcome::Failed(AppErrors::ApiFailure(Operation::UpdateReference, cause)),
                ),
            },
            (WorkflowPhase::Finished(_), _) => next == self && action == WorkflowAction::Finish,
            _ => self.ends_with(next, action, WorkflowOutcome::Failed(AppErrors::UnexpectedEvent)),
        }
    }
}

fn text_of(s: &str) -> (r: String)
    ensures
        r@ == s@,
{
    s.to_owned()
}

/// Whether `target` is among `refs`.
fn contains_text(refs: &Vec<String>, target: &String) -> (r: bool)
    ensures
        r == refs@.map_values(|s: String| s@).contains(target@),
{
    let ghost views = refs@.map_values(|s: String| s@);
    let mut i: usize = 0;
    while i < refs.len()
        invariant
            views == refs@.map_values(|s: String| s@),
            i <= refs.len(),
            forall|j: int| 0 <= j < i ==> views[j] != target@,
        decreases refs.len() - i,
    {
        if same_text(refs[i].as_str(), target.as_str()) {
            assert(views[i as int] == target@);
            return true;
        }
        i = i + 1;
    }
    false
}

/// Whether a push is skipped under the repository's settings, and why.
pub fn gating(app_config: &AppConfig, repo_config: &RepositoryConfig, webhook: &WebWebHook) -> (r: Option<
    SkipReason,
>)
    ensures
        r == gate(
            repo_config.branch_refs_to_observe@.map_values(|s: String| s@),
            webhook.ref_@,
            repo_config.commit_when_sender_is_bot,
            webhook.sender.type_@,
            webhook.sender.login@,
            app_config.app_name@,
        ),
{
    if !contains_text(&repo_config.branch_refs_to_observe, &webhook.ref_) {
        return Some(SkipReason::RefNotObserved);
    }
    if same_text(webhook.sender.type_.as_str(), "Bot") {
        if !repo_config.commit_when_sender_is_bot {
            return Some(SkipReason::BotCommitsDisabled);
        }
        if same_text(webhook.sender.login.as_str(), app_config.app_name.as_str()) {
            return Some(SkipReason::SelfAuthored);
        }
    }
    None
}

impl VersionBumpWorkflow {
    /// Starts the workflow of a push: the gating rules first, then the need
    /// for a commit to build on; only then is a token asked for.
    pub fn start(app_config: &AppConfig, repo_config: &RepositoryConfig, webhook: &WebWebHook) -> (r: (
        VersionBumpWorkflow,
        WorkflowAction,
    ))
        ensures
            r.0.job.installation_id == webhook.installation.id,
            r.0.job.owner == webhook.repository.owner.name,
            r.0.job.repo == webhook.repository.name,
            r.0.job.target_ref == webhook.ref_,
            r.0.job.file_path == repo_config.file_to_donwload,
            r.0.job.pattern == repo_config.pattern_version_to_search,
            match gate(
                repo_config.branch_refs_to_observe@.map_values(|s: String| s@),
                webhook.ref_@,
                repo_config.commit_when_sender_is_bot,
                webhook.sender.type_@,
                webhook.sender.login@,
                app_config.app_name@,
            ) {
                Some(reason) => r.0.phase == WorkflowPhase::Finished(WorkflowOutcome::Skipped(reason))
                    && r.1 == WorkflowAction::Finish,
                None => if webhook.commits@.len() == 0 {
                    r.0.phase == WorkflowPhase::Finished(WorkflowOutcome::Failed(AppErrors::NoCommits))
                        && r.1 == WorkflowAction::Finish
                } else {
                    &&& r.0.job.parent_commit == webhook.commits@[0].id
                    &&& r.0.phase == WorkflowPhase::AwaitingToken
                    &&& r.1 == (WorkflowAction::AcquireToken { installation_id: webhook.installation.id })
                },
            },
    {
        let skip = gating(app_config, repo_config, webhook);
        let parent_commit = if webhook.commits.len() > 0 {
            webhook.commits[0].id.clone()
        } else {
            String::new()
        };
        let job = BumpJob {
            installation_id: webhook.installation.id,
            owner: webhook.repository.owner.name.clone(),
            repo: webhook.repository.name.clone(),
            target_ref: webhook.ref_.clone(),
            parent_commit,
            file_path: repo_config.file_to_donwload.clone(),
            pattern: repo_config.pattern_version_to_search.clone(),
        };
        match skip {
            Some(reason) => (
                VersionBumpWorkflow { job, phase: WorkflowPhase::Finished(WorkflowOutcome::Skipped(reason)) },
                WorkflowAction::Finish,
            ),
            None => {
                if webhook.commits.len() == 0 {
                    (
                        VersionBumpWorkflow {
                            job,
                            phase: WorkflowPhase::Finished(WorkflowOutcome::Failed(AppErrors::NoCommits)),
                        },
                        WorkflowAction::Finish,
                    )
                } else {
                    let installation_id = job.installation_id;
                    (
                        VersionBumpWorkflow { job, phase: WorkflowPhase::AwaitingToken },
                        WorkflowAction::AcquireToken { installation_id },
                    )
                }
            },
        }
    }

    fn finish(job: BumpJob, outcome: WorkflowOutcome) -> (r: (VersionBumpWorkflow, WorkflowAction))
        ensures
            r.0 == (VersionBumpWorkflow { job, phase: WorkflowPhase::Finished(outcome) }),
            r.1 == WorkflowAction::Finish,
    {
        (VersionBumpWorkflow { job, phase: WorkflowPhase::Finished(outcome) }, WorkflowAction::Finish)
    }

    /// Takes in the result of the last action and decides the next one.
    pub fn handle(self, event: WorkflowEvent) -> (r: (VersionBumpWorkflow, WorkflowAction))
        ensures
            self.next_step(event, r.0, r.1),
    {
        let VersionBumpWorkflow { job, phase } = self;
        match (phase, event) {
            (WorkflowPhase::AwaitingToken, WorkflowEvent::TokenAcquired(acquired)) => match acquired {
                Ok(token) => {
                    let action = WorkflowAction::FetchFile {
                        token: token.clone(),
                        owner: job.owner.clone(),
                        repo: job.repo.clone(),
                        path: job.file_path.clone(),
                    };
                    (VersionBumpWorkflow { job, phase: WorkflowPhase::AwaitingFile { token } }, action)
                },
                Err(e) => Self::finish(job, WorkflowOutcome::Failed(e)),
            },
            (WorkflowPhase::AwaitingFile { token }, WorkflowEvent::FileFetched(fetched)) => match fetched {
                Ok(file) => {
                    let mut file = file;
                    match file.decode_file() {
                        Ok(()) => {},
                        Err(e) => {
                            return Self::finish(job, WorkflowOutcome::Failed(e));
                        },
                    }
                    match file.increase_version(&job.pattern) {
                        Ok(decoded) => {
                            let request = TreeRequest {
                                base_tree: job.parent_commit.clone(),
                                path: decoded.path,
                                mode: text_of("100644"),
                                type_: text_of("blob"),
                                content: decoded.content,
                            };
                            let action = WorkflowAction::CreateTree {
                                token: token.clone(),
                                owner: job.owner.clone(),
                                repo: job.repo.clone(),
                                request,
                            };
                            (
                                VersionBumpWorkflow {
                                    job,
                                    phase: WorkflowPhase::AwaitingTree { token, new_version: decoded.new_version },
                                },
                                action,
                            )
                        },
                        Err(e) => Self::finish(job, WorkflowOutcome::Failed(e)),
                    }
                },
                Err(cause) => Self::finish(
                    job,
                    WorkflowOutcome::Failed(AppErrors::ApiFailure(Operation::GetRepoFileContent, cause)),
                ),
            },
            (WorkflowPhase::AwaitingTree { token, new_version }, WorkflowEvent::TreeCreated(created)) => match created {
                Ok((status, tree)) => {
                    if status != STATUS_CREATED {
                        return Self::finish(
                            job,
                            WorkflowOutcome::Failed(AppErrors::UnexpectedStatus(Operation::CreateTree, status)),
                        );
                    }
                    let mut parents: Vec<String> = Vec::new();
                    parents.push(job.parent_commit.clone());
                    assert(parents@ =~= seq![job.parent_commit]);
                    let mut message = to_chars("Increase version to ");
                    extend_chars(&mut message, &to_chars(new_version.as_str()));
                    let request = CommitRequest {
                        message: from_chars(&message),
                        parents,
                        tree: tree.sha,
                    };
                    let action = WorkflowAction::CreateCommit {
                        token: token.clone(),
                        owner: job.owner.clone(),
                        repo: job.repo.clone(),
                        request,
                    };
                    (VersionBumpWorkflow { job, phase: WorkflowPhase::AwaitingCommit { token, new_version } }, action)
                },
                Err(cause) => Self::finish(
                    job,
                    WorkflowOutcome::Failed(AppErrors::ApiFailure(Operation::CreateTree, cause)),
                ),
            },
            (WorkflowPhase::AwaitingCommit { token, new_version }, WorkflowEvent::CommitCreated(created)) => match created {
                Ok((status, commit)) => {
                    if status != STATUS_CREATED {
                        return Self::finish(
                            job,
                            WorkflowOutcome::Failed(AppErrors::UnexpectedStatus(Operation::CreateCommit, status)),
                        );
                    }
                    let action = WorkflowAction::UpdateRef {
                        token,
                        owner: job.owner.clone(),
                        repo: job.repo.clone(),
                        request: RefUpdateRequest { ref_: job.target_ref.clone(), sha: commit.sha, force: true },
                    };
                    (VersionBumpWorkflow { job, phase: WorkflowPhase::AwaitingRef { new_version } }, action)
                },
                Err(cause) => Self::finish(
                    job,
                    WorkflowOutcome::Failed(AppErrors::ApiFailure(Operation::CreateCommit, cause)),
                ),
            },
            (WorkflowPhase::AwaitingRef { new_version }, WorkflowEvent::RefUpdated(updated)) => match updated {
                Ok(status) => {
                    if 200 <= status && status < 300 {
                        Self::finish(job, WorkflowOutcome::Committed { new_version })
                    } else {
                        Self::finish(
                            job,
                            WorkflowOutcome::Failed(AppErrors::UnexpectedStatus(Operation::UpdateReference, status)),
                        )
                    }
                },
                Err(cause) => Self::finish(
                    job,
                    WorkflowOutcome::Failed(AppErrors::ApiFailure(Operation::UpdateReference, cause)),
                ),
            },
            (WorkflowPhase::Finished(outcome), _) => (
                VersionBumpWorkflow { job, phase: WorkflowPhase::Finished(outcome) },
                WorkflowAction::Finish,
            ),
            _ => Self::finish(job, WorkflowOutcome::Failed(AppErrors::UnexpectedEvent)),
        }
    }
}

/// The HTTP status that answers a webhook: success for a commit or a
/// deliberate skip, bad request for a failure.
pub fn response_status(outcome: &WorkflowOutcome) -> (r: u16)
    ensures
        r == (if outcome is Failed {
            400u16
        } else {
            200u16
        }),
{
    match outcome {
        WorkflowOutcome::Failed(_) => 400,
        _ => 200,
    }
}

/// `e` is the failure of the remote operation `op`: a transport failure or
/// a status other than its success status.
pub open spec fn is_failure_of(e: AppErrors, op: Operation) -> bool {
    match e {
        AppErrors::UnexpectedStatus(o, _) => o == op,
        AppErrors::ApiFailure(o, _) => o == op,
        _ => false,
    }
}

/// A finished workflow stays as it is and asks for nothing more.
pub proof fn lemma_finished_workflow_is_final(
    w: VersionBumpWorkflow,
    event: WorkflowEvent,
    next: VersionBumpWorkflow,
    action: WorkflowAction,
)
    requires
        w.phase is Finished,
        w.next_step(event, next, action),
    ensures
        next == w,
        action == WorkflowAction::Finish,
{
}

/// A commit is asked for only right after the platform reported the tree
/// as created.
pub proof fn lemma_commit_follows_created_tree(
    w: VersionBumpWorkflow,
    event: WorkflowEvent,
    next: VersionBumpWorkflow,
    action: WorkflowAction,
)
    requires
        w.next_step(event, next, action),
        action is CreateCommit,
    ensures
        w.phase is AwaitingTree,
        event matches WorkflowEvent::TreeCreated(Ok((status, _))) && status == STATUS_CREATED,
{
}

/// The ref is moved only right after the platform reported the commit as
/// created.
pub proof fn lemma_ref_update_follows_created_commit(
    w: VersionBumpWorkflow,
    event: WorkflowEvent,
    next: VersionBumpWorkflow,
    action: WorkflowAction,
)
    requires
        w.next_step(event, next, action),
        action is UpdateRef,
    ensures
        w.phase is AwaitingCommit,
        event matches WorkflowEvent::CommitCreated(Ok((status, _))) && status == STATUS_CREATED,
{
}

/// When the tree step does not succeed, the workflow fails at once with the
/// failure of that step; being finished, it never asks for the commit or the
/// ref update.
pub proof fn lemma_failed_tree_ends_workflow(
    w: VersionBumpWorkflow,
    result: Result<(u16, GithubTreeData), String>,
    next: VersionBumpWorkflow,
    action: WorkflowAction,
)
    requires
        w.phase is AwaitingTree,
        !(result matches Ok((status, _)) && status == STATUS_CREATED),
        w.next_step(WorkflowEvent::TreeCreated(result), next, action),
    ensures
        action == WorkflowAction::Finish,
        next.phase matches WorkflowPhase::Finished(WorkflowOutcome::Failed(e)) && is_failure_of(
            e,
            Operation::CreateTree,
        ),
{
}

} // verus!
