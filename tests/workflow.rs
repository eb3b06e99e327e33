use base64::Engine as _;
use increase_app_version::app_apis::{FileConteAppDataApi, GithubCommitData, GithubTreeData};
use increase_app_version::app_config::{AppConfig, RepositoryConfig};
use increase_app_version::app_errors::{AppErrors, Operation, VersionFailure};
use increase_app_version::webhook_data::{
    WebHookCommit, WebHookCommitUser, WebHookInstallation, WebHookPusher, WebHookRepository,
    WebHookRepositoryOwner, WebHookSender, WebWebHook,
};
use increase_app_version::worker::{
    response_status, SkipReason, VersionBumpWorkflow, WorkflowAction, WorkflowEvent,
    WorkflowOutcome, WorkflowPhase,
};

fn user() -> WebHookCommitUser {
    WebHookCommitUser {
        name: "Ada".to_string(),
        email: "ada@example.com".to_string(),
        username: "ada".to_string(),
    }
}

fn webhook(pushed_ref: &str, sender_type: &str, login: &str, commits: usize) -> WebWebHook {
    WebWebHook {
        ref_: pushed_ref.to_string(),
        repository: WebHookRepository {
            id: 1,
            name: "widgets".to_string(),
            full_name: "acme/widgets".to_string(),
            owner: WebHookRepositoryOwner { id: 2, name: "acme".to_string(), email: String::new() },
        },
        pusher: WebHookPusher { name: "ada".to_string(), email: String::new() },
        sender: WebHookSender { login: login.to_string(), id: 3, type_: sender_type.to_string() },
        installation: WebHookInstallation { id: 77, node_id: "MDIz".to_string() },
        commits: (0..commits)
            .map(|i| WebHookCommit {
                id: format!("c0ffee{}", i),
                tree_id: format!("7ree{}", i),
                message: "work".to_string(),
                author: user(),
                committer: user(),
                added: vec![],
                removed: vec![],
                modified: vec!["src/lib.rs".to_string()],
            })
            .collect(),
    }
}

fn app_config() -> AppConfig {
    let mut c = AppConfig::default();
    c.app_name = "increase-version-bot".to_string();
    c
}

fn repo_config(bots: bool) -> RepositoryConfig {
    RepositoryConfig {
        commit_when_sender_is_bot: bots,
        file_to_donwload: "version.hpp".to_string(),
        pattern_version_to_search: "#define VERSION".to_string(),
        branch_refs_to_observe: vec!["refs/heads/main".to_string()],
    }
}

fn fetched(text: &str) -> FileConteAppDataApi {
    FileConteAppDataApi {
        type_: "file".to_string(),
        encoding: "base64".to_string(),
        size: text.len() as u64,
        name: "version.hpp".to_string(),
        path: "version.hpp".to_string(),
        content: format!("{}\n", base64::engine::general_purpose::STANDARD.encode(text)),
    }
}

fn outcome(w: &VersionBumpWorkflow) -> &WorkflowOutcome {
    match &w.phase {
        WorkflowPhase::Finished(o) => o,
        _ => panic!("the workflow should be finished"),
    }
}

#[test]
fn unobserved_ref_is_skipped() {
    let hook = webhook("refs/heads/dev", "User", "ada", 1);
    let (w, action) = VersionBumpWorkflow::start(&app_config(), &repo_config(false), &hook);
    assert!(matches!(action, WorkflowAction::Finish));
    assert!(matches!(outcome(&w), WorkflowOutcome::Skipped(SkipReason::RefNotObserved)));
    assert_eq!(response_status(outcome(&w)), 200);
}

#[test]
fn own_bot_push_is_skipped_whatever_the_policy() {
    let hook = webhook("refs/heads/main", "Bot", "increase-version-bot", 1);
    let (w, action) = VersionBumpWorkflow::start(&app_config(), &repo_config(true), &hook);
    assert!(matches!(action, WorkflowAction::Finish));
    assert!(matches!(outcome(&w), WorkflowOutcome::Skipped(SkipReason::SelfAuthored)));

    let (w, action) = VersionBumpWorkflow::start(&app_config(), &repo_config(false), &hook);
    assert!(matches!(action, WorkflowAction::Finish));
    assert!(matches!(outcome(&w), WorkflowOutcome::Skipped(SkipReason::BotCommitsDisabled)));
}

#[test]
fn other_bot_push_is_handled_when_allowed() {
    let hook = webhook("refs/heads/main", "Bot", "dependabot[bot]", 1);
    let (w, action) = VersionBumpWorkflow::start(&app_config(), &repo_config(true), &hook);
    assert!(matches!(action, WorkflowAction::AcquireToken { installation_id: 77 }));
    assert!(matches!(w.phase, WorkflowPhase::AwaitingToken));
}

#[test]
fn push_without_commits_fails_before_any_call() {
    let hook = webhook("refs/heads/main", "User", "ada", 0);
    let (w, action) = VersionBumpWorkflow::start(&app_config(), &repo_config(false), &hook);
    assert!(matches!(action, WorkflowAction::Finish));
    assert!(matches!(outcome(&w), WorkflowOutcome::Failed(AppErrors::NoCommits)));
    assert_eq!(response_status(outcome(&w)), 400);
}

fn started() -> VersionBumpWorkflow {
    let hook = webhook("refs/heads/main", "User", "ada", 2);
    let (w, action) = VersionBumpWorkflow::start(&app_config(), &repo_config(false), &hook);
    assert!(matches!(action, WorkflowAction::AcquireToken { installation_id: 77 }));
    let (w, action) = w.handle(WorkflowEvent::TokenAcquired(Ok("ghs_token".to_string())));
    match action {
        WorkflowAction::FetchFile { token, owner, repo, path } => {
            assert_eq!(token, "ghs_token");
            assert_eq!(owner, "acme");
            assert_eq!(repo, "widgets");
            assert_eq!(path, "version.hpp");
        }
        _ => panic!("expected the file to be fetched"),
    }
    let (w, action) = w.handle(WorkflowEvent::FileFetched(Ok(fetched(
        "#pragma once\n#define VERSION \"1.4.7\"\n",
    ))));
    match action {
        WorkflowAction::CreateTree { token, request, .. } => {
            assert_eq!(token, "ghs_token");
            assert_eq!(request.base_tree, "c0ffee0");
            assert_eq!(request.path, "version.hpp");
            assert_eq!(request.mode, "100644");
            assert_eq!(request.type_, "blob");
            assert_eq!(request.content, "#pragma once\n#define VERSION \"1.5.7\"\n");
        }
        _ => panic!("expected the tree to be created"),
    }
    w
}

#[test]
fn full_sequence_commits_the_new_version() {
    let w = started();
    let tree = GithubTreeData { sha: "tree123".to_string() };
    let (w, action) = w.handle(WorkflowEvent::TreeCreated(Ok((201, tree))));
    match action {
        WorkflowAction::CreateCommit { request, .. } => {
            assert_eq!(request.message, "Increase version to 1.5.7");
            assert_eq!(request.parents, vec!["c0ffee0".to_string()]);
            assert_eq!(request.tree, "tree123");
        }
        _ => panic!("expected the commit to be created"),
    }
    let commit = GithubCommitData { sha: "commit456".to_string() };
    let (w, action) = w.handle(WorkflowEvent::CommitCreated(Ok((201, commit))));
    match action {
        WorkflowAction::UpdateRef { request, .. } => {
            assert_eq!(request.ref_, "refs/heads/main");
            assert_eq!(request.sha, "commit456");
            assert!(request.force);
        }
        _ => panic!("expected the ref to be updated"),
    }
    let (w, action) = w.handle(WorkflowEvent::RefUpdated(Ok(200)));
    assert!(matches!(action, WorkflowAction::Finish));
    match outcome(&w) {
        WorkflowOutcome::Committed { new_version } => assert_eq!(new_version, "1.5.7"),
        _ => panic!("expected a commit"),
    }
    assert_eq!(response_status(outcome(&w)), 200);
}

#[test]
fn tree_server_error_stops_before_commit_and_ref() {
    let w = started();
    let tree = GithubTreeData { sha: String::new() };
    let (w, action) = w.handle(WorkflowEvent::TreeCreated(Ok((500, tree))));
    assert!(matches!(action, WorkflowAction::Finish));
    assert!(matches!(
        outcome(&w),
        WorkflowOutcome::Failed(AppErrors::UnexpectedStatus(Operation::CreateTree, 500))
    ));
    let commit = GithubCommitData { sha: "commit456".to_string() };
    let (w, action) = w.handle(WorkflowEvent::CommitCreated(Ok((201, commit))));
    assert!(matches!(action, WorkflowAction::Finish));
    let (w, action) = w.handle(WorkflowEvent::RefUpdated(Ok(200)));
    assert!(matches!(action, WorkflowAction::Finish));
    assert!(matches!(
        outcome(&w),
        WorkflowOutcome::Failed(AppErrors::UnexpectedStatus(Operation::CreateTree, 500))
    ));
    assert_eq!(response_status(outcome(&w)), 400);
}

#[test]
fn tree_transport_failure_is_reported() {
    let w = started();
    let (w, action) = w.handle(WorkflowEvent::TreeCreated(Err("timed out".to_string())));
    assert!(matches!(action, WorkflowAction::Finish));
    match outcome(&w) {
        WorkflowOutcome::Failed(AppErrors::ApiFailure(Operation::CreateTree, cause)) => {
            assert_eq!(cause, "timed out")
        }
        _ => panic!("expected a transport failure"),
    }
}

#[test]
fn commit_and_ref_failures_are_reported() {
    let w = started();
    let (w, _) = w.handle(WorkflowEvent::TreeCreated(Ok((201, GithubTreeData { sha: "t".to_string() }))));
    let (w, action) = w.handle(WorkflowEvent::CommitCreated(Ok((422, GithubCommitData { sha: String::new() }))));
    assert!(matches!(action, WorkflowAction::Finish));
    assert!(matches!(
        outcome(&w),
        WorkflowOutcome::Failed(AppErrors::UnexpectedStatus(Operation::CreateCommit, 422))
    ));

    let w = started();
    let (w, _) = w.handle(WorkflowEvent::TreeCreated(Ok((201, GithubTreeData { sha: "t".to_string() }))));
    let (w, _) = w.handle(WorkflowEvent::CommitCreated(Ok((201, GithubCommitData { sha: "c".to_string() }))));
    let (w, action) = w.handle(WorkflowEvent::RefUpdated(Ok(404)));
    assert!(matches!(action, WorkflowAction::Finish));
    assert!(matches!(
        outcome(&w),
        WorkflowOutcome::Failed(AppErrors::UnexpectedStatus(Operation::UpdateReference, 404))
    ));
}

#[test]
fn content_problems_stop_the_workflow() {
    let hook = webhook("refs/heads/main", "User", "ada", 1);
    let (w, _) = VersionBumpWorkflow::start(&app_config(), &repo_config(false), &hook);
    let (w, _) = w.handle(WorkflowEvent::TokenAcquired(Ok("t".to_string())));
    let (w, action) = w.handle(WorkflowEvent::FileFetched(Ok(fetched("#define VERSION \"1.2\"\n"))));
    assert!(matches!(action, WorkflowAction::Finish));
    assert!(matches!(
        outcome(&w),
        WorkflowOutcome::Failed(AppErrors::FailedToIncreaseVersionInFile(VersionFailure::MalformedVersion))
    ));
}

#[test]
fn token_failure_and_unexpected_events_stop_the_workflow() {
    let hook = webhook("refs/heads/main", "User", "ada", 1);
    let (w, _) = VersionBumpWorkflow::start(&app_config(), &repo_config(false), &hook);
    let (w, action) = w.handle(WorkflowEvent::TokenAcquired(Err(AppErrors::JwtClaimsOutOfRange)));
    assert!(matches!(action, WorkflowAction::Finish));
    assert!(matches!(outcome(&w), WorkflowOutcome::Failed(AppErrors::JwtClaimsOutOfRange)));

    let (w, _) = VersionBumpWorkflow::start(&app_config(), &repo_config(false), &hook);
    let (w, action) = w.handle(WorkflowEvent::RefUpdated(Ok(200)));
    assert!(matches!(action, WorkflowAction::Finish));
    assert!(matches!(outcome(&w), WorkflowOutcome::Failed(AppErrors::UnexpectedEvent)));
}
