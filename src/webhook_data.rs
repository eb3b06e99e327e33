//! The push event that the hosting platform sends to the webhook.
use vstd::prelude::*;

verus! {

pub struct WebHookRepositoryOwner {
    pub id: u128,
    pub name: String,
    pub email: String,
}

pub struct WebHookRepository {
    pub id: u128,
    pub name: String,
    pub full_name: String,
    pub owner: WebHookRepositoryOwner,
}

pub struct WebHookPusher {
    pub name: String,
    pub email: String,
}

pub struct WebHookSender {
    pub login: String,
    pub id: u128,
    /// `User` or `Bot`.
    pub type_: String,
}

pub struct WebHookInstallation {
    pub id: u128,
    pub node_id: String,
}

pub struct WebHookCommitUser {
    pub name: String,
    pub email: String,
    pub username: String,
}

pub struct WebHookCommit {
    pub id: String,
    pub tree_id: String,
    pub message: String,
    pub author: WebHookCommitUser,
    pub committer: WebHookCommitUser,
    pub added: Vec<String>,
    pub removed: Vec<String>,
    pub modified: Vec<String>,
}

pub struct WebWebHook {
    /// The pushed ref, such as `refs/heads/main`.
    pub ref_: String,
    pub repository: WebHookRepository,
    pub pusher: WebHookPusher,
    pub sender: WebHookSender,
    pub installation: WebHookInstallation,
    pub commits: Vec<WebHookCommit>,
}

} // verus!
