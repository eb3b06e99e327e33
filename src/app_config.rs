//! The app's settings and the per-installation automation settings, and how
//! stored settings, defaults and environment variables combine.
use vstd::prelude::*;

use crate::app_errors::{AppErrors, EnvVarProblem};
use crate::text::{parse_u128, parses_within, same_text, to_chars, unsigned_value};

verus! {

/// The settings of the whole app.
pub struct AppConfig {
    /// The secret shared with the platform, which signs every webhook.
    pub callback_token: String,
    /// The app's own login name, used to ignore its own commits.
    pub app_name: String,
    /// The app's private RSA key, in PEM form.
    pub private_signature: String,
    pub app_id: u128,
    pub commit_when_sender_is_bot: bool,
    pub file_to_download: String,
    pub pattern_version_to_search: String,
    pub branch_refs_to_observe: Vec<String>,
}

/// The automation settings of one installation.
pub struct RepositoryConfig {
    pub commit_when_sender_is_bot: bool,
    pub file_to_donwload: String,
    pub pattern_version_to_search: String,
    pub branch_refs_to_observe: Vec<String>,
}

/// A copy of a list of strings.
pub fn clone_strings(v: &Vec<String>) -> (r: Vec<String>)
    ensures
        r@ == v@,
{
    let mut r: Vec<String> = Vec::new();
    let mut i: usize = 0;
    while i < v.len()
        invariant
            i <= v.len(),
            r@ == v@.subrange(0, i as int),
        decreases v.len() - i,
    {
        r.push(v[i].clone());
        assert(r@ =~= v@.subrange(0, i + 1));
        i = i + 1;
    }
    assert(v@.subrange(0, v@.len() as int) =~= v@);
    r
}

impl RepositoryConfig {
    /// The settings of an installation: those stored for it, or else the
    /// app's settings, which then become the installation's defaults.
    pub fn new(stored: Option<RepositoryConfig>, app_config: &AppConfig) -> (r: RepositoryConfig)
        ensures
            match stored {
                Some(c) => r == c,
                None => {
                    &&& r.commit_when_sender_is_bot == app_config.commit_when_sender_is_bot
                    &&& r.file_to_donwload == app_config.file_to_download
                    &&& r.pattern_version_to_search == app_config.pattern_version_to_search
                    &&& r.branch_refs_to_observe@ == app_config.branch_refs_to_observe@
                },
            },
    {
        match stored {
            Some(c) => c,
            None => RepositoryConfig {
                commit_when_sender_is_bot: app_config.commit_when_sender_is_bot,
                file_to_donwload: app_config.file_to_download.clone(),
                pattern_version_to_search: app_config.pattern_version_to_search.clone(),
                branch_refs_to_observe: clone_strings(&app_config.branch_refs_to_observe),
            },
        }
    }
}

impl Default for AppConfig {
    fn default() -> (r: AppConfig)
        ensures
            is_default_config(r),
    {
        let mut refs: Vec<String> = Vec::new();
        refs.push("refs/heads/main".to_owned());
        assert(refs@.map_values(|s: String| s@) =~= seq!["refs/heads/main"@]);
        AppConfig {
            callback_token: String::new(),
            app_name: "IncreaseAppVersion".to_owned(),
            private_signature: "sig.pem".to_owned(),
            app_id: 0,
            commit_when_sender_is_bot: false,
            file_to_download: "version.hpp".to_owned(),
            pattern_version_to_search: "#define VERSION".to_owned(),
            branch_refs_to_observe: refs,
        }
    }
}

/// The environment variables that override the stored app settings, in the
/// order in which they are read.
#[derive(Clone, Copy, Debug, PartialEq, Eq, Structural)]
pub enum EnvVar {
    CallbackSecretToken,
    AppName,
    PrivateKeyFileLoc,
    AppId,
    CommitWhenSenderIsBot,
    FileToDownload,
    PatternVersionToSearch,
}

impl EnvVar {
    pub open spec fn spec_name(self) -> Seq<char> {
        match self {
            EnvVar::CallbackSecretToken => "CALLBACK_SECRET_TOKEN"@,
            EnvVar::AppName => "APP_NAME"@,
            EnvVar::PrivateKeyFileLoc => "PRIVATE_KEY_FILE_LOC"@,
            EnvVar::AppId => "APP_ID"@,
            EnvVar::CommitWhenSenderIsBot => "COMMIT_WHEN_SENDER_IS_BOT"@,
            EnvVar::FileToDownload => "FILE_TO_DOWNLOAD"@,
            EnvVar::PatternVersionToSearch => "PATTERN_VERSION_TO_SEARCH"@,
        }
    }

    /// The variable's name in the environment.
    pub fn name(&self) -> (r: &'static str)
        ensures
            r@ == self.spec_name(),
    {
        match self {
            EnvVar::CallbackSecretToken => "CALLBACK_SECRET_TOKEN",
            EnvVar::AppName => "APP_NAME",
            EnvVar::PrivateKeyFileLoc => "PRIVATE_KEY_FILE_LOC",
            EnvVar::AppId => "APP_ID",
            EnvVar::CommitWhenSenderIsBot => "COMMIT_WHEN_SENDER_IS_BOT",
            EnvVar::FileToDownload => "FILE_TO_DOWNLOAD",
            EnvVar::PatternVersionToSearch => "PATTERN_VERSION_TO_SEARCH",
        }
    }
}

/// The key file that `PRIVATE_KEY_FILE_LOC` names.
pub enum KeyFile {
    Read(String),
    Unreadable,
}

/// The values of the environment variables, each `None` where it is not set.
pub struct EnvironmentValues {
    pub callback_secret_token: Option<String>,
    pub app_name: Option<String>,
    /// The key file named by `PRIVATE_KEY_FILE_LOC`, as read.
    pub private_key: Option<KeyFile>,
    pub app_id: Option<String>,
    pub commit_when_sender_is_bot: Option<String>,
    pub file_to_download: Option<String>,
    pub pattern_version_to_search: Option<String>,
}

/// `true` or `false`, as `str::parse::<bool>` reads them.
pub open spec fn bool_text(t: Seq<char>) -> Option<bool> {
    if t == "true"@ {
        Some(true)
    } else if t == "false"@ {
        Some(false)
    } else {
        None
    }
}

/// The first variable, in reading order, whose value is refused, and why.
pub open spec fn first_invalid(env: EnvironmentValues) -> Option<(EnvVar, EnvVarProblem)> {
    if env.private_key matches Some(KeyFile::Unreadable) {
        Some((EnvVar::PrivateKeyFileLoc, EnvVarProblem::UnreadableFile))
    } else if env.app_id matches Some(t) && !parses_within(t@, u128::MAX as nat) {
        Some((EnvVar::AppId, EnvVarProblem::InvalidUnsigned))
    } else if env.commit_when_sender_is_bot matches Some(t) && bool_text(t@) is None {
        Some((EnvVar::CommitWhenSenderIsBot, EnvVarProblem::InvalidBool))
    } else {
        None
    }
}

/// The app id that the environment sets: read only where the key file
/// before it was not refused, and only where it is an unsigned number.
pub open spec fn app_id_from_env(env: EnvironmentValues) -> Option<u128> {
    match (env.private_key, env.app_id) {
        (Some(KeyFile::Unreadable), _) => None,
        (_, Some(t)) => if parses_within(t@, u128::MAX as nat) {
            Some(unsigned_value(t@) as u128)
        } else {
            None
        },
        _ => None,
    }
}

/// The variables that are not set, in reading order.
pub open spec fn missing_vars(env: EnvironmentValues) -> Seq<EnvVar> {
    (if env.callback_secret_token is None { seq![EnvVar::CallbackSecretToken] } else { seq![] })
        + (if env.app_name is None { seq![EnvVar::AppName] } else { seq![] })
        + (if env.private_key is None { seq![EnvVar::PrivateKeyFileLoc] } else { seq![] })
        + (if env.app_id is None { seq![EnvVar::AppId] } else { seq![] })
        + (if env.commit_when_sender_is_bot is None { seq![EnvVar::CommitWhenSenderIsBot] } else { seq![] })
        + (if env.file_to_download is None { seq![EnvVar::FileToDownload] } else { seq![] })
        + (if env.pattern_version_to_search is None { seq![EnvVar::PatternVersionToSearch] } else { seq![] })
}

/// The settings after reading the environment over `c`: every variable read
/// before the first refused one is applied; after it, none.
pub open spec fn with_environment(c: AppConfig, env: EnvironmentValues) -> AppConfig {
    let complete = first_invalid(env) is None;
    AppConfig {
        callback_token: match env.callback_secret_token {
            Some(v) => v,
            None => c.callback_token,
        },
        app_name: match env.app_name {
            Some(v) => v,
            None => c.app_name,
        },
        private_signature: match env.private_key {
            Some(KeyFile::Read(k)) => k,
            _ => c.private_signature,
        },
        app_id: match app_id_from_env(env) {
            Some(id) => id,
            None => c.app_id,
        },
        commit_when_sender_is_bot: match env.commit_when_sender_is_bot {
            Some(t) => if complete {
                bool_text(t@)->0
            } else {
                c.commit_when_sender_is_bot
            },
            None => c.commit_when_sender_is_bot,
        },
        file_to_download: match env.file_to_download {
            Some(v) => if complete {
                v
            } else {
                c.file_to_download
            },
            None => c.file_to_download,
        },
        pattern_version_to_search: match env.pattern_version_to_search {
            Some(v) => if complete {
                v
            } else {
                c.pattern_version_to_search
            },
            None => c.pattern_version_to_search,
        },
        branch_refs_to_observe: c.branch_refs_to_observe,
    }
}

/// How reading the environment went: the first refused variable, else the
/// variables that are not set, else success.
pub open spec fn environment_report(r: Result<(), AppErrors>, env: EnvironmentValues) -> bool {
    match first_invalid(env) {
        Some((var, problem)) => r == Err::<(), AppErrors>(AppErrors::InvalidEvironmentVariable(var, problem)),
        None => if missing_vars(env).len() == 0 {
            r is Ok
        } else {
            r matches Err(AppErrors::MissingEvironmentVariables(vars)) && vars@ == missing_vars(env)
        },
    }
}

/// The default settings.
pub open spec fn is_default_config(c: AppConfig) -> bool {
    &&& c.callback_token@ == Seq::<char>::empty()
    &&& c.app_name@ == "IncreaseAppVersion"@
    &&& c.private_signature@ == "sig.pem"@
    &&& c.app_id == 0
    &&& !c.commit_when_sender_is_bot
    &&& c.file_to_download@ == "version.hpp"@
    &&& c.pattern_version_to_search@ == "#define VERSION"@
    &&& c.branch_refs_to_observe@.map_values(|s: String| s@) == seq!["refs/heads/main"@]
}

fn push_if_missing<T>(missing: &mut Vec<EnvVar>, value: &Option<T>, var: EnvVar)
    ensures
        final(missing)@ == old(missing)@ + (if value is None { seq![var] } else { seq![] }),
{
    if value.is_none() {
        missing.push(var);
    }
    assert(final(missing)@ =~= old(missing)@ + (if value is None { seq![var] } else { seq![] }));
}

impl AppConfig {
    /// Overrides the settings with the environment variables that are set,
    /// in reading order. A refused value stops the reading there, leaving
    /// the variables read before it applied; otherwise every variable that
    /// is not set is reported.
    pub fn read_vars_from_env(&mut self, env: EnvironmentValues) -> (r: Result<(), AppErrors>)
        ensures
            *final(self) == with_environment(*old(self), env),
            environment_report(r, env),
    {
        let ghost env0 = env;
        let mut missing: Vec<EnvVar> = Vec::new();
        push_if_missing(&mut missing, &env.callback_secret_token, EnvVar::CallbackSecretToken);
        push_if_missing(&mut missing, &env.app_name, EnvVar::AppName);
        push_if_missing(&mut missing, &env.private_key, EnvVar::PrivateKeyFileLoc);
        push_if_missing(&mut missing, &env.app_id, EnvVar::AppId);
        push_if_missing(&mut missing, &env.commit_when_sender_is_bot, EnvVar::CommitWhenSenderIsBot);
        push_if_missing(&mut missing, &env.file_to_download, EnvVar::FileToDownload);
        push_if_missing(&mut missing, &env.pattern_version_to_search, EnvVar::PatternVersionToSearch);
        assert(missing@ =~= missing_vars(env0));
        let EnvironmentValues {
            callback_secret_token,
            app_name,
            private_key,
            app_id,
            commit_when_sender_is_bot,
            file_to_download,
            pattern_version_to_search,
        } = env;
        if let Some(v) = callback_secret_token {
            self.callback_token = v;
        }
        if let Some(v) = app_name {
            self.app_name = v;
        }
        match private_key {
            Some(KeyFile::Read(k)) => {
                self.private_signature = k;
            },
            Some(KeyFile::Unreadable) => {
                return Err(
                    AppErrors::InvalidEvironmentVariable(EnvVar::PrivateKeyFileLoc, EnvVarProblem::UnreadableFile),
                );
            },
            None => {},
        }
        if let Some(t) = app_id {
            match parse_u128(&to_chars(t.as_str())) {
                Some(id) => {
                    self.app_id = id;
                },
                None => {
                    return Err(
                        AppErrors::InvalidEvironmentVariable(EnvVar::AppId, EnvVarProblem::InvalidUnsigned),
                    );
                },
            }
        }
        if let Some(t) = commit_when_sender_is_bot {
            if same_text(t.as_str(), "true") {
                self.commit_when_sender_is_bot = true;
            } else if same_text(t.as_str(), "false") {
                self.commit_when_sender_is_bot = false;
            } else {
                return Err(
                    AppErrors::InvalidEvironmentVariable(EnvVar::CommitWhenSenderIsBot, EnvVarProblem::InvalidBool),
                );
            }
        }
        if let Some(v) = file_to_download {
            self.file_to_download = v;
        }
        if let Some(v) = pattern_version_to_search {
            self.pattern_version_to_search = v;
        }
        if missing.len() == 0 {
            Ok(())
        } else {
            Err(AppErrors::MissingEvironmentVariables(missing))
        }
    }

    /// The app's settings: with none stored, the defaults as they are;
    /// otherwise the stored ones overridden by the environment. The second
    /// part is how reading the environment went, to be reported.
    pub fn new(stored: Option<AppConfig>, env: EnvironmentValues) -> (r: (AppConfig, Result<(), AppErrors>))
        ensures
            stored is None ==> is_default_config(r.0) && r.1 is Ok,
            stored matches Some(c) ==> r.0 == with_environment(c, env) && environment_report(r.1, env),
    {
        match stored {
            None => (AppConfig::default(), Ok(())),
            Some(c) => {
                let mut config = c;
                let report = config.read_vars_from_env(env);
                (config, report)
            },
        }
    }
}

} // verus!
