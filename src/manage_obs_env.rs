use vstd::prelude::*;

use crate::environment::{instance_of, CheckoutRequest, ObservingEnvironment, TargetKind};
use crate::error::ObsEnvError;
use crate::registry::{has_name, Registry};

verus! {

/// What the tool is asked to do.
#[derive(Clone, Copy, Debug, PartialEq, Eq, Structural)]
pub enum Action {
    /// Create the destination directory and clone every repository into it.
    Setup,
    /// Show the destination and the registry.
    PrintConfig,
    /// Bring every repository to its base version.
    Reset,
    /// Show the version each repository has checked out.
    ShowCurrentVersions,
    /// Show the base version of each repository.
    ShowOriginalVersions,
    /// Check out a branch in one repository.
    CheckoutBranch,
    /// Check out a version in one repository.
    CheckoutVersion,
}

/// How much the tool logs.
#[derive(Clone, Copy, Debug, PartialEq, Eq, Structural)]
pub enum LogLevel {
    Trace,
    Debug,
    Info,
    Warn,
    Error,
}

/// The parameters of one invocation of the tool.
#[derive(Debug)]
pub struct ManageObsEnv {
    action: Action,
    log_level: LogLevel,
    env_path: String,
    repository: Option<String>,
    branch_name: String,
    base_env_branch_name: String,
}

/// The name a single-repository action acts on: empty when none was given.
pub open spec fn repository_name_of(repository: Option<Seq<char>>) -> Seq<char> {
    match repository {
        Some(n) => n,
        None => Seq::empty(),
    }
}

/// The action, once it is known to fit the parameters: checking out a branch
/// needs a repository.
pub open spec fn validated_action(action: Action, repository: Option<Seq<char>>) -> Result<
    Action,
    ObsEnvError,
> {
    if action == Action::CheckoutBranch && repository is None {
        Err(ObsEnvError::Configuration)
    } else {
        Ok(action)
    }
}

/// Read access to the parameters of one invocation.
pub trait ManageObsEnvCli {
    spec fn action_spec(&self) -> Action;

    spec fn log_level_spec(&self) -> LogLevel;

    spec fn env_path_spec(&self) -> Seq<char>;

    spec fn repository_spec(&self) -> Option<Seq<char>>;

    spec fn branch_name_spec(&self) -> Seq<char>;

    spec fn base_env_branch_name_spec(&self) -> Seq<char>;

    /// The action, refused with `Configuration` where the parameters do not
    /// fit it.
    fn get_action(&self) -> (r: Result<Action, ObsEnvError>)
        ensures
            r is Err <==> validated_action(self.action_spec(), self.repository_spec()) is Err,
            r is Err ==> r matches Err(ObsEnvError::Configuration),
            r matches Ok(a) ==> a == self.action_spec(),
    ;

    fn get_log_level(&self) -> (r: LogLevel)
        ensures
            r == self.log_level_spec(),
    ;

    fn get_env_path(&self) -> (r: &str)
        ensures
            r@ == self.env_path_spec(),
    ;

    fn get_branch_name(&self) -> (r: &str)
        ensures
            r@ == self.branch_name_spec(),
    ;

    /// The version to check out, given by the branch-name parameter.
    fn get_version(&self) -> (r: &str)
        ensures
            r@ == self.branch_name_spec(),
    ;

    fn get_repository_name(&self) -> (r: &str)
        ensures
            r@ == repository_name_of(self.repository_spec()),
    ;

    fn get_base_env_source_repo(&self) -> (r: &str)
        ensures
            r@ == self.base_env_branch_name_spec(),
    ;
}

impl ManageObsEnv {
    pub fn new(
        action: Action,
        log_level: LogLevel,
        env_path: String,
        repository: Option<String>,
        branch_name: String,
        base_env_branch_name: String,
    ) -> (r: ManageObsEnv)
        ensures
            r.action_spec() == action,
            r.log_level_spec() == log_level,
            r.env_path_spec() == env_path@,
            r.repository_spec() == (match repository {
                Some(n) => Some(n@),
                None => None::<Seq<char>>,
            }),
            r.branch_name_spec() == branch_name@,
            r.base_env_branch_name_spec() == base_env_branch_name@,
    {
        ManageObsEnv { action, log_level, env_path, repository, branch_name, base_env_branch_name }
    }
}

impl ManageObsEnvCli for ManageObsEnv {
    closed spec fn action_spec(&self) -> Action {
        self.action
    }

    closed spec fn log_level_spec(&self) -> LogLevel {
        self.log_level
    }

    closed spec fn env_path_spec(&self) -> Seq<char> {
        self.env_path@
    }

    closed spec fn repository_spec(&self) -> Option<Seq<char>> {
        match self.repository {
            Some(n) => Some(n@),
            None => None,
        }
    }

    closed spec fn branch_name_spec(&self) -> Seq<char> {
        self.branch_name@
    }

    closed spec fn base_env_branch_name_spec(&self) -> Seq<char> {
        self.base_env_branch_name@
    }

    fn get_action(&self) -> (r: Result<Action, ObsEnvError>) {
        match self.action {
            Action::CheckoutBranch => {
                if self.repository.is_none() {
                    Err(ObsEnvError::Configuration)
                } else {
                    Ok(self.action)
                }
            },
            _ => Ok(self.action),
        }
    }

    fn get_log_level(&self) -> (r: LogLevel) {
        self.log_level
    }

    fn get_env_path(&self) -> (r: &str) {
        self.env_path.as_str()
    }

    fn get_branch_name(&self) -> (r: &str) {
        self.branch_name.as_str()
    }

    fn get_version(&self) -> (r: &str) {
        self.branch_name.as_str()
    }

    fn get_repository_name(&self) -> (r: &str) {
        match &self.repository {
            Some(repository) => repository.as_str(),
            None => {
                let none = "";
                proof {
                    reveal_strlit("");
                }
                assert(none@ =~= Seq::<char>::empty());
                none
            },
        }
    }

    fn get_base_env_source_repo(&self) -> (r: &str) {
        self.base_env_branch_name.as_str()
    }
}

/// The work an action leaves to the caller once it has been validated.
#[derive(Debug)]
pub enum Step {
    /// Create the destination, then run the clone batch.
    Setup,
    /// Render the environment.
    PrintConfig,
    /// Resolve the base versions of this reference branch, then run the reset.
    Reset(String),
    /// Run the current-version batch.
    ShowCurrentVersions,
    /// Resolve and show the base versions of this reference branch.
    ShowOriginalVersions(String),
    /// Perform this one checkout.
    Checkout(CheckoutRequest),
}

/// A validated invocation: the environment it acts on and what is left to do.
#[derive(Debug)]
pub struct Session {
    pub env: ObservingEnvironment,
    pub step: Step,
}

/// Validates the parameters of `config` and maps its action onto the
/// environment over `registry` at the configured path.
///
/// Checking out a branch without a repository is refused with
/// `Configuration` before any environment exists. A single-repository
/// action on a name outside the registry is refused with
/// `UnknownRepository`, and no checkout is produced. Every other action is
/// accepted.
pub fn run<T: ManageObsEnvCli>(config: &T, registry: Registry) -> (r: Result<Session, ObsEnvError>)
    requires
        registry.wf(),
    ensures
        validated_action(config.action_spec(), config.repository_spec()) is Err ==> r matches Err(
            ObsEnvError::Configuration,
        ),
        ({
            let a = config.action_spec();
            let name = repository_name_of(config.repository_spec());
            validated_action(a, config.repository_spec()) is Ok && (a == Action::CheckoutBranch
                || a == Action::CheckoutVersion) ==> {
                &&& (r is Err <==> !has_name(registry@, name))
                &&& r matches Err(e) ==> e matches ObsEnvError::UnknownRepository(n) && n@ == name
            }
        }),
        !(config.action_spec() == Action::CheckoutBranch || config.action_spec()
            == Action::CheckoutVersion) ==> r is Ok,
        r matches Ok(s) ==> {
            &&& s.env.wf()
            &&& s.env.destination_spec() == config.env_path_spec()
            &&& s.env.registry_spec() == registry@
            &&& match config.action_spec() {
                Action::Setup => s.step is Setup,
                Action::PrintConfig => s.step is PrintConfig,
                Action::Reset => s.step matches Step::Reset(b) && b@
                    == config.base_env_branch_name_spec(),
                Action::ShowCurrentVersions => s.step is ShowCurrentVersions,
                Action::ShowOriginalVersions => s.step matches Step::ShowOriginalVersions(b) && b@
                    == config.base_env_branch_name_spec(),
                Action::CheckoutBranch => s.step matches Step::Checkout(q) && {
                    &&& q@.instance == instance_of(s.env.destination_spec(), q@.instance.identity)
                    &&& q@.instance.identity.name == repository_name_of(config.repository_spec())
                    &&& q@.target == config.branch_name_spec()
                    &&& q@.kind == TargetKind::Branch
                },
                Action::CheckoutVersion => s.step matches Step::Checkout(q) && {
                    &&& q@.instance == instance_of(s.env.destination_spec(), q@.instance.identity)
                    &&& q@.instance.identity.name == repository_name_of(config.repository_spec())
                    &&& q@.target == config.branch_name_spec()
                    &&& q@.kind == TargetKind::Version
                },
            }
        },
{
    let action = match config.get_action() {
        Ok(a) => a,
        Err(e) => {
            return Err(e);
        },
    };
    let env = ObservingEnvironment::with_destination(config.get_env_path(), registry);
    let step = match action {
        Action::Setup => Step::Setup,
        Action::PrintConfig => Step::PrintConfig,
        Action::Reset => Step::Reset(config.get_base_env_source_repo().to_owned()),
        Action::ShowCurrentVersions => Step::ShowCurrentVersions,
        Action::ShowOriginalVersions => Step::ShowOriginalVersions(
            config.get_base_env_source_repo().to_owned(),
        ),
        Action::CheckoutBranch => {
            match env.checkout_branch(config.get_repository_name(), config.get_branch_name()) {
                Ok(q) => Step::Checkout(q),
                Err(e) => {
                    return Err(e);
                },
            }
        },
        Action::CheckoutVersion => {
            match env.reset_index_to_version(config.get_repository_name(), config.get_version()) {
                Ok(q) => Step::Checkout(q),
                Err(e) => {
                    return Err(e);
                },
            }
        },
    };
    Ok(Session { env, step })
}

} // verus!
