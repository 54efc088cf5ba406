//! Policy layer for an observing environment: a closed registry of
//! repositories, the plans that drive a version-control backend across them,
//! and the aggregation of per-repository outcomes into batch results.
pub mod batch;
pub mod environment;
pub mod error;
pub mod manage_obs_env;
pub mod registry;

pub use batch::{Batch, BatchEntry, Failure};
pub use environment::{
    BaseVersions, CheckoutRequest, ObservingEnvironment, RepositoryInstance, TargetKind,
};
pub use error::{ObsEnvError, VcsError, VcsErrorKind};
pub use manage_obs_env::{run, Action, LogLevel, ManageObsEnv, ManageObsEnvCli, Session, Step};
pub use registry::{Registry, RepositoryIdentity};
