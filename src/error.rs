use vstd::prelude::*;

verus! {

/// What a version-control backend reports when one operation on one
/// repository fails.
#[derive(Clone, Copy, Debug, PartialEq, Eq, Structural)]
pub enum VcsErrorKind {
    /// The repository is not present on disk.
    RepositoryNotFound,
    /// The requested branch does not exist.
    BranchNotFound,
    /// The requested version (tag or commit) does not exist.
    RefNotFound,
    /// Local changes prevent the checkout.
    DirtyWorkingTree,
    /// The remote cannot be reached.
    RemoteUnreachable,
    /// Any other backend failure.
    Other,
}

/// A failure of one backend operation on one repository, with the backend's
/// own description.
#[derive(Debug)]
pub struct VcsError {
    pub kind: VcsErrorKind,
    pub message: String,
}

/// Errors of the observing environment.
#[derive(Debug)]
pub enum ObsEnvError {
    /// The action and its parameters do not fit together.
    Configuration,
    /// The named repository is not in the registry.
    UnknownRepository(String),
    /// Two registry entries share this name.
    DuplicateRepository(String),
    /// The destination path cannot be created or accessed.
    Io(String),
    /// A single-repository backend operation failed.
    Vcs(VcsError),
    /// The base versions could not be resolved.
    Resolver(String),
}

impl VcsError {
    pub fn new(kind: VcsErrorKind, message: String) -> (r: VcsError)
        ensures
            r.kind == kind,
            r.message@ == message@,
    {
        VcsError { kind, message }
    }
}

} // verus!
