use vstd::prelude::*;

use crate::error::ObsEnvError;

verus! {

/// A repository known to the environment: its stable name and the remote it
/// is cloned from.
#[derive(Debug)]
pub struct RepositoryIdentity {
    pub name: String,
    pub remote: String,
}

/// The mathematical value of a [`RepositoryIdentity`].
pub ghost struct IdentityView {
    pub name: Seq<char>,
    pub remote: Seq<char>,
}

impl View for RepositoryIdentity {
    type V = IdentityView;

    open spec fn view(&self) -> IdentityView {
        IdentityView { name: self.name@, remote: self.remote@ }
    }
}

impl RepositoryIdentity {
    pub fn new(name: &str, remote: &str) -> (r: RepositoryIdentity)
        ensures
            r@.name == name@,
            r@.remote == remote@,
    {
        RepositoryIdentity { name: name.to_owned(), remote: remote.to_owned() }
    }

    /// An independent copy with the same name and remote.
    pub fn duplicate(&self) -> (r: RepositoryIdentity)
        ensures
            r@ == self@,
    {
        RepositoryIdentity { name: self.name.clone(), remote: self.remote.clone() }
    }
}

/// No two identities of `ids` share a name.
pub open spec fn names_unique(ids: Seq<IdentityView>) -> bool {
    forall|i: int, j: int|
        0 <= i < j < ids.len() ==> #[trigger] ids[i].name != #[trigger] ids[j].name
}

/// Some identity of `ids` is called `name`.
pub open spec fn has_name(ids: Seq<IdentityView>, name: Seq<char>) -> bool {
    exists|i: int| 0 <= i < ids.len() && #[trigger] ids[i].name == name
}

/// The closed set of repositories the environment manages, in the order in
/// which every batch operation visits them.
#[derive(Debug)]
pub struct Registry {
    identities: Vec<RepositoryIdentity>,
}

impl View for Registry {
    type V = Seq<IdentityView>;

    closed spec fn view(&self) -> Seq<IdentityView> {
        self.identities@.map_values(|id: RepositoryIdentity| id@)
    }
}

impl Registry {
    /// Registry entries are told apart by name.
    pub open spec fn wf(&self) -> bool {
        names_unique(self@)
    }

    /// Builds a registry of `identities`, in that order; two entries with one
    /// name are refused.
    pub fn new(identities: Vec<RepositoryIdentity>) -> (r: Result<Registry, ObsEnvError>)
        ensures
            r is Ok <==> names_unique(identities@.map_values(|id: RepositoryIdentity| id@)),
            r matches Ok(reg) ==> reg.wf() && reg@ == identities@.map_values(
                |id: RepositoryIdentity| id@,
            ),
            r matches Err(e) ==> e matches ObsEnvError::DuplicateRepository(n) && exists|
                i: int,
                j: int,
            |
                0 <= i < j < identities@.len() && identities@[i]@.name == n@
                    && identities@[j]@.name == n@,
    {
        let ghost ids = identities@.map_values(|id: RepositoryIdentity| id@);
        let n = identities.len();
        let mut j: usize = 0;
        while j < n
            invariant
                n == identities@.len(),
                ids == identities@.map_values(|id: RepositoryIdentity| id@),
                j <= n,
                forall|a: int, b: int| 0 <= a < b < j ==> #[trigger] ids[a].name != #[trigger] ids[b].name,
            decreases n - j,
        {
            let mut i: usize = 0;
            while i < j
                invariant
                    n == identities@.len(),
                    ids == identities@.map_values(|id: RepositoryIdentity| id@),
                    i <= j < n,
                    forall|a: int| 0 <= a < i ==> #[trigger] ids[a].name != ids[j as int].name,
                decreases j - i,
            {
                if identities[i].name == identities[j].name {
                    let name = identities[j].name.clone();
                    assert(ids[i as int].name == ids[j as int].name);
                    return Err(ObsEnvError::DuplicateRepository(name));
                }
                i = i + 1;
            }
            j = j + 1;
        }
        Ok(Registry { identities })
    }

    pub fn len(&self) -> (r: usize)
        ensures
            r == self@.len(),
    {
        self.identities.len()
    }

    pub fn get(&self, i: usize) -> (r: &RepositoryIdentity)
        requires
            i < self@.len(),
        ensures
            r@ == self@[i as int],
    {
        &self.identities[i]
    }

    /// Where the repository called `name` stands in the registry, if it is
    /// known.
    pub fn position(&self, name: &str) -> (r: Option<usize>)
        ensures
            r is None <==> !has_name(self@, name@),
            r matches Some(i) ==> i < self@.len() && self@[i as int].name == name@,
    {
        let wanted = name.to_owned();
        let mut i: usize = 0;
        while i < self.identities.len()
            invariant
                wanted@ == name@,
                i <= self@.len(),
                self@.len() == self.identities@.len(),
                forall|a: int| 0 <= a < i ==> #[trigger] self@[a].name != name@,
            decreases self@.len() - i,
        {
            if self.identities[i].name == wanted {
                assert(self@[i as int].name == name@);
                return Some(i);
            }
            i = i + 1;
        }
        None
    }
}

} // verus!
