use vstd::prelude::*;

use crate::batch::{
    failures, failures_of, lemma_failures_are_entries, lemma_no_failures_iff_all_ok, paired, Batch,
    BatchEntry, Failure,
};
use crate::error::{ObsEnvError, VcsErrorKind};
use crate::registry::{has_name, IdentityView, Registry, RepositoryIdentity};

verus! {

/// `name` placed in the directory `dest`: a separator is added unless `dest`
/// is empty or already ends with one.
pub open spec fn path_of(dest: Seq<char>, name: Seq<char>) -> Seq<char> {
    if dest.len() == 0 {
        name
    } else if dest.last() == '/' {
        dest + name
    } else {
        dest + seq!['/'] + name
    }
}

fn join_path(dest: &str, name: &str) -> (r: String)
    ensures
        r@ == path_of(dest@, name@),
{
    let n = dest.unicode_len();
    if n == 0 {
        name.to_owned()
    } else if dest.get_char(n - 1) == '/' {
        dest.to_owned().concat(name)
    } else {
        let sep = "/";
        proof {
            reveal_strlit("/");
        }
        let r = dest.to_owned().concat(sep).concat(name);
        assert(r@ =~= path_of(dest@, name@));
        r
    }
}

/// A registry repository at its place under the destination directory.
#[derive(Debug)]
pub struct RepositoryInstance {
    pub identity: RepositoryIdentity,
    pub path: String,
}

pub ghost struct InstanceView {
    pub identity: IdentityView,
    pub path: Seq<char>,
}

impl View for RepositoryInstance {
    type V = InstanceView;

    open spec fn view(&self) -> InstanceView {
        InstanceView { identity: self.identity@, path: self.path@ }
    }
}

/// Where the repository `id` lives under `dest`.
pub open spec fn instance_of(dest: Seq<char>, id: IdentityView) -> InstanceView {
    InstanceView { identity: id, path: path_of(dest, id.name) }
}

/// Whether a checkout names a branch or a version (tag or commit).
#[derive(Clone, Copy, Debug, PartialEq, Eq, Structural)]
pub enum TargetKind {
    Branch,
    Version,
}

/// A checkout that the backend is to perform on one repository.
#[derive(Debug)]
pub struct CheckoutRequest {
    pub instance: RepositoryInstance,
    pub target: String,
    pub kind: TargetKind,
}

pub ghost struct CheckoutView {
    pub instance: InstanceView,
    pub target: Seq<char>,
    pub kind: TargetKind,
}

impl View for CheckoutRequest {
    type V = CheckoutView;

    open spec fn view(&self) -> CheckoutView {
        CheckoutView { instance: self.instance@, target: self.target@, kind: self.kind }
    }
}

/// The base version of each repository that has one, as resolved from the
/// base-environment descriptor for one reference branch.
#[derive(Debug)]
pub struct BaseVersions {
    entries: Vec<(String, String)>,
}

/// The version that `entries` gives `name`: the first entry of that name wins.
pub open spec fn base_lookup(entries: Seq<(Seq<char>, Seq<char>)>, name: Seq<char>) -> Option<
    Seq<char>,
>
    decreases entries.len(),
{
    if entries.len() == 0 {
        None
    } else if entries[0].0 == name {
        Some(entries[0].1)
    } else {
        base_lookup(entries.drop_first(), name)
    }
}

impl View for BaseVersions {
    type V = Seq<(Seq<char>, Seq<char>)>;

    closed spec fn view(&self) -> Seq<(Seq<char>, Seq<char>)> {
        self.entries@.map_values(|e: (String, String)| (e.0@, e.1@))
    }
}

/// A lookup that failed for another reason than the descriptor recording
/// nothing for that repository.
pub open spec fn fails_resolution(outcome: Result<String, crate::error::VcsError>) -> bool {
    match outcome {
        Ok(_) => false,
        Err(e) => e.kind != VcsErrorKind::RefNotFound,
    }
}

/// Some lookup of `entries` fails the resolution.
pub open spec fn lookup_failed(entries: Seq<BatchEntry<RepositoryIdentity, String>>) -> bool {
    exists|i: int| 0 <= i < entries.len() && fails_resolution((#[trigger] entries[i]).outcome)
}

/// The `(name, version)` pairs of the lookups that found a version, in order.
pub open spec fn recorded_pairs(entries: Seq<BatchEntry<RepositoryIdentity, String>>) -> Seq<
    (Seq<char>, Seq<char>),
>
    decreases entries.len(),
{
    if entries.len() == 0 {
        Seq::empty()
    } else {
        let rest = recorded_pairs(entries.drop_last());
        match entries.last().outcome {
            Ok(v) => rest.push((entries.last().subject@.name, v@)),
            Err(_) => rest,
        }
    }
}

impl BaseVersions {
    /// The base versions that a finished batch of descriptor lookups found,
    /// one lookup per repository. A repository that the descriptor records
    /// nothing for (`RefNotFound`) has no base version; any other failed
    /// lookup fails the whole resolution, so that no partial mapping is ever
    /// produced.
    pub fn from_lookups(entries: Vec<BatchEntry<RepositoryIdentity, String>>) -> (r: Result<
        BaseVersions,
        ObsEnvError,
    >)
        ensures
            r is Err <==> lookup_failed(entries@),
            r matches Err(e) ==> e is Resolver,
            r matches Ok(b) ==> b@ == recorded_pairs(entries@),
    {
        let ghost all = entries@;
        let mut rest = entries;
        let mut pairs: Vec<(String, String)> = Vec::new();
        let n = rest.len();
        let mut i: usize = 0;
        while i < n
            invariant
                n == all.len(),
                all == entries@,
                i <= n,
                rest@ == all.subrange(i as int, n as int),
                pairs@.map_values(|e: (String, String)| (e.0@, e.1@)) == recorded_pairs(
                    all.subrange(0, i as int),
                ),
                !lookup_failed(all.subrange(0, i as int)),
            decreases n - i,
        {
            let entry = rest.remove(0);
            assert(all.subrange(0, i + 1 as int).drop_last() =~= all.subrange(0, i as int));
            assert(all[i as int] == entry);
            match entry.outcome {
                Ok(v) => {
                    pairs.push((entry.subject.name, v));
                },
                Err(e) => {
                    if e.kind != VcsErrorKind::RefNotFound {
                        assert(fails_resolution(all[i as int].outcome));
                        assert(lookup_failed(all));
                        return Err(ObsEnvError::Resolver(entry.subject.name));
                    }
                },
            }
            assert(pairs@.map_values(|e: (String, String)| (e.0@, e.1@)) =~= recorded_pairs(
                all.subrange(0, i + 1 as int),
            ));
            assert forall|k: int| 0 <= k < i + 1 implies !fails_resolution(
                (#[trigger] all.subrange(0, i + 1 as int)[k]).outcome,
            ) by {
                if k < i {
                    assert(all.subrange(0, i + 1 as int)[k] == all.subrange(0, i as int)[k]);
                }
            }
            i = i + 1;
            assert(rest@ =~= all.subrange(i as int, n as int));
        }
        assert(all.subrange(0, n as int) =~= all);
        Ok(BaseVersions { entries: pairs })
    }

    /// The mapping of repository names to base versions, as `(name, version)`
    /// pairs.
    pub fn new(entries: Vec<(String, String)>) -> (r: BaseVersions)
        ensures
            r@ == entries@.map_values(|e: (String, String)| (e.0@, e.1@)),
    {
        BaseVersions { entries }
    }

    pub fn len(&self) -> (r: usize)
        ensures
            r == self@.len(),
    {
        self.entries.len()
    }

    /// The `i`th `(name, version)` pair.
    pub fn entry(&self, i: usize) -> (r: (&str, &str))
        requires
            i < self@.len(),
        ensures
            r.0@ == self@[i as int].0,
            r.1@ == self@[i as int].1,
    {
        (self.entries[i].0.as_str(), self.entries[i].1.as_str())
    }

    /// The base version of the repository called `name`, if there is one.
    pub fn version_of(&self, name: &str) -> (r: Option<&String>)
        ensures
            r is None <==> base_lookup(self@, name@) is None,
            r matches Some(v) ==> base_lookup(self@, name@) == Some(v@),
    {
        let wanted = name.to_owned();
        let n = self.entries.len();
        let mut i: usize = 0;
        assert(self@.subrange(0, n as int) =~= self@);
        while i < n
            invariant
                wanted@ == name@,
                n == self@.len(),
                n == self.entries@.len(),
                i <= n,
                base_lookup(self@.subrange(i as int, n as int), name@) == base_lookup(
                    self@,
                    name@,
                ),
            decreases n - i,
        {
            assert(self@.subrange(i as int, n as int).drop_first() =~= self@.subrange(
                i + 1 as int,
                n as int,
            ));
            if self.entries[i].0 == wanted {
                return Some(&self.entries[i].1);
            }
            i = i + 1;
        }
        None
    }
}

/// The checkouts that bring each repository of `reg` that has a base version
/// to it, in registry order.
pub open spec fn reset_plan(
    dest: Seq<char>,
    reg: Seq<IdentityView>,
    base: Seq<(Seq<char>, Seq<char>)>,
) -> Seq<CheckoutView>
    decreases reg.len(),
{
    if reg.len() == 0 {
        Seq::empty()
    } else {
        let rest = reset_plan(dest, reg.drop_last(), base);
        let id = reg.last();
        match base_lookup(base, id.name) {
            Some(v) => rest.push(
                CheckoutView { instance: instance_of(dest, id), target: v, kind: TargetKind::Version },
            ),
            None => rest,
        }
    }
}

/// The result of a finished reset: success when every checkout succeeded,
/// else the failed checkouts, in order.
pub open spec fn reset_outcome(
    requests: Seq<CheckoutRequest>,
    outcomes: Seq<Result<(), crate::error::VcsError>>,
) -> Result<(), Seq<Failure<CheckoutRequest>>> {
    let fs = failures_of(paired(requests, outcomes));
    if fs.len() == 0 {
        Ok(())
    } else {
        Err(fs)
    }
}

/// The repositories of `reg` that `base` gives no version, in registry order.
pub open spec fn without_base_version(
    reg: Seq<IdentityView>,
    base: Seq<(Seq<char>, Seq<char>)>,
) -> Seq<IdentityView>
    decreases reg.len(),
{
    if reg.len() == 0 {
        Seq::empty()
    } else {
        let rest = without_base_version(reg.drop_last(), base);
        if base_lookup(base, reg.last().name) is None {
            rest.push(reg.last())
        } else {
            rest
        }
    }
}

/// A line per repository, `name <- remote`, each line started by a newline.
pub open spec fn registry_lines(reg: Seq<IdentityView>) -> Seq<char>
    decreases reg.len(),
{
    if reg.len() == 0 {
        Seq::empty()
    } else {
        registry_lines(reg.drop_last()) + "\n  "@ + reg.last().name + " <- "@ + reg.last().remote
    }
}

/// The rendering of an environment: its destination, then its repositories.
pub open spec fn summary_of(dest: Seq<char>, reg: Seq<IdentityView>) -> Seq<char> {
    "Observing environment at "@ + dest + "\nRepositories:"@ + registry_lines(reg)
}

/// The destination directory and the registry of repositories managed in it.
#[derive(Debug)]
pub struct ObservingEnvironment {
    destination: String,
    registry: Registry,
}

impl ObservingEnvironment {
    pub closed spec fn destination_spec(&self) -> Seq<char> {
        self.destination@
    }

    pub closed spec fn registry_spec(&self) -> Seq<IdentityView> {
        self.registry@
    }

    pub open spec fn wf(&self) -> bool {
        crate::registry::names_unique(self.registry_spec())
    }

    /// An environment that manages `registry` under `destination`.
    pub fn with_destination(destination: &str, registry: Registry) -> (r: ObservingEnvironment)
        requires
            registry.wf(),
        ensures
            r.wf(),
            r.destination_spec() == destination@,
            r.registry_spec() == registry@,
    {
        ObservingEnvironment { destination: destination.to_owned(), registry }
    }

    pub fn destination(&self) -> (r: &str)
        ensures
            r@ == self.destination_spec(),
    {
        self.destination.as_str()
    }

    pub fn registry(&self) -> (r: &Registry)
        ensures
            r@ == self.registry_spec(),
            self.wf() ==> r.wf(),
    {
        &self.registry
    }

    /// The repository `identity` at its place under the destination.
    pub fn instance(&self, identity: &RepositoryIdentity) -> (r: RepositoryInstance)
        ensures
            r@ == instance_of(self.destination_spec(), identity@),
    {
        RepositoryInstance {
            identity: identity.duplicate(),
            path: join_path(self.destination.as_str(), identity.name.as_str()),
        }
    }

    /// Every registry repository at its place, in registry order.
    pub fn instances(&self) -> (r: Vec<RepositoryInstance>)
        ensures
            r@.len() == self.registry_spec().len(),
            forall|i: int|
                0 <= i < r@.len() ==> #[trigger] r@[i]@ == instance_of(
                    self.destination_spec(),
                    self.registry_spec()[i],
                ),
    {
        let mut r: Vec<RepositoryInstance> = Vec::new();
        let n = self.registry.len();
        let mut i: usize = 0;
        while i < n
            invariant
                n == self.registry_spec().len(),
                i <= n,
                r@.len() == i,
                forall|k: int|
                    0 <= k < i ==> #[trigger] r@[k]@ == instance_of(
                        self.destination_spec(),
                        self.registry_spec()[k],
                    ),
            decreases n - i,
        {
            let inst = self.instance(self.registry.get(i));
            r.push(inst);
            i = i + 1;
        }
        r
    }

    /// Starts cloning every registry repository into its place: one clone per
    /// repository, in registry order.
    pub fn clone_repositories(&self) -> (r: Batch<RepositoryInstance, ()>)
        ensures
            r.wf(),
            r.outcomes().len() == 0,
            r.requests().len() == self.registry_spec().len(),
            forall|i: int|
                0 <= i < r.requests().len() ==> #[trigger] r.requests()[i]@ == instance_of(
                    self.destination_spec(),
                    self.registry_spec()[i],
                ),
    {
        Batch::new(self.instances())
    }

    /// Starts reading the checked-out version of every registry repository:
    /// one query per repository, in registry order.
    pub fn get_current_env_versions(&self) -> (r: Batch<RepositoryInstance, String>)
        ensures
            r.wf(),
            r.outcomes().len() == 0,
            r.requests().len() == self.registry_spec().len(),
            forall|i: int|
                0 <= i < r.requests().len() ==> #[trigger] r.requests()[i]@ == instance_of(
                    self.destination_spec(),
                    self.registry_spec()[i],
                ),
    {
        Batch::new(self.instances())
    }

    /// Starts looking up, in the descriptor of base versions, what it records
    /// for each registry repository: one lookup per repository, in registry
    /// order.
    pub fn base_version_lookups(&self) -> (r: Batch<RepositoryIdentity, String>)
        ensures
            r.wf(),
            r.outcomes().len() == 0,
            r.requests().map_values(|id: RepositoryIdentity| id@) == self.registry_spec(),
    {
        let mut ids: Vec<RepositoryIdentity> = Vec::new();
        let n = self.registry.len();
        let mut i: usize = 0;
        while i < n
            invariant
                n == self.registry_spec().len(),
                i <= n,
                ids@.map_values(|id: RepositoryIdentity| id@) == self.registry_spec().take(i as int),
            decreases n - i,
        {
            let id = self.registry.get(i).duplicate();
            let ghost before = ids@;
            ids.push(id);
            assert(ids@.map_values(|id: RepositoryIdentity| id@) =~= before.map_values(
                |id: RepositoryIdentity| id@,
            ).push(self.registry_spec()[i as int]));
            assert(self.registry_spec().take(i + 1 as int) =~= self.registry_spec().take(
                i as int,
            ).push(self.registry_spec()[i as int]));
            i = i + 1;
        }
        assert(self.registry_spec().take(n as int) =~= self.registry_spec());
        Batch::new(ids)
    }

    /// The destination and every repository with its remote, one per line.
    pub fn summarize(&self) -> (r: String)
        ensures
            r@ == summary_of(self.destination_spec(), self.registry_spec()),
    {
        let ghost reg = self.registry_spec();
        let mut r = String::from_str("Observing environment at ");
        r.append(self.destination.as_str());
        r.append("\nRepositories:");
        let mut lines = String::new();
        let n = self.registry.len();
        let mut i: usize = 0;
        assert(reg.take(0) =~= Seq::<IdentityView>::empty());
        while i < n
            invariant
                n == reg.len(),
                reg == self.registry_spec(),
                i <= n,
                lines@ == registry_lines(reg.take(i as int)),
            decreases n - i,
        {
            let id = self.registry.get(i);
            lines.append("\n  ");
            lines.append(id.name.as_str());
            lines.append(" <- ");
            lines.append(id.remote.as_str());
            assert(reg.take(i + 1 as int).drop_last() =~= reg.take(i as int));
            assert(reg.take(i + 1 as int).last() == reg[i as int]);
            i = i + 1;
        }
        assert(reg.take(n as int) =~= reg);
        r.append(lines.as_str());
        r
    }

    /// The repositories that `base` gives no version, which a reset leaves
    /// as they are, in registry order.
    pub fn without_base_version(&self, base: &BaseVersions) -> (r: Vec<RepositoryIdentity>)
        ensures
            r@.map_values(|id: RepositoryIdentity| id@) == without_base_version(
                self.registry_spec(),
                base@,
            ),
    {
        let ghost reg = self.registry_spec();
        let mut r: Vec<RepositoryIdentity> = Vec::new();
        let n = self.registry.len();
        let mut i: usize = 0;
        assert(reg.take(0) =~= Seq::<IdentityView>::empty());
        while i < n
            invariant
                n == reg.len(),
                reg == self.registry_spec(),
                i <= n,
                r@.map_values(|id: RepositoryIdentity| id@) == without_base_version(
                    reg.take(i as int),
                    base@,
                ),
            decreases n - i,
        {
            let id = self.registry.get(i);
            assert(reg.take(i + 1 as int).drop_last() =~= reg.take(i as int));
            assert(reg.take(i + 1 as int).last() == reg[i as int]);
            if base.version_of(id.name.as_str()).is_none() {
                r.push(id.duplicate());
            }
            assert(r@.map_values(|id: RepositoryIdentity| id@) =~= without_base_version(
                reg.take(i + 1 as int),
                base@,
            ));
            i = i + 1;
        }
        assert(reg.take(n as int) =~= reg);
        r
    }

    /// The checkout of `target` in the registry repository called `name`;
    /// `UnknownRepository` when the registry has none of that name.
    fn single_checkout(&self, name: &str, target: &str, kind: TargetKind) -> (r: Result<
        CheckoutRequest,
        ObsEnvError,
    >)
        ensures
            r is Err <==> !has_name(self.registry_spec(), name@),
            r matches Err(e) ==> e matches ObsEnvError::UnknownRepository(n) && n@ == name@,
            r matches Ok(q) ==> {
                &&& q@.instance == instance_of(self.destination_spec(), q@.instance.identity)
                &&& q@.instance.identity.name == name@
                &&& exists|i: int|
                    0 <= i < self.registry_spec().len() && #[trigger] self.registry_spec()[i]
                        == q@.instance.identity
                &&& q@.target == target@
                &&& q@.kind == kind
            },
    {
        match self.registry.position(name) {
            None => Err(ObsEnvError::UnknownRepository(name.to_owned())),
            Some(i) => {
                let instance = self.instance(self.registry.get(i));
                assert(self.registry_spec()[i as int] == instance@.identity);
                Ok(CheckoutRequest { instance, target: target.to_owned(), kind })
            },
        }
    }

    /// The checkout of branch `branch_name` in the repository called
    /// `repository_name`. An unknown name gives `UnknownRepository`, and no
    /// checkout at all.
    pub fn checkout_branch(&self, repository_name: &str, branch_name: &str) -> (r: Result<
        CheckoutRequest,
        ObsEnvError,
    >)
        ensures
            r is Err <==> !has_name(self.registry_spec(), repository_name@),
            r matches Err(e) ==> e matches ObsEnvError::UnknownRepository(n) && n@
                == repository_name@,
            r matches Ok(q) ==> {
                &&& q@.instance == instance_of(self.destination_spec(), q@.instance.identity)
                &&& q@.instance.identity.name == repository_name@
                &&& exists|i: int|
                    0 <= i < self.registry_spec().len() && #[trigger] self.registry_spec()[i]
                        == q@.instance.identity
                &&& q@.target == branch_name@
                &&& q@.kind == TargetKind::Branch
            },
    {
        self.single_checkout(repository_name, branch_name, TargetKind::Branch)
    }

    /// The checkout of `version` in the repository called `repository_name`.
    /// An unknown name gives `UnknownRepository`, and no checkout at all.
    pub fn reset_index_to_version(&self, repository_name: &str, version: &str) -> (r: Result<
        CheckoutRequest,
        ObsEnvError,
    >)
        ensures
            r is Err <==> !has_name(self.registry_spec(), repository_name@),
            r matches Err(e) ==> e matches ObsEnvError::UnknownRepository(n) && n@
                == repository_name@,
            r matches Ok(q) ==> {
                &&& q@.instance == instance_of(self.destination_spec(), q@.instance.identity)
                &&& q@.instance.identity.name == repository_name@
                &&& exists|i: int|
                    0 <= i < self.registry_spec().len() && #[trigger] self.registry_spec()[i]
                        == q@.instance.identity
                &&& q@.target == version@
                &&& q@.kind == TargetKind::Version
            },
    {
        self.single_checkout(repository_name, version, TargetKind::Version)
    }

    /// Starts a reset to the base versions that `resolved` holds: one checkout
    /// for each registry repository that has a base version, in registry
    /// order. When resolving failed, the reset fails with that error and no
    /// checkout is planned.
    pub fn reset_base_environment(&self, resolved: Result<BaseVersions, ObsEnvError>) -> (r: Result<
        Batch<CheckoutRequest, ()>,
        ObsEnvError,
    >)
        ensures
            resolved is Err <==> r is Err,
            resolved matches Err(e) ==> r matches Err(e2) && e2 == e,
            resolved matches Ok(base) ==> r matches Ok(batch) && {
                &&& batch.wf()
                &&& batch.outcomes().len() == 0
                &&& batch.requests().map_values(|q: CheckoutRequest| q@) == reset_plan(
                    self.destination_spec(),
                    self.registry_spec(),
                    base@,
                )
            },
    {
        let base = match resolved {
            Err(e) => {
                return Err(e);
            },
            Ok(base) => base,
        };
        let ghost dest = self.destination_spec();
        let ghost reg = self.registry_spec();
        let mut plan: Vec<CheckoutRequest> = Vec::new();
        let n = self.registry.len();
        let mut i: usize = 0;
        assert(reg.take(0) =~= Seq::<IdentityView>::empty());
        while i < n
            invariant
                n == reg.len(),
                reg == self.registry_spec(),
                dest == self.destination_spec(),
                i <= n,
                plan@.map_values(|q: CheckoutRequest| q@) == reset_plan(dest, reg.take(i as int), base@),
            decreases n - i,
        {
            let identity = self.registry.get(i);
            assert(reg.take(i + 1 as int).drop_last() =~= reg.take(i as int));
            assert(reg.take(i + 1 as int).last() == reg[i as int]);
            match base.version_of(identity.name.as_str()) {
                Some(v) => {
                    let instance = self.instance(identity);
                    let q = CheckoutRequest { instance, target: v.clone(), kind: TargetKind::Version };
                    plan.push(q);
                },
                None => {},
            }
            assert(plan@.map_values(|q: CheckoutRequest| q@) =~= reset_plan(
                dest,
                reg.take(i + 1 as int),
                base@,
            ));
            i = i + 1;
        }
        assert(reg.take(n as int) =~= reg);
        Ok(Batch::new(plan))
    }

    /// The result of a finished reset: `Ok` when every checkout succeeded,
    /// else the failed checkouts alone, in order.
    pub fn finish_reset(batch: Batch<CheckoutRequest, ()>) -> (r: Result<
        (),
        Vec<Failure<CheckoutRequest>>,
    >)
        requires
            batch.wf(),
            batch.is_done(),
        ensures
            r is Ok <==> reset_outcome(batch.requests(), batch.outcomes()) is Ok,
            r matches Err(fs) ==> reset_outcome(batch.requests(), batch.outcomes()) == Err::<
                (),
                Seq<Failure<CheckoutRequest>>,
            >(fs@),
    {
        let fs = failures(batch.finish());
        if fs.len() == 0 {
            Ok(())
        } else {
            Err(fs)
        }
    }
}

/// Every checkout of a reset plan is on a registry repository, at its place,
/// and targets that repository's base version; every registry repository with
/// a base version has a checkout in the plan.
pub proof fn lemma_reset_targets_base_versions(
    dest: Seq<char>,
    reg: Seq<IdentityView>,
    base: Seq<(Seq<char>, Seq<char>)>,
)
    ensures
        forall|k: int|
            0 <= k < reset_plan(dest, reg, base).len() ==> {
                let q = #[trigger] reset_plan(dest, reg, base)[k];
                &&& exists|i: int| 0 <= i < reg.len() && #[trigger] reg[i] == q.instance.identity
                &&& q.instance == instance_of(dest, q.instance.identity)
                &&& base_lookup(base, q.instance.identity.name) == Some(q.target)
                &&& q.kind == TargetKind::Version
            },
        forall|i: int|
            0 <= i < reg.len() && (#[trigger] base_lookup(base, reg[i].name)) is Some ==> exists|
                k: int,
            |
                0 <= k < reset_plan(dest, reg, base).len() && (#[trigger] reset_plan(
                    dest,
                    reg,
                    base,
                )[k]).instance.identity == reg[i],
    decreases reg.len(),
{
    if reg.len() > 0 {
        let rest = reg.drop_last();
        lemma_reset_targets_base_versions(dest, rest, base);
        let p = reset_plan(dest, reg, base);
        let pr = reset_plan(dest, rest, base);
        assert forall|k: int| 0 <= k < p.len() implies {
            let q = #[trigger] p[k];
            &&& exists|i: int| 0 <= i < reg.len() && #[trigger] reg[i] == q.instance.identity
            &&& q.instance == instance_of(dest, q.instance.identity)
            &&& base_lookup(base, q.instance.identity.name) == Some(q.target)
            &&& q.kind == TargetKind::Version
        } by {
            if k < pr.len() {
                assert(p[k] == pr[k]);
                let i = choose|i: int| 0 <= i < rest.len() && #[trigger] rest[i] == pr[k].instance.identity;
                assert(reg[i] == rest[i]);
            } else {
                assert(reg[reg.len() - 1] == reg.last());
            }
        }
        assert forall|i: int|
            0 <= i < reg.len() && (#[trigger] base_lookup(base, reg[i].name)) is Some implies exists|
                k: int,
            | 0 <= k < p.len() && (#[trigger] p[k]).instance.identity == reg[i] by {
            if i < rest.len() {
                assert(reg[i] == rest[i]);
                let k = choose|k: int| 0 <= k < pr.len() && (#[trigger] pr[k]).instance.identity == rest[i];
                assert(p[k] == pr[k]);
            } else {
                assert(reg[i] == reg.last());
                assert(p[p.len() - 1].instance.identity == reg[i]);
            }
        }
    }
}

/// A reset reports failures on registry repositories only, and reports none
/// exactly when every checkout succeeded.
pub proof fn lemma_reset_failures_within_registry(
    dest: Seq<char>,
    reg: Seq<IdentityView>,
    base: Seq<(Seq<char>, Seq<char>)>,
    requests: Seq<CheckoutRequest>,
    outcomes: Seq<Result<(), crate::error::VcsError>>,
)
    requires
        requests.map_values(|q: CheckoutRequest| q@) == reset_plan(dest, reg, base),
        outcomes.len() == requests.len(),
    ensures
        reset_outcome(requests, outcomes) matches Err(fs) ==> forall|k: int|
            0 <= k < fs.len() ==> has_name(reg, (#[trigger] fs[k]).subject@.instance.identity.name),
        reset_outcome(requests, outcomes) is Ok <==> forall|i: int|
            0 <= i < outcomes.len() ==> (#[trigger] outcomes[i]) is Ok,
{
    let entries = paired(requests, outcomes);
    let fs = failures_of(entries);
    lemma_failures_are_entries(entries);
    lemma_no_failures_iff_all_ok(entries);
    lemma_reset_targets_base_versions(dest, reg, base);
    assert forall|k: int| 0 <= k < fs.len() implies has_name(
        reg,
        (#[trigger] fs[k]).subject@.instance.identity.name,
    ) by {
        let j = choose|j: int|
            0 <= j < entries.len() && #[trigger] entries[j].subject == (
            #[trigger] failures_of(entries)[k]).subject && entries[j].outcome == Err::<
                (),
                crate::error::VcsError,
            >(failures_of(entries)[k].error);
        assert(requests.map_values(|q: CheckoutRequest| q@)[j] == requests[j]@);
        let q = reset_plan(dest, reg, base)[j];
        let i = choose|i: int| 0 <= i < reg.len() && #[trigger] reg[i] == q.instance.identity;
        assert(reg[i].name == fs[k].subject@.instance.identity.name);
    }
    assert((forall|j: int| 0 <= j < entries.len() ==> (#[trigger] entries[j]).outcome is Ok) <==> (
    forall|i: int| 0 <= i < outcomes.len() ==> (#[trigger] outcomes[i]) is Ok)) by {
        if forall|i: int| 0 <= i < outcomes.len() ==> (#[trigger] outcomes[i]) is Ok {
            assert forall|j: int| 0 <= j < entries.len() implies (#[trigger] entries[j]).outcome is Ok by {
                assert(outcomes[j] is Ok);
            }
        }
        if forall|j: int| 0 <= j < entries.len() ==> (#[trigger] entries[j]).outcome is Ok {
            assert forall|i: int| 0 <= i < outcomes.len() implies (#[trigger] outcomes[i]) is Ok by {
                assert(entries[i].outcome is Ok);
            }
        }
    }
}

/// A finished clone batch holds exactly one entry per registry repository,
/// tagged with that repository, in registry order, whatever the outcomes.
pub proof fn lemma_clone_entry_per_repository(
    dest: Seq<char>,
    reg: Seq<IdentityView>,
    requests: Seq<RepositoryInstance>,
    outcomes: Seq<Result<(), crate::error::VcsError>>,
)
    requires
        requests.len() == reg.len(),
        forall|i: int| 0 <= i < requests.len() ==> #[trigger] requests[i]@ == instance_of(dest, reg[i]),
        outcomes.len() == reg.len(),
    ensures
        paired(requests, outcomes).len() == reg.len(),
        forall|i: int|
            0 <= i < reg.len() ==> (#[trigger] paired(requests, outcomes)[i]).subject@.identity
                == reg[i] && paired(requests, outcomes)[i].outcome == outcomes[i],
{
    assert forall|i: int| 0 <= i < reg.len() implies (#[trigger] paired(requests, outcomes)[i]).subject@.identity
        == reg[i] && paired(requests, outcomes)[i].outcome == outcomes[i] by {
        assert(requests[i]@ == instance_of(dest, reg[i]));
    }
}

} // verus!
