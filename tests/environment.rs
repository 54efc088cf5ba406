use manage_obs_env::{
    run, Action, BaseVersions, Batch, ManageObsEnv, ManageObsEnvCli, ObsEnvError,
    ObservingEnvironment, Registry, RepositoryIdentity, Step, TargetKind, VcsError, VcsErrorKind,
};

fn registry_ab() -> Registry {
    Registry::new(vec![
        RepositoryIdentity::new("A", "rA"),
        RepositoryIdentity::new("B", "rB"),
    ])
    .unwrap()
}

fn env_ab() -> ObservingEnvironment {
    ObservingEnvironment::with_destination("/env", registry_ab())
}

fn vcs(kind: VcsErrorKind) -> VcsError {
    VcsError::new(kind, "failed".to_string())
}

fn config(action: Action, repository: Option<&str>, branch: &str) -> ManageObsEnv {
    ManageObsEnv::new(
        action,
        manage_obs_env::LogLevel::Debug,
        "/env".to_string(),
        repository.map(|r| r.to_string()),
        branch.to_string(),
        "main".to_string(),
    )
}

#[test]
fn registry_refuses_duplicate_names() {
    let r = Registry::new(vec![
        RepositoryIdentity::new("A", "r1"),
        RepositoryIdentity::new("B", "r2"),
        RepositoryIdentity::new("A", "r3"),
    ]);
    match r {
        Err(ObsEnvError::DuplicateRepository(n)) => assert_eq!(n, "A"),
        other => panic!("unexpected {:?}", other),
    }
}

#[test]
fn registry_position_by_name() {
    let reg = registry_ab();
    assert_eq!(reg.len(), 2);
    assert_eq!(reg.position("B"), Some(1));
    assert_eq!(reg.position("C"), None);
    assert_eq!(reg.get(0).remote, "rA");
}

#[test]
fn instance_paths_join_destination_and_name() {
    let env = env_ab();
    let inst = env.instances();
    assert_eq!(inst.len(), 2);
    assert_eq!(inst[0].path, "/env/A");
    assert_eq!(inst[1].path, "/env/B");
    let slash = ObservingEnvironment::with_destination("/env/", registry_ab());
    assert_eq!(slash.instances()[0].path, "/env/A");
    let empty = ObservingEnvironment::with_destination("", registry_ab());
    assert_eq!(empty.instances()[1].path, "B");
}

#[test]
fn clone_failure_of_one_repository_leaves_the_other() {
    let env = env_ab();
    let mut batch = env.clone_repositories();
    assert_eq!(batch.next().unwrap().identity.name, "A");
    batch.record(Ok(()));
    assert_eq!(batch.next().unwrap().identity.name, "B");
    batch.record(Err(vcs(VcsErrorKind::RemoteUnreachable)));
    assert!(batch.next().is_none());
    let entries = batch.finish();
    assert_eq!(entries.len(), 2);
    assert_eq!(entries[0].subject.identity.name, "A");
    assert_eq!(entries[0].subject.path, "/env/A");
    assert!(entries[0].outcome.is_ok());
    assert_eq!(entries[1].subject.identity.name, "B");
    assert_eq!(entries[1].subject.identity.remote, "rB");
    match &entries[1].outcome {
        Err(e) => assert_eq!(e.kind, VcsErrorKind::RemoteUnreachable),
        Ok(_) => panic!("B should have failed"),
    }
}

#[test]
fn clone_batch_has_one_entry_per_repository_when_all_fail() {
    let reg = Registry::new(vec![
        RepositoryIdentity::new("A", "rA"),
        RepositoryIdentity::new("B", "rB"),
        RepositoryIdentity::new("C", "rC"),
    ])
    .unwrap();
    let env = ObservingEnvironment::with_destination("/env", reg);
    let mut batch = env.clone_repositories();
    while batch.next().is_some() {
        batch.record(Err(vcs(VcsErrorKind::Other)));
    }
    let entries = batch.finish();
    let names: Vec<&str> = entries.iter().map(|e| e.subject.identity.name.as_str()).collect();
    assert_eq!(names, vec!["A", "B", "C"]);
    assert!(entries.iter().all(|e| e.outcome.is_err()));
}

#[test]
fn current_versions_report_every_repository() {
    let env = env_ab();
    let mut batch = env.get_current_env_versions();
    batch.record(Err(vcs(VcsErrorKind::RepositoryNotFound)));
    batch.record(Ok("abc123".to_string()));
    let entries = batch.finish();
    assert_eq!(entries.len(), 2);
    assert!(entries[0].outcome.is_err());
    assert_eq!(entries[1].outcome.as_ref().unwrap(), "abc123");
}

fn base_ab() -> BaseVersions {
    BaseVersions::new(vec![
        ("A".to_string(), "v1".to_string()),
        ("B".to_string(), "v2".to_string()),
    ])
}

#[test]
fn reset_lists_only_failed_checkouts() {
    let env = env_ab();
    let mut batch = env.reset_base_environment(Ok(base_ab())).unwrap();
    let first = batch.next().unwrap();
    assert_eq!(first.instance.identity.name, "A");
    assert_eq!(first.target, "v1");
    batch.record(Err(vcs(VcsErrorKind::DirtyWorkingTree)));
    let second = batch.next().unwrap();
    assert_eq!(second.instance.identity.name, "B");
    assert_eq!(second.target, "v2");
    batch.record(Ok(()));
    match ObservingEnvironment::finish_reset(batch) {
        Err(failures) => {
            assert_eq!(failures.len(), 1);
            assert_eq!(failures[0].subject.instance.identity.name, "A");
            assert_eq!(failures[0].error.kind, VcsErrorKind::DirtyWorkingTree);
        }
        Ok(()) => panic!("A's failure must be reported"),
    }
}

#[test]
fn reset_with_every_checkout_succeeding_is_ok() {
    let env = env_ab();
    let mut batch = env.reset_base_environment(Ok(base_ab())).unwrap();
    batch.record(Ok(()));
    batch.record(Ok(()));
    assert!(ObservingEnvironment::finish_reset(batch).is_ok());
}

#[test]
fn reset_resolver_failure_plans_no_checkout() {
    let env = env_ab();
    let r = env.reset_base_environment(Err(ObsEnvError::Resolver("no manifest".to_string())));
    match r {
        Err(ObsEnvError::Resolver(m)) => assert_eq!(m, "no manifest"),
        other => panic!("unexpected {:?}", other),
    }
}

#[test]
fn reset_skips_repositories_without_base_version() {
    let env = env_ab();
    let base = BaseVersions::new(vec![("B".to_string(), "v2".to_string())]);
    let mut batch = env.reset_base_environment(Ok(base)).unwrap();
    let only = batch.next().unwrap();
    assert_eq!(only.instance.identity.name, "B");
    assert_eq!(only.instance.path, "/env/B");
    assert_eq!(only.kind, TargetKind::Version);
    batch.record(Ok(()));
    assert!(batch.next().is_none());
}

#[test]
fn reset_targets_match_base_versions() {
    let env = env_ab();
    let base = base_ab();
    let mut batch: Batch<_, ()> = env.reset_base_environment(Ok(base_ab())).unwrap();
    while let Some(q) = batch.next() {
        assert_eq!(base.version_of(&q.instance.identity.name), Some(&q.target));
        batch.record(Ok(()));
    }
}

#[test]
fn base_versions_first_entry_wins() {
    let base = BaseVersions::new(vec![
        ("A".to_string(), "v1".to_string()),
        ("A".to_string(), "v9".to_string()),
    ]);
    assert_eq!(base.version_of("A").unwrap(), "v1");
    assert!(base.version_of("B").is_none());
    assert_eq!(base.len(), 2);
    assert_eq!(base.entry(1), ("A", "v9"));
}

#[test]
fn checkout_branch_unknown_repository() {
    let reg = Registry::new(vec![RepositoryIdentity::new("A", "rA")]).unwrap();
    let env = ObservingEnvironment::with_destination("/env", reg);
    match env.checkout_branch("B", "feature-x") {
        Err(ObsEnvError::UnknownRepository(n)) => assert_eq!(n, "B"),
        other => panic!("unexpected {:?}", other),
    }
}

#[test]
fn checkout_branch_known_repository() {
    let env = env_ab();
    let q = env.checkout_branch("B", "feature-x").unwrap();
    assert_eq!(q.instance.identity.name, "B");
    assert_eq!(q.instance.path, "/env/B");
    assert_eq!(q.target, "feature-x");
    assert_eq!(q.kind, TargetKind::Branch);
}

#[test]
fn reset_index_to_version_checks_name() {
    let env = env_ab();
    let q = env.reset_index_to_version("A", "v3").unwrap();
    assert_eq!(q.target, "v3");
    assert_eq!(q.kind, TargetKind::Version);
    assert!(matches!(
        env.reset_index_to_version("Z", "v3"),
        Err(ObsEnvError::UnknownRepository(_))
    ));
}

#[test]
fn checkout_branch_without_repository_is_a_configuration_error() {
    let c = config(Action::CheckoutBranch, None, "feature-x");
    assert!(matches!(c.get_action(), Err(ObsEnvError::Configuration)));
    assert!(matches!(run(&c, registry_ab()), Err(ObsEnvError::Configuration)));
}

#[test]
fn single_repository_actions_refuse_unknown_names() {
    for action in [Action::CheckoutBranch, Action::CheckoutVersion] {
        let c = config(action, Some("Z"), "x");
        match run(&c, registry_ab()) {
            Err(ObsEnvError::UnknownRepository(n)) => assert_eq!(n, "Z"),
            other => panic!("unexpected {:?}", other),
        }
    }
    let c = config(Action::CheckoutVersion, None, "v1");
    assert!(matches!(run(&c, registry_ab()), Err(ObsEnvError::UnknownRepository(_))));
}

#[test]
fn run_maps_actions_to_steps() {
    let s = run(&config(Action::Setup, None, ""), registry_ab()).unwrap();
    assert!(matches!(s.step, Step::Setup));
    assert_eq!(s.env.destination(), "/env");
    let s = run(&config(Action::Reset, None, ""), registry_ab()).unwrap();
    match s.step {
        Step::Reset(b) => assert_eq!(b, "main"),
        other => panic!("unexpected {:?}", other),
    }
    let s = run(&config(Action::CheckoutVersion, Some("A"), "v7"), registry_ab()).unwrap();
    match s.step {
        Step::Checkout(q) => {
            assert_eq!(q.instance.path, "/env/A");
            assert_eq!(q.target, "v7");
            assert_eq!(q.kind, TargetKind::Version);
        }
        other => panic!("unexpected {:?}", other),
    }
    let s = run(&config(Action::CheckoutBranch, Some("B"), "dev"), registry_ab()).unwrap();
    match s.step {
        Step::Checkout(q) => {
            assert_eq!(q.target, "dev");
            assert_eq!(q.kind, TargetKind::Branch);
        }
        other => panic!("unexpected {:?}", other),
    }
}

#[test]
fn cli_getters() {
    let c = config(Action::CheckoutVersion, None, "v1");
    assert_eq!(c.get_repository_name(), "");
    assert_eq!(c.get_version(), "v1");
    assert_eq!(c.get_branch_name(), "v1");
    assert_eq!(c.get_env_path(), "/env");
    assert_eq!(c.get_base_env_source_repo(), "main");
    assert_eq!(c.get_log_level(), manage_obs_env::LogLevel::Debug);
    assert!(matches!(c.get_action(), Ok(Action::CheckoutVersion)));
}

#[test]
fn summarize_lists_destination_and_repositories() {
    let env = env_ab();
    assert_eq!(
        env.summarize(),
        "Observing environment at /env\nRepositories:\n  A <- rA\n  B <- rB"
    );
}

#[test]
fn repositories_without_base_version_are_listed() {
    let env = env_ab();
    let base = BaseVersions::new(vec![("B".to_string(), "v2".to_string())]);
    let missing = env.without_base_version(&base);
    assert_eq!(missing.len(), 1);
    assert_eq!(missing[0].name, "A");
    assert!(env.without_base_version(&base_ab()).is_empty());
}

#[test]
fn base_versions_from_lookups_skip_unrecorded_repositories() {
    let env = env_ab();
    let mut lookups = env.base_version_lookups();
    assert_eq!(lookups.next().unwrap().name, "A");
    lookups.record(Err(vcs(VcsErrorKind::RefNotFound)));
    assert_eq!(lookups.next().unwrap().name, "B");
    lookups.record(Ok("v2".to_string()));
    let base = BaseVersions::from_lookups(lookups.finish()).unwrap();
    assert_eq!(base.len(), 1);
    assert_eq!(base.entry(0), ("B", "v2"));
    assert!(base.version_of("A").is_none());
}

#[test]
fn base_versions_from_lookups_fail_as_a_whole() {
    let env = env_ab();
    let mut lookups = env.base_version_lookups();
    lookups.record(Ok("v1".to_string()));
    lookups.record(Err(vcs(VcsErrorKind::Other)));
    match BaseVersions::from_lookups(lookups.finish()) {
        Err(ObsEnvError::Resolver(n)) => assert_eq!(n, "B"),
        other => panic!("unexpected {:?}", other),
    }
}
