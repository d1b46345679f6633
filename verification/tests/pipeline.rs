use japm::action::commit::CommitError;
use japm::action::Action;
use japm::commands::errors::InfoError;
use japm::commands::info::package_info;
use japm::db::PackagesDb;
use japm::ordered_set::NameSet;
use japm::package::{PackageData, RemotePackage};
use japm::pipeline::{announce, commit_actions, record_build, FirstError};
use japm::progress::{FrontendProgress, Progress, ProgressGroup, ProgressType};
use japm::test_helpers::errors::StringError;
use japm::test_helpers::mock_db::MockPackagesDb;

fn remote(name: &str, dependencies: &[&str]) -> RemotePackage {
    RemotePackage {
        package_data: PackageData {
            name: String::from(name),
            version: String::from("1.0.0"),
            description: String::from("a package"),
        },
        dependencies: dependencies.iter().map(|d| String::from(*d)).collect(),
        ..Default::default()
    }
}

fn group(completed: i32, target: i32) -> ProgressGroup {
    ProgressGroup { completed, target }
}

#[test]
fn new_progress_is_all_zero() {
    let progress = FrontendProgress::new();
    assert_eq!(ProgressGroup::new(), group(0, 0));
    for progress_type in [
        ProgressType::Setup,
        ProgressType::Packages,
        ProgressType::ActionsBuild,
        ProgressType::ActionsCommit,
    ] {
        assert_eq!(progress.progress_group(progress_type), group(0, 0));
    }
}

#[test]
fn progress_counts_each_kind_of_work_apart() {
    let mut progress = FrontendProgress::new();
    progress.increment_target(ProgressType::Packages, 3);
    progress.increment_completed(ProgressType::Packages, 2);
    progress.increment_target(ProgressType::Setup, 1);
    progress.set_completed(ProgressType::ActionsBuild);

    assert_eq!(progress.progress_group(ProgressType::Packages), group(2, 3));
    assert_eq!(progress.progress_group(ProgressType::Setup), group(0, 1));
    assert_eq!(
        progress.progress_group(ProgressType::ActionsBuild),
        group(1, 1)
    );
    assert_eq!(
        progress.progress_group(ProgressType::ActionsCommit),
        group(0, 0)
    );
}

#[test]
fn phase_without_work_is_complete_at_once() {
    let mut progress = FrontendProgress::new();
    announce(&mut progress, ProgressType::ActionsBuild, 0);
    announce(&mut progress, ProgressType::ActionsCommit, 4);

    assert_eq!(
        progress.progress_group(ProgressType::ActionsBuild),
        group(1, 1)
    );
    assert_eq!(
        progress.progress_group(ProgressType::ActionsCommit),
        group(0, 4)
    );
}

#[test]
fn first_build_failure_is_kept() {
    let mut slot: FirstError<String> = FirstError::new();
    let mut progress = FrontendProgress::new();
    assert!(slot.may_start());

    record_build(&mut slot, &mut progress, Ok(()));
    assert!(slot.may_start());
    record_build(&mut slot, &mut progress, Err(String::from("first")));
    assert!(!slot.may_start());
    record_build(&mut slot, &mut progress, Err(String::from("second")));
    record_build(&mut slot, &mut progress, Ok(()));

    assert_eq!(
        progress.progress_group(ProgressType::ActionsBuild),
        group(2, 0)
    );
    assert_eq!(slot.finish(), Err(String::from("first")));

    let slot: FirstError<String> = FirstError::new();
    assert_eq!(slot.finish(), Ok(()));
}

#[test]
fn commits_go_through_the_list_in_order() {
    let mut db = MockPackagesDb::new();
    let mut progress = FrontendProgress::new();
    db.add_package(&remote("old", &[])).unwrap();
    let old = db.get_package("old").unwrap().unwrap();
    let actions = vec![
        Action::Remove(old),
        Action::Install(remote("a", &[])),
        Action::Install(remote("b", &["a"])),
    ];

    assert_eq!(commit_actions(&actions, &mut db, &mut progress), Ok(()));

    let names: Vec<String> = db
        .get_all_packages()
        .unwrap()
        .into_iter()
        .map(|p| p.package_data.name)
        .collect();
    assert_eq!(names, vec![String::from("a"), String::from("b")]);
    assert_eq!(
        progress.progress_group(ProgressType::ActionsCommit),
        group(3, 3)
    );
}

#[test]
fn commit_of_nothing_is_complete() {
    let mut db = MockPackagesDb::new();
    let mut progress = FrontendProgress::new();

    assert_eq!(commit_actions(&vec![], &mut db, &mut progress), Ok(()));

    assert_eq!(
        progress.progress_group(ProgressType::ActionsCommit),
        group(1, 1)
    );
}

#[test]
fn first_commit_failure_stops_the_rest() {
    let mut db = MockPackagesDb::new();
    let mut progress = FrontendProgress::new();
    db.add_package(&remote("gone", &[])).unwrap();
    let gone = db.get_package("gone").unwrap().unwrap();
    db.remove_package("gone").unwrap();
    let actions = vec![
        Action::Install(remote("a", &[])),
        Action::Remove(gone),
        Action::Install(remote("never", &[])),
    ];

    let result = commit_actions(&actions, &mut db, &mut progress);

    assert_eq!(
        result,
        Err(CommitError::DatabaseRemove(StringError::from(
            "Package not found"
        )))
    );
    let names: Vec<String> = db
        .get_all_packages()
        .unwrap()
        .into_iter()
        .map(|p| p.package_data.name)
        .collect();
    assert_eq!(names, vec![String::from("a")]);
    assert_eq!(
        progress.progress_group(ProgressType::ActionsCommit),
        group(1, 3)
    );
}

#[test]
fn info_gives_the_records_in_order() {
    let mut db = MockPackagesDb::new();
    db.add_package(&remote("a", &[])).unwrap();
    db.add_package(&remote("b", &["a"])).unwrap();

    let found = package_info(vec![String::from("b"), String::from("a")], &mut db).unwrap();

    assert_eq!(found.len(), 2);
    assert_eq!(found[0].package_data.name, "b");
    assert_eq!(found[0].dependencies, vec![String::from("a")]);
    assert_eq!(found[0].package_data.description, "a package");
    assert_eq!(found[1].package_data.version, "1.0.0");

    assert_eq!(
        package_info(
            vec![String::from("a"), String::from("x"), String::from("y")],
            &mut db
        ),
        Err(InfoError::PackageNotInstalled(String::from("x")))
    );
}

#[test]
fn name_set_keeps_first_insertion_order() {
    assert!(NameSet::new().to_vec().is_empty());
    assert!(!NameSet::new().contains("b"));
    let mut set = NameSet::new();
    assert!(set.insert(String::from("b")));
    assert!(set.insert(String::from("a")));
    assert!(!set.insert(String::from("b")));
    assert!(set.insert(String::from("c")));
    set.extend(&vec![
        String::from("a"),
        String::from("d"),
        String::from("b"),
        String::from("d"),
    ]);

    assert!(set.contains("a"));
    assert!(!set.contains("z"));
    assert_eq!(
        set.to_vec(),
        vec![
            String::from("b"),
            String::from("a"),
            String::from("c"),
            String::from("d")
        ]
    );
}

#[test]
fn store_keeps_what_the_package_needs_for_removal() {
    let mut db = MockPackagesDb::new();
    let mut package = remote("a", &["dep"]);
    package.pre_install = vec![String::from("pre")];
    package.install = vec![String::from("install")];
    package.pre_remove = vec![String::from("stop")];
    package.post_remove = vec![String::from("clean")];
    package.package_files = vec![String::from("/usr/bin/a")];
    db.add_package(&package).unwrap();

    let local = db.get_package("a").unwrap().unwrap();

    assert_eq!(local, package.to_local());
    assert_eq!(local.package_data, package.package_data);
    assert_eq!(local.dependencies, package.dependencies);
    assert_eq!(local.pre_remove, package.pre_remove);
    assert_eq!(local.post_remove, package.post_remove);
    assert_eq!(local.package_files, package.package_files);
    assert_eq!(db.get_depending_packages("dep").unwrap(), vec![local]);
    assert!(db.get_depending_packages("a").unwrap().is_empty());
}
