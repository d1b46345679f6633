use japm::commands::depending::{
    depending_answer, get_all_depending, get_depending, DependingError,
};
use japm::commands::errors::{InfoError, InstallError, RemoveError, UpdateError};
use japm::commands::info::known;
use japm::commands::remove::{dependents_answer, dependents_decision, installed};
use japm::commands::update::{all_packages_answer, dependents_outcome, update_outcome};
use japm::commands::{looked_up, stored, update_decision};
use japm::db::PackagesDb;
use japm::package::{LocalPackage, PackageData, RemotePackage};
use japm::test_helpers::mock_db::MockPackagesDb;
use japm::version::VersionOrder;

fn remote(name: &str, dependencies: &[&str]) -> RemotePackage {
    RemotePackage {
        package_data: PackageData {
            name: String::from(name),
            version: String::from("1.0.0"),
            ..Default::default()
        },
        dependencies: dependencies.iter().map(|d| String::from(*d)).collect(),
        ..Default::default()
    }
}

fn local(name: &str) -> LocalPackage {
    remote(name, &[]).to_local()
}

fn names(list: &[&str]) -> Vec<String> {
    list.iter().map(|n| String::from(*n)).collect()
}

#[test]
fn store_answer_is_carried_into_an_install_request() {
    assert_eq!(
        stored::<String, String>(Ok(Some(local("a")))),
        Ok(Some(local("a")))
    );
    assert_eq!(stored::<String, String>(Ok(None)), Ok(None));
    assert_eq!(
        stored::<String, String>(Err(String::from("down"))),
        Err(InstallError::Database(String::from("down")))
    );
}

#[test]
fn lookup_answer_is_carried_into_an_install_request() {
    assert_eq!(
        looked_up::<String, String>("a", Ok(Some(remote("a", &["b"])))),
        Ok(remote("a", &["b"]))
    );
    assert_eq!(
        looked_up::<String, String>("a", Ok(None)),
        Err(InstallError::PackageNotFound(String::from("a")))
    );
    assert_eq!(
        looked_up::<String, String>("a", Err(String::from("timeout"))),
        Err(InstallError::Find(String::from("timeout")))
    );
}

#[test]
fn only_a_newer_version_replaces_the_installed_one() {
    assert_eq!(
        update_decision::<String, String>(Ok(VersionOrder::Newer)),
        Ok(true)
    );
    assert_eq!(
        update_decision::<String, String>(Ok(VersionOrder::Same)),
        Ok(false)
    );
    assert_eq!(
        update_decision::<String, String>(Ok(VersionOrder::Older)),
        Ok(false)
    );
    assert_eq!(
        update_decision::<String, String>(Err(String::from("bad version"))),
        Err(InstallError::VersionParse(String::from("bad version")))
    );
}

#[test]
fn store_answer_is_carried_into_a_remove_request() {
    assert_eq!(installed::<String>("a", Ok(Some(local("a")))), Ok(local("a")));
    assert_eq!(
        installed::<String>("a", Ok(None)),
        Err(RemoveError::PackageNotInstalled(String::from("a")))
    );
    assert_eq!(
        installed::<String>("a", Err(String::from("down"))),
        Err(RemoveError::DatabaseGet(String::from("down")))
    );
    assert_eq!(dependents_answer::<String>(Ok(names(&["b"]))), Ok(names(&["b"])));
    assert_eq!(
        dependents_answer::<String>(Err(String::from("down"))),
        Err(RemoveError::DatabaseGet(String::from("down")))
    );
}

#[test]
fn dependents_decide_over_a_removal() {
    assert_eq!(dependents_decision::<String>("a", vec![], false), Ok(false));
    assert_eq!(dependents_decision::<String>("a", vec![], true), Ok(false));
    assert_eq!(
        dependents_decision::<String>("a", names(&["b", "c"]), true),
        Ok(true)
    );
    assert_eq!(
        dependents_decision::<String>("a", names(&["b", "c"]), false),
        Err(RemoveError::DependencyBreak(
            String::from("a"),
            names(&["b", "c"])
        ))
    );
}

#[test]
fn walk_answers_are_carried_into_an_update() {
    assert_eq!(
        depending_answer::<String>(Ok(vec![local("a")])),
        Ok(vec![local("a")])
    );
    assert_eq!(
        depending_answer::<String>(Err(String::from("down"))),
        Err(DependingError::Database(String::from("down")))
    );
    assert_eq!(
        dependents_outcome::<String, String>(Ok(names(&["a"]))),
        Ok(names(&["a"]))
    );
    assert_eq!(
        dependents_outcome::<String, String>(Err(DependingError::Database(String::from("down")))),
        Err(UpdateError::DatabaseGet(String::from("down")))
    );
    assert_eq!(
        dependents_outcome::<String, String>(Err(DependingError::Cycle(String::from("a")))),
        Err(UpdateError::DependencyCycle(String::from("a")))
    );
    assert_eq!(
        dependents_outcome::<String, String>(Err(DependingError::TooDeep(String::from("a")))),
        Err(UpdateError::DependencyDepth(String::from("a")))
    );
    assert_eq!(
        all_packages_answer::<String, String>(Ok(vec![local("a")])),
        Ok(vec![local("a")])
    );
    assert_eq!(
        all_packages_answer::<String, String>(Err(String::from("down"))),
        Err(UpdateError::DatabaseGet(String::from("down")))
    );
    assert_eq!(update_outcome::<String, String>(Ok(vec![])), Ok(vec![]));
    assert_eq!(
        update_outcome::<String, String>(Err(InstallError::Find(String::from("timeout")))),
        Err(UpdateError::Install(InstallError::Find(String::from(
            "timeout"
        ))))
    );
}

#[test]
fn store_answer_is_carried_into_a_request_for_information() {
    assert_eq!(known::<String>("a", Ok(Some(local("a")))), Ok(local("a")));
    assert_eq!(
        known::<String>("a", Ok(None)),
        Err(InfoError::PackageNotInstalled(String::from("a")))
    );
    assert_eq!(
        known::<String>("a", Err(String::from("down"))),
        Err(InfoError::Database(String::from("down")))
    );
}

#[test]
fn walk_over_dependents_stops_at_its_depth_or_goes_to_the_end() {
    let mut db = MockPackagesDb::new();
    db.add_package(&remote("a", &[])).unwrap();
    db.add_package(&remote("b", &["a"])).unwrap();
    db.add_package(&remote("c", &["b"])).unwrap();
    db.add_package(&remote("d", &["a", "c"])).unwrap();

    assert!(get_depending("a", &mut db, 0).unwrap().is_empty());
    assert_eq!(get_depending("a", &mut db, 1).unwrap(), names(&["b", "d"]));
    assert_eq!(
        get_depending("a", &mut db, 2).unwrap(),
        names(&["c", "b", "d"])
    );
    assert_eq!(
        get_all_depending("a", &mut db, &vec![]),
        Ok(names(&["d", "c", "b"]))
    );
    assert_eq!(get_all_depending("d", &mut db, &vec![]), Ok(vec![]));
    assert_eq!(
        get_all_depending("a", &mut db, &names(&["a"])),
        Err(DependingError::Cycle(String::from("a")))
    );
}
