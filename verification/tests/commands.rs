use japm::action::Action;
use japm::commands::errors::{InstallError, RemoveError, UpdateError};
use japm::commands::remove::remove_packages;
use japm::commands::update::{update_all_packages, update_packages};
use japm::commands::{install_packages, ReinstallOptions};
use japm::db::PackagesDb;
use japm::package::{LocalPackage, PackageData, RemotePackage};
use japm::package_finder::{MemoryPackageFinder, PackageFinder};
use japm::test_helpers::mock_db::MockPackagesDb;

fn package(name: &str, version: &str, dependencies: &[&str]) -> RemotePackage {
    RemotePackage {
        package_data: PackageData {
            name: String::from(name),
            version: String::from(version),
            ..Default::default()
        },
        dependencies: dependencies.iter().map(|d| String::from(*d)).collect(),
        ..Default::default()
    }
}

fn simple_package() -> RemotePackage {
    package("simple_package", "0.0.1", &[])
}

fn package_with_dependency() -> RemotePackage {
    package("package_with_dependency", "0.0.1", &["simple_package"])
}

fn get_mocks() -> (MockPackagesDb, MemoryPackageFinder) {
    (
        MockPackagesDb::new(),
        MemoryPackageFinder::new(vec![simple_package(), package_with_dependency()]),
    )
}

fn mock_install(db: &mut MockPackagesDb, remote_package: &RemotePackage) -> LocalPackage {
    db.add_package(remote_package)
        .expect("Could not add mock package to db");

    db.get_package(&remote_package.package_data.name.clone())
        .unwrap()
        .unwrap()
}

fn assert_actions<Error: std::fmt::Debug>(
    result: Result<Vec<Action>, Error>,
    expected_actions: Vec<Action>,
) {
    assert!(result.is_ok());
    assert!(result.unwrap() == expected_actions);
}

fn names(list: &[&str]) -> Vec<String> {
    list.iter().map(|n| String::from(*n)).collect()
}

#[test]
fn test_install_actions_generated_succesfully() {
    let (mut mock_db, mut package_finder) = get_mocks();
    let remote_package = simple_package();

    let install_result = install_packages(
        vec![remote_package.package_data.name.clone()],
        &mut package_finder,
        &ReinstallOptions::Ignore,
        &mut mock_db,
    );

    assert_actions(install_result, vec![Action::Install(remote_package)]);
}

#[test]
fn test_remove_package_actions_generated_succesfully() {
    let (mut mock_db, _package_finder) = get_mocks();
    let remote_package = simple_package();

    let local_package = mock_install(&mut mock_db, &remote_package);

    let remove_result =
        remove_packages(vec![remote_package.package_data.name], false, &mut mock_db);

    assert_actions(remove_result, vec![Action::Remove(local_package)]);
}

#[test]
fn test_installed_package_is_ignored() {
    let (mut mock_db, mut package_finder) = get_mocks();
    let remote_package = simple_package();

    mock_install(&mut mock_db, &remote_package);

    let install_result = install_packages(
        vec![remote_package.package_data.name.clone()],
        &mut package_finder,
        &ReinstallOptions::Ignore,
        &mut mock_db,
    );

    assert_actions(install_result, vec![]);
}

#[test]
fn test_installed_package_is_updated() {
    let (mut mock_db, _package_finder) = get_mocks();
    let remote_package = simple_package();

    let package_name = remote_package.package_data.name.clone();

    let local_packge = mock_install(&mut mock_db, &remote_package);

    let remote_package = package("simple_package", "0.0.2", &[]);
    let mut package_finder =
        MemoryPackageFinder::new(vec![remote_package.clone(), package_with_dependency()]);

    let install_result = install_packages(
        vec![package_name],
        &mut package_finder,
        &ReinstallOptions::Update,
        &mut mock_db,
    );

    assert_actions(
        install_result,
        vec![
            Action::Remove(local_packge),
            Action::Install(remote_package),
        ],
    );
}

#[test]
fn test_latest_ver_installed_package_is_ignored() {
    let (mut mock_db, mut package_finder) = get_mocks();
    let remote_package = simple_package();

    mock_install(&mut mock_db, &remote_package);

    let install_result = install_packages(
        vec![remote_package.package_data.name.clone()],
        &mut package_finder,
        &ReinstallOptions::Update,
        &mut mock_db,
    );

    assert_actions(install_result, vec![]);
}

#[test]
fn test_installed_package_is_reinstalled() {
    let (mut mock_db, mut package_finder) = get_mocks();
    let remote_package = simple_package();

    let local_package = mock_install(&mut mock_db, &remote_package);

    let install_result = install_packages(
        vec![remote_package.package_data.name.clone()],
        &mut package_finder,
        &ReinstallOptions::ForceReinstall,
        &mut mock_db,
    );

    assert_actions(
        install_result,
        vec![
            Action::Remove(local_package),
            Action::Install(remote_package),
        ],
    );
}

#[test]
fn test_remove_package_with_depending_packages_is_not_allowed() {
    let (mut mock_db, mut package_finder) = get_mocks();
    let package_with_dependency = package_with_dependency();
    let package_dependency = package_finder
        .find_package(&package_with_dependency.dependencies[0])
        .unwrap()
        .unwrap();

    mock_install(&mut mock_db, &package_dependency);
    mock_install(&mut mock_db, &package_with_dependency);

    let remove_result = remove_packages(
        vec![package_dependency.package_data.name],
        false,
        &mut mock_db,
    );

    assert!(remove_result.is_err());
    assert!(matches!(
        remove_result.unwrap_err(),
        RemoveError::DependencyBreak(_, _)
    ));
}

#[test]
fn test_remove_package_removes_depending() {
    let (mut mock_db, mut package_finder) = get_mocks();
    let package_with_dependency = package_with_dependency();
    let package_dependency = package_finder
        .find_package(&package_with_dependency.dependencies[0])
        .unwrap()
        .unwrap();

    mock_db.add_package(&package_dependency).unwrap();
    mock_db.add_package(&package_with_dependency).unwrap();

    let local_package_dependency = mock_install(&mut mock_db, &package_dependency);
    let local_package_with_dependency = mock_install(&mut mock_db, &package_with_dependency);

    let remove_result = remove_packages(
        vec![package_dependency.package_data.name],
        true,
        &mut mock_db,
    );

    assert_actions(
        remove_result,
        vec![
            Action::Remove(local_package_with_dependency),
            Action::Remove(local_package_dependency),
        ],
    );
}

#[test]
fn install_puts_dependencies_before_dependents() {
    let (mut db, mut finder) = get_mocks();

    let result = install_packages(
        names(&["package_with_dependency"]),
        &mut finder,
        &ReinstallOptions::Ignore,
        &mut db,
    );

    assert_actions(
        result,
        vec![
            Action::Install(simple_package()),
            Action::Install(package_with_dependency()),
        ],
    );
}

#[test]
fn install_keeps_each_action_where_it_first_occurs() {
    let (mut db, mut finder) = get_mocks();

    let result = install_packages(
        names(&[
            "package_with_dependency",
            "simple_package",
            "package_with_dependency",
        ]),
        &mut finder,
        &ReinstallOptions::Ignore,
        &mut db,
    );

    assert_actions(
        result,
        vec![
            Action::Install(simple_package()),
            Action::Install(package_with_dependency()),
        ],
    );
}

#[test]
fn install_of_nothing_gives_nothing() {
    let (mut db, mut finder) = get_mocks();
    let result = install_packages(vec![], &mut finder, &ReinstallOptions::Ignore, &mut db);
    assert_actions(result, vec![]);
}

#[test]
fn install_of_unknown_package_is_an_error() {
    let (mut db, mut finder) = get_mocks();

    let result = install_packages(
        names(&["simple_package", "missing"]),
        &mut finder,
        &ReinstallOptions::Ignore,
        &mut db,
    );

    assert_eq!(
        result,
        Err(InstallError::PackageNotFound(String::from("missing")))
    );
}

#[test]
fn install_of_unknown_dependency_is_an_error() {
    let mut db = MockPackagesDb::new();
    let mut finder = MemoryPackageFinder::new(vec![package("top", "1.0.0", &["absent"])]);

    let result = install_packages(
        names(&["top"]),
        &mut finder,
        &ReinstallOptions::Ignore,
        &mut db,
    );

    assert_eq!(
        result,
        Err(InstallError::PackageNotFound(String::from("absent")))
    );
}

#[test]
fn ignore_does_not_visit_dependencies_of_installed_package() {
    let mut db = MockPackagesDb::new();
    let top = package("top", "1.0.0", &["absent"]);
    mock_install(&mut db, &top);
    let mut finder = MemoryPackageFinder::new(vec![top]);

    let result = install_packages(
        names(&["top"]),
        &mut finder,
        &ReinstallOptions::Ignore,
        &mut db,
    );

    assert_actions(result, vec![]);
}

#[test]
fn update_with_unreadable_version_is_an_error() {
    let mut db = MockPackagesDb::new();
    mock_install(&mut db, &package("a", "not a version", &[]));
    let mut finder = MemoryPackageFinder::new(vec![package("a", "1.0.0", &[])]);

    let result = install_packages(
        names(&["a"]),
        &mut finder,
        &ReinstallOptions::Update,
        &mut db,
    );

    assert!(matches!(result, Err(InstallError::VersionParse(_))));

    let mut db = MockPackagesDb::new();
    mock_install(&mut db, &package("a", "1.0.0", &[]));
    let mut finder = MemoryPackageFinder::new(vec![package("a", "1.x", &[])]);

    let result = install_packages(
        names(&["a"]),
        &mut finder,
        &ReinstallOptions::Update,
        &mut db,
    );

    assert!(matches!(result, Err(InstallError::VersionParse(_))));
}

#[test]
fn update_compares_versions_by_precedence_not_by_text() {
    let mut db = MockPackagesDb::new();
    let local = mock_install(&mut db, &package("a", "0.9.0", &[]));
    let remote = package("a", "0.10.0", &[]);
    let mut finder = MemoryPackageFinder::new(vec![remote.clone()]);

    let result = install_packages(
        names(&["a"]),
        &mut finder,
        &ReinstallOptions::Update,
        &mut db,
    );

    assert_actions(result, vec![Action::Remove(local), Action::Install(remote)]);

    let mut db = MockPackagesDb::new();
    mock_install(&mut db, &package("a", "1.0.0", &[]));
    let mut finder = MemoryPackageFinder::new(vec![package("a", "1.0.0-alpha", &[])]);

    let result = install_packages(
        names(&["a"]),
        &mut finder,
        &ReinstallOptions::Update,
        &mut db,
    );

    assert_actions(result, vec![]);
}

#[test]
fn update_of_older_remote_is_skipped() {
    let mut db = MockPackagesDb::new();
    mock_install(&mut db, &package("a", "2.0.0", &["b"]));
    let mut finder = MemoryPackageFinder::new(vec![package("a", "1.0.0", &["b"])]);

    let result = install_packages(
        names(&["a"]),
        &mut finder,
        &ReinstallOptions::Update,
        &mut db,
    );

    assert_actions(result, vec![]);
}

#[test]
fn reinstall_reaches_dependencies_too() {
    let (mut db, mut finder) = get_mocks();
    let local_simple = mock_install(&mut db, &simple_package());
    let local_top = mock_install(&mut db, &package_with_dependency());

    let result = install_packages(
        names(&["package_with_dependency"]),
        &mut finder,
        &ReinstallOptions::ForceReinstall,
        &mut db,
    );

    assert_actions(
        result,
        vec![
            Action::Remove(local_top),
            Action::Remove(local_simple),
            Action::Install(simple_package()),
            Action::Install(package_with_dependency()),
        ],
    );
}

#[test]
fn circular_dependencies_are_reported() {
    let mut db = MockPackagesDb::new();
    let mut finder = MemoryPackageFinder::new(vec![
        package("a", "1.0.0", &["b"]),
        package("b", "1.0.0", &["c"]),
        package("c", "1.0.0", &["b"]),
    ]);

    let result = install_packages(
        names(&["a"]),
        &mut finder,
        &ReinstallOptions::Ignore,
        &mut db,
    );

    assert_eq!(
        result,
        Err(InstallError::DependencyCycle(String::from("b")))
    );

    let mut finder = MemoryPackageFinder::new(vec![package("self", "1.0.0", &["self"])]);
    let result = install_packages(
        names(&["self"]),
        &mut finder,
        &ReinstallOptions::Ignore,
        &mut db,
    );
    assert_eq!(
        result,
        Err(InstallError::DependencyCycle(String::from("self")))
    );
}

#[test]
fn shared_dependency_is_no_circle() {
    let mut db = MockPackagesDb::new();
    let mut finder = MemoryPackageFinder::new(vec![
        package("top", "1.0.0", &["left", "right"]),
        package("left", "1.0.0", &["base"]),
        package("right", "1.0.0", &["base", "left"]),
        package("base", "1.0.0", &[]),
    ]);

    let result = install_packages(
        names(&["top"]),
        &mut finder,
        &ReinstallOptions::Ignore,
        &mut db,
    );

    assert_actions(
        result,
        vec![
            Action::Install(package("base", "1.0.0", &[])),
            Action::Install(package("left", "1.0.0", &["base"])),
            Action::Install(package("right", "1.0.0", &["base", "left"])),
            Action::Install(package("top", "1.0.0", &["left", "right"])),
        ],
    );
}

#[test]
fn dependency_chain_may_be_deep() {
    let depth = 300;
    let mut packages = Vec::new();
    for i in 0..=depth {
        let name = format!("link{}", i);
        if i == depth {
            packages.push(package(&name, "1.0.0", &[]));
        } else {
            let next = format!("link{}", i + 1);
            packages.push(package(&name, "1.0.0", &[next.as_str()]));
        }
    }
    let mut db = MockPackagesDb::new();
    let mut finder = MemoryPackageFinder::new(packages.clone());

    let result = install_packages(
        names(&["link0"]),
        &mut finder,
        &ReinstallOptions::Ignore,
        &mut db,
    )
    .unwrap();

    assert_eq!(result.len(), depth + 1);
    assert_eq!(result[0], Action::Install(packages[depth].clone()));
    assert_eq!(result[depth], Action::Install(packages[0].clone()));
}

#[test]
fn dependents_may_lie_many_levels_above_a_removed_package() {
    let depth = 300;
    let mut db = MockPackagesDb::new();
    let mut locals = Vec::new();
    locals.push(mock_install(&mut db, &package("link0", "1.0.0", &[])));
    for i in 1..=depth {
        let below = format!("link{}", i - 1);
        locals.push(mock_install(
            &mut db,
            &package(&format!("link{}", i), "1.0.0", &[below.as_str()]),
        ));
    }

    let result = remove_packages(names(&["link0"]), true, &mut db).unwrap();

    assert_eq!(result.len(), depth + 1);
    for i in 0..=depth {
        assert_eq!(result[i], Action::Remove(locals[depth - i].clone()));
    }

    let mut finder = MemoryPackageFinder::new(vec![]);
    let result = update_packages(names(&["link0"]), &mut finder, &mut db);
    assert_eq!(
        result,
        Err(UpdateError::Install(InstallError::PackageNotFound(format!(
            "link{}",
            depth
        ))))
    );
}

#[test]
fn circular_dependents_are_reported() {
    let mut db = MockPackagesDb::new();
    mock_install(&mut db, &package("a", "1.0.0", &["c"]));
    mock_install(&mut db, &package("b", "1.0.0", &["a"]));
    mock_install(&mut db, &package("c", "1.0.0", &["b"]));

    let result = remove_packages(names(&["a"]), true, &mut db);
    assert_eq!(
        result,
        Err(RemoveError::DependencyCycle(String::from("a")))
    );

    let result = remove_packages(names(&["a"]), false, &mut db);
    assert_eq!(
        result,
        Err(RemoveError::DependencyBreak(
            String::from("a"),
            names(&["b"])
        ))
    );

    let mut finder = MemoryPackageFinder::new(vec![]);
    let result = update_packages(names(&["a"]), &mut finder, &mut db);
    assert_eq!(
        result,
        Err(UpdateError::DependencyCycle(String::from("a")))
    );
}

#[test]
fn remove_of_missing_package_is_an_error() {
    let mut db = MockPackagesDb::new();

    let result = remove_packages(names(&["ghost"]), true, &mut db);

    assert_eq!(
        result,
        Err(RemoveError::PackageNotInstalled(String::from("ghost")))
    );
}

#[test]
fn remove_lists_exactly_the_direct_dependents() {
    let mut db = MockPackagesDb::new();
    mock_install(&mut db, &package("a", "1.0.0", &[]));
    mock_install(&mut db, &package("b", "1.0.0", &["a"]));
    mock_install(&mut db, &package("c", "1.0.0", &["b"]));
    mock_install(&mut db, &package("d", "1.0.0", &["x", "a"]));

    let result = remove_packages(names(&["a"]), false, &mut db);

    assert_eq!(
        result,
        Err(RemoveError::DependencyBreak(
            String::from("a"),
            names(&["b", "d"])
        ))
    );
}

#[test]
fn recursive_remove_takes_transitive_dependents_first() {
    let mut db = MockPackagesDb::new();
    let a = mock_install(&mut db, &package("a", "1.0.0", &[]));
    let b = mock_install(&mut db, &package("b", "1.0.0", &["a"]));
    let c = mock_install(&mut db, &package("c", "1.0.0", &["b"]));
    let d = mock_install(&mut db, &package("d", "1.0.0", &["a", "c"]));

    let result = remove_packages(names(&["a"]), true, &mut db);

    assert_actions(
        result,
        vec![
            Action::Remove(d),
            Action::Remove(c),
            Action::Remove(b),
            Action::Remove(a),
        ],
    );
}

#[test]
fn remove_does_not_change_the_store() {
    let mut db = MockPackagesDb::new();
    mock_install(&mut db, &package("a", "1.0.0", &[]));
    mock_install(&mut db, &package("b", "1.0.0", &["a"]));

    remove_packages(names(&["a"]), true, &mut db).unwrap();

    assert_eq!(db.get_all_packages().unwrap().len(), 2);
}

#[test]
fn update_looks_at_dependents_before_the_package() {
    let mut db = MockPackagesDb::new();
    let a = mock_install(&mut db, &package("a", "1.0.0", &[]));
    let b = mock_install(&mut db, &package("b", "1.0.0", &["a"]));
    mock_install(&mut db, &package("c", "1.0.0", &["b"]));
    let new_a = package("a", "1.1.0", &[]);
    let new_b = package("b", "2.0.0", &["a"]);
    let mut finder = MemoryPackageFinder::new(vec![
        new_a.clone(),
        new_b.clone(),
        package("c", "1.0.0", &["b"]),
    ]);

    let result = update_packages(names(&["a"]), &mut finder, &mut db);

    assert_actions(
        result,
        vec![
            Action::Remove(b),
            Action::Remove(a),
            Action::Install(new_a),
            Action::Install(new_b),
        ],
    );
}

#[test]
fn update_of_current_packages_gives_nothing() {
    let (mut db, mut finder) = get_mocks();
    mock_install(&mut db, &simple_package());
    mock_install(&mut db, &package_with_dependency());

    let result = update_packages(names(&["simple_package"]), &mut finder, &mut db);
    assert_actions(result, vec![]);

    let result = update_all_packages(&mut finder, &mut db);
    assert_actions(result, vec![]);
}

#[test]
fn update_all_replaces_what_is_outdated() {
    let mut db = MockPackagesDb::new();
    let a = mock_install(&mut db, &package("a", "1.0.0", &[]));
    mock_install(&mut db, &package("b", "1.0.0", &[]));
    let new_a = package("a", "1.0.1", &[]);
    let mut finder = MemoryPackageFinder::new(vec![new_a.clone(), package("b", "1.0.0", &[])]);

    let result = update_all_packages(&mut finder, &mut db);

    assert_actions(result, vec![Action::Remove(a), Action::Install(new_a)]);
}

#[test]
fn update_of_package_missing_remotely_is_an_error() {
    let mut db = MockPackagesDb::new();
    mock_install(&mut db, &package("a", "1.0.0", &[]));
    let mut finder = MemoryPackageFinder::new(vec![]);

    let result = update_packages(names(&["a"]), &mut finder, &mut db);

    assert_eq!(
        result,
        Err(UpdateError::Install(InstallError::PackageNotFound(
            String::from("a")
        )))
    );
}
