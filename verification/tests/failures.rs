use japm::action::commit::CommitError;
use japm::action::Action;
use japm::commands::errors::{InfoError, InstallError, RemoveError, UpdateError};
use japm::commands::info::package_info;
use japm::commands::remove::remove_packages;
use japm::commands::update::{update_all_packages, update_packages};
use japm::commands::{install_packages, ReinstallOptions};
use japm::db::PackagesDb;
use japm::package::{LocalPackage, PackageData, RemotePackage};
use japm::package_finder::{MemoryPackageFinder, PackageFinder};
use japm::pipeline::commit_actions;
use japm::progress::{Progress, ProgressType};
use japm::test_helpers::mock_db::MockPackagesDb;

/// A store that answers from memory until its allowance of calls is used
/// up, and fails from then on.
struct FlakyStore {
    inner: MockPackagesDb,
    calls_left: usize,
    calls: Vec<String>,
}

impl FlakyStore {
    fn new(calls_left: usize) -> FlakyStore {
        FlakyStore {
            inner: MockPackagesDb::new(),
            calls_left,
            calls: Vec::new(),
        }
    }

    fn spend(&mut self, call: String) -> Result<(), String> {
        self.calls.push(call);
        if self.calls_left == 0 {
            return Err(String::from("store is down"));
        }
        self.calls_left -= 1;
        Ok(())
    }
}

impl PackagesDb for FlakyStore {
    type AddError = String;
    type RemoveError = String;
    type GetError = String;

    fn add_package(&mut self, package: &RemotePackage) -> Result<(), String> {
        self.spend(format!("add {}", package.package_data.name))?;
        self.inner.add_package(package).map_err(|e| e.0)
    }

    fn remove_package(&mut self, package_name: &str) -> Result<(), String> {
        self.spend(format!("remove {package_name}"))?;
        self.inner.remove_package(package_name).map_err(|e| e.0)
    }

    fn get_package(&mut self, package_name: &str) -> Result<Option<LocalPackage>, String> {
        self.spend(format!("get {package_name}"))?;
        self.inner.get_package(package_name).map_err(|e| e.0)
    }

    fn get_all_packages(&mut self) -> Result<Vec<LocalPackage>, String> {
        self.spend(String::from("all"))?;
        self.inner.get_all_packages().map_err(|e| e.0)
    }

    fn get_depending_packages(&mut self, package_name: &str) -> Result<Vec<LocalPackage>, String> {
        self.spend(format!("depending {package_name}"))?;
        self.inner
            .get_depending_packages(package_name)
            .map_err(|e| e.0)
    }
}

/// A lookup service that counts what it is asked and fails for one name.
struct CountingFinder {
    inner: MemoryPackageFinder,
    broken: String,
    asked: Vec<String>,
}

impl CountingFinder {
    fn new(packages: Vec<RemotePackage>, broken: &str) -> CountingFinder {
        CountingFinder {
            inner: MemoryPackageFinder::new(packages),
            broken: String::from(broken),
            asked: Vec::new(),
        }
    }
}

impl PackageFinder for CountingFinder {
    type Error = String;

    fn find_package(&mut self, package_name: &str) -> Result<Option<RemotePackage>, String> {
        self.asked.push(String::from(package_name));
        if package_name == self.broken {
            return Err(String::from("network is down"));
        }
        self.inner.find_package(package_name)
    }
}

/// A progress receiver that only counts how often it is told something.
struct CountingProgress {
    told: usize,
}

impl Progress for CountingProgress {
    fn increment_target(&mut self, _progress_type: ProgressType, _amount: i32) {
        self.told += 1;
    }

    fn increment_completed(&mut self, _progress_type: ProgressType, _amount: i32) {
        self.told += 1;
    }

    fn set_completed(&mut self, _progress_type: ProgressType) {
        self.told += 1;
    }
}

fn package(name: &str, version: &str, dependencies: &[&str]) -> RemotePackage {
    RemotePackage {
        package_data: PackageData {
            name: String::from(name),
            version: String::from(version),
            ..Default::default()
        },
        dependencies: dependencies.iter().map(|d| String::from(*d)).collect(),
        ..Default::default()
    }
}

fn names(list: &[&str]) -> Vec<String> {
    list.iter().map(|n| String::from(*n)).collect()
}

#[test]
fn ignore_asks_the_store_once_and_the_lookup_never() {
    let mut store = FlakyStore::new(100);
    store.inner.add_package(&package("a", "1.0.0", &["b"])).unwrap();
    store.inner.add_package(&package("c", "1.0.0", &[])).unwrap();
    let mut finder = CountingFinder::new(vec![], "");

    let result = install_packages(
        names(&["a", "c"]),
        &mut finder,
        &ReinstallOptions::Ignore,
        &mut store,
    );

    assert_eq!(result, Ok(vec![]));
    assert_eq!(store.calls, names(&["get a", "get c"]));
    assert!(finder.asked.is_empty());
}

#[test]
fn install_looks_each_package_up_after_asking_the_store() {
    let mut store = FlakyStore::new(100);
    let mut finder = CountingFinder::new(
        vec![package("top", "1.0.0", &["dep"]), package("dep", "1.0.0", &[])],
        "",
    );

    let result = install_packages(
        names(&["top"]),
        &mut finder,
        &ReinstallOptions::Ignore,
        &mut store,
    );

    assert_eq!(
        result,
        Ok(vec![
            Action::Install(package("dep", "1.0.0", &[])),
            Action::Install(package("top", "1.0.0", &["dep"])),
        ])
    );
    assert_eq!(store.calls, names(&["get top", "get dep"]));
    assert_eq!(finder.asked, names(&["top", "dep"]));
}

#[test]
fn store_failure_ends_the_resolution_of_an_install() {
    let mut store = FlakyStore::new(1);
    let mut finder = CountingFinder::new(
        vec![package("top", "1.0.0", &["dep"]), package("dep", "1.0.0", &[])],
        "",
    );

    let result = install_packages(
        names(&["top"]),
        &mut finder,
        &ReinstallOptions::Ignore,
        &mut store,
    );

    assert_eq!(
        result,
        Err(InstallError::Database(String::from("store is down")))
    );
}

#[test]
fn lookup_failure_ends_the_resolution_of_an_install() {
    let mut store = FlakyStore::new(100);
    let mut finder = CountingFinder::new(
        vec![package("top", "1.0.0", &["dep", "other"])],
        "dep",
    );

    let result = install_packages(
        names(&["top", "later"]),
        &mut finder,
        &ReinstallOptions::Ignore,
        &mut store,
    );

    assert_eq!(
        result,
        Err(InstallError::Find(String::from("network is down")))
    );
    assert_eq!(finder.asked, names(&["top", "dep"]));
}

#[test]
fn store_failure_ends_the_resolution_of_a_removal() {
    let mut store = FlakyStore::new(0);
    assert_eq!(
        remove_packages(names(&["a"]), false, &mut store),
        Err(RemoveError::DatabaseGet(String::from("store is down")))
    );

    let mut store = FlakyStore::new(1);
    store.inner.add_package(&package("a", "1.0.0", &[])).unwrap();
    assert_eq!(
        remove_packages(names(&["a"]), false, &mut store),
        Err(RemoveError::DatabaseGet(String::from("store is down")))
    );
    assert_eq!(store.calls, names(&["get a", "depending a"]));
}

#[test]
fn store_failure_ends_the_resolution_of_an_update() {
    let mut finder = CountingFinder::new(vec![package("a", "2.0.0", &[])], "");

    let mut store = FlakyStore::new(0);
    assert_eq!(
        update_packages(names(&["a"]), &mut finder, &mut store),
        Err(UpdateError::DatabaseGet(String::from("store is down")))
    );

    let mut store = FlakyStore::new(0);
    assert_eq!(
        update_all_packages(&mut finder, &mut store),
        Err(UpdateError::DatabaseGet(String::from("store is down")))
    );

    let mut store = FlakyStore::new(1);
    store.inner.add_package(&package("a", "1.0.0", &[])).unwrap();
    assert_eq!(
        update_packages(names(&["a"]), &mut finder, &mut store),
        Err(UpdateError::Install(InstallError::Database(String::from(
            "store is down"
        ))))
    );
}

#[test]
fn update_asks_for_dependents_of_dependents() {
    let mut store = FlakyStore::new(100);
    store.inner.add_package(&package("a", "1.0.0", &[])).unwrap();
    store.inner.add_package(&package("b", "1.0.0", &["a"])).unwrap();
    store.inner.add_package(&package("c", "1.0.0", &["b"])).unwrap();
    let mut finder = CountingFinder::new(
        vec![
            package("a", "1.0.0", &[]),
            package("b", "1.0.0", &["a"]),
            package("c", "1.0.0", &["b"]),
        ],
        "",
    );

    let result = update_packages(names(&["a"]), &mut finder, &mut store);

    assert_eq!(result, Ok(vec![]));
    assert_eq!(finder.asked, names(&["c", "b", "a"]));
    assert_eq!(
        store.calls,
        names(&[
            "depending a",
            "depending b",
            "depending c",
            "get c",
            "get b",
            "get a"
        ])
    );
}

#[test]
fn store_failure_ends_a_request_for_information() {
    let mut store = FlakyStore::new(1);
    store.inner.add_package(&package("a", "1.0.0", &[])).unwrap();

    assert_eq!(
        package_info(names(&["a", "a"]), &mut store),
        Err(InfoError::Database(String::from("store is down")))
    );
}

#[test]
fn store_failure_ends_the_commits() {
    let mut store = FlakyStore::new(1);
    let mut progress = CountingProgress { told: 0 };
    let actions = vec![
        Action::Install(package("a", "1.0.0", &[])),
        Action::Install(package("b", "1.0.0", &[])),
        Action::Install(package("c", "1.0.0", &[])),
    ];

    let result = commit_actions(&actions, &mut store, &mut progress);

    assert_eq!(
        result,
        Err(CommitError::DatabaseAdd(String::from("store is down")))
    );
    assert_eq!(store.calls, names(&["add a", "add b"]));
    assert_eq!(store.inner.get_all_packages().unwrap().len(), 1);
    assert_eq!(progress.told, 2);
}
