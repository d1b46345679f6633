use japm::action::commit::CommitError;
use japm::action::steps::{BuildEvent, BuildState, BuildStep, ScanPlace};
use japm::action::Action;
use japm::db::PackagesDb;
use japm::package::{PackageData, RemotePackage};
use japm::test_helpers::mock_db::MockPackagesDb;

/// Builds the action under `path`, with a staging directory in which
/// nothing new is found.
fn build_without_files(action: &mut Action, path: &str) {
    let mut state = BuildState::new();
    let mut step = action
        .build(path, &mut state, BuildEvent::Started)
        .unwrap();
    loop {
        let event = match step {
            BuildStep::Done => break,
            BuildStep::ScanDirectory { .. } => BuildEvent::Scanned { entries: vec![] },
            BuildStep::RunCommand { .. } => BuildEvent::Exited {
                success: true,
                code: Some(0),
                stdout: String::new(),
                stderr: String::new(),
            },
            _ => BuildEvent::Completed,
        };
        step = action.build(path, &mut state, event).unwrap();
    }
}

fn get_mock_remote_package() -> RemotePackage {
    RemotePackage {
        package_data: PackageData {
            name: String::from("test-package"),
            ..Default::default()
        },
        ..Default::default()
    }
}

#[test]
fn test_package_installs() {
    let remote_package = get_mock_remote_package();
    let mut mock_db = MockPackagesDb::new();

    let mut action = Action::Install(remote_package.clone());

    build_without_files(&mut action, "/tmp/japm/test");
    assert!(action.commit(&mut mock_db).is_ok());

    assert!(mock_db
        .get_package(&remote_package.package_data.name)
        .is_ok());

    assert!(mock_db
        .get_package(&remote_package.package_data.name)
        .unwrap()
        .is_some());
}

#[test]
fn test_package_removes() {
    let remote_package = get_mock_remote_package();
    let mut mock_db = MockPackagesDb::new();

    let package_name = remote_package.package_data.name.clone();

    mock_db.add_package(&remote_package).unwrap();

    let local_package = mock_db.get_package(&package_name).unwrap().unwrap();

    let mut action = Action::Remove(local_package);

    build_without_files(&mut action, "/tmp/japm/test");
    assert!(action.commit(&mut mock_db).is_ok());
    assert!(mock_db.get_package(&package_name).unwrap().is_none());
}

#[test]
fn commit_of_removal_fails_where_the_record_is_gone() {
    let remote_package = get_mock_remote_package();
    let mut mock_db = MockPackagesDb::new();
    mock_db.add_package(&remote_package).unwrap();
    let local_package = mock_db
        .get_package("test-package")
        .unwrap()
        .unwrap();
    let action = Action::Remove(local_package);

    assert!(action.commit(&mut mock_db).is_ok());
    let second = action.commit(&mut mock_db);

    assert!(matches!(second, Err(CommitError::DatabaseRemove(_))));
    assert_eq!(
        second.unwrap_err(),
        CommitError::DatabaseRemove(japm::test_helpers::errors::StringError::from(
            "Package not found"
        ))
    );
}

#[test]
fn labels_name_the_kind_and_the_package() {
    let remote_package = get_mock_remote_package();
    let mut mock_db = MockPackagesDb::new();
    mock_db.add_package(&remote_package).unwrap();
    let local_package = mock_db.get_package("test-package").unwrap().unwrap();

    assert_eq!(Action::Install(remote_package).label(), "Install test-package");
    assert_eq!(Action::Remove(local_package).label(), "Remove test-package");
}

#[test]
fn build_of_package_without_scripts_scans_its_staging_directory() {
    let mut action = Action::Install(get_mock_remote_package());
    let mut state = BuildState::new();

    let first = action.build("/tmp/japm/test", &mut state, BuildEvent::Started);
    let second = action.build("/tmp/japm/test", &mut state, BuildEvent::Completed);

    assert_eq!(
        first,
        Ok(BuildStep::PrepareDirectory {
            path: String::from("/tmp/japm/test/test-package")
        })
    );
    assert_eq!(
        second,
        Ok(BuildStep::ScanDirectory {
            place: ScanPlace {
                staged: String::from("/tmp/japm/test/test-package/"),
                real: String::from("/"),
            }
        })
    );
}
