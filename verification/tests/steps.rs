use japm::action::command::{
    check_exit, command_from_words, parse_command, BuildError, CommandLine, NO_EXIT_CODE,
};
use japm::action::steps::{
    BuildEvent, BuildStage, BuildState, BuildStep, FileMove, ScanPlace, StagedEntry,
};
use japm::action::Action;
use japm::package::{LocalPackage, PackageData, RemotePackage};

fn strings(list: &[&str]) -> Vec<String> {
    list.iter().map(|s| String::from(*s)).collect()
}

fn remote(name: &str) -> RemotePackage {
    RemotePackage {
        package_data: PackageData {
            name: String::from(name),
            version: String::from("1.0.0"),
            ..Default::default()
        },
        ..Default::default()
    }
}

fn local(name: &str, files: &[&str]) -> LocalPackage {
    LocalPackage {
        package_data: PackageData {
            name: String::from(name),
            version: String::from("1.0.0"),
            ..Default::default()
        },
        dependencies: vec![],
        pre_remove: vec![],
        package_files: strings(files),
        post_remove: vec![],
    }
}

fn exited_well() -> BuildEvent {
    BuildEvent::Exited {
        success: true,
        code: Some(0),
        stdout: String::new(),
        stderr: String::new(),
    }
}

fn run(program: &str, arguments: &[&str], directory: &str) -> BuildStep {
    BuildStep::RunCommand {
        program: String::from(program),
        arguments: strings(arguments),
        directory: String::from(directory),
    }
}

fn entry(name: &str, target_exists: bool, is_directory: bool) -> StagedEntry {
    StagedEntry {
        name: String::from(name),
        target_exists,
        is_directory,
    }
}

fn place(staged: &str, real: &str) -> ScanPlace {
    ScanPlace {
        staged: String::from(staged),
        real: String::from(real),
    }
}

#[test]
fn command_is_split_like_a_shell_does() {
    assert_eq!(
        parse_command("echo 'a b' c\\ d \"e f\""),
        Ok(CommandLine {
            program: String::from("echo"),
            arguments: strings(&["a b", "c d", "e f"]),
        })
    );
    assert_eq!(
        parse_command("  make  "),
        Ok(CommandLine {
            program: String::from("make"),
            arguments: vec![],
        })
    );
}

#[test]
fn command_with_open_quote_is_a_parse_error() {
    assert!(matches!(
        parse_command("echo 'unfinished"),
        Err(BuildError::Parse(_))
    ));
}

#[test]
fn command_without_words_is_invalid() {
    assert_eq!(
        parse_command("   "),
        Err(BuildError::InvalidCommand(
            String::from("   "),
            String::from("Cannot have 0 arguments")
        ))
    );
    assert_eq!(
        command_from_words("", vec![]),
        Err(BuildError::InvalidCommand(
            String::new(),
            String::from("Cannot have 0 arguments")
        ))
    );
}

#[test]
fn exit_is_judged_by_success_and_code() {
    assert_eq!(
        check_exit(
            "true",
            true,
            Some(0),
            String::from("out"),
            String::from("err")
        ),
        Ok((String::from("out"), String::from("err")))
    );
    assert_eq!(
        check_exit(
            "false",
            false,
            Some(3),
            String::from("out"),
            String::from("boom")
        ),
        Err(BuildError::CommandFail(
            String::from("false"),
            3,
            String::from("boom")
        ))
    );
    assert_eq!(NO_EXIT_CODE, 80085);
    assert_eq!(
        check_exit("killed", false, None, String::new(), String::from("x")),
        Err(BuildError::CommandFail(
            String::from("killed"),
            80085,
            String::from("Command failed but could not get the status code.")
        ))
    );
}

#[test]
fn install_runs_its_steps_in_order() {
    let mut package = remote("pkg");
    package.pre_install = strings(&["./configure --prefix=/usr"]);
    package.install = strings(&["make", "make install"]);
    package.post_install = strings(&["ldconfig"]);
    let mut action = Action::Install(package.clone());
    let mut state = BuildState::new();
    let path = "/var/lib/japm/install_pkgs";
    let staging = "/var/lib/japm/install_pkgs/pkg";

    assert_eq!(state.stage(), BuildStage::Start);
    assert_eq!(
        action.build(path, &mut state, BuildEvent::Started),
        Ok(BuildStep::PrepareDirectory {
            path: String::from(staging)
        })
    );
    assert_eq!(
        action.build(path, &mut state, BuildEvent::Completed),
        Ok(run("./configure", &["--prefix=/usr"], staging))
    );
    assert_eq!(state.stage(), BuildStage::PreInstall);
    assert_eq!(
        action.build(path, &mut state, exited_well()),
        Ok(run("make", &[], staging))
    );
    assert_eq!(
        action.build(path, &mut state, exited_well()),
        Ok(run("make", &["install"], staging))
    );
    assert_eq!(
        action.build(path, &mut state, exited_well()),
        Ok(BuildStep::ScanDirectory {
            place: place("/var/lib/japm/install_pkgs/pkg/", "/")
        })
    );
    assert_eq!(
        action.build(
            path,
            &mut state,
            BuildEvent::Scanned {
                entries: vec![
                    entry("usr", true, true),
                    entry("opt-new", false, true),
                    entry("README", true, false),
                ]
            }
        ),
        Ok(BuildStep::ScanDirectory {
            place: place("/var/lib/japm/install_pkgs/pkg/usr/", "/usr/")
        })
    );
    assert_eq!(
        action.build(
            path,
            &mut state,
            BuildEvent::Scanned {
                entries: vec![entry("bin", true, true), entry("share", true, true)]
            }
        ),
        Ok(BuildStep::ScanDirectory {
            place: place("/var/lib/japm/install_pkgs/pkg/usr/share/", "/usr/share/")
        })
    );
    assert_eq!(
        action.build(
            path,
            &mut state,
            BuildEvent::Scanned {
                entries: vec![entry("pkg-doc", false, true)]
            }
        ),
        Ok(BuildStep::ScanDirectory {
            place: place("/var/lib/japm/install_pkgs/pkg/usr/bin/", "/usr/bin/")
        })
    );
    let moves = vec![
        FileMove {
            source: String::from("/var/lib/japm/install_pkgs/pkg/opt-new"),
            target: String::from("/opt-new"),
        },
        FileMove {
            source: String::from("/var/lib/japm/install_pkgs/pkg/usr/share/pkg-doc"),
            target: String::from("/usr/share/pkg-doc"),
        },
        FileMove {
            source: String::from("/var/lib/japm/install_pkgs/pkg/usr/bin/pkg"),
            target: String::from("/usr/bin/pkg"),
        },
    ];
    assert_eq!(
        action.build(
            path,
            &mut state,
            BuildEvent::Scanned {
                entries: vec![entry("pkg", false, false)]
            }
        ),
        Ok(BuildStep::MoveFiles { moves })
    );
    assert_eq!(action, Action::Install(package.clone()));
    assert_eq!(
        action.build(path, &mut state, BuildEvent::Completed),
        Ok(run("ldconfig", &[], staging))
    );
    package.package_files = strings(&["/opt-new", "/usr/share/pkg-doc", "/usr/bin/pkg"]);
    assert_eq!(action, Action::Install(package));
    assert_eq!(
        action.build(path, &mut state, exited_well()),
        Ok(BuildStep::Done)
    );
    assert_eq!(state.stage(), BuildStage::Finished);
    assert_eq!(
        action.build(path, &mut state, BuildEvent::Completed),
        Err(BuildError::UnexpectedEvent)
    );
}

#[test]
fn one_new_file_is_recorded_and_later_deleted() {
    let mut action = Action::Install(remote("hello"));
    let mut state = BuildState::new();
    let path = "/tmp/japm/build";

    action.build(path, &mut state, BuildEvent::Started).unwrap();
    assert_eq!(
        action.build(path, &mut state, BuildEvent::Completed),
        Ok(BuildStep::ScanDirectory {
            place: place("/tmp/japm/build/hello/", "/")
        })
    );
    assert_eq!(
        action.build(
            path,
            &mut state,
            BuildEvent::Scanned {
                entries: vec![entry("hello.txt", false, false)]
            }
        ),
        Ok(BuildStep::MoveFiles {
            moves: vec![FileMove {
                source: String::from("/tmp/japm/build/hello/hello.txt"),
                target: String::from("/hello.txt"),
            }]
        })
    );
    assert_eq!(
        action.build(path, &mut state, BuildEvent::Completed),
        Ok(BuildStep::Done)
    );
    let files = match &action {
        Action::Install(package) => package.package_files.clone(),
        Action::Remove(_) => unreachable!(),
    };
    assert_eq!(files, strings(&["/hello.txt"]));

    let mut removal = Action::Remove(local("hello", &["/hello.txt"]));
    let mut state = BuildState::new();
    assert_eq!(
        removal.build(path, &mut state, BuildEvent::Started),
        Ok(BuildStep::DeleteFiles {
            paths: strings(&["/hello.txt"])
        })
    );
    assert_eq!(
        removal.build(path, &mut state, BuildEvent::Completed),
        Ok(BuildStep::Done)
    );
}

#[test]
fn removal_runs_its_scripts_in_the_root() {
    let mut package = local("pkg", &["/usr/bin/pkg", "/usr/share/pkg"]);
    package.pre_remove = strings(&["systemctl stop pkg"]);
    package.post_remove = strings(&["ldconfig", "echo done"]);
    let mut action = Action::Remove(package.clone());
    let mut state = BuildState::new();

    assert_eq!(
        action.build("/ignored", &mut state, BuildEvent::Started),
        Ok(run("systemctl", &["stop", "pkg"], "/"))
    );
    assert_eq!(
        action.build("/ignored", &mut state, exited_well()),
        Ok(BuildStep::DeleteFiles {
            paths: strings(&["/usr/bin/pkg", "/usr/share/pkg"])
        })
    );
    assert_eq!(state.stage(), BuildStage::Delete);
    assert_eq!(
        action.build("/ignored", &mut state, BuildEvent::Completed),
        Ok(run("ldconfig", &[], "/"))
    );
    assert_eq!(
        action.build("/ignored", &mut state, exited_well()),
        Ok(run("echo", &["done"], "/"))
    );
    assert_eq!(
        action.build("/ignored", &mut state, exited_well()),
        Ok(BuildStep::Done)
    );
    assert_eq!(action, Action::Remove(package));
}

#[test]
fn failed_command_ends_the_build() {
    let mut package = remote("pkg");
    package.install = strings(&["make", "make install"]);
    let mut action = Action::Install(package);
    let mut state = BuildState::new();

    action.build("/b", &mut state, BuildEvent::Started).unwrap();
    action.build("/b", &mut state, BuildEvent::Completed).unwrap();
    let result = action.build(
        "/b",
        &mut state,
        BuildEvent::Exited {
            success: false,
            code: Some(2),
            stdout: String::new(),
            stderr: String::from("no rule"),
        },
    );

    assert_eq!(
        result,
        Err(BuildError::CommandFail(
            String::from("make"),
            2,
            String::from("no rule")
        ))
    );
    assert_eq!(state.stage(), BuildStage::Failed);
    assert_eq!(
        action.build("/b", &mut state, exited_well()),
        Err(BuildError::UnexpectedEvent)
    );
    assert_eq!(state.stage(), BuildStage::Failed);
}

#[test]
fn unreadable_command_fails_when_its_turn_comes() {
    let mut package = remote("pkg");
    package.install = strings(&["make", "echo 'open", "never"]);
    let mut action = Action::Install(package);
    let mut state = BuildState::new();

    action.build("/b", &mut state, BuildEvent::Started).unwrap();
    assert_eq!(
        action.build("/b", &mut state, BuildEvent::Completed),
        Ok(run("make", &[], "/b/pkg"))
    );
    assert!(matches!(
        action.build("/b", &mut state, exited_well()),
        Err(BuildError::Parse(_))
    ));
    assert_eq!(state.stage(), BuildStage::Failed);
}

#[test]
fn empty_command_is_invalid_when_its_turn_comes() {
    let mut package = local("pkg", &[]);
    package.pre_remove = strings(&[""]);
    let mut action = Action::Remove(package);
    let mut state = BuildState::new();

    assert_eq!(
        action.build("/b", &mut state, BuildEvent::Started),
        Err(BuildError::InvalidCommand(
            String::new(),
            String::from("Cannot have 0 arguments")
        ))
    );
}

#[test]
fn filesystem_failure_ends_the_build() {
    let mut action = Action::Install(remote("pkg"));
    let mut state = BuildState::new();

    action.build("/b", &mut state, BuildEvent::Started).unwrap();
    assert_eq!(
        action.build(
            "/b",
            &mut state,
            BuildEvent::Failed {
                message: String::from("permission denied")
            }
        ),
        Err(BuildError::IO(String::from("permission denied")))
    );
    assert_eq!(state.stage(), BuildStage::Failed);
}

#[test]
fn failed_move_leaves_the_files_unrecorded() {
    let mut action = Action::Install(remote("pkg"));
    let mut state = BuildState::new();

    action.build("/b", &mut state, BuildEvent::Started).unwrap();
    action.build("/b", &mut state, BuildEvent::Completed).unwrap();
    action
        .build(
            "/b",
            &mut state,
            BuildEvent::Scanned {
                entries: vec![entry("new", false, false)],
            },
        )
        .unwrap();
    let result = action.build(
        "/b",
        &mut state,
        BuildEvent::Failed {
            message: String::from("disk full"),
        },
    );

    assert_eq!(result, Err(BuildError::IO(String::from("disk full"))));
    assert_eq!(action, Action::Install(remote("pkg")));
}

#[test]
fn event_out_of_turn_is_refused() {
    let mut action = Action::Install(remote("pkg"));
    let mut state = BuildState::new();
    assert_eq!(
        action.build("/b", &mut state, BuildEvent::Completed),
        Err(BuildError::UnexpectedEvent)
    );

    let mut state = BuildState::new();
    action.build("/b", &mut state, BuildEvent::Started).unwrap();
    assert_eq!(
        action.build("/b", &mut state, exited_well()),
        Err(BuildError::UnexpectedEvent)
    );

    let mut state = BuildState::new();
    action.build("/b", &mut state, BuildEvent::Started).unwrap();
    let mut other = Action::Remove(local("pkg", &[]));
    assert_eq!(
        other.build("/b", &mut state, BuildEvent::Completed),
        Err(BuildError::UnexpectedEvent)
    );
}
