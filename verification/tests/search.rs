use japm::package_finder::search::{
    package_address, RemoteSearch, SearchEvent, SearchStep, STATUS_OK,
};
use japm::package_finder::{MemoryPackageFinder, PackageFinder};
use japm::package::{PackageData, RemotePackage};

fn fetch(url: &str) -> SearchStep {
    SearchStep::Fetch {
        url: String::from(url),
    }
}

#[test]
fn address_follows_the_remote() {
    assert_eq!(
        package_address("https://example.org/main/", "vim"),
        "https://example.org/main//packages/vim/package.json"
    );
    assert_eq!(
        package_address("https://example.org/", "a-b"),
        "https://example.org//packages/a-b/package.json"
    );
    assert_eq!(
        package_address("file:", "vim"),
        "file:packages/vim/package.json"
    );
    assert_eq!(package_address("", "vim"), "packages/vim/package.json");
}

#[test]
fn remotes_are_asked_in_turn() {
    let remotes = vec![
        String::from("http://one/"),
        String::from("http://two/"),
        String::from("http://three/"),
    ];
    let mut search = RemoteSearch::new();

    assert_eq!(
        search.next(&remotes, "pkg", SearchEvent::Started),
        fetch("http://one//packages/pkg/package.json")
    );
    assert_eq!(
        search.next(&remotes, "pkg", SearchEvent::Answered { status: 404 }),
        fetch("http://two//packages/pkg/package.json")
    );
    assert_eq!(
        search.next(&remotes, "pkg", SearchEvent::Unreachable),
        fetch("http://three//packages/pkg/package.json")
    );
    assert_eq!(STATUS_OK, 200);
    assert_eq!(
        search.next(&remotes, "pkg", SearchEvent::Answered { status: 200 }),
        SearchStep::ReadBody
    );
}

#[test]
fn package_that_no_remote_has_is_not_found() {
    let remotes = vec![String::from("http://one/")];
    let mut search = RemoteSearch::new();

    search.next(&remotes, "pkg", SearchEvent::Started);
    assert_eq!(
        search.next(&remotes, "pkg", SearchEvent::Answered { status: 500 }),
        SearchStep::NotFound
    );
    assert_eq!(
        search.next(&remotes, "pkg", SearchEvent::Unreachable),
        SearchStep::NotFound
    );

    let mut search = RemoteSearch::new();
    assert_eq!(
        search.next(&vec![], "pkg", SearchEvent::Started),
        SearchStep::NotFound
    );
}

#[test]
fn memory_finder_answers_with_the_first_package_of_a_name() {
    let package = |name: &str, version: &str| RemotePackage {
        package_data: PackageData {
            name: String::from(name),
            version: String::from(version),
            ..Default::default()
        },
        ..Default::default()
    };
    let mut finder = MemoryPackageFinder::new(vec![
        package("a", "1.0.0"),
        package("b", "1.0.0"),
        package("a", "2.0.0"),
    ]);

    assert_eq!(finder.find_package("a"), Ok(Some(package("a", "1.0.0"))));
    assert_eq!(finder.find_package("b"), Ok(Some(package("b", "1.0.0"))));
    assert_eq!(finder.find_package("c"), Ok(None));
}
