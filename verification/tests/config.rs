use japm::config::{Config, ConfigError, JsonEntry, JsonField, Remote, DEFAULT_CONFIG};
use japm::default_package_finder::DefaultPackageFinder;
use japm::package::{PackageData, RemotePackage};

fn remote(name: &str, url: &str) -> Remote {
    Remote {
        name: String::from(name),
        url: String::from(url),
    }
}

fn entry(name: &str, text: Option<&str>) -> JsonEntry {
    JsonEntry {
        name: String::from(name),
        text: text.map(String::from),
    }
}

#[test]
fn test_config_parsed_correctly() {
    let config = r#"
{
    "remotes": {
        "test": "http://test.com"
    }
}
"#;

    let config = Config::from_json(config);
    assert!(config.is_ok());

    assert_eq!(config.unwrap().get("test").unwrap(), "http://test.com")
}

#[test]
fn test_incorrect_json_syntax_rejected() {
    let config = r#"
this is invalid json syntax
{
    "remotes": {
        "test": "http://test.com"
    ]
}
"#;

    let config = Config::from_json(config);

    assert!(config.is_err());
    assert!(matches!(config, Err(ConfigError::Json(_))));
}

#[test]
fn test_no_remotes_field_rejected() {
    let config = "{ }";

    let config = Config::from_json(config);

    assert!(config.is_err());
    assert!(matches!(config, Err(ConfigError::Syntax(_))));
}

#[test]
fn test_non_string_remotes_rejected() {
    let config = r#"
{
    "remotes": {
        "key with non strign value": {
            "some_non_string_object": "http://test.com"
        }
    }
}
"#;

    let config = Config::from_json(config);

    assert!(config.is_err());
    assert!(matches!(config, Err(ConfigError::Syntax(_))));
}

#[test]
fn default_config_names_the_base_remote() {
    let config = Config::from_json(DEFAULT_CONFIG).unwrap();

    assert_eq!(
        config.get("base").unwrap(),
        "https://raw.githubusercontent.com/TheAlexDev23/japm-official-packages/main/"
    );
    assert_eq!(config.get("other"), None);
    assert_eq!(config.remotes().len(), 1);
}

#[test]
fn config_errors_say_what_is_wrong() {
    let reason = |text: &str| match Config::from_json(text) {
        Err(ConfigError::Syntax(reason)) => reason,
        other => panic!("{:?}", other),
    };

    assert_eq!(reason("{}"), "Config has no remotes object.");
    assert_eq!(reason("[1, 2]"), "Config has no remotes object.");
    assert_eq!(
        reason(r#"{"remotes": ["a"]}"#),
        "Remotes needs to be json object."
    );
    assert_eq!(
        reason(r#"{"remotes": "a"}"#),
        "Remotes needs to be json object."
    );
    assert_eq!(
        reason(r#"{"remotes": {"a": "http://a", "b": 1}}"#),
        "All keys and values in \"remotes\" should be strings"
    );
}

#[test]
fn config_from_field_takes_every_entry() {
    let field = JsonField::Entries(vec![
        entry("b", Some("http://b")),
        entry("a", Some("http://a")),
    ]);

    let config = Config::from_field(field).unwrap();

    assert_eq!(
        config.remotes(),
        &vec![remote("b", "http://b"), remote("a", "http://a")]
    );
    assert_eq!(
        config.urls(),
        vec![String::from("http://b"), String::from("http://a")]
    );
    assert!(matches!(
        Config::from_field(JsonField::Entries(vec![entry("a", None)])),
        Err(ConfigError::Syntax(_))
    ));
    assert!(Config::from_field(JsonField::Entries(vec![]))
        .unwrap()
        .remotes()
        .is_empty());
}

#[test]
fn config_keeps_the_last_of_two_entries_of_one_name() {
    let field = JsonField::Entries(vec![
        entry("a", Some("http://first")),
        entry("b", Some("http://b")),
        entry("a", Some("http://last")),
    ]);

    let config = Config::from_field(field).unwrap();

    assert_eq!(config.get("a"), Some("http://last"));
    assert_eq!(
        config.remotes(),
        &vec![remote("a", "http://last"), remote("b", "http://b")]
    );

    let config =
        Config::from_json(r#"{"remotes": {"a": "http://first", "a": "http://last"}}"#).unwrap();
    assert_eq!(config.get("a"), Some("http://last"));
    assert_eq!(config.remotes().len(), 1);
}

#[test]
fn config_with_several_remotes_keeps_them_all() {
    let config = Config::from_json(
        r#"{"remotes": {"one": "http://one/", "two": "http://two/"}, "other": 1}"#,
    )
    .unwrap();

    assert_eq!(config.get("one"), Some("http://one/"));
    assert_eq!(config.get("two"), Some("http://two/"));
    assert_eq!(config.remotes().len(), 2);
}

#[test]
fn default_finder_remembers_what_it_found() {
    let config = Config::from_field(JsonField::Entries(vec![
        entry("one", Some("http://one/")),
        entry("two", Some("http://two/")),
    ]))
    .unwrap();
    let package = |version: &str| RemotePackage {
        package_data: PackageData {
            name: String::from("vim"),
            version: String::from(version),
            ..Default::default()
        },
        ..Default::default()
    };
    let mut finder = DefaultPackageFinder::new(false, &config);

    assert!(!finder.from_file());
    assert!(DefaultPackageFinder::new(true, &config).from_file());
    assert_eq!(
        finder.remotes(),
        &vec![String::from("http://one/"), String::from("http://two/")]
    );
    assert_eq!(finder.cached("vim"), None);

    finder.remember("vim", &package("1.0.0"));
    finder.remember("./emacs.json", &package("2.0.0"));

    assert_eq!(finder.cached("vim"), Some(package("1.0.0")));
    assert_eq!(finder.cached("./emacs.json"), Some(package("2.0.0")));
    assert_eq!(finder.cached("emacs"), None);

    finder.remember("vim", &package("1.1.0"));

    assert_eq!(finder.cached("vim"), Some(package("1.1.0")));
    assert_eq!(finder.cached("./emacs.json"), Some(package("2.0.0")));
}
