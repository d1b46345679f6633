//! The configuration: the remotes in which packages are looked up.
//!
//! A configuration is a JSON object whose field `remotes` is an object from
//! the names of the remotes to their addresses.

use vstd::prelude::*;

verus! {

/// `serde_json::Error`, the error of a text that is no JSON document.
#[verifier::external_type_specification]
#[verifier::external_body]
pub struct ExJsonError(serde_json::Error);

/// What a JSON document holds under one field of its root, as far as the
/// configuration looks at it.
#[derive(Debug, PartialEq, Eq)]
pub enum JsonField {
    /// The root has no such field.
    Missing,
    /// The field is no object.
    NotAnObject,
    /// The field is an object; its entries.
    Entries(Vec<JsonEntry>),
}

/// One entry of a JSON object.
#[derive(Debug, PartialEq, Eq)]
pub struct JsonEntry {
    pub name: String,
    /// The entry's value where it is a string, `None` where it is anything
    /// else.
    pub text: Option<String>,
}

/// Mathematical model of a [`JsonEntry`].
pub struct JsonEntryView {
    pub name: Seq<char>,
    pub text: Option<Seq<char>>,
}

/// Mathematical model of a [`JsonField`].
pub enum JsonFieldView {
    Missing,
    NotAnObject,
    Entries(Seq<JsonEntryView>),
}

impl View for JsonEntry {
    type V = JsonEntryView;

    open spec fn view(&self) -> JsonEntryView {
        JsonEntryView {
            name: self.name@,
            text: match self.text {
                Some(text) => Some(text@),
                None => None,
            },
        }
    }
}

impl DeepView for JsonEntry {
    type V = JsonEntryView;

    open spec fn deep_view(&self) -> JsonEntryView {
        self@
    }
}

impl View for JsonField {
    type V = JsonFieldView;

    open spec fn view(&self) -> JsonFieldView {
        match self {
            JsonField::Missing => JsonFieldView::Missing,
            JsonField::NotAnObject => JsonFieldView::NotAnObject,
            JsonField::Entries(entries) => JsonFieldView::Entries(entries.deep_view()),
        }
    }
}

/// What the JSON document `text` holds under the field `field` of its root,
/// the entries of an object in the order in which `serde_json` keeps them;
/// `None` where the text is no JSON document.
pub uninterp spec fn json_field(text: Seq<char>, field: Seq<char>) -> Option<JsonFieldView>;

/// `serde_json::from_str` to a `serde_json::Value`, `Value::get` with
/// `field` on the document, `Value::as_object` on what that gives, and
/// `Value::as_str` on the value of each entry: the result is what
/// [`json_field`] names, or the error of `from_str`.
#[verifier::external_body]
fn read_field(text: &str, field: &str) -> (result: Result<JsonField, serde_json::Error>)
    ensures
        match result {
            Ok(found) => json_field(text@, field@) == Some(found@),
            Err(_) => json_field(text@, field@) is None,
        },
{
    let root: serde_json::Value = serde_json::from_str(text)?;
    Ok(match root.get(field).map(|value| value.as_object()) {
        None => JsonField::Missing,
        Some(None) => JsonField::NotAnObject,
        Some(Some(object)) => JsonField::Entries(
            object.iter().map(|(name, value)| JsonEntry {
                name: name.clone(),
                text: value.as_str().map(String::from),
            }).collect(),
        ),
    })
}

/// The configuration that is written where none exists.
pub const DEFAULT_CONFIG: &'static str = r#"
{
    "remotes": {
        "base": "https://raw.githubusercontent.com/TheAlexDev23/japm-official-packages/main/"
    }
}"#;

/// A configuration could not be read.
#[derive(Debug)]
pub enum ConfigError {
    /// The text is no JSON document.
    Json(serde_json::Error),
    /// The document is no configuration; the reason.
    Syntax(String),
}

/// A remote: its name and its address.
#[derive(Debug, PartialEq, Eq)]
pub struct Remote {
    pub name: String,
    pub url: String,
}

/// Mathematical model of a [`Remote`].
pub struct RemoteView {
    pub name: Seq<char>,
    pub url: Seq<char>,
}

impl View for Remote {
    type V = RemoteView;

    open spec fn view(&self) -> RemoteView {
        RemoteView { name: self.name@, url: self.url@ }
    }
}

impl DeepView for Remote {
    type V = RemoteView;

    open spec fn deep_view(&self) -> RemoteView {
        self@
    }
}

/// Whether some remote has the name `name`.
pub open spec fn has_remote(remotes: Seq<RemoteView>, name: Seq<char>) -> bool {
    exists|i: int| 0 <= i < remotes.len() && (#[trigger] remotes[i]).name == name
}

/// Whether `i` is the place of the first remote named `name`.
pub open spec fn is_first_remote(remotes: Seq<RemoteView>, name: Seq<char>, i: int) -> bool {
    &&& 0 <= i < remotes.len()
    &&& remotes[i].name == name
    &&& forall|j: int| 0 <= j < i ==> (#[trigger] remotes[j]).name != name
}

/// Whether no two remotes have the same name.
pub open spec fn distinct_remotes(remotes: Seq<RemoteView>) -> bool {
    forall|i: int, j: int|
        0 <= i < remotes.len() && 0 <= j < remotes.len() && i != j ==> (#[trigger] remotes[i]).name
            != (#[trigger] remotes[j]).name
}

/// The remotes after `remote` is put among them: it takes the place of the
/// remote of its name, or, where there is none, goes to the end.
pub open spec fn put_remote(remotes: Seq<RemoteView>, remote: RemoteView) -> Seq<RemoteView> {
    if has_remote(remotes, remote.name) {
        remotes.update(choose|i: int| is_first_remote(remotes, remote.name, i), remote)
    } else {
        remotes.push(remote)
    }
}

/// Putting a remote where the first of its name stands replaces that one.
pub proof fn lemma_put_remote_at(remotes: Seq<RemoteView>, remote: RemoteView, i: int)
    requires
        is_first_remote(remotes, remote.name, i),
    ensures
        put_remote(remotes, remote) == remotes.update(i, remote),
{
    let chosen = choose|k: int| is_first_remote(remotes, remote.name, k);
    assert(is_first_remote(remotes, remote.name, chosen));
    if chosen < i {
        assert(remotes[chosen].name != remote.name);
    }
    if i < chosen {
        assert(remotes[i].name != remote.name);
    }
}

/// Putting a remote keeps the names distinct, makes its name lead to it,
/// and leaves the remotes of other names as they were.
pub proof fn lemma_put_remote(remotes: Seq<RemoteView>, remote: RemoteView)
    requires
        distinct_remotes(remotes),
    ensures
        distinct_remotes(put_remote(remotes, remote)),
        exists|i: int|
            0 <= i < put_remote(remotes, remote).len() && #[trigger] put_remote(remotes, remote)[i]
                == remote,
        forall|i: int|
            0 <= i < remotes.len() && (#[trigger] remotes[i]).name != remote.name
                ==> put_remote(remotes, remote)[i] == remotes[i],
{
    let after = put_remote(remotes, remote);
    if has_remote(remotes, remote.name) {
        let witness = choose|i: int|
            0 <= i < remotes.len() && (#[trigger] remotes[i]).name == remote.name;
        assert(is_first_remote(remotes, remote.name, witness)) by {
            assert forall|j: int| 0 <= j < witness implies (#[trigger] remotes[j]).name
                != remote.name by {}
        }
        lemma_put_remote_at(remotes, remote, witness);
        assert(after[witness] == remote);
        assert forall|i: int, j: int|
            0 <= i < after.len() && 0 <= j < after.len() && i != j implies
            (#[trigger] after[i]).name
            != (#[trigger] after[j]).name by {
            assert(after[i].name == remotes[i].name);
            assert(after[j].name == remotes[j].name);
        }
    } else {
        assert(after[remotes.len() as int] == remote);
        assert forall|i: int, j: int|
            0 <= i < after.len() && 0 <= j < after.len() && i != j implies
            (#[trigger] after[i]).name
            != (#[trigger] after[j]).name by {
            if i < remotes.len() && j < remotes.len() {
                assert(remotes[i].name != remotes[j].name);
            } else if i < remotes.len() {
                assert(remotes[i].name != remote.name);
            } else {
                assert(remotes[j].name != remote.name);
            }
        }
    }
}

/// The configuration: a map from the names of the remotes to their
/// addresses, kept as a list in which no name occurs twice.
#[derive(Debug, PartialEq, Eq)]
pub struct Config {
    remotes: Vec<Remote>,
}

impl View for Config {
    type V = Seq<RemoteView>;

    /// The remotes, in the order in which their names first came.
    closed spec fn view(&self) -> Seq<RemoteView> {
        self.remotes.deep_view()
    }
}

/// Whether every entry has a string as its value.
pub open spec fn all_text(entries: Seq<JsonEntryView>) -> bool {
    forall|i: int| 0 <= i < entries.len() ==> (#[trigger] entries[i]).text is Some
}

/// The remotes that the entries of the `remotes` object stand for: each
/// entry is put among those before it, so that of two entries of one name
/// the later one counts.
pub open spec fn remotes_of_entries(entries: Seq<JsonEntryView>) -> Seq<RemoteView>
    decreases entries.len(),
{
    if entries.len() == 0 {
        Seq::empty()
    } else {
        put_remote(
            remotes_of_entries(entries.drop_last()),
            RemoteView { name: entries.last().name, url: entries.last().text->Some_0 },
        )
    }
}

/// The remotes that the field `remotes` of a configuration stands for, or
/// why it stands for none: the field must be there, must be an object, and
/// every value in it must be a string.
pub open spec fn remotes_of_field(field: JsonFieldView) -> Result<Seq<RemoteView>, Seq<char>> {
    match field {
        JsonFieldView::Missing => Err("Config has no remotes object."@),
        JsonFieldView::NotAnObject => Err("Remotes needs to be json object."@),
        JsonFieldView::Entries(entries) => if all_text(entries) {
            Ok(remotes_of_entries(entries))
        } else {
            Err("All keys and values in \"remotes\" should be strings"@)
        },
    }
}

/// Whether `result` is the configuration, or the failure, that the field
/// `field` of a document stands for; `None` is the field of a text that is
/// no document.
pub open spec fn config_agrees(
    result: Result<Config, ConfigError>,
    field: Option<JsonFieldView>,
) -> bool {
    match result {
        Ok(config) => {
            &&& config.wf()
            &&& field matches Some(found) && remotes_of_field(found) == Ok::<
                Seq<RemoteView>,
                Seq<char>,
            >(config@)
        },
        Err(ConfigError::Json(_)) => field is None,
        Err(ConfigError::Syntax(reason)) => field matches Some(found) && remotes_of_field(found)
            == Err::<Seq<RemoteView>, Seq<char>>(reason@),
    }
}

/// The place of the first remote named `name`, if there is one.
fn place_of(remotes: &Vec<Remote>, name: &String) -> (place: Option<usize>)
    ensures
        match place {
            Some(i) => is_first_remote(remotes.deep_view(), name@, i as int),
            None => !has_remote(remotes.deep_view(), name@),
        },
{
    let ghost all = remotes.deep_view();
    let mut i: usize = 0;
    while i < remotes.len()
        invariant
            i <= remotes.len(),
            all == remotes.deep_view(),
            forall|j: int| 0 <= j < i ==> (#[trigger] all[j]).name != name@,
        decreases remotes.len() - i,
    {
        assert(all[i as int] == remotes[i as int]@);
        if remotes[i].name == *name {
            return Some(i);
        }
        i += 1;
    }
    None
}

impl Config {
    /// No two remotes have the same name.
    pub open spec fn wf(&self) -> bool {
        distinct_remotes(self@)
    }

    /// The configuration that the field `remotes` of a document stands
    /// for.
    pub fn from_field(field: JsonField) -> (result: Result<Config, ConfigError>)
        ensures
            config_agrees(result, Some(field@)),
    {
        let ghost found = field@;
        let entries = match field {
            JsonField::Missing => {
                return Err(
                    ConfigError::Syntax(String::from_str("Config has no remotes object.")),
                );
            },
            JsonField::NotAnObject => {
                return Err(
                    ConfigError::Syntax(String::from_str("Remotes needs to be json object.")),
                );
            },
            JsonField::Entries(entries) => entries,
        };
        let ghost all = entries.deep_view();
        let mut remotes: Vec<Remote> = Vec::new();
        assert(remotes.deep_view() =~= Seq::<RemoteView>::empty());
        let mut i: usize = 0;
        while i < entries.len()
            invariant
                i <= entries.len(),
                all == entries.deep_view(),
                found == JsonFieldView::Entries(all),
                found == field@,
                all_text(all.take(i as int)),
                distinct_remotes(remotes.deep_view()),
                remotes.deep_view() == remotes_of_entries(all.take(i as int)),
            decreases entries.len() - i,
        {
            let ghost seen = remotes.deep_view();
            assert(all[i as int] == entries[i as int]@);
            let url = match &entries[i].text {
                Some(url) => url.clone(),
                None => {
                    assert(all[i as int].text is None);
                    return Err(
                        ConfigError::Syntax(
                            String::from_str(
                                "All keys and values in \"remotes\" should be strings",
                            ),
                        ),
                    );
                },
            };
            let remote = Remote { name: entries[i].name.clone(), url };
            proof {
                let next = all.take(i + 1);
                assert(next.drop_last() =~= all.take(i as int));
                assert(next.last() == all[i as int]);
                assert forall|k: int| 0 <= k < next.len() implies (#[trigger] next[k]).text
                    is Some by {
                    if k < i {
                        assert(all.take(i as int)[k] == next[k]);
                    }
                }
                lemma_put_remote(seen, remote@);
            }
            match place_of(&remotes, &remote.name) {
                Some(place) => {
                    proof {
                        lemma_put_remote_at(seen, remote@, place as int);
                    }
                    remotes.set(place, remote);
                    assert(remotes.deep_view() =~= seen.update(place as int, remote@));
                },
                None => {
                    remotes.push(remote);
                    assert(remotes.deep_view() =~= seen.push(remote@));
                },
            }
            i += 1;
        }
        assert(all.take(i as int) =~= all);
        Ok(Config { remotes })
    }

    /// Reads a configuration from the text of a JSON document.
    pub fn from_json(json_content: &str) -> (result: Result<Config, ConfigError>)
        ensures
            config_agrees(result, json_field(json_content@, "remotes"@)),
    {
        match read_field(json_content, "remotes") {
            Ok(field) => Config::from_field(field),
            Err(error) => Err(ConfigError::Json(error)),
        }
    }

    /// The remotes, in the order in which their names first came.
    pub fn remotes(&self) -> (remotes: &Vec<Remote>)
        ensures
            remotes.deep_view() == self@,
    {
        &self.remotes
    }

    /// The address of the remote `name`, if the configuration has one of
    /// that name.
    pub fn get(&self, name: &str) -> (url: Option<&str>)
        ensures
            match url {
                Some(url) => exists|i: int|
                    is_first_remote(self@, name@, i) && (#[trigger] self@[i]).url == url@,
                None => !has_remote(self@, name@),
            },
    {
        let wanted = String::from_str(name);
        match place_of(&self.remotes, &wanted) {
            Some(place) => {
                assert(self@[place as int] == self.remotes[place as int]@);
                Some(self.remotes[place].url.as_str())
            },
            None => None,
        }
    }

    /// The addresses of the remotes, in order.
    pub fn urls(&self) -> (urls: Vec<String>)
        ensures
            urls.deep_view() == self@.map_values(|remote: RemoteView| remote.url),
    {
        let ghost all = self@.map_values(|remote: RemoteView| remote.url);
        let mut urls: Vec<String> = Vec::new();
        let mut i: usize = 0;
        while i < self.remotes.len()
            invariant
                i <= self.remotes.len(),
                all == self@.map_values(|remote: RemoteView| remote.url),
                urls.deep_view() == all.take(i as int),
            decreases self.remotes.len() - i,
        {
            let ghost seen = urls.deep_view();
            urls.push(self.remotes[i].url.clone());
            assert(urls.deep_view() =~= seen.push(self.remotes[i as int]@.url));
            assert(all.take(i + 1) =~= all.take(i as int).push(self.remotes[i as int]@.url));
            i += 1;
        }
        assert(all.take(i as int) =~= all);
        urls
    }
}

} // verus!
