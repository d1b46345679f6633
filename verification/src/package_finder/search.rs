//! The search for a package in the remotes of the configuration: they are
//! asked in turn, and the first that has the package answers for all.
//!
//! Asking a remote is the caller's work. [`RemoteSearch::next`] takes what
//! the remote asked last has answered and says what to do next.

use vstd::prelude::*;

verus! {

/// The status with which a remote says that it has what was asked for.
pub const STATUS_OK: u16 = 200;

/// The address of a package's description in a remote: the remote, then
/// `packages/`, the package's name and `/package.json`; after a remote that
/// ends in a slash a further slash comes first.
pub open spec fn package_url(remote: Seq<char>, package_name: Seq<char>) -> Seq<char> {
    if remote.len() > 0 && remote.last() == '/' {
        remote + "/packages/"@ + package_name + "/package.json"@
    } else {
        remote + "packages/"@ + package_name + "/package.json"@
    }
}

/// The address of the description of `package_name` in `remote`.
pub fn package_address(remote: &str, package_name: &str) -> (url: String)
    ensures
        url@ == package_url(remote@, package_name@),
{
    let length: usize = remote.unicode_len();
    let slash: bool = length > 0 && remote.get_char(length - 1) == '/';
    let start = if slash {
        String::from_str(remote).concat("/packages/")
    } else {
        String::from_str(remote).concat("packages/")
    };
    start.concat(package_name).concat("/package.json")
}

/// What the caller is to do next.
#[derive(Debug, PartialEq, Eq)]
pub enum SearchStep {
    /// Ask for what lies at `url`.
    Fetch { url: String },
    /// Take the body of the last answer: it is the package's description.
    ReadBody,
    /// Nothing: no remote has the package.
    NotFound,
}

/// Mathematical model of a [`SearchStep`].
pub enum SearchStepView {
    Fetch { url: Seq<char> },
    ReadBody,
    NotFound,
}

impl View for SearchStep {
    type V = SearchStepView;

    open spec fn view(&self) -> SearchStepView {
        match self {
            SearchStep::Fetch { url } => SearchStepView::Fetch { url: url@ },
            SearchStep::ReadBody => SearchStepView::ReadBody,
            SearchStep::NotFound => SearchStepView::NotFound,
        }
    }
}

/// What came of the step handed out last.
#[derive(Debug, Clone, Copy, PartialEq, Eq)]
pub enum SearchEvent {
    /// Nothing yet: the search begins.
    Started,
    /// The remote answered with `status`.
    Answered { status: u16 },
    /// The remote could not be reached.
    Unreachable,
}

/// The step for the remote at place `position`: to ask it, or, past the
/// last remote, to give up.
pub open spec fn fetch_at(
    remotes: Seq<Seq<char>>,
    package_name: Seq<char>,
    position: nat,
) -> SearchStepView {
    if position < remotes.len() {
        SearchStepView::Fetch { url: package_url(remotes[position as int], package_name) }
    } else {
        SearchStepView::NotFound
    }
}

/// The place of the remote that is asked next, after the remote at
/// `position` was asked and `event` came of it.
pub open spec fn search_position(
    remotes: Seq<Seq<char>>,
    position: nat,
    event: SearchEvent,
) -> nat {
    match event {
        SearchEvent::Started => 0,
        SearchEvent::Answered { status } => if status == STATUS_OK || position >= remotes.len() {
            position
        } else {
            position + 1
        },
        SearchEvent::Unreachable => if position >= remotes.len() {
            position
        } else {
            position + 1
        },
    }
}

/// What follows `event`: a remote that answers with [`STATUS_OK`] ends the
/// search with its body; after any other answer, and after none, the next
/// remote is asked, and past the last remote the package is not found.
pub open spec fn search_step(
    remotes: Seq<Seq<char>>,
    package_name: Seq<char>,
    position: nat,
    event: SearchEvent,
) -> SearchStepView {
    match event {
        SearchEvent::Answered { status } if status == STATUS_OK => SearchStepView::ReadBody,
        _ => fetch_at(remotes, package_name, search_position(remotes, position, event)),
    }
}

/// Where a search through the remotes stands.
#[derive(Debug, Clone, Copy, PartialEq, Eq)]
pub struct RemoteSearch {
    position: usize,
}

impl View for RemoteSearch {
    type V = nat;

    /// The place of the remote that was asked last.
    closed spec fn view(&self) -> nat {
        self.position as nat
    }
}

impl RemoteSearch {
    /// A search that has asked no remote yet.
    pub fn new() -> (search: RemoteSearch)
        ensures
            search@ == 0,
    {
        RemoteSearch { position: 0 }
    }

    /// Takes what came of the step handed out last and hands out the next
    /// one, as [`search_step`] lays it down. The first call reports
    /// [`SearchEvent::Started`].
    pub fn next(&mut self, remotes: &Vec<String>, package_name: &str, event: SearchEvent) -> (step:
        SearchStep)
        ensures
            final(self)@ == search_position(remotes.deep_view(), old(self)@, event),
            step@ == search_step(remotes.deep_view(), package_name@, old(self)@, event),
    {
        match event {
            SearchEvent::Started => {
                self.position = 0;
            },
            SearchEvent::Answered { status } => {
                if status == STATUS_OK {
                    return SearchStep::ReadBody;
                }
                if self.position < remotes.len() {
                    self.position = self.position + 1;
                }
            },
            SearchEvent::Unreachable => {
                if self.position < remotes.len() {
                    self.position = self.position + 1;
                }
            },
        }
        if self.position < remotes.len() {
            SearchStep::Fetch {
                url: package_address(remotes[self.position].as_str(), package_name),
            }
        } else {
            SearchStep::NotFound
        }
    }
}

/// The remotes are asked in the order of the list, none twice and none left
/// out: after the remote at `position` has not answered with the package,
/// the next step asks the remote at `position + 1`, and the package is not
/// found only when the last remote has been asked.
pub proof fn lemma_remotes_in_order(
    remotes: Seq<Seq<char>>,
    package_name: Seq<char>,
    position: nat,
    event: SearchEvent,
)
    requires
        position < remotes.len(),
        event is Unreachable || (event matches SearchEvent::Answered { status } && status
            != STATUS_OK),
    ensures
        search_position(remotes, position, event) == position + 1,
        search_step(remotes, package_name, position, event) == fetch_at(
            remotes,
            package_name,
            position + 1,
        ),
        search_step(remotes, package_name, position, event) is NotFound <==> position + 1
            == remotes.len(),
{
}

} // verus!
