//! What can go wrong while a request is resolved into actions.

use vstd::prelude::*;

verus! {

/// Why the resolution of an install request fails, apart from a failure of
/// the store or of the lookup service.
pub enum InstallFailure {
    /// The lookup service does not know the name.
    NotFound(Seq<char>),
    /// A version is no semantic version; the parser's message.
    VersionParse(Seq<char>),
    /// The named package depends on itself, directly or through others.
    Cycle(Seq<char>),
    /// The named package lies deeper below the requested one than the
    /// machine can count.
    TooDeep(Seq<char>),
}

/// Why the resolution of a remove request fails, apart from a failure of the
/// store.
pub enum RemoveFailure {
    /// The store holds no package of that name.
    NotInstalled(Seq<char>),
    /// Installed packages depend on the named one; their names.
    DependencyBreak(Seq<char>, Seq<Seq<char>>),
    /// The named package depends on itself, directly or through others.
    Cycle(Seq<char>),
    /// The named package lies deeper above the requested one than the
    /// machine can count.
    TooDeep(Seq<char>),
}

/// Why the walk over everything that depends on a package fails, apart from
/// a failure of the store.
pub enum DependingFailure {
    /// The named package depends on itself, directly or through others.
    Cycle(Seq<char>),
    /// The named package lies deeper above the first one than the machine
    /// can count.
    TooDeep(Seq<char>),
}

/// An install request could not be resolved.
#[derive(Debug, PartialEq)]
pub enum InstallError<EDatabase, EFind> {
    /// The lookup service does not know the package.
    PackageNotFound(String),
    /// The lookup service failed.
    Find(EFind),
    /// A version is no semantic version; the parser's message.
    VersionParse(String),
    /// The store failed.
    Database(EDatabase),
    /// The named package depends on itself, directly or through others.
    DependencyCycle(String),
    /// The named package lies deeper below the requested one than the
    /// machine can count.
    DependencyDepth(String),
}

/// A remove request could not be resolved.
#[derive(Debug, PartialEq)]
pub enum RemoveError<EDatabase> {
    /// The store holds no package of that name.
    PackageNotInstalled(String),
    /// Removing the package would break the installed packages named in the
    /// list, which depend on it.
    DependencyBreak(String, Vec<String>),
    /// The store failed.
    DatabaseGet(EDatabase),
    /// The named package depends on itself, directly or through others.
    DependencyCycle(String),
    /// The named package lies deeper above the requested one than the
    /// machine can count.
    DependencyDepth(String),
}

/// An update request could not be resolved.
#[derive(Debug, PartialEq)]
pub enum UpdateError<EDatabase, EFind> {
    /// The store failed.
    DatabaseGet(EDatabase),
    /// The removal of a package could not be resolved.
    Remove(RemoveError<EDatabase>),
    /// The installation of a package could not be resolved.
    Install(InstallError<EDatabase, EFind>),
    /// The named package depends on itself, directly or through others.
    DependencyCycle(String),
    /// The named package lies deeper above the requested one than the
    /// machine can count.
    DependencyDepth(String),
}

/// A request for information could not be answered.
#[derive(Debug, PartialEq)]
pub enum InfoError<EDatabase> {
    /// The store holds no package of that name.
    PackageNotInstalled(String),
    /// The store failed.
    Database(EDatabase),
}

impl<EDatabase, EFind> InstallError<EDatabase, EFind> {
    /// The failure that the error reports; `None` for a failure of the store
    /// or of the lookup service.
    pub open spec fn failure(self) -> Option<InstallFailure> {
        match self {
            InstallError::PackageNotFound(name) => Some(InstallFailure::NotFound(name@)),
            InstallError::VersionParse(message) => Some(InstallFailure::VersionParse(message@)),
            InstallError::DependencyCycle(name) => Some(InstallFailure::Cycle(name@)),
            InstallError::DependencyDepth(name) => Some(InstallFailure::TooDeep(name@)),
            InstallError::Find(_) => None,
            InstallError::Database(_) => None,
        }
    }
}

impl<EDatabase> RemoveError<EDatabase> {
    /// The failure that the error reports; `None` for a failure of the
    /// store.
    pub open spec fn failure(self) -> Option<RemoveFailure> {
        match self {
            RemoveError::PackageNotInstalled(name) => Some(RemoveFailure::NotInstalled(name@)),
            RemoveError::DependencyBreak(name, dependents) => Some(
                RemoveFailure::DependencyBreak(name@, dependents.deep_view()),
            ),
            RemoveError::DependencyCycle(name) => Some(RemoveFailure::Cycle(name@)),
            RemoveError::DependencyDepth(name) => Some(RemoveFailure::TooDeep(name@)),
            RemoveError::DatabaseGet(_) => None,
        }
    }
}

} // verus!
