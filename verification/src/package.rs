//! Package records: a package as a lookup service describes it, and as the
//! store of installed packages keeps it.

use vstd::prelude::*;

verus! {

/// Mathematical model of a [`PackageData`].
pub struct PackageDataView {
    pub name: Seq<char>,
    pub version: Seq<char>,
    pub description: Seq<char>,
}

/// Mathematical model of a [`RemotePackage`].
pub struct RemotePackageView {
    pub package_data: PackageDataView,
    pub dependencies: Seq<Seq<char>>,
    pub pre_install: Seq<Seq<char>>,
    pub install: Seq<Seq<char>>,
    pub post_install: Seq<Seq<char>>,
    pub pre_remove: Seq<Seq<char>>,
    pub package_files: Seq<Seq<char>>,
    pub post_remove: Seq<Seq<char>>,
}

/// Mathematical model of a [`LocalPackage`].
pub struct LocalPackageView {
    pub package_data: PackageDataView,
    pub dependencies: Seq<Seq<char>>,
    pub pre_remove: Seq<Seq<char>>,
    pub package_files: Seq<Seq<char>>,
    pub post_remove: Seq<Seq<char>>,
}

impl RemotePackageView {
    /// The record that the store keeps once this package is installed: the
    /// install scripts are dropped, everything else is carried over.
    pub open spec fn to_local(self) -> LocalPackageView {
        LocalPackageView {
            package_data: self.package_data,
            dependencies: self.dependencies,
            pre_remove: self.pre_remove,
            package_files: self.package_files,
            post_remove: self.post_remove,
        }
    }
}

/// Name, version and description of a package. The name is the key under
/// which a package is looked up and stored.
#[derive(Debug, Default, Hash, PartialEq, Eq)]
pub struct PackageData {
    pub name: String,
    pub version: String,
    pub description: String,
}

/// A package as the lookup service describes it.
#[derive(Debug, Default, Hash, PartialEq, Eq)]
pub struct RemotePackage {
    pub package_data: PackageData,
    pub dependencies: Vec<String>,
    pub pre_install: Vec<String>,
    pub install: Vec<String>,
    pub post_install: Vec<String>,
    pub pre_remove: Vec<String>,
    /// Empty until the package has been built; then every path that the
    /// install step brought onto the filesystem.
    pub package_files: Vec<String>,
    pub post_remove: Vec<String>,
}

/// A package as the store of installed packages keeps it.
#[derive(Debug, Hash, PartialEq, Eq)]
pub struct LocalPackage {
    pub package_data: PackageData,
    pub dependencies: Vec<String>,
    pub pre_remove: Vec<String>,
    pub package_files: Vec<String>,
    pub post_remove: Vec<String>,
}

impl View for PackageData {
    type V = PackageDataView;

    open spec fn view(&self) -> PackageDataView {
        PackageDataView {
            name: self.name@,
            version: self.version@,
            description: self.description@,
        }
    }
}

impl View for RemotePackage {
    type V = RemotePackageView;

    open spec fn view(&self) -> RemotePackageView {
        RemotePackageView {
            package_data: self.package_data@,
            dependencies: self.dependencies.deep_view(),
            pre_install: self.pre_install.deep_view(),
            install: self.install.deep_view(),
            post_install: self.post_install.deep_view(),
            pre_remove: self.pre_remove.deep_view(),
            package_files: self.package_files.deep_view(),
            post_remove: self.post_remove.deep_view(),
        }
    }
}

impl View for LocalPackage {
    type V = LocalPackageView;

    open spec fn view(&self) -> LocalPackageView {
        LocalPackageView {
            package_data: self.package_data@,
            dependencies: self.dependencies.deep_view(),
            pre_remove: self.pre_remove.deep_view(),
            package_files: self.package_files.deep_view(),
            post_remove: self.post_remove.deep_view(),
        }
    }
}

impl DeepView for PackageData {
    type V = PackageDataView;

    open spec fn deep_view(&self) -> PackageDataView {
        self@
    }
}

impl DeepView for RemotePackage {
    type V = RemotePackageView;

    open spec fn deep_view(&self) -> RemotePackageView {
        self@
    }
}

impl DeepView for LocalPackage {
    type V = LocalPackageView;

    open spec fn deep_view(&self) -> LocalPackageView {
        self@
    }
}

/// Copies a list of strings, text for text.
pub fn clone_strings(items: &Vec<String>) -> (copy: Vec<String>)
    ensures
        copy.deep_view() == items.deep_view(),
{
    let copy = items.clone();
    assert(copy.deep_view() =~= items.deep_view());
    copy
}

impl Clone for PackageData {
    fn clone(&self) -> (copy: Self)
        ensures
            copy@ == self@,
    {
        PackageData {
            name: self.name.clone(),
            version: self.version.clone(),
            description: self.description.clone(),
        }
    }
}

impl Clone for RemotePackage {
    fn clone(&self) -> (copy: Self)
        ensures
            copy@ == self@,
    {
        RemotePackage {
            package_data: self.package_data.clone(),
            dependencies: clone_strings(&self.dependencies),
            pre_install: clone_strings(&self.pre_install),
            install: clone_strings(&self.install),
            post_install: clone_strings(&self.post_install),
            pre_remove: clone_strings(&self.pre_remove),
            package_files: clone_strings(&self.package_files),
            post_remove: clone_strings(&self.post_remove),
        }
    }
}

impl Clone for LocalPackage {
    fn clone(&self) -> (copy: Self)
        ensures
            copy@ == self@,
    {
        LocalPackage {
            package_data: self.package_data.clone(),
            dependencies: clone_strings(&self.dependencies),
            pre_remove: clone_strings(&self.pre_remove),
            package_files: clone_strings(&self.package_files),
            post_remove: clone_strings(&self.post_remove),
        }
    }
}

impl RemotePackage {
    /// The record under which the store keeps this package once installed.
    pub fn to_local(&self) -> (local: LocalPackage)
        ensures
            local@ == self@.to_local(),
    {
        LocalPackage {
            package_data: self.package_data.clone(),
            dependencies: clone_strings(&self.dependencies),
            pre_remove: clone_strings(&self.pre_remove),
            package_files: clone_strings(&self.package_files),
            post_remove: clone_strings(&self.post_remove),
        }
    }
}

} // verus!
