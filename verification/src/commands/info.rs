//! Information on installed packages.

use crate::commands::errors::InfoError;
use crate::db::{find_record, PackagesDb};
use crate::package::{LocalPackage, LocalPackageView};
use vstd::prelude::*;

verus! {

/// The records of the packages of `names`, in order; the first name that is
/// not installed is the failure.
pub open spec fn info_records(records: Seq<LocalPackageView>, names: Seq<Seq<char>>) -> Result<
    Seq<LocalPackageView>,
    Seq<char>,
>
    decreases names.len(),
{
    if names.len() == 0 {
        Ok(Seq::empty())
    } else {
        match info_records(records, names.drop_last()) {
            Err(missing) => Err(missing),
            Ok(found) => match find_record(records, names.last()) {
                None => Err(names.last()),
                Some(record) => Ok(found.push(record)),
            },
        }
    }
}

/// A failure among the first names of a list is the failure of the whole
/// list.
pub proof fn lemma_info_prefix_failure(
    records: Seq<LocalPackageView>,
    names: Seq<Seq<char>>,
    count: int,
)
    requires
        0 <= count <= names.len(),
        info_records(records, names.take(count)) is Err,
    ensures
        info_records(records, names) == info_records(records, names.take(count)),
    decreases names.len() - count,
{
    if count < names.len() {
        assert(names.take(count + 1).drop_last() =~= names.take(count));
        lemma_info_prefix_failure(records, names, count + 1);
    } else {
        assert(names.take(count) =~= names);
    }
}

/// What the store's answer to the question for a package means for a
/// request for information: the record as the store gave it; a package that
/// is not installed is an error that names the package; and the store's
/// error, unchanged, is the request's.
pub fn known<EDatabase>(
    package_name: &str,
    answer: Result<Option<LocalPackage>, EDatabase>,
) -> (result: Result<LocalPackage, InfoError<EDatabase>>)
    ensures
        match answer {
            Ok(Some(package)) => result == Ok::<LocalPackage, InfoError<EDatabase>>(package),
            Ok(None) => result matches Err(InfoError::PackageNotInstalled(name)) && name@
                == package_name@,
            Err(error) => result == Err::<LocalPackage, InfoError<EDatabase>>(
                InfoError::Database(error),
            ),
        },
{
    match answer {
        Ok(Some(package)) => Ok(package),
        Ok(None) => Err(InfoError::PackageNotInstalled(String::from_str(package_name))),
        Err(error) => Err(InfoError::Database(error)),
    }
}

/// The records of the packages of `package_names`, in order, for a caller
/// that shows name, version, description and dependencies of each. A name
/// that is not installed is an error, and nothing is returned.
pub fn package_info<D: PackagesDb>(package_names: Vec<String>, db: &mut D) -> (result: Result<
    Vec<LocalPackage>,
    InfoError<D::GetError>,
>)
    ensures
        final(db).records() == old(db).records(),
        final(db).fault_free() == old(db).fault_free(),
        match result {
            Ok(packages) => info_records(old(db).records(), package_names.deep_view()) == Ok::<
                Seq<LocalPackageView>,
                Seq<char>,
            >(packages.deep_view()),
            Err(InfoError::PackageNotInstalled(name)) => info_records(
                old(db).records(),
                package_names.deep_view(),
            ) == Err::<Seq<LocalPackageView>, Seq<char>>(name@),
            Err(InfoError::Database(_)) => !old(db).fault_free(),
        },
{
    let ghost records = db.records();
    let ghost names = package_names.deep_view();
    let mut found: Vec<LocalPackage> = Vec::new();
    assert(found.deep_view() =~= Seq::<LocalPackageView>::empty());
    let mut i: usize = 0;
    while i < package_names.len()
        invariant
            i <= package_names.len(),
            names == package_names.deep_view(),
            db.records() == records,
            records == old(db).records(),
            db.fault_free() == old(db).fault_free(),
            info_records(records, names.take(i as int)) == Ok::<Seq<LocalPackageView>, Seq<char>>(
                found.deep_view(),
            ),
        decreases package_names.len() - i,
    {
        proof {
            assert(names.take(i + 1).drop_last() =~= names.take(i as int));
            assert(names.take(i + 1).last() == package_names[i as int]@);
        }
        let ghost seen = found.deep_view();
        let answer = db.get_package(package_names[i].as_str());
        match known(package_names[i].as_str(), answer) {
            Ok(package) => {
                found.push(package);
                assert(found.deep_view() =~= seen.push(package@));
            },
            Err(error) => {
                proof {
                    if error is PackageNotInstalled {
                        lemma_info_prefix_failure(records, names, i + 1);
                    }
                }
                return Err(error);
            },
        }
        i += 1;
    }
    assert(names.take(i as int) =~= names);
    Ok(found)
}

} // verus!
