use vstd::prelude::*;

use crate::text::{nonempty_lines, split_nonempty_lines, views};
use crate::types::{Ecosystem, PackageMetadata};

verus! {

/// The address of a package's document in the npm registry.
pub fn npm_registry_url(package: &str) -> (url: String)
    ensures
        url@ == "https://registry.npmjs.org/"@ + package@,
{
    let mut url = String::from_str("https://registry.npmjs.org/");
    url.append(package);
    url
}

/// The address at which the Go module proxy names a module's latest version.
pub fn go_latest_url(package: &str) -> (url: String)
    ensures
        url@ == "https://proxy.golang.org/"@ + package@ + "/@latest"@,
{
    let mut url = String::from_str("https://proxy.golang.org/");
    url.append(package);
    url.append("/@latest");
    url
}

/// The address at which the Go module proxy lists a module's versions.
pub fn go_versions_url(package: &str) -> (url: String)
    ensures
        url@ == "https://proxy.golang.org/"@ + package@ + "/@v/list"@,
{
    let mut url = String::from_str("https://proxy.golang.org/");
    url.append(package);
    url.append("/@v/list");
    url
}

/// The metadata of an npm package from the registry's answer: its name (the
/// package asked for when the answer names none), the version tagged latest
/// (`unknown` when none is), and the versions the answer lists.
pub fn npm_metadata(
    package: &str,
    name: Option<String>,
    latest: Option<String>,
    versions: Vec<String>,
) -> (m: PackageMetadata)
    ensures
        m.name@ == (match name {
            Some(n) => n@,
            None => package@,
        }),
        m.latest_version@ == (match latest {
            Some(l) => l@,
            None => "unknown"@,
        }),
        m.ecosystem == Ecosystem::Npm,
        m.versions == versions,
{
    let name = match name {
        Some(n) => n,
        None => String::from_str(package),
    };
    let latest_version = match latest {
        Some(l) => l,
        None => String::from_str("unknown"),
    };
    PackageMetadata { name, ecosystem: Ecosystem::Npm, latest_version, versions }
}

/// The metadata of a Go module from the proxy's answers: the module path,
/// the latest version, and the non-empty lines of the version list.
pub fn go_metadata(package: &str, latest_version: String, versions_text: &str) -> (m: PackageMetadata)
    ensures
        m.name@ == package@,
        m.ecosystem == Ecosystem::Go,
        m.latest_version == latest_version,
        views(m.versions@) == nonempty_lines(versions_text@),
{
    PackageMetadata {
        name: String::from_str(package),
        ecosystem: Ecosystem::Go,
        latest_version,
        versions: split_nonempty_lines(versions_text),
    }
}

} // verus!
