//! The target package descriptor and the author identity that enriches it.

use vstd::prelude::*;
use crate::manifest::CargoManifest;
use crate::manifest::CargoManifestView;

verus! {

/// The `repository` object of the descriptor. Its `ty` field (serialized as
/// `"type"`) is always the literal `"git"`; only the URL comes from the
/// manifest.
pub struct Repository {
    pub ty: String,
    pub url: String,
}

/// The package descriptor: the manifest's fields, the resolved author, and
/// the repository object.
pub struct NpmPackage {
    pub name: String,
    pub description: String,
    pub author: String,
    pub version: String,
    pub license: String,
    pub repository: Repository,
}

/// The mathematical view of a repository object.
pub ghost struct RepositoryView {
    pub ty: Seq<char>,
    pub url: Seq<char>,
}

/// The mathematical view of a package descriptor.
pub ghost struct NpmPackageView {
    pub name: Seq<char>,
    pub description: Seq<char>,
    pub author: Seq<char>,
    pub version: Seq<char>,
    pub license: Seq<char>,
    pub repository: RepositoryView,
}

impl View for Repository {
    type V = RepositoryView;

    open spec fn view(&self) -> RepositoryView {
        RepositoryView { ty: self.ty@, url: self.url@ }
    }
}

impl View for NpmPackage {
    type V = NpmPackageView;

    open spec fn view(&self) -> NpmPackageView {
        NpmPackageView {
            name: self.name@,
            description: self.description@,
            author: self.author@,
            version: self.version@,
            license: self.license@,
            repository: self.repository@,
        }
    }
}

/// The descriptor a manifest and an author map to: the identity on
/// `name`, `description`, `version` and `license`; the repository URL taken
/// verbatim; the repository type hard-coded to `"git"`.
pub open spec fn spec_build_package(m: CargoManifestView, author: Seq<char>) -> NpmPackageView {
    NpmPackageView {
        name: m.package.name,
        description: m.package.description,
        author: author,
        version: m.package.version,
        license: m.package.license,
        repository: RepositoryView { ty: "git"@, url: m.package.repository },
    }
}

impl CargoManifest {
    /// Builds the package descriptor from this manifest and a resolved
    /// author identity. Pure: the result is a function of the two arguments
    /// alone, and `repository.ty` is always `"git"`.
    pub fn into_npm(self, author: String) -> (r: NpmPackage)
        ensures
            r@ == spec_build_package(self@, author@),
            r@.repository.ty == "git"@,
    {
        NpmPackage {
            name: self.package.name,
            description: self.package.description,
            author: author,
            version: self.package.version,
            license: self.package.license,
            repository: Repository { ty: String::from_str("git"), url: self.package.repository },
        }
    }
}

/// The author identity two configured fields map to: empty when both are
/// empty, else `"{name} <{email}>"`, even when one of the two is itself
/// empty.
pub open spec fn spec_author(name: Seq<char>, email: Seq<char>) -> Seq<char> {
    if name.len() == 0 && email.len() == 0 {
        Seq::<char>::empty()
    } else {
        name + " <"@ + email + ">"@
    }
}

/// The author identity a configuration lookup maps to: empty when the
/// per-user configuration could not be read at all.
pub open spec fn spec_author_from_config(cfg: Option<(Seq<char>, Seq<char>)>) -> Seq<char> {
    match cfg {
        None => Seq::<char>::empty(),
        Some((name, email)) => spec_author(name, email),
    }
}

/// Formats the author identity from the two configured fields.
pub fn format_author(name: &str, email: &str) -> (r: String)
    ensures
        r@ == spec_author(name@, email@),
{
    if name.is_empty() && email.is_empty() {
        String::new()
    } else {
        String::from_str(name).concat(" <").concat(email).concat(">")
    }
}

/// Derives the author identity from an optional pair of configured fields,
/// where `None` stands for a configuration store that was missing or
/// unreadable. Never fails: every failure upstream maps to the empty string.
pub fn author_from_config(cfg: Option<(String, String)>) -> (r: String)
    ensures
        r@ == spec_author_from_config(config_view(cfg)),
{
    match cfg {
        None => String::new(),
        Some((name, email)) => format_author(name.as_str(), email.as_str()),
    }
}

/// The view of an optional pair of configured author fields.
pub open spec fn config_view(cfg: Option<(String, String)>) -> Option<(Seq<char>, Seq<char>)> {
    match cfg {
        None => None,
        Some((name, email)) => Some((name@, email@)),
    }
}

/// Relies on `npmrc::read`, which reads the per-user npm configuration file
/// from the user's home directory. What comes back depends on the machine's
/// state, so nothing is assumed of the two fields beyond their presence;
/// a configuration that cannot be read is `None`.
#[verifier::external_body]
fn read_npm_config() -> (r: Option<(String, String)>) {
    let data = npmrc::read().ok()?;
    Some((data.init_author_name, data.init_author_email))
}

/// Resolves the author identity from the per-user npm configuration.
///
/// Never fails: whatever the configuration store holds, the result is the
/// author identity some configuration lookup maps to — in particular, it is
/// empty whenever the store is unreadable or both fields are empty.
pub fn resolve_author() -> (r: String)
    ensures
        exists|cfg: Option<(Seq<char>, Seq<char>)>| r@ == spec_author_from_config(cfg),
{
    let cfg = read_npm_config();
    let ghost cfg_v = config_view(cfg);
    let r = author_from_config(cfg);
    proof {
        assert(r@ == spec_author_from_config(cfg_v));
    }
    r
}

} // verus!
