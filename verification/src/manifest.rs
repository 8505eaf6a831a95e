//! The source manifest: the `[package]` table of a crate's `Cargo.toml`.

use vstd::prelude::*;
use crate::error::PackageError;

verus! {

/// The `[package]` table of the manifest: the five string fields the
/// descriptor needs. All of them must be present in the source text, or
/// parsing fails; no defaults are substituted.
pub struct CargoPackage {
    pub name: String,
    pub description: String,
    pub version: String,
    pub license: String,
    pub repository: String,
}

/// A parsed manifest. It holds exactly one `[package]` table.
pub struct CargoManifest {
    pub package: CargoPackage,
}

/// The mathematical view of a `[package]` table: its five fields as
/// character sequences.
pub ghost struct CargoPackageView {
    pub name: Seq<char>,
    pub description: Seq<char>,
    pub version: Seq<char>,
    pub license: Seq<char>,
    pub repository: Seq<char>,
}

/// The mathematical view of a manifest.
pub ghost struct CargoManifestView {
    pub package: CargoPackageView,
}

impl View for CargoPackage {
    type V = CargoPackageView;

    open spec fn view(&self) -> CargoPackageView {
        CargoPackageView {
            name: self.name@,
            description: self.description@,
            version: self.version@,
            license: self.license@,
            repository: self.repository@,
        }
    }
}

impl View for CargoManifest {
    type V = CargoManifestView;

    open spec fn view(&self) -> CargoManifestView {
        CargoManifestView { package: self.package@ }
    }
}

/// The string stored in a TOML document `text` at key `key` of top-level
/// table `table`: `None` when the text is not a well-formed TOML document,
/// when the table or the key is absent, or when the value there is not a
/// string. The result is a function of the three arguments alone.
pub uninterp spec fn toml_str_at(text: Seq<char>, table: Seq<char>, key: Seq<char>) -> Option<Seq<char>>;

/// Relies on `toml::from_str::<toml::Value>` to parse a TOML document, and on
/// `toml::Value::get` and `toml::Value::as_str` to look up the string at
/// `table`.`key` in it. All three are deterministic functions of their
/// arguments, so the result is `toml_str_at(text@, table@, key@)`.
#[verifier::external_body]
fn toml_string_at(text: &str, table: &str, key: &str) -> (r: Option<String>)
    ensures
        r.deep_view() == toml_str_at(text@, table@, key@),
{
    let value: toml::Value = toml::from_str(text).ok()?;
    let s = value.get(table)?.get(key)?.as_str()?;
    Some(s.to_string())
}

/// What parsing manifest text yields: the five strings under `[package]`,
/// or `ParseError` when any of them is missing.
pub open spec fn spec_parse_manifest(text: Seq<char>) -> Result<CargoManifestView, PackageError> {
    let name = toml_str_at(text, "package"@, "name"@);
    let description = toml_str_at(text, "package"@, "description"@);
    let version = toml_str_at(text, "package"@, "version"@);
    let license = toml_str_at(text, "package"@, "license"@);
    let repository = toml_str_at(text, "package"@, "repository"@);
    match (name, description, version, license, repository) {
        (Some(n), Some(d), Some(v), Some(l), Some(r)) => Ok(CargoManifestView {
            package: CargoPackageView {
                name: n,
                description: d,
                version: v,
                license: l,
                repository: r,
            },
        }),
        _ => Err(PackageError::ParseError),
    }
}

/// What loading a manifest yields: `NotFound` when there was no text to
/// parse (the file was missing or unreadable), else the parse of the text.
pub open spec fn spec_load_manifest(text: Option<Seq<char>>) -> Result<CargoManifestView, PackageError> {
    match text {
        None => Err(PackageError::NotFound),
        Some(t) => spec_parse_manifest(t),
    }
}

/// The view of a parse result, for stating contracts.
pub open spec fn manifest_result_view(r: Result<CargoManifest, PackageError>) -> Result<
    CargoManifestView,
    PackageError,
> {
    match r {
        Ok(m) => Ok(m@),
        Err(e) => Err(e),
    }
}

/// Parses manifest text into a `CargoManifest`.
///
/// Succeeds exactly when the text is a well-formed TOML document whose
/// `[package]` table holds string values for `name`, `description`,
/// `version`, `license` and `repository`; any other text is rejected with
/// `ParseError`.
pub fn parse_manifest(text: &str) -> (r: Result<CargoManifest, PackageError>)
    ensures
        manifest_result_view(r) == spec_parse_manifest(text@),
{
    let name = toml_string_at(text, "package", "name");
    let description = toml_string_at(text, "package", "description");
    let version = toml_string_at(text, "package", "version");
    let license = toml_string_at(text, "package", "license");
    let repository = toml_string_at(text, "package", "repository");
    match (name, description, version, license, repository) {
        (Some(n), Some(d), Some(v), Some(l), Some(r)) => Ok(CargoManifest {
            package: CargoPackage {
                name: n,
                description: d,
                version: v,
                license: l,
                repository: r,
            },
        }),
        _ => Err(PackageError::ParseError),
    }
}

/// Loads a manifest from the text of the manifest file, where `None` stands
/// for a file that was missing or could not be opened.
///
/// A missing file is `NotFound`; text that does not conform to the schema is
/// `ParseError`; anything else is a fully populated manifest.
pub fn load_manifest(text: Option<&str>) -> (r: Result<CargoManifest, PackageError>)
    ensures
        manifest_result_view(r) == spec_load_manifest(
            match text {
                Some(t) => Some(t@),
                None => None,
            },
        ),
{
    match text {
        None => Err(PackageError::NotFound),
        Some(t) => parse_manifest(t),
    }
}

} // verus!
