use wasm_pack::error::PackageError;
use wasm_pack::json::to_package_json;
use wasm_pack::manifest::load_manifest;
use wasm_pack::manifest::parse_manifest;
use wasm_pack::manifest::CargoManifest;
use wasm_pack::manifest::CargoPackage;
use wasm_pack::npm::author_from_config;
use wasm_pack::npm::format_author;

const MANIFEST_TEXT: &str = "[package]\nname = \"foo\"\ndescription = \"d\"\nversion = \"0.1.0\"\nlicense = \"MIT\"\nrepository = \"https://example.com/foo.git\"\n";

fn sample_manifest() -> CargoManifest {
    CargoManifest {
        package: CargoPackage {
            name: String::from("foo"),
            description: String::from("d"),
            version: String::from("0.1.0"),
            license: String::from("MIT"),
            repository: String::from("https://example.com/foo.git"),
        },
    }
}

#[test]
fn build_is_pure_and_deterministic() {
    let a = sample_manifest().into_npm(String::from("me <me@example.com>"));
    let b = sample_manifest().into_npm(String::from("me <me@example.com>"));
    assert_eq!(a.name, b.name);
    assert_eq!(a.description, b.description);
    assert_eq!(a.author, b.author);
    assert_eq!(a.version, b.version);
    assert_eq!(a.license, b.license);
    assert_eq!(a.repository.ty, b.repository.ty);
    assert_eq!(a.repository.url, b.repository.url);
    assert_eq!(to_package_json(&a), to_package_json(&b));
}

#[test]
fn repository_type_is_always_git() {
    let pkg = sample_manifest().into_npm(String::new());
    assert_eq!(pkg.repository.ty, "git");
    let mut other = sample_manifest();
    other.package.repository = String::from("svn://example.com/foo");
    let pkg = other.into_npm(String::new());
    assert_eq!(pkg.repository.ty, "git");
    assert_eq!(pkg.repository.url, "svn://example.com/foo");
}

#[test]
fn author_is_empty_without_configuration() {
    assert_eq!(author_from_config(None), "");
    assert_eq!(author_from_config(Some((String::new(), String::new()))), "");
    assert_eq!(format_author("", ""), "");
}

#[test]
fn author_formats_name_and_email() {
    assert_eq!(
        author_from_config(Some((String::from("Ada Lovelace"), String::from("ada@example.com")))),
        "Ada Lovelace <ada@example.com>"
    );
    assert_eq!(format_author("Ada Lovelace", "ada@example.com"), "Ada Lovelace <ada@example.com>");
    // One empty field still formats: the contract is best-effort.
    assert_eq!(format_author("Ada Lovelace", ""), "Ada Lovelace <>");
    assert_eq!(format_author("", "ada@example.com"), " <ada@example.com>");
}

#[test]
fn missing_manifest_is_not_found() {
    match load_manifest(None) {
        Err(PackageError::NotFound) => {}
        _ => panic!("a missing manifest file must map to NotFound"),
    }
}

#[test]
fn malformed_manifest_is_parse_error() {
    match parse_manifest("this is not toml [") {
        Err(PackageError::ParseError) => {}
        _ => panic!("malformed text must map to ParseError"),
    }
    match parse_manifest("[package]\nname = \"foo\"\n") {
        Err(PackageError::ParseError) => {}
        _ => panic!("a manifest missing required fields must map to ParseError"),
    }
    match parse_manifest("[package]\nname = 3\ndescription = \"d\"\nversion = \"v\"\nlicense = \"l\"\nrepository = \"r\"\n") {
        Err(PackageError::ParseError) => {}
        _ => panic!("a non-string field must map to ParseError"),
    }
}

#[test]
fn manifest_fields_are_read_verbatim() {
    let m = parse_manifest(MANIFEST_TEXT).expect("the sample manifest parses");
    assert_eq!(m.package.name, "foo");
    assert_eq!(m.package.description, "d");
    assert_eq!(m.package.version, "0.1.0");
    assert_eq!(m.package.license, "MIT");
    assert_eq!(m.package.repository, "https://example.com/foo.git");
}

#[test]
fn end_to_end_descriptor_text() {
    let m = load_manifest(Some(MANIFEST_TEXT)).expect("the sample manifest loads");
    let pkg = m.into_npm(author_from_config(None));
    let json = to_package_json(&pkg);
    assert_eq!(
        json,
        "{\"name\":\"foo\",\"description\":\"d\",\"author\":\"\",\"version\":\"0.1.0\",\"license\":\"MIT\",\"repository\":{\"type\":\"git\",\"url\":\"https://example.com/foo.git\"}}"
    );
}
