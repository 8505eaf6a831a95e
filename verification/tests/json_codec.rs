use wasm_pack::json::parse_package_json;
use wasm_pack::json::to_package_json;
use wasm_pack::npm::NpmPackage;
use wasm_pack::npm::Repository;

fn descriptor(name: &str, description: &str, author: &str) -> NpmPackage {
    NpmPackage {
        name: String::from(name),
        description: String::from(description),
        author: String::from(author),
        version: String::from("1.2.3"),
        license: String::from("MIT/Apache-2.0"),
        repository: Repository {
            ty: String::from("git"),
            url: String::from("https://example.com/r.git"),
        },
    }
}

fn assert_round_trip(p: &NpmPackage) {
    let encoded = to_package_json(p);
    let back = parse_package_json(&encoded).expect("an encoded descriptor decodes");
    assert_eq!(back.name, p.name);
    assert_eq!(back.description, p.description);
    assert_eq!(back.author, p.author);
    assert_eq!(back.version, p.version);
    assert_eq!(back.license, p.license);
    assert_eq!(back.repository.ty, p.repository.ty);
    assert_eq!(back.repository.url, p.repository.url);
}

#[test]
fn round_trip_plain_descriptor() {
    assert_round_trip(&descriptor("foo", "a plain description", "me <me@example.com>"));
}

#[test]
fn round_trip_escaped_characters() {
    assert_round_trip(&descriptor(
        "quote\" and backslash\\",
        "line\nbreak\ttab\rreturn",
        "control\u{1}\u{8}\u{c}\u{1f} and unicod\u{e9} \u{4e2d}",
    ));
}

#[test]
fn encoding_matches_conforming_decoder() {
    // serde_json is an independent, conforming JSON decoder: whatever this
    // crate encodes, it must read back with every string preserved.
    let p = descriptor("na\"me\\", "desc\nwith\u{1f} controls", "a <b>");
    let encoded = to_package_json(&p);
    let v: serde_json::Value = serde_json::from_str(&encoded).expect("the encoding is valid JSON");
    assert_eq!(v.get("name").and_then(|x| x.as_str()), Some(p.name.as_str()));
    assert_eq!(v.get("description").and_then(|x| x.as_str()), Some(p.description.as_str()));
    assert_eq!(v.get("author").and_then(|x| x.as_str()), Some(p.author.as_str()));
    assert_eq!(v.get("version").and_then(|x| x.as_str()), Some(p.version.as_str()));
    assert_eq!(v.get("license").and_then(|x| x.as_str()), Some(p.license.as_str()));
    let repo = v.get("repository").expect("the repository object is present");
    assert_eq!(repo.get("type").and_then(|x| x.as_str()), Some("git"));
    assert_eq!(repo.get("url").and_then(|x| x.as_str()), Some(p.repository.url.as_str()));
}

#[test]
fn encoding_is_compact_and_ordered() {
    let p = descriptor("foo", "d", "");
    assert_eq!(
        to_package_json(&p),
        "{\"name\":\"foo\",\"description\":\"d\",\"author\":\"\",\"version\":\"1.2.3\",\"license\":\"MIT/Apache-2.0\",\"repository\":{\"type\":\"git\",\"url\":\"https://example.com/r.git\"}}"
    );
}

#[test]
fn control_characters_use_unicode_escapes() {
    let p = descriptor("a\u{1f}b", "d", "");
    let encoded = to_package_json(&p);
    assert!(encoded.contains("a\\u001fb"));
}

#[test]
fn decoder_rejects_non_descriptors() {
    assert!(parse_package_json("").is_none());
    assert!(parse_package_json("{}").is_none());
    assert!(parse_package_json("{\"name\":\"foo\"}").is_none());
    assert!(parse_package_json("{\"name\":\"unterminated").is_none());
    let p = descriptor("foo", "d", "");
    let mut trailing = to_package_json(&p);
    trailing.push(' ');
    assert!(parse_package_json(&trailing).is_none());
}
