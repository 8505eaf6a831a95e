use wasm_pack::error::PackageError;
use wasm_pack::launcher::init_deprecation_notice;
use wasm_pack::launcher::plan_launch;
use wasm_pack::launcher::render_error_report;
use wasm_pack::launcher::LaunchMode;
use wasm_pack::npm::resolve_author;

#[test]
fn installer_stem_always_selects_installer() {
    for arg in [None, Some("build"), Some("init"), Some("--help")] {
        let plan = plan_launch(Some("wasm-pack-init"), arg);
        assert_eq!(plan.mode, LaunchMode::Installer);
    }
}

#[test]
fn other_stems_select_cli() {
    assert_eq!(plan_launch(Some("wasm-pack"), Some("build")).mode, LaunchMode::Cli);
    assert_eq!(plan_launch(Some("wasm-pack-init2"), None).mode, LaunchMode::Cli);
    assert_eq!(plan_launch(None, Some("build")).mode, LaunchMode::Cli);
}

#[test]
fn init_argument_warns_and_still_proceeds() {
    let plan = plan_launch(Some("wasm-pack"), Some("init"));
    assert!(plan.warn_init_deprecated);
    assert_eq!(plan.mode, LaunchMode::Cli);
    let plan = plan_launch(Some("wasm-pack"), Some("build"));
    assert!(!plan.warn_init_deprecated);
    let plan = plan_launch(Some("wasm-pack"), None);
    assert!(!plan.warn_init_deprecated);
}

#[test]
fn deprecation_notice_text() {
    assert_eq!(
        init_deprecation_notice(),
        "wasm-pack init is deprecated, consider using wasm-pack build"
    );
}

#[test]
fn error_report_lists_causes_in_order() {
    let causes = vec![String::from("inner"), String::from("outer")];
    let report = render_error_report("it failed", &causes);
    assert_eq!(report.len(), 3);
    assert_eq!(report[0], "it failed");
    assert_eq!(report[1], "Caused by: inner");
    assert_eq!(report[2], "Caused by: outer");
    let bare = render_error_report("just this", &Vec::new());
    assert_eq!(bare.len(), 1);
    assert_eq!(bare[0], "just this");
}

#[test]
fn error_messages_name_their_condition() {
    assert_eq!(PackageError::NotFound.message(), "missing a `Cargo.toml`");
    assert_eq!(PackageError::ParseError.message(), "`Cargo.toml` does not describe a package");
    assert_eq!(PackageError::IoError.message(), "failed to write the package descriptor");
    assert_eq!(
        PackageError::SerializationError.message(),
        "failed to encode the package descriptor"
    );
}

#[test]
fn resolved_author_is_empty_or_formatted() {
    // The per-user configuration store on this machine may or may not hold
    // author fields; either way the result has the promised shape.
    let author = resolve_author();
    assert!(author.is_empty() || (author.contains(" <") && author.ends_with('>')));
}
