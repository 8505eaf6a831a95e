//! Launcher decisions: installer-versus-CLI mode, the deprecation notice for
//! the legacy `init` subcommand, and the error report the launcher prints.

use vstd::prelude::*;

verus! {

/// The mode a process invocation runs in: as the self-installer, or as the
/// ordinary command-line tool.
#[derive(Clone, Copy, Debug, PartialEq, Eq, Structural)]
pub enum LaunchMode {
    Installer,
    Cli,
}

/// The launcher's plan for one invocation: whether to print the deprecation
/// notice, and which mode to run in.
#[derive(Clone, Copy, Debug, PartialEq, Eq, Structural)]
pub struct LaunchPlan {
    pub warn_init_deprecated: bool,
    pub mode: LaunchMode,
}

/// The reserved executable stem that routes to self-installation.
pub open spec fn spec_installer_stem() -> Seq<char> {
    "wasm-pack-init"@
}

/// The mode an executable stem selects: `Installer` exactly when the stem is
/// the reserved installer name.
pub open spec fn spec_mode(exe_stem: Option<Seq<char>>) -> LaunchMode {
    match exe_stem {
        Some(s) => if s == spec_installer_stem() {
            LaunchMode::Installer
        } else {
            LaunchMode::Cli
        },
        None => LaunchMode::Cli,
    }
}

/// Whether the first command-line argument earns the deprecation notice:
/// exactly when it is the literal `init`.
pub open spec fn spec_warn_init(first_arg: Option<Seq<char>>) -> bool {
    match first_arg {
        Some(a) => a == "init"@,
        None => false,
    }
}

/// The plan one invocation maps to.
pub open spec fn spec_plan_launch(exe_stem: Option<Seq<char>>, first_arg: Option<Seq<char>>) -> LaunchPlan {
    LaunchPlan { warn_init_deprecated: spec_warn_init(first_arg), mode: spec_mode(exe_stem) }
}

/// The view of an optional borrowed string.
pub open spec fn opt_str_view(s: Option<&str>) -> Option<Seq<char>> {
    match s {
        Some(t) => Some(t@),
        None => None,
    }
}

/// Compares two string slices character by character.
fn str_eq(a: &str, b: &str) -> (r: bool)
    ensures
        r <==> a@ == b@,
{
    let a_len = a.unicode_len();
    let b_len = b.unicode_len();
    if a_len != b_len {
        return false;
    }
    let mut i: usize = 0;
    while i < a_len
        invariant
            0 <= i <= a_len,
            a_len == a@.len(),
            b_len == b@.len(),
            a_len == b_len,
            forall|k: int| 0 <= k < i ==> a@[k] == b@[k],
        decreases a_len - i,
    {
        if a.get_char(i) != b.get_char(i) {
            return false;
        }
        i += 1;
    }
    proof {
        assert(a@ =~= b@);
    }
    true
}

/// Decides the launcher's plan from the running executable's file stem and
/// the first command-line argument.
///
/// The deprecation notice fires exactly on the literal first argument
/// `init`, and it never alters the mode; the installer mode is selected
/// exactly by the reserved stem, whatever the arguments are.
pub fn plan_launch(exe_stem: Option<&str>, first_arg: Option<&str>) -> (r: LaunchPlan)
    ensures
        r == spec_plan_launch(opt_str_view(exe_stem), opt_str_view(first_arg)),
{
    let warn = match first_arg {
        Some(a) => str_eq(a, "init"),
        None => false,
    };
    let mode = match exe_stem {
        Some(s) => if str_eq(s, "wasm-pack-init") {
            LaunchMode::Installer
        } else {
            LaunchMode::Cli
        },
        None => LaunchMode::Cli,
    };
    LaunchPlan { warn_init_deprecated: warn, mode: mode }
}

/// An invocation whose executable stem is the reserved installer name runs
/// as the installer, whatever its first argument is: it never reaches normal
/// argument parsing.
pub proof fn lemma_installer_stem_always_installs(first_arg: Option<Seq<char>>)
    ensures
        spec_plan_launch(Some(spec_installer_stem()), first_arg).mode == LaunchMode::Installer,
{
}

/// An invocation whose first argument is the literal `init` always earns
/// the deprecation notice, and the notice never changes the mode the
/// invocation proceeds in: dispatch continues as it would with any other
/// argument.
pub proof fn lemma_init_warns_and_proceeds(exe_stem: Option<Seq<char>>, other_arg: Option<Seq<char>>)
    ensures
        spec_plan_launch(exe_stem, Some("init"@)).warn_init_deprecated,
        spec_plan_launch(exe_stem, Some("init"@)).mode == spec_plan_launch(exe_stem, other_arg).mode,
{
}

/// The one-line deprecation notice for the legacy `init` subcommand.
pub fn init_deprecation_notice() -> (r: String)
    ensures
        r@ == "wasm-pack init is deprecated, consider using wasm-pack build"@,
{
    String::from_str("wasm-pack init is deprecated, consider using wasm-pack build")
}

/// Renders the launcher's error report: the primary message first, then one
/// line per underlying cause, each prefixed with `Caused by: `, innermost
/// first in the order given.
pub fn render_error_report(primary: &str, causes: &Vec<String>) -> (r: Vec<String>)
    ensures
        r@.len() == 1 + causes@.len(),
        r@[0]@ == primary@,
        forall|k: int| 0 <= k < causes@.len() ==> r@[k + 1]@ == "Caused by: "@ + causes@[k]@,
{
    let mut r: Vec<String> = Vec::new();
    r.push(String::from_str(primary));
    let mut i: usize = 0;
    while i < causes.len()
        invariant
            0 <= i <= causes@.len(),
            r@.len() == 1 + i,
            r@[0]@ == primary@,
            forall|k: int| 0 <= k < i ==> r@[k + 1]@ == "Caused by: "@ + causes@[k]@,
        decreases causes@.len() - i,
    {
        r.push(String::from_str("Caused by: ").concat(causes[i].as_str()));
        i += 1;
    }
    r
}

} // verus!
