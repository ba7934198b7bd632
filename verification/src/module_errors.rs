//! Error handling for the module system: user-friendly messages with actionable solutions.

use vstd::prelude::*;
use crate::text::{append_str, owned, push_char};

verus! {

/// Comprehensive error types for module operations.
#[derive(Debug, PartialEq)]
pub enum ModuleError {
    /// Module not found in any of the searched locations.
    ModuleNotFound { module: String, searched_paths: Vec<String> },
    /// Module build failed during compilation.
    BuildFailed { module: String, error: String, suggestions: Vec<String> },
    /// Version mismatch between core and module.
    VersionMismatch {
        module: String,
        core_version: String,
        module_version: String,
        compatibility: CompatibilityLevel,
    },
    /// Required dependency missing for module functionality.
    DependencyMissing { module: String, dependency: String, platform: String, install_cmd: String },
    /// Module not supported on current platform.
    PlatformUnsupported { module: String, platform: String, reason: String, alternatives: Vec<String> },
    /// Module initialization failed.
    InitializationFailed { module: String, error: String },
    /// IO error during module operations.
    IoError { operation: String, path: String, error: String },
}

/// Version compatibility levels.
#[derive(Debug, PartialEq, Eq, Clone, Copy, Structural)]
pub enum CompatibilityLevel {
    /// Same major and minor version: fully compatible.
    Compatible,
    /// Different patch version: should work fine.
    WarningMinor,
    /// Different minor version: may have some issues.
    WarningMajor,
    /// Different major version: likely to have problems.
    Incompatible,
}

/// The name of a level as `{:?}` prints it.
pub open spec fn level_debug_name(c: CompatibilityLevel) -> Seq<char> {
    match c {
        CompatibilityLevel::Compatible => "Compatible"@,
        CompatibilityLevel::WarningMinor => "WarningMinor"@,
        CompatibilityLevel::WarningMajor => "WarningMajor"@,
        CompatibilityLevel::Incompatible => "Incompatible"@,
    }
}

pub open spec fn mismatch_icon(c: CompatibilityLevel) -> Seq<char> {
    match c {
        CompatibilityLevel::Compatible => "✅"@,
        CompatibilityLevel::WarningMinor => "⚠️"@,
        CompatibilityLevel::WarningMajor => "⚠️"@,
        CompatibilityLevel::Incompatible => "❌"@,
    }
}

pub open spec fn mismatch_action(c: CompatibilityLevel) -> Seq<char> {
    match c {
        CompatibilityLevel::Compatible => "No action needed"@,
        CompatibilityLevel::WarningMinor => "Should work fine"@,
        CompatibilityLevel::WarningMajor => "Expect some issues"@,
        CompatibilityLevel::Incompatible => "Will not work"@,
    }
}

/// The items as a bulleted list: each on its own line, prefixed with "  - ".
pub open spec fn bullet_list(items: Seq<Seq<char>>) -> Seq<char>
    decreases items.len(),
{
    if items.len() == 0 {
        Seq::empty()
    } else if items.len() == 1 {
        "  - "@ + items[0]
    } else {
        bullet_list(items.drop_last()) + "\n"@ + "  - "@ + items.last()
    }
}

/// Upper-case form of a string, as `str::to_uppercase` gives it.
pub uninterp spec fn upper_case(s: Seq<char>) -> Seq<char>;

/// `str::to_uppercase`; its result depends on the characters alone and is named
/// `upper_case`, whose Unicode case tables are not written out here.
#[verifier::external_body]
fn to_uppercase(s: &str) -> (r: String)
    ensures
        r@ == upper_case(s@),
{
    s.to_uppercase()
}

/// A TOML parse error, carried through as it is.
#[verifier::external_type_specification]
#[verifier::external_body]
pub struct ExTomlError(toml::de::Error);

/// An I/O error, carried through as it is.
#[verifier::external_type_specification]
#[verifier::external_body]
pub struct ExIoError(std::io::Error);

/// `Display` of `toml::de::Error`: the parser's message with the position it failed at.
/// The text depends on fields of the error that are not visible here, so nothing is
/// stated about it.
#[verifier::external_body]
fn toml_error_text(error: &toml::de::Error) -> String {
    error.to_string()
}

/// `Display` of `std::io::Error`: the operating system's or the caller's description.
/// The text depends on fields of the error that are not visible here, so nothing is
/// stated about it.
#[verifier::external_body]
fn io_error_text(error: &std::io::Error) -> String {
    error.to_string()
}

/// Every '-' replaced by '_'.
pub open spec fn dashes_to_underscores(s: Seq<char>) -> Seq<char> {
    s.map_values(|c: char| if c == '-' { '_' } else { c })
}

/// The name of the environment variable that points at a module.
pub open spec fn env_var_stem(module: Seq<char>) -> Seq<char> {
    dashes_to_underscores(upper_case(module))
}

pub open spec fn strings_view(v: Seq<String>) -> Seq<Seq<char>> {
    v.map_values(|s: String| s@)
}

/// The user-friendly message for an error.
pub open spec fn user_message_spec(e: ModuleError) -> Seq<char> {
    match e {
        ModuleError::ModuleNotFound { module, searched_paths } => "❌ Module '"@ + module@
            + "' not found\n\n🔍 Searched in:\n"@ + bullet_list(strings_view(searched_paths@))
            + "\n\n💡 To fix:\n1. Copy module folder to one of the locations above\n2. Set environment variable:\n   export GREASE_"@
            + env_var_stem(module@) + "_PATH=/path/to/"@ + module@
            + "\n3. Ensure module folder contains Cargo.toml"@,
        ModuleError::BuildFailed { module, error, suggestions } => "❌ Module '"@ + module@
            + "' build failed\n\n🔧 Error: "@ + error@ + "\n\n💡 Suggestions:\n"@ + bullet_list(
            strings_view(suggestions@),
        ) + "\n\n📖 For help, see: docs/TROUBLESHOOTING.md"@,
        ModuleError::VersionMismatch { module, core_version, module_version, compatibility } =>
            mismatch_icon(compatibility) + " Version mismatch: Module '"@ + module@ + "' ("@
            + module_version@ + ") vs Core ("@ + core_version@ + ")\n\n🎯 Compatibility: "@
            + level_debug_name(compatibility) + "\n\n💡 Recommended action: "@ + mismatch_action(
            compatibility,
        ),
        ModuleError::DependencyMissing { module, dependency, platform, install_cmd } =>
            "❌ Missing dependency for '"@ + module@ + "' module\n\n📦 Dependency: '"@ + dependency@
            + "' on "@ + platform@ + "\n\n💡 To install:\n   "@ + install_cmd@
            + "\n\n📖 For platform setup, see: docs/PLATFORM_SETUP.md"@,
        ModuleError::PlatformUnsupported { module, platform, reason, alternatives } =>
            "❌ Module '"@ + module@ + "' not supported on "@ + platform@ + "\n\n🚫 Reason: "@
            + reason@ + "\n\n💡 Alternatives:\n"@ + bullet_list(strings_view(alternatives@))
            + "\n\n📖 For platform support, see: docs/PLATFORM_SETUP.md"@,
        ModuleError::InitializationFailed { module, error } => "❌ Failed to initialize '"@
            + module@ + "' module\n\n🔧 Error: "@ + error@
            + "\n\n💡 Try:\n1. Check module version compatibility\n2. Verify all dependencies are installed\n3. See docs/TROUBLESHOOTING.md"@,
        ModuleError::IoError { operation, path, error } => "❌ IO error during "@ + operation@
            + "\n\n📁 Path: "@ + path@ + "\n\n🔧 Error: "@ + error@
            + "\n\n💡 Check:\n1. File permissions\n2. Disk space\n3. Path validity"@,
    }
}

/// The severity of an error for logging.
pub open spec fn severity_spec(e: ModuleError) -> Seq<char> {
    match e {
        ModuleError::VersionMismatch { compatibility, .. } => match compatibility {
            CompatibilityLevel::Compatible => "info"@,
            CompatibilityLevel::WarningMinor => "warning"@,
            CompatibilityLevel::WarningMajor => "warning"@,
            CompatibilityLevel::Incompatible => "error"@,
        },
        _ => "error"@,
    }
}

/// Appends the items as a bulleted list.
fn append_bullets(s: &mut String, items: &Vec<String>)
    ensures
        final(s)@ == old(s)@ + bullet_list(strings_view(items@)),
{
    let n = items.len();
    let mut i: usize = 0;
    let ghost start = s@;
    assert(strings_view(items@).take(0) =~= Seq::<Seq<char>>::empty());
    while i < n
        invariant
            n == items@.len(),
            i <= n,
            s@ == start + bullet_list(strings_view(items@).take(i as int)),
        decreases n - i,
    {
        let ghost before = s@;
        if i > 0 {
            append_str(s, "\n");
        }
        append_str(s, "  - ");
        append_str(s, items[i].as_str());
        proof {
            let v = strings_view(items@);
            assert(v.take(i + 1).drop_last() =~= v.take(i as int));
            assert(v.take(i + 1).last() == items@[i as int]@);
            if i == 0 {
                assert(bullet_list(v.take(0)) =~= Seq::<char>::empty());
                assert(s@ =~= start + bullet_list(v.take(1)));
            } else {
                assert(s@ =~= start + bullet_list(v.take(i + 1)));
            }
        }
        i = i + 1;
    }
    assert(strings_view(items@).take(n as int) =~= strings_view(items@));
}

/// Replaces every '-' by '_'.
fn replace_dashes(s: &str) -> (r: String)
    ensures
        r@ == dashes_to_underscores(s@),
{
    let n = s.unicode_len();
    let mut r = String::new();
    let mut i: usize = 0;
    while i < n
        invariant
            n == s@.len(),
            i <= n,
            r@ =~= dashes_to_underscores(s@.take(i as int)),
        decreases n - i,
    {
        let c = s.get_char(i);
        if c == '-' {
            push_char(&mut r, '_');
        } else {
            push_char(&mut r, c);
        }
        assert(dashes_to_underscores(s@.take(i + 1)) =~= dashes_to_underscores(s@.take(i as int)).push(
            if c == '-' {
                '_'
            } else {
                c
            },
        ));
        i = i + 1;
    }
    assert(s@.take(n as int) =~= s@);
    r
}

impl ModuleError {
    /// A user-friendly error message with actionable solutions.
    pub fn user_message(&self) -> (r: String)
        ensures
            r@ == user_message_spec(*self),
    {
        match self {
            ModuleError::ModuleNotFound { module, searched_paths } => {
                let mut r = owned("❌ Module '");
                append_str(&mut r, module.as_str());
                append_str(&mut r, "' not found\n\n🔍 Searched in:\n");
                append_bullets(&mut r, searched_paths);
                append_str(
                    &mut r,
                    "\n\n💡 To fix:\n1. Copy module folder to one of the locations above\n2. Set environment variable:\n   export GREASE_",
                );
                let upper = to_uppercase(module.as_str());
                let stem = replace_dashes(upper.as_str());
                append_str(&mut r, stem.as_str());
                append_str(&mut r, "_PATH=/path/to/");
                append_str(&mut r, module.as_str());
                append_str(&mut r, "\n3. Ensure module folder contains Cargo.toml");
                r
            },
            ModuleError::BuildFailed { module, error, suggestions } => {
                let mut r = owned("❌ Module '");
                append_str(&mut r, module.as_str());
                append_str(&mut r, "' build failed\n\n🔧 Error: ");
                append_str(&mut r, error.as_str());
                append_str(&mut r, "\n\n💡 Suggestions:\n");
                append_bullets(&mut r, suggestions);
                append_str(&mut r, "\n\n📖 For help, see: docs/TROUBLESHOOTING.md");
                r
            },
            ModuleError::VersionMismatch { module, core_version, module_version, compatibility } => {
                let (severity, action, name) = match compatibility {
                    CompatibilityLevel::Compatible => ("✅", "No action needed", "Compatible"),
                    CompatibilityLevel::WarningMinor => ("⚠️", "Should work fine", "WarningMinor"),
                    CompatibilityLevel::WarningMajor => ("⚠️", "Expect some issues", "WarningMajor"),
                    CompatibilityLevel::Incompatible => ("❌", "Will not work", "Incompatible"),
                };
                let mut r = owned(severity);
                append_str(&mut r, " Version mismatch: Module '");
                append_str(&mut r, module.as_str());
                append_str(&mut r, "' (");
                append_str(&mut r, module_version.as_str());
                append_str(&mut r, ") vs Core (");
                append_str(&mut r, core_version.as_str());
                append_str(&mut r, ")\n\n🎯 Compatibility: ");
                append_str(&mut r, name);
                append_str(&mut r, "\n\n💡 Recommended action: ");
                append_str(&mut r, action);
                r
            },
            ModuleError::DependencyMissing { module, dependency, platform, install_cmd } => {
                let mut r = owned("❌ Missing dependency for '");
                append_str(&mut r, module.as_str());
                append_str(&mut r, "' module\n\n📦 Dependency: '");
                append_str(&mut r, dependency.as_str());
                append_str(&mut r, "' on ");
                append_str(&mut r, platform.as_str());
                append_str(&mut r, "\n\n💡 To install:\n   ");
                append_str(&mut r, install_cmd.as_str());
                append_str(&mut r, "\n\n📖 For platform setup, see: docs/PLATFORM_SETUP.md");
                r
            },
            ModuleError::PlatformUnsupported { module, platform, reason, alternatives } => {
                let mut r = owned("❌ Module '");
                append_str(&mut r, module.as_str());
                append_str(&mut r, "' not supported on ");
                append_str(&mut r, platform.as_str());
                append_str(&mut r, "\n\n🚫 Reason: ");
                append_str(&mut r, reason.as_str());
                append_str(&mut r, "\n\n💡 Alternatives:\n");
                append_bullets(&mut r, alternatives);
                append_str(&mut r, "\n\n📖 For platform support, see: docs/PLATFORM_SETUP.md");
                r
            },
            ModuleError::InitializationFailed { module, error } => {
                let mut r = owned("❌ Failed to initialize '");
                append_str(&mut r, module.as_str());
                append_str(&mut r, "' module\n\n🔧 Error: ");
                append_str(&mut r, error.as_str());
                append_str(
                    &mut r,
                    "\n\n💡 Try:\n1. Check module version compatibility\n2. Verify all dependencies are installed\n3. See docs/TROUBLESHOOTING.md",
                );
                r
            },
            ModuleError::IoError { operation, path, error } => {
                let mut r = owned("❌ IO error during ");
                append_str(&mut r, operation.as_str());
                append_str(&mut r, "\n\n📁 Path: ");
                append_str(&mut r, path.as_str());
                append_str(&mut r, "\n\n🔧 Error: ");
                append_str(&mut r, error.as_str());
                append_str(&mut r, "\n\n💡 Check:\n1. File permissions\n2. Disk space\n3. Path validity");
                r
            },
        }
    }

    /// The error severity level for logging.
    pub fn severity(&self) -> (r: &'static str)
        ensures
            r@ == severity_spec(*self),
    {
        match self {
            ModuleError::ModuleNotFound { .. } => "error",
            ModuleError::BuildFailed { .. } => "error",
            ModuleError::VersionMismatch { compatibility, .. } => match compatibility {
                CompatibilityLevel::Compatible => "info",
                CompatibilityLevel::WarningMinor => "warning",
                CompatibilityLevel::WarningMajor => "warning",
                CompatibilityLevel::Incompatible => "error",
            },
            ModuleError::DependencyMissing { .. } => "error",
            ModuleError::PlatformUnsupported { .. } => "error",
            ModuleError::InitializationFailed { .. } => "error",
            ModuleError::IoError { .. } => "error",
        }
    }

    /// The error as displayed: its user message.
    pub fn to_display_string(&self) -> (r: String)
        ensures
            r@ == user_message_spec(*self),
    {
        self.user_message()
    }

    /// The underlying cause; a module error never wraps another error.
    pub fn source(&self) -> (r: Option<&ModuleError>)
        ensures
            r is None,
    {
        None
    }

    /// The error for a failed file operation, given the operating system's message.
    pub fn from_io_message(error: String) -> (r: ModuleError)
        ensures
            r matches ModuleError::IoError { operation, path, error: e } && operation@
                == "file operation"@ && path@ == "unknown"@ && e == error,
    {
        ModuleError::IoError { operation: owned("file operation"), path: owned("unknown"), error }
    }

    /// The error for a failed file operation.
    pub fn from_io_error(error: std::io::Error) -> (r: ModuleError)
        ensures
            r matches ModuleError::IoError { operation, path, .. } && operation@
                == "file operation"@ && path@ == "unknown"@,
    {
        let text = io_error_text(&error);
        ModuleError::from_io_message(text)
    }

    /// The error for a module whose `Cargo.toml` could not be parsed.
    pub fn from_toml_error(error: toml::de::Error) -> (r: ModuleError)
        ensures
            r matches ModuleError::BuildFailed { module, suggestions, .. } && module@ == "unknown"@
                && strings_view(suggestions@) == seq![
                "Check Cargo.toml syntax"@,
                "Verify all dependencies are available"@,
                "Ensure Rust version compatibility"@,
            ],
    {
        let text = toml_error_text(&error);
        ModuleError::from_config_message(text)
    }

    /// The error for a module whose configuration could not be read, given the reader's message.
    pub fn from_config_message(error: String) -> (r: ModuleError)
        ensures
            r matches ModuleError::BuildFailed { module, error: e, suggestions } && module@
                == "unknown"@ && e == error && strings_view(suggestions@) == seq![
                "Check Cargo.toml syntax"@,
                "Verify all dependencies are available"@,
                "Ensure Rust version compatibility"@,
            ],
    {
        let mut suggestions: Vec<String> = Vec::new();
        suggestions.push(owned("Check Cargo.toml syntax"));
        suggestions.push(owned("Verify all dependencies are available"));
        suggestions.push(owned("Ensure Rust version compatibility"));
        assert(strings_view(suggestions@) =~= seq![
            "Check Cargo.toml syntax"@,
            "Verify all dependencies are available"@,
            "Ensure Rust version compatibility"@,
        ]);
        ModuleError::BuildFailed { module: owned("unknown"), error, suggestions }
    }
}

} // verus!
