//! Detection of Grease modules (UI and WebAssembly) among candidate locations.
//!
//! Modules are searched in this priority order:
//! 1. Same directory: ./grease-ui, ./grease-webassembly
//! 2. Parent directory: ../grease-ui, ../grease-webassembly
//! 3. Subdirectory: ./modules/grease-ui, ./modules/grease-webassembly
//! 4. Lib directory: ./lib/grease-ui, ./lib/grease-webassembly
//! 5. Custom paths: the GREASE_UI_PATH and GREASE_WASM_PATH environment variables
//!
//! What the file system holds at each candidate is gathered by the caller and handed
//! in as a `ModuleProbe`; the decisions are made here.

use vstd::prelude::*;
use crate::module_errors::ModuleError;
use crate::text::{
    owned, split_char, split_on, starts_with, starts_with_spec, substring, trim,
    trim_char, trim_char_spec, trim_spec,
};

verus! {

/// Module information and location.
#[derive(Debug, Clone)]
pub struct ModuleInfo {
    pub name: String,
    pub path: String,
    pub version: Option<String>,
    pub available: bool,
}

/// What was found at one candidate location of a module.
#[derive(Debug, Clone)]
pub struct ModuleProbe {
    /// The candidate path, as searched.
    pub path: String,
    /// Whether a directory exists there.
    pub dir_exists: bool,
    /// Whether it holds a Cargo.toml.
    pub manifest_exists: bool,
    /// The text of that Cargo.toml, when it could be read.
    pub manifest_text: Option<String>,
}

/// Module loader state: the modules found, the platform, and the paths searched.
pub struct ModuleLoader {
    pub ui_module: Option<ModuleInfo>,
    pub wasm_module: Option<ModuleInfo>,
    pub platform: Platform,
    pub searched_paths: Vec<String>,
}

/// Supported target platforms.
#[derive(Debug, Clone, Copy, PartialEq, Eq, Structural)]
pub enum Platform {
    Linux,
    MacOS,
    Windows,
    Android,
    WebAssembly,
    Unknown,
}

pub open spec fn platform_name_spec(p: Platform) -> Seq<char> {
    match p {
        Platform::Linux => "Linux"@,
        Platform::MacOS => "macOS"@,
        Platform::Windows => "Windows"@,
        Platform::Android => "Android"@,
        Platform::WebAssembly => "WebAssembly"@,
        Platform::Unknown => "Unknown"@,
    }
}

/// The platform of a compilation target, given its operating system and architecture
/// names as `std::env::consts::OS` and `ARCH` spell them.
pub open spec fn platform_of_target(os: Seq<char>, arch: Seq<char>) -> Platform {
    if os == "linux"@ {
        Platform::Linux
    } else if os == "macos"@ {
        Platform::MacOS
    } else if os == "windows"@ {
        Platform::Windows
    } else if os == "android"@ {
        Platform::Android
    } else if arch == "wasm32"@ {
        Platform::WebAssembly
    } else {
        Platform::Unknown
    }
}

impl Platform {
    /// The platform's display name.
    pub fn to_string(&self) -> (r: String)
        ensures
            r@ == platform_name_spec(*self),
    {
        match self {
            Platform::Linux => owned("Linux"),
            Platform::MacOS => owned("macOS"),
            Platform::Windows => owned("Windows"),
            Platform::Android => owned("Android"),
            Platform::WebAssembly => owned("WebAssembly"),
            Platform::Unknown => owned("Unknown"),
        }
    }
}

/// A line of text as `str::lines` yields it: without a trailing carriage return.
pub open spec fn strip_cr(line: Seq<char>) -> Seq<char> {
    if line.len() > 0 && line.last() == '\r' {
        line.drop_last()
    } else {
        line
    }
}

/// Whether a line declares the package version.
pub open spec fn is_version_line(line: Seq<char>) -> bool {
    starts_with_spec(trim_spec(strip_cr(line)), "version = "@)
}

/// The quoted value of a version line.
pub open spec fn version_of_line(line: Seq<char>) -> Seq<char> {
    trim_char_spec(trim_spec(strip_cr(line)).skip("version = "@.len() as int), '"')
}

/// The version declared by the first version line among `lines`.
pub open spec fn first_version(lines: Seq<Seq<char>>) -> Option<Seq<char>>
    decreases lines.len(),
{
    if lines.len() == 0 {
        None
    } else if is_version_line(lines[0]) {
        Some(version_of_line(lines[0]))
    } else {
        first_version(lines.drop_first())
    }
}

/// The version that a Cargo.toml text declares: the value of its first line that starts,
/// after trimming, with "version = ", without surrounding quotes.
/// (Splitting at every newline yields the same first match as `str::lines`, since the
/// empty piece after a final newline is never a version line.)
pub open spec fn manifest_version_spec(text: Seq<char>) -> Option<Seq<char>> {
    first_version(split_on(text, '\n'))
}

pub open spec fn opt_string_view(o: Option<String>) -> Option<Seq<char>> {
    match o {
        Some(s) => Some(s@),
        None => None,
    }
}

/// Whether a candidate location holds a module.
pub open spec fn probe_is_module(p: ModuleProbe) -> bool {
    trim_spec(p.path@).len() > 0 && p.dir_exists && p.manifest_exists
}

/// The index of the first candidate that holds a module, or the number of candidates.
pub open spec fn first_module_probe(probes: Seq<ModuleProbe>) -> nat
    decreases probes.len(),
{
    if probes.len() == 0 {
        0
    } else if probe_is_module(probes[0]) {
        0
    } else {
        1 + first_module_probe(probes.drop_first())
    }
}

proof fn lemma_first_module_probe(probes: Seq<ModuleProbe>)
    ensures
        first_module_probe(probes) <= probes.len(),
        first_module_probe(probes) < probes.len() ==> probe_is_module(
            probes[first_module_probe(probes) as int],
        ),
        forall|j: int| 0 <= j < first_module_probe(probes) ==> !probe_is_module(#[trigger] probes[j]),
    decreases probes.len(),
{
    if probes.len() > 0 && !probe_is_module(probes[0]) {
        lemma_first_module_probe(probes.drop_first());
        assert forall|j: int| 0 <= j < first_module_probe(probes) implies !probe_is_module(
            #[trigger] probes[j],
        ) by {
            if j > 0 {
                assert(probes[j] == probes.drop_first()[j - 1]);
            }
        }
    }
}

/// The module found for `name`: the first candidate that holds a module, with the version
/// its Cargo.toml declares when the text could be read.
pub open spec fn found_module(name: Seq<char>, probes: Seq<ModuleProbe>, m: Option<ModuleInfo>) -> bool {
    let i = first_module_probe(probes);
    if i < probes.len() {
        m matches Some(info) && info.name@ == name && info.path@ == probes[i as int].path@
            && info.available && opt_string_view(info.version) == match probes[i as int].manifest_text {
            Some(t) => manifest_version_spec(t@),
            None => None,
        }
    } else {
        m is None
    }
}

/// The candidate locations of a module, in search order, ending with the custom path.
pub open spec fn search_paths_spec(dir: Seq<char>, custom: Seq<char>) -> Seq<Seq<char>> {
    seq!["./"@ + dir, "../"@ + dir, "./modules/"@ + dir, "./lib/"@ + dir, custom]
}

pub open spec fn ui_search_paths_spec(custom: Seq<char>) -> Seq<Seq<char>> {
    seq!["./grease-ui"@, "../grease-ui"@, "./modules/grease-ui"@, "./lib/grease-ui"@, custom]
}

pub open spec fn wasm_search_paths_spec(custom: Seq<char>) -> Seq<Seq<char>> {
    seq![
        "./grease-webassembly"@,
        "../grease-webassembly"@,
        "./modules/grease-webassembly"@,
        "./lib/grease-webassembly"@,
        custom,
    ]
}

/// The library files whose presence means GTK is installed.
pub open spec fn gtk_paths_spec() -> Seq<Seq<char>> {
    seq![
        "/usr/lib/x86_64-linux-gnu/libgtk-3.so"@,
        "/usr/lib/libgtk-3.so"@,
        "/usr/local/lib/libgtk-3.so"@,
    ]
}

/// The directories whose presence means the MSVC runtime is installed.
pub open spec fn msvc_paths_spec() -> Seq<Seq<char>> {
    seq![
        "C:\\Program Files (x86)\\Microsoft Visual Studio\\2019\\VC\\Redist\\MSVC\\v142"@,
        "C:\\Program Files\\Microsoft Visual Studio\\2022\\VC\\Redist\\MSVC\\v143"@,
    ]
}

pub open spec fn strings_view(v: Seq<String>) -> Seq<Seq<char>> {
    v.map_values(|s: String| s@)
}

/// The warnings about platform prerequisites, given whether GTK and MSVC are installed.
pub open spec fn platform_warnings_spec(
    platform: Platform,
    has_ui: bool,
    gtk_available: bool,
    msvc_available: bool,
) -> Seq<Seq<char>> {
    match platform {
        Platform::Linux => if has_ui && !gtk_available {
            seq![
                "⚠️  UI module requires GTK libraries on Linux. Install with: sudo apt install libgtk-3-dev"@,
            ]
        } else {
            Seq::empty()
        },
        Platform::Windows => if has_ui && !msvc_available && !gtk_available {
            seq![
                "⚠️  UI module requires MSVC or GTK on Windows. Install with: vcpkg install gtk3:x64-windows"@,
            ]
        } else {
            Seq::empty()
        },
        Platform::Android => if has_ui {
            seq![
                "⚠️  UI module on Android requires NDK setup. Set ANDROID_NDK_ROOT environment variable"@,
            ]
        } else {
            Seq::empty()
        },
        Platform::WebAssembly => if has_ui {
            seq!["🌐 Web UI will use WebAssembly backend for performance"@]
        } else {
            Seq::empty()
        },
        _ => Seq::empty(),
    }
}

/// Removes one trailing carriage return.
fn strip_trailing_cr(s: &str) -> (r: String)
    ensures
        r@ == strip_cr(s@),
{
    let n = s.unicode_len();
    if n > 0 && s.get_char(n - 1) == '\r' {
        substring(s, 0, n - 1)
    } else {
        substring(s, 0, n)
    }
}

fn vec_of(items: &[&str]) -> (r: Vec<String>)
    ensures
        strings_view(r@) == items@.map_values(|s: &str| s@),
{
    let mut r: Vec<String> = Vec::new();
    let n = items.len();
    let mut i: usize = 0;
    while i < n
        invariant
            n == items@.len(),
            i <= n,
            strings_view(r@) =~= items@.take(i as int).map_values(|s: &str| s@),
        decreases n - i,
    {
        let ghost before = r@;
        r.push(owned(items[i]));
        assert(strings_view(r@) =~= strings_view(before).push(items@[i as int]@));
        assert(items@.take(i + 1) =~= items@.take(i as int).push(items@[i as int]));
        i = i + 1;
    }
    assert(items@.take(n as int) =~= items@);
    r
}

impl ModuleLoader {
    /// The version that a Cargo.toml text declares, if it declares one.
    pub fn extract_module_version(content: &str) -> (r: Option<String>)
        ensures
            opt_string_view(r) == manifest_version_spec(content@),
    {
        let lines = split_char(content, '\n');
        let ghost lv = lines@.map_values(|p: String| p@);
        let prefix = "version = ";
        let plen = prefix.unicode_len();
        let n = lines.len();
        let mut i: usize = 0;
        assert(lv.skip(0) =~= lv);
        while i < n
            invariant
                n == lines@.len(),
                lv == lines@.map_values(|p: String| p@),
                lv == split_on(content@, '\n'),
                plen == prefix@.len(),
                prefix@ == "version = "@,
                i <= n,
                first_version(lv) == first_version(lv.skip(i as int)),
            decreases n - i,
        {
            let line = strip_trailing_cr(lines[i].as_str());
            let t = trim(line.as_str());
            let ghost rest_lines = lv.skip(i as int);
            assert(rest_lines[0] == lines@[i as int]@);
            assert(t@ == trim_spec(strip_cr(rest_lines[0])));
            if starts_with(t.as_str(), prefix) {
                let rest = substring(t.as_str(), plen, t.unicode_len());
                let v = trim_char(rest.as_str(), '"');
                assert(rest@ =~= t@.skip(plen as int));
                assert(is_version_line(rest_lines[0]));
                assert(first_version(rest_lines) == Some(version_of_line(rest_lines[0])));
                return Some(v);
            }
            assert(!is_version_line(rest_lines[0]));
            assert(lv.skip(i as int).drop_first() =~= lv.skip(i + 1));
            i = i + 1;
        }
        None
    }

    /// Finds a module among its candidate locations: the first candidate with a non-blank
    /// path whose directory exists and holds a Cargo.toml.
    pub fn find_module(name: &str, probes: &[ModuleProbe]) -> (r: Result<Option<ModuleInfo>, ModuleError>)
        ensures
            r matches Ok(m) && found_module(name@, probes@, m),
    {
        proof {
            lemma_first_module_probe(probes@);
        }
        let n = probes.len();
        let mut i: usize = 0;
        while i < n
            invariant
                n == probes@.len(),
                i <= n,
                i <= first_module_probe(probes@),
                first_module_probe(probes@) <= probes@.len(),
                first_module_probe(probes@) < probes@.len() ==> probe_is_module(
                    probes@[first_module_probe(probes@) as int],
                ),
                forall|j: int|
                    0 <= j < first_module_probe(probes@) ==> !probe_is_module(#[trigger] probes@[j]),
            decreases n - i,
        {
            let p = &probes[i];
            let blank = trim(p.path.as_str()).unicode_len() == 0;
            if !blank && p.dir_exists && p.manifest_exists {
                assert(probe_is_module(probes@[i as int]));
                let version = match &p.manifest_text {
                    Some(t) => ModuleLoader::extract_module_version(t.as_str()),
                    None => None,
                };
                return Ok(
                    Some(
                        ModuleInfo {
                            name: owned(name),
                            path: p.path.clone(),
                            version,
                            available: true,
                        },
                    ),
                );
            }
            i = i + 1;
        }
        Ok(None)
    }

    /// The candidate locations of the UI module, ending with the custom path.
    pub fn ui_search_paths(custom: &str) -> (r: Vec<String>)
        ensures
            strings_view(r@) == ui_search_paths_spec(custom@),
    {
        let r = vec_of(
            &["./grease-ui", "../grease-ui", "./modules/grease-ui", "./lib/grease-ui", custom],
        );
        proof {
            let s = seq!["./grease-ui", "../grease-ui", "./modules/grease-ui", "./lib/grease-ui", custom];
            assert(s.map_values(|x: &str| x@) =~= ui_search_paths_spec(custom@));
        }
        r
    }

    /// The candidate locations of the WebAssembly module, ending with the custom path.
    pub fn wasm_search_paths(custom: &str) -> (r: Vec<String>)
        ensures
            strings_view(r@) == wasm_search_paths_spec(custom@),
    {
        let r = vec_of(
            &[
                "./grease-webassembly",
                "../grease-webassembly",
                "./modules/grease-webassembly",
                "./lib/grease-webassembly",
                custom,
            ],
        );
        proof {
            let s = seq![
                "./grease-webassembly",
                "../grease-webassembly",
                "./modules/grease-webassembly",
                "./lib/grease-webassembly",
                custom,
            ];
            assert(s.map_values(|x: &str| x@) =~= wasm_search_paths_spec(custom@));
        }
        r
    }

    /// Builds the loader from what was found at each module's candidate locations.
    /// `ui_custom` and `wasm_custom` are the values of GREASE_UI_PATH and GREASE_WASM_PATH
    /// (empty when unset).
    pub fn new(
        platform: Platform,
        ui_custom: &str,
        wasm_custom: &str,
        ui_probes: &[ModuleProbe],
        wasm_probes: &[ModuleProbe],
    ) -> (r: Result<ModuleLoader, ModuleError>)
        ensures
            r matches Ok(l) && l.platform == platform && found_module(
                "grease-ui"@,
                ui_probes@,
                l.ui_module,
            ) && found_module("grease-webassembly"@, wasm_probes@, l.wasm_module) && strings_view(
                l.searched_paths@,
            ) == ui_search_paths_spec(ui_custom@) + wasm_search_paths_spec(wasm_custom@),
    {
        let ui_module = match ModuleLoader::find_module("grease-ui", ui_probes) {
            Ok(m) => m,
            Err(e) => {
                return Err(e);
            },
        };
        let wasm_module = match ModuleLoader::find_module("grease-webassembly", wasm_probes) {
            Ok(m) => m,
            Err(e) => {
                return Err(e);
            },
        };
        let mut searched_paths = ModuleLoader::ui_search_paths(ui_custom);
        let mut rest = ModuleLoader::wasm_search_paths(wasm_custom);
        let ghost a = searched_paths@;
        let ghost b = rest@;
        searched_paths.append(&mut rest);
        assert(strings_view(searched_paths@) =~= strings_view(a) + strings_view(b));
        Ok(ModuleLoader { ui_module, wasm_module, platform, searched_paths })
    }

    /// The platform of the compilation target, given `std::env::consts::OS` and `ARCH`.
    pub fn detect_platform(os: &str, arch: &str) -> (r: Platform)
        ensures
            r == platform_of_target(os@, arch@),
    {
        if crate::text::str_eq(os, "linux") {
            Platform::Linux
        } else if crate::text::str_eq(os, "macos") {
            Platform::MacOS
        } else if crate::text::str_eq(os, "windows") {
            Platform::Windows
        } else if crate::text::str_eq(os, "android") {
            Platform::Android
        } else if crate::text::str_eq(arch, "wasm32") {
            Platform::WebAssembly
        } else {
            Platform::Unknown
        }
    }

    /// The warnings about platform prerequisites, given whether GTK and MSVC are installed.
    pub fn check_platform_compatibility(&self, gtk_available: bool, msvc_available: bool) -> (r:
        Vec<String>)
        ensures
            strings_view(r@) == platform_warnings_spec(
                self.platform,
                self.ui_module is Some,
                gtk_available,
                msvc_available,
            ),
    {
        let mut warnings: Vec<String> = Vec::new();
        let has_ui = self.ui_module.is_some();
        match self.platform {
            Platform::Linux => {
                if has_ui && !gtk_available {
                    warnings.push(
                        owned(
                            "⚠️  UI module requires GTK libraries on Linux. Install with: sudo apt install libgtk-3-dev",
                        ),
                    );
                }
            },
            Platform::Windows => {
                if has_ui && !msvc_available && !gtk_available {
                    warnings.push(
                        owned(
                            "⚠️  UI module requires MSVC or GTK on Windows. Install with: vcpkg install gtk3:x64-windows",
                        ),
                    );
                }
            },
            Platform::Android => {
                if has_ui {
                    warnings.push(
                        owned(
                            "⚠️  UI module on Android requires NDK setup. Set ANDROID_NDK_ROOT environment variable",
                        ),
                    );
                }
            },
            Platform::WebAssembly => {
                if has_ui {
                    warnings.push(owned("🌐 Web UI will use WebAssembly backend for performance"));
                }
            },
            _ => {},
        }
        assert(strings_view(warnings@) =~= platform_warnings_spec(
            self.platform,
            self.ui_module is Some,
            gtk_available,
            msvc_available,
        ));
        warnings
    }

    /// The library files whose presence means GTK is installed.
    pub fn gtk_library_paths() -> (r: Vec<String>)
        ensures
            strings_view(r@) == gtk_paths_spec(),
    {
        let r = vec_of(
            &[
                "/usr/lib/x86_64-linux-gnu/libgtk-3.so",
                "/usr/lib/libgtk-3.so",
                "/usr/local/lib/libgtk-3.so",
            ],
        );
        proof {
            let s = seq![
                "/usr/lib/x86_64-linux-gnu/libgtk-3.so",
                "/usr/lib/libgtk-3.so",
                "/usr/local/lib/libgtk-3.so",
            ];
            assert(s.map_values(|x: &str| x@) =~= gtk_paths_spec());
        }
        r
    }

    /// The directories whose presence means the MSVC runtime is installed.
    pub fn msvc_runtime_paths() -> (r: Vec<String>)
        ensures
            strings_view(r@) == msvc_paths_spec(),
    {
        let r = vec_of(
            &[
                "C:\\Program Files (x86)\\Microsoft Visual Studio\\2019\\VC\\Redist\\MSVC\\v142",
                "C:\\Program Files\\Microsoft Visual Studio\\2022\\VC\\Redist\\MSVC\\v143",
            ],
        );
        proof {
            let s = seq![
                "C:\\Program Files (x86)\\Microsoft Visual Studio\\2019\\VC\\Redist\\MSVC\\v142",
                "C:\\Program Files\\Microsoft Visual Studio\\2022\\VC\\Redist\\MSVC\\v143",
            ];
            assert(s.map_values(|x: &str| x@) =~= msvc_paths_spec());
        }
        r
    }

    /// Whether GTK is installed, given which of `gtk_library_paths` exist.
    pub fn check_gtk_available(present: &[bool]) -> (r: bool)
        ensures
            r == exists|i: int| 0 <= i < present@.len() && present@[i],
    {
        any_true(present)
    }

    /// Whether the MSVC runtime is installed, given which of `msvc_runtime_paths` exist.
    pub fn check_msvc_available(present: &[bool]) -> (r: bool)
        ensures
            r == exists|i: int| 0 <= i < present@.len() && present@[i],
    {
        any_true(present)
    }

    /// The UI and WebAssembly module information.
    pub fn get_module_info(&self) -> (r: (&Option<ModuleInfo>, &Option<ModuleInfo>))
        ensures
            *r.0 == self.ui_module,
            *r.1 == self.wasm_module,
    {
        (&self.ui_module, &self.wasm_module)
    }

    /// Whether the UI module was found.
    pub fn is_ui_available(&self) -> (r: bool)
        ensures
            r == self.ui_module is Some,
    {
        self.ui_module.is_some()
    }

    /// Whether the WebAssembly module was found.
    pub fn is_wasm_available(&self) -> (r: bool)
        ensures
            r == self.wasm_module is Some,
    {
        self.wasm_module.is_some()
    }
}

fn any_true(present: &[bool]) -> (r: bool)
    ensures
        r == exists|i: int| 0 <= i < present@.len() && present@[i],
{
    let n = present.len();
    let mut i: usize = 0;
    while i < n
        invariant
            n == present@.len(),
            i <= n,
            forall|j: int| 0 <= j < i ==> !present@[j],
        decreases n - i,
    {
        if present[i] {
            return true;
        }
        i = i + 1;
    }
    false
}

} // verus!
