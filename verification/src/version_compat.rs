//! Version comparison and compatibility checking between the core and its modules.

use vstd::prelude::*;
use crate::text::{append_str, owned, split_char, split_on, str_eq};

verus! {

/// The version of this core.
pub const CORE_VERSION: &'static str = "0.1.1";

/// Version compatibility levels.
#[derive(Debug, PartialEq, Eq, Clone, Copy, Structural)]
pub enum CompatibilityLevel {
    /// Same major, minor and patch version: fully compatible.
    Compatible,
    /// Different patch version: should work fine.
    WarningMinor,
    /// Different minor version: may have some issues.
    WarningMajor,
    /// Different major version: likely to have problems.
    Incompatible,
}

/// Version information for the core and its modules.
#[derive(Debug, Clone)]
pub struct VersionInfo {
    pub core_version: String,
    pub ui_version: Option<String>,
    /// Compatibility level per module name; the first entry for a name counts.
    pub compatibility: Vec<(String, CompatibilityLevel)>,
}

/// A version number in the form `major.minor.patch`.
#[derive(Debug, PartialEq, Eq, Clone, Copy, Structural)]
pub struct Version {
    pub major: u32,
    pub minor: u32,
    pub patch: u32,
}

pub open spec fn is_digit(c: char) -> bool {
    '0' <= c && c <= '9'
}

/// The value of a string of decimal digits.
pub open spec fn digits_value(s: Seq<char>) -> nat
    decreases s.len(),
{
    if s.len() == 0 {
        0
    } else {
        digits_value(s.drop_last()) * 10 + ((s.last() as nat) - 48) as nat
    }
}

pub open spec fn all_digits(s: Seq<char>) -> bool {
    forall|i: int| 0 <= i < s.len() ==> is_digit(#[trigger] s[i])
}

/// What `str::parse::<u32>` gives: an optional `+`, then one or more decimal digits
/// whose value fits in 32 bits.
pub open spec fn parse_u32_spec(s: Seq<char>) -> Option<u32> {
    let d = if s.len() > 0 && s[0] == '+' {
        s.drop_first()
    } else {
        s
    };
    if d.len() > 0 && all_digits(d) && digits_value(d) <= u32::MAX {
        Some(digits_value(d) as u32)
    } else {
        None
    }
}

proof fn lemma_digits_value_prefix(s: Seq<char>, i: int)
    requires
        0 <= i <= s.len(),
        all_digits(s),
    ensures
        digits_value(s.take(i)) <= digits_value(s),
    decreases s.len(),
{
    if i < s.len() {
        assert(s.drop_last().take(i) =~= s.take(i));
        lemma_digits_value_prefix(s.drop_last(), i);
        assert(all_digits(s.drop_last()));
    } else {
        assert(s.take(i) =~= s);
    }
}

/// Parses an unsigned 32-bit decimal number as `str::parse::<u32>` does.
pub fn parse_u32(s: &str) -> (r: Option<u32>)
    ensures
        r == parse_u32_spec(s@),
{
    let n = s.unicode_len();
    let mut start: usize = 0;
    if n > 0 && s.get_char(0) == '+' {
        start = 1;
    }
    let ghost d = if s@.len() > 0 && s@[0] == '+' {
        s@.drop_first()
    } else {
        s@
    };
    assert(d =~= s@.subrange(start as int, n as int));
    if start == n {
        return None;
    }
    let mut acc: u64 = 0;
    let mut i: usize = start;
    assert(d.take(0) =~= Seq::<char>::empty());
    while i < n
        invariant
            n == s@.len(),
            start <= i <= n,
            d =~= s@.subrange(start as int, n as int),
            d == (if s@.len() > 0 && s@[0] == '+' {
                s@.drop_first()
            } else {
                s@
            }),
            d.len() > 0,
            all_digits(d.take(i - start)),
            acc == digits_value(d.take(i - start)),
            acc <= u32::MAX,
        decreases n - i,
    {
        let c = s.get_char(i);
        let ghost k = i - start;
        assert(d[k] == c);
        if !(c >= '0' && c <= '9') {
            assert(!all_digits(d)) by {
                assert(!is_digit(d[k]));
            }
            return None;
        }
        let digit = (c as u32 - 48) as u64;
        assert(d.take(k + 1).drop_last() =~= d.take(k));
        assert(d.take(k + 1).last() == c);
        acc = acc * 10 + digit;
        assert(all_digits(d.take(k + 1))) by {
            assert forall|j: int| 0 <= j < k + 1 implies is_digit(#[trigger] d.take(k + 1)[j]) by {
                if j < k {
                    assert(d.take(k + 1)[j] == d.take(k)[j]);
                }
            }
        }
        if acc > 4294967295u64 {
            proof {
                if all_digits(d) {
                    lemma_digits_value_prefix(d, k + 1);
                }
            }
            return None;
        }
        i = i + 1;
    }
    assert(d.take(n - start) =~= d);
    Some(acc as u32)
}

/// The compatibility of two versions: the first component in which they differ decides.
pub open spec fn compare_spec(a: Version, b: Version) -> CompatibilityLevel {
    if a.major != b.major {
        CompatibilityLevel::Incompatible
    } else if a.minor != b.minor {
        CompatibilityLevel::WarningMajor
    } else if a.patch != b.patch {
        CompatibilityLevel::WarningMinor
    } else {
        CompatibilityLevel::Compatible
    }
}

/// The result of `Version::parse` on the characters `s`.
pub open spec fn version_parse_spec(s: Seq<char>) -> Result<Version, Seq<char>> {
    let parts = split_on(s, '.');
    if parts.len() != 3 {
        Err("Invalid version format: "@ + s)
    } else if parse_u32_spec(parts[0]) is None {
        Err("Invalid major version: "@ + parts[0])
    } else if parse_u32_spec(parts[1]) is None {
        Err("Invalid minor version: "@ + parts[1])
    } else if parse_u32_spec(parts[2]) is None {
        Err("Invalid patch version: "@ + parts[2])
    } else {
        Ok(
            Version {
                major: parse_u32_spec(parts[0])->0,
                minor: parse_u32_spec(parts[1])->0,
                patch: parse_u32_spec(parts[2])->0,
            },
        )
    }
}

/// A message string built from a literal prefix and a piece of text.
fn prefixed(prefix: &str, t: &str) -> (r: String)
    ensures
        r@ == prefix@ + t@,
{
    let mut r = owned(prefix);
    append_str(&mut r, t);
    r
}

impl Version {
    /// Parses a version string in the format "major.minor.patch".
    pub fn parse(version_str: &str) -> (r: Result<Version, String>)
        ensures
            match r {
                Ok(v) => version_parse_spec(version_str@) == Ok::<Version, Seq<char>>(v),
                Err(e) => version_parse_spec(version_str@) == Err::<Version, Seq<char>>(e@),
            },
    {
        let parts = split_char(version_str, '.');
        let ghost pv = parts@.map_values(|p: String| p@);
        assert(pv.len() == parts@.len());
        if parts.len() != 3 {
            return Err(prefixed("Invalid version format: ", version_str));
        }
        assert(pv[0] == parts@[0]@ && pv[1] == parts@[1]@ && pv[2] == parts@[2]@);
        let major = match parse_u32(parts[0].as_str()) {
            Some(v) => v,
            None => {
                return Err(prefixed("Invalid major version: ", parts[0].as_str()));
            },
        };
        let minor = match parse_u32(parts[1].as_str()) {
            Some(v) => v,
            None => {
                return Err(prefixed("Invalid minor version: ", parts[1].as_str()));
            },
        };
        let patch = match parse_u32(parts[2].as_str()) {
            Some(v) => v,
            None => {
                return Err(prefixed("Invalid patch version: ", parts[2].as_str()));
            },
        };
        Ok(Version { major, minor, patch })
    }

    /// Compares two versions.
    pub fn compare(&self, other: &Version) -> (r: CompatibilityLevel)
        ensures
            r == compare_spec(*self, *other),
    {
        if self.major != other.major {
            CompatibilityLevel::Incompatible
        } else if self.minor != other.minor {
            CompatibilityLevel::WarningMajor
        } else if self.patch != other.patch {
            CompatibilityLevel::WarningMinor
        } else {
            CompatibilityLevel::Compatible
        }
    }
}

/// The compatibility entries seen as (module name, level) pairs.
pub open spec fn entries_view(e: Seq<(String, CompatibilityLevel)>) -> Seq<(Seq<char>, CompatibilityLevel)> {
    e.map_values(|p: (String, CompatibilityLevel)| (p.0@, p.1))
}

/// The level recorded for `key`: that of its first entry.
pub open spec fn lookup_level(e: Seq<(Seq<char>, CompatibilityLevel)>, key: Seq<char>) -> Option<
    CompatibilityLevel,
>
    decreases e.len(),
{
    if e.len() == 0 {
        None
    } else if e[0].0 == key {
        Some(e[0].1)
    } else {
        lookup_level(e.drop_first(), key)
    }
}

/// The index of the first entry for `key`, or the length when there is none.
pub open spec fn find_entry(e: Seq<(Seq<char>, CompatibilityLevel)>, key: Seq<char>) -> nat
    decreases e.len(),
{
    if e.len() == 0 {
        0
    } else if e[0].0 == key {
        0
    } else {
        1 + find_entry(e.drop_first(), key)
    }
}

/// Records `level` for `key`: its first entry is overwritten, or a new entry is appended.
pub open spec fn insert_level(
    e: Seq<(Seq<char>, CompatibilityLevel)>,
    key: Seq<char>,
    level: CompatibilityLevel,
) -> Seq<(Seq<char>, CompatibilityLevel)> {
    let i = find_entry(e, key);
    if i < e.len() {
        e.update(i as int, (key, level))
    } else {
        e.push((key, level))
    }
}

/// No two entries are for the same module.
pub open spec fn keys_unique(e: Seq<(Seq<char>, CompatibilityLevel)>) -> bool {
    forall|i: int, j: int| 0 <= i < e.len() && 0 <= j < e.len() && i != j ==> #[trigger] e[i].0 != #[trigger] e[j].0
}

/// Recording a level keeps one entry per module.
pub proof fn law_insert_keeps_keys_unique(
    e: Seq<(Seq<char>, CompatibilityLevel)>,
    key: Seq<char>,
    level: CompatibilityLevel,
)
    requires
        keys_unique(e),
    ensures
        keys_unique(insert_level(e, key, level)),
{
    lemma_find_entry(e, key);
    let i = find_entry(e, key) as int;
    let u = insert_level(e, key, level);
    assert forall|a: int, b: int| 0 <= a < u.len() && 0 <= b < u.len() && a != b implies #[trigger] u[a].0
        != #[trigger] u[b].0 by {
        if i < e.len() {
            if a != i && b != i {
                assert(e[a].0 != e[b].0);
            } else if a == i {
                assert(e[b].0 != e[i].0);
            } else {
                assert(e[a].0 != e[i].0);
            }
        } else if a < e.len() && b < e.len() {
            assert(e[a].0 != e[b].0);
        } else if a < e.len() {
            assert(e[a].0 != key);
        } else {
            assert(e[b].0 != key);
        }
    }
}

proof fn lemma_find_entry(e: Seq<(Seq<char>, CompatibilityLevel)>, key: Seq<char>)
    ensures
        find_entry(e, key) <= e.len(),
        find_entry(e, key) < e.len() ==> e[find_entry(e, key) as int].0 == key
            && lookup_level(e, key) == Some(e[find_entry(e, key) as int].1),
        find_entry(e, key) == e.len() ==> lookup_level(e, key) is None,
        forall|j: int| 0 <= j < find_entry(e, key) ==> e[j].0 != key,
    decreases e.len(),
{
    if e.len() > 0 && e[0].0 != key {
        lemma_find_entry(e.drop_first(), key);
        assert forall|j: int| 0 <= j < find_entry(e, key) implies e[j].0 != key by {
            if j > 0 {
                assert(e[j] == e.drop_first()[j - 1]);
            }
        }
    }
}

proof fn lemma_lookup_prefix_free(
    e: Seq<(Seq<char>, CompatibilityLevel)>,
    key: Seq<char>,
    i: int,
)
    requires
        0 <= i <= e.len(),
        forall|j: int| 0 <= j < i ==> e[j].0 != key,
    ensures
        lookup_level(e, key) == lookup_level(e.skip(i), key),
    decreases i,
{
    if i > 0 {
        assert(e.drop_first().skip(i - 1) =~= e.skip(i));
        lemma_lookup_prefix_free(e.drop_first(), key, i - 1);
    } else {
        assert(e.skip(0) =~= e);
    }
}

proof fn lemma_lookup_update(
    e: Seq<(Seq<char>, CompatibilityLevel)>,
    key: Seq<char>,
    i: int,
    v: (Seq<char>, CompatibilityLevel),
    other: Seq<char>,
)
    requires
        0 <= i < e.len(),
        e[i].0 == key,
        v.0 == key,
        forall|j: int| 0 <= j < i ==> e[j].0 != key,
    ensures
        lookup_level(e.update(i, v), key) == Some(v.1),
        other != key ==> lookup_level(e.update(i, v), other) == lookup_level(e, other),
    decreases i,
{
    if i > 0 {
        assert(e.update(i, v).drop_first() =~= e.drop_first().update(i - 1, v));
        lemma_lookup_update(e.drop_first(), key, i - 1, v, other);
    } else {
        assert(e.update(0, v).drop_first() =~= e.drop_first());
    }
}

proof fn lemma_lookup_push(
    e: Seq<(Seq<char>, CompatibilityLevel)>,
    v: (Seq<char>, CompatibilityLevel),
    other: Seq<char>,
)
    requires
        lookup_level(e, v.0) is None,
    ensures
        lookup_level(e.push(v), v.0) == Some(v.1),
        other != v.0 ==> lookup_level(e.push(v), other) == lookup_level(e, other),
    decreases e.len(),
{
    if e.len() > 0 {
        assert(e.push(v).drop_first() =~= e.drop_first().push(v));
        lemma_lookup_push(e.drop_first(), v, other);
    } else {
        assert(e.push(v).drop_first() =~= e);
    }
}

/// After recording a level for a module, looking that module up gives the level,
/// and every other module keeps the level it had.
pub proof fn law_insert_then_lookup(
    e: Seq<(Seq<char>, CompatibilityLevel)>,
    key: Seq<char>,
    level: CompatibilityLevel,
    other: Seq<char>,
)
    ensures
        lookup_level(insert_level(e, key, level), key) == Some(level),
        other != key ==> lookup_level(insert_level(e, key, level), other) == lookup_level(e, other),
{
    lemma_find_entry(e, key);
    let i = find_entry(e, key);
    if i < e.len() {
        lemma_lookup_update(e, key, i as int, (key, level), other);
    } else {
        lemma_lookup_push(e, (key, level), other);
    }
}

/// The level that `get_module_compatibility` reports: the recorded one, or `Compatible`.
pub open spec fn level_or_compatible(l: Option<CompatibilityLevel>) -> CompatibilityLevel {
    match l {
        Some(x) => x,
        None => CompatibilityLevel::Compatible,
    }
}

/// Levels with which a module is expected to work.
pub open spec fn level_is_ok(l: CompatibilityLevel) -> bool {
    l == CompatibilityLevel::Compatible || l == CompatibilityLevel::WarningMinor
}

pub open spec fn format_compatibility_spec(c: CompatibilityLevel) -> Seq<char> {
    match c {
        CompatibilityLevel::Compatible => "✅ Compatible"@,
        CompatibilityLevel::WarningMinor => "⚠️ Minor Warning"@,
        CompatibilityLevel::WarningMajor => "⚠️ Major Warning"@,
        CompatibilityLevel::Incompatible => "❌ Incompatible"@,
    }
}

pub open spec fn warning_icon(c: CompatibilityLevel) -> Seq<char> {
    match c {
        CompatibilityLevel::Compatible => "✅"@,
        CompatibilityLevel::WarningMinor => "⚠️"@,
        CompatibilityLevel::WarningMajor => "⚠️"@,
        CompatibilityLevel::Incompatible => "❌"@,
    }
}

pub open spec fn warning_message(c: CompatibilityLevel) -> Seq<char> {
    match c {
        CompatibilityLevel::Compatible => "fully compatible"@,
        CompatibilityLevel::WarningMinor => "minor version difference"@,
        CompatibilityLevel::WarningMajor => "major version difference"@,
        CompatibilityLevel::Incompatible => "incompatible"@,
    }
}

pub open spec fn recommended_action(c: CompatibilityLevel) -> Seq<char> {
    match c {
        CompatibilityLevel::Compatible => "No action needed"@,
        CompatibilityLevel::WarningMinor => "Should work fine"@,
        CompatibilityLevel::WarningMajor => "Expect some issues"@,
        CompatibilityLevel::Incompatible => "Will not work"@,
    }
}

/// The lines of a compatibility warning for one module.
pub open spec fn warning_lines(
    core: Seq<char>,
    module_name: Seq<char>,
    module_version: Seq<char>,
    c: CompatibilityLevel,
) -> Seq<Seq<char>> {
    let first = warning_icon(c) + " "@ + module_name + " module version "@ + module_version
        + " vs Core "@ + core + ": "@ + warning_message(c);
    if c == CompatibilityLevel::Compatible {
        seq![first]
    } else {
        seq![first, "💡 Recommended action: "@ + recommended_action(c)]
    }
}

/// The effect of `assess_compatibility`: the new entries and the lines it reports.
pub open spec fn assess_spec(
    core: Seq<char>,
    ui: Option<Seq<char>>,
    e: Seq<(Seq<char>, CompatibilityLevel)>,
) -> (Seq<(Seq<char>, CompatibilityLevel)>, Seq<Seq<char>>) {
    match version_parse_spec(core) {
        Err(_) => (e, seq!["⚠️  Warning: Could not parse core version '"@ + core + "'"@]),
        Ok(cv) => match ui {
            None => (e, Seq::empty()),
            Some(u) => match version_parse_spec(u) {
                Ok(uv) => (
                    insert_level(e, "ui"@, compare_spec(cv, uv)),
                    warning_lines(core, "UI"@, u, compare_spec(cv, uv)),
                ),
                Err(_) => (
                    insert_level(e, "ui"@, CompatibilityLevel::WarningMajor),
                    seq!["⚠️  Warning: Could not parse UI module version '"@ + u + "'"@],
                ),
            },
        },
    }
}

pub open spec fn opt_view(o: Option<String>) -> Option<Seq<char>> {
    match o {
        Some(s) => Some(s@),
        None => None,
    }
}

/// The summary line of `get_summary`.
pub open spec fn summary_spec(
    core: Seq<char>,
    ui: Option<Seq<char>>,
    e: Seq<(Seq<char>, CompatibilityLevel)>,
) -> Seq<char> {
    match ui {
        Some(u) => "Core: "@ + core + " | "@ + "UI: "@ + u + " ("@ + format_compatibility_spec(
            level_or_compatible(lookup_level(e, "ui"@)),
        ) + ")"@,
        None => "No modules loaded"@,
    }
}

/// The overall status line of the detailed report.
pub open spec fn overall_status(e: Seq<(Seq<char>, CompatibilityLevel)>) -> Seq<char> {
    if forall|i: int| 0 <= i < e.len() ==> level_is_ok(#[trigger] e[i].1) {
        "✅ All modules compatible"@
    } else if exists|i: int| 0 <= i < e.len() && #[trigger] e[i].1 == CompatibilityLevel::Incompatible {
        "❌ Some modules incompatible"@
    } else {
        "⚠️ Some modules have warnings"@
    }
}

/// The lines of the detailed compatibility report.
pub open spec fn report_spec(
    core: Seq<char>,
    ui: Option<Seq<char>>,
    e: Seq<(Seq<char>, CompatibilityLevel)>,
) -> Seq<Seq<char>> {
    let head = seq![
        "\n📋 Version Compatibility Report"@,
        "================================"@,
        "Core Version: "@ + core,
    ];
    let mid = match ui {
        Some(u) => seq![
            "UI Module: "@ + u + " - "@ + format_compatibility_spec(
                level_or_compatible(lookup_level(e, "ui"@)),
            ),
        ],
        None => Seq::empty(),
    };
    head + mid + seq!["\n🎯 Overall Status: "@ + overall_status(e), "================================"@]
}

fn cat3(a: &str, b: &str, c: &str) -> (r: String)
    ensures
        r@ == a@ + b@ + c@,
{
    let mut r = owned(a);
    append_str(&mut r, b);
    append_str(&mut r, c);
    r
}

impl VersionInfo {
    /// Each module has at most one entry.
    pub open spec fn wf(&self) -> bool {
        keys_unique(entries_view(self.compatibility@))
    }

    /// Version information for this core, with no module recorded.
    pub fn new() -> (r: VersionInfo)
        ensures
            r.wf(),
            r.core_version@ == CORE_VERSION@,
            r.ui_version is None,
            r.compatibility@.len() == 0,
    {
        let r = VersionInfo { core_version: owned(CORE_VERSION), ui_version: None, compatibility: Vec::new() };
        assert(entries_view(r.compatibility@) =~= Seq::empty());
        r
    }

    /// Adds the UI module's version.
    pub fn with_ui_version(self, version: String) -> (r: VersionInfo)
        ensures
            r.core_version == self.core_version,
            r.ui_version == Some(version),
            r.compatibility == self.compatibility,
    {
        let mut s = self;
        s.ui_version = Some(version);
        s
    }

    /// The index of the first entry for `module`, or the number of entries.
    fn find_module(&self, module: &str) -> (i: usize)
        ensures
            i == find_entry(entries_view(self.compatibility@), module@),
    {
        let ghost ev = entries_view(self.compatibility@);
        proof {
            lemma_find_entry(ev, module@);
        }
        let n = self.compatibility.len();
        let mut i: usize = 0;
        while i < n
            invariant
                n == self.compatibility@.len(),
                ev == entries_view(self.compatibility@),
                i <= n,
                i <= find_entry(ev, module@),
                find_entry(ev, module@) <= ev.len(),
                find_entry(ev, module@) < ev.len() ==> ev[find_entry(ev, module@) as int].0
                    == module@,
                forall|j: int| 0 <= j < find_entry(ev, module@) ==> ev[j].0 != module@,
            decreases n - i,
        {
            assert(ev[i as int].0 == self.compatibility@[i as int].0@);
            if str_eq(self.compatibility[i].0.as_str(), module) {
                return i;
            }
            i = i + 1;
        }
        i
    }

    /// Records a level for a module, overwriting its first entry if there is one.
    fn set_module_compatibility(&mut self, module: &str, level: CompatibilityLevel)
        ensures
            entries_view(final(self).compatibility@) == insert_level(
                entries_view(old(self).compatibility@),
                module@,
                level,
            ),
            final(self).core_version == old(self).core_version,
            final(self).ui_version == old(self).ui_version,
    {
        let i = self.find_module(module);
        let ghost ev = entries_view(self.compatibility@);
        if i < self.compatibility.len() {
            let name = owned(module);
            self.compatibility.set(i, (name, level));
            assert(entries_view(self.compatibility@) =~= ev.update(i as int, (module@, level)));
        } else {
            self.compatibility.push((owned(module), level));
            assert(entries_view(self.compatibility@) =~= ev.push((module@, level)));
        }
    }

    /// Assesses compatibility between the core and the UI module, records the result
    /// under "ui", and returns the warning lines for the user.
    pub fn assess_compatibility(&mut self) -> (lines: Vec<String>)
        requires
            old(self).wf(),
        ensures
            final(self).wf(),
            final(self).core_version == old(self).core_version,
            final(self).ui_version == old(self).ui_version,
            (entries_view(final(self).compatibility@), lines@.map_values(|l: String| l@))
                == assess_spec(
                old(self).core_version@,
                opt_view(old(self).ui_version),
                entries_view(old(self).compatibility@),
            ),
    {
        let mut lines: Vec<String> = Vec::new();
        let core = match Version::parse(self.core_version.as_str()) {
            Ok(v) => v,
            Err(_) => {
                lines.push(cat3("⚠️  Warning: Could not parse core version '", self.core_version.as_str(), "'"));
                assert(lines@.map_values(|l: String| l@) =~= seq![
                    "⚠️  Warning: Could not parse core version '"@ + self.core_version@ + "'"@,
                ]);
                return lines;
            },
        };
        match &self.ui_version {
            None => {
                assert(lines@.map_values(|l: String| l@) =~= Seq::<Seq<char>>::empty());
            },
            Some(ui) => {
                let ui = ui.clone();
                match Version::parse(ui.as_str()) {
                    Ok(uv) => {
                        let c = core.compare(&uv);
                        proof {
                            law_insert_keeps_keys_unique(entries_view(self.compatibility@), "ui"@, c);
                        }
                        self.set_module_compatibility("ui", c);
                        lines = self.compatibility_warning("UI", ui.as_str(), c);
                    },
                    Err(_) => {
                        proof {
                            law_insert_keeps_keys_unique(
                                entries_view(self.compatibility@),
                                "ui"@,
                                CompatibilityLevel::WarningMajor,
                            );
                        }
                        self.set_module_compatibility("ui", CompatibilityLevel::WarningMajor);
                        lines.push(cat3("⚠️  Warning: Could not parse UI module version '", ui.as_str(), "'"));
                        assert(lines@.map_values(|l: String| l@) =~= seq![
                            "⚠️  Warning: Could not parse UI module version '"@ + ui@ + "'"@,
                        ]);
                    },
                }
            },
        }
        lines
    }

    /// The lines of a compatibility warning for one module.
    pub fn compatibility_warning(
        &self,
        module_name: &str,
        module_version: &str,
        compatibility: CompatibilityLevel,
    ) -> (lines: Vec<String>)
        ensures
            lines@.map_values(|l: String| l@) == warning_lines(
                self.core_version@,
                module_name@,
                module_version@,
                compatibility,
            ),
    {
        let (icon, message, action) = match compatibility {
            CompatibilityLevel::Compatible => ("✅", "fully compatible", "No action needed"),
            CompatibilityLevel::WarningMinor => ("⚠️", "minor version difference", "Should work fine"),
            CompatibilityLevel::WarningMajor => ("⚠️", "major version difference", "Expect some issues"),
            CompatibilityLevel::Incompatible => ("❌", "incompatible", "Will not work"),
        };
        let mut first = owned(icon);
        append_str(&mut first, " ");
        append_str(&mut first, module_name);
        append_str(&mut first, " module version ");
        append_str(&mut first, module_version);
        append_str(&mut first, " vs Core ");
        append_str(&mut first, self.core_version.as_str());
        append_str(&mut first, ": ");
        append_str(&mut first, message);
        let mut lines: Vec<String> = Vec::new();
        lines.push(first);
        if compatibility != CompatibilityLevel::Compatible {
            let mut second = owned("💡 Recommended action: ");
            append_str(&mut second, action);
            lines.push(second);
        }
        assert(lines@.map_values(|l: String| l@) =~= warning_lines(
            self.core_version@,
            module_name@,
            module_version@,
            compatibility,
        ));
        lines
    }

    /// The compatibility level recorded for a module; `Compatible` when none is.
    pub fn get_module_compatibility(&self, module: &str) -> (r: CompatibilityLevel)
        requires
            self.wf(),
        ensures
            r == level_or_compatible(lookup_level(entries_view(self.compatibility@), module@)),
            forall|k: int|
                0 <= k < self.compatibility@.len() && #[trigger] self.compatibility@[k].0@ == module@ ==> r
                    == self.compatibility@[k].1,
    {
        let i = self.find_module(module);
        let ghost ev = entries_view(self.compatibility@);
        proof {
            lemma_find_entry(ev, module@);
            assert forall|k: int|
                0 <= k < self.compatibility@.len() && #[trigger] self.compatibility@[k].0@ == module@ implies k
                    == i by {
                assert(ev[k].0 == module@);
                if k < i {
                } else if k > i {
                    assert(ev[i as int].0 == module@);
                }
            }
        }
        if i < self.compatibility.len() {
            self.compatibility[i].1
        } else {
            CompatibilityLevel::Compatible
        }
    }

    /// Whether every recorded module is compatible or differs only in its patch version.
    pub fn all_compatible(&self) -> (r: bool)
        requires
            self.wf(),
        ensures
            r == (forall|i: int|
                0 <= i < self.compatibility@.len() ==> level_is_ok(
                    #[trigger] self.compatibility@[i].1,
                )),
    {
        let n = self.compatibility.len();
        let mut i: usize = 0;
        while i < n
            invariant
                n == self.compatibility@.len(),
                i <= n,
                forall|j: int| 0 <= j < i ==> level_is_ok(#[trigger] self.compatibility@[j].1),
            decreases n - i,
        {
            let l = self.compatibility[i].1;
            if !(l == CompatibilityLevel::Compatible || l == CompatibilityLevel::WarningMinor) {
                return false;
            }
            i = i + 1;
        }
        true
    }

    /// Whether some recorded module is incompatible.
    pub fn has_incompatible(&self) -> (r: bool)
        requires
            self.wf(),
        ensures
            r == (exists|i: int|
                0 <= i < self.compatibility@.len() && #[trigger] self.compatibility@[i].1
                    == CompatibilityLevel::Incompatible),
    {
        let n = self.compatibility.len();
        let mut i: usize = 0;
        while i < n
            invariant
                n == self.compatibility@.len(),
                i <= n,
                forall|j: int|
                    0 <= j < i ==> #[trigger] self.compatibility@[j].1
                        != CompatibilityLevel::Incompatible,
            decreases n - i,
        {
            if self.compatibility[i].1 == CompatibilityLevel::Incompatible {
                return true;
            }
            i = i + 1;
        }
        false
    }

    /// A one-line summary of the compatibility status.
    pub fn get_summary(&self) -> (r: String)
        requires
            self.wf(),
        ensures
            r@ == summary_spec(
                self.core_version@,
                opt_view(self.ui_version),
                entries_view(self.compatibility@),
            ),
    {
        match &self.ui_version {
            Some(ui) => {
                let c = self.get_module_compatibility("ui");
                let mut r = owned("Core: ");
                append_str(&mut r, self.core_version.as_str());
                append_str(&mut r, " | ");
                append_str(&mut r, "UI: ");
                append_str(&mut r, ui.as_str());
                append_str(&mut r, " (");
                append_str(&mut r, self.format_compatibility(&c));
                append_str(&mut r, ")");
                r
            },
            None => owned("No modules loaded"),
        }
    }

    /// A compatibility level as shown to the user.
    pub fn format_compatibility(&self, compatibility: &CompatibilityLevel) -> (r: &'static str)
        ensures
            r@ == format_compatibility_spec(*compatibility),
    {
        match compatibility {
            CompatibilityLevel::Compatible => "✅ Compatible",
            CompatibilityLevel::WarningMinor => "⚠️ Minor Warning",
            CompatibilityLevel::WarningMajor => "⚠️ Major Warning",
            CompatibilityLevel::Incompatible => "❌ Incompatible",
        }
    }

    /// The lines of the detailed compatibility report.
    pub fn detailed_report(&self) -> (lines: Vec<String>)
        requires
            self.wf(),
        ensures
            lines@.map_values(|l: String| l@) == report_spec(
                self.core_version@,
                opt_view(self.ui_version),
                entries_view(self.compatibility@),
            ),
    {
        let mut lines: Vec<String> = Vec::new();
        lines.push(owned("\n📋 Version Compatibility Report"));
        lines.push(owned("================================"));
        lines.push(prefixed("Core Version: ", self.core_version.as_str()));
        let ghost head = lines@.map_values(|l: String| l@);
        match &self.ui_version {
            Some(ui) => {
                let c = self.get_module_compatibility("ui");
                let mut l = cat3("UI Module: ", ui.as_str(), " - ");
                append_str(&mut l, self.format_compatibility(&c));
                lines.push(l);
            },
            None => {},
        }
        let ghost with_mid = lines@.map_values(|l: String| l@);
        let all_ok = self.all_compatible();
        let any_bad = self.has_incompatible();
        let ghost ev = entries_view(self.compatibility@);
        assert((forall|i: int| 0 <= i < ev.len() ==> level_is_ok(#[trigger] ev[i].1)) == all_ok) by {
            if all_ok {
                assert forall|i: int| 0 <= i < ev.len() implies level_is_ok(#[trigger] ev[i].1) by {
                    assert(ev[i].1 == self.compatibility@[i].1);
                }
            } else {
                let k = choose|k: int|
                    0 <= k < self.compatibility@.len() && !level_is_ok(
                        #[trigger] self.compatibility@[k].1,
                    );
                assert(ev[k].1 == self.compatibility@[k].1);
            }
        }
        assert((exists|i: int|
            0 <= i < ev.len() && #[trigger] ev[i].1 == CompatibilityLevel::Incompatible) == any_bad)
            by {
            if any_bad {
                let k = choose|k: int|
                    0 <= k < self.compatibility@.len() && #[trigger] self.compatibility@[k].1
                        == CompatibilityLevel::Incompatible;
                assert(ev[k].1 == self.compatibility@[k].1);
            } else {
                assert forall|i: int| 0 <= i < ev.len() implies #[trigger] ev[i].1
                    != CompatibilityLevel::Incompatible by {
                    assert(ev[i].1 == self.compatibility@[i].1);
                }
            }
        }
        let status = if all_ok {
            "✅ All modules compatible"
        } else if any_bad {
            "❌ Some modules incompatible"
        } else {
            "⚠️ Some modules have warnings"
        };
        assert(status@ == overall_status(ev));
        lines.push(prefixed("\n🎯 Overall Status: ", status));
        lines.push(owned("================================"));
        proof {
            let r = report_spec(self.core_version@, opt_view(self.ui_version), ev);
            assert(lines@.map_values(|l: String| l@) =~= r);
        }
        lines
    }
}

/// A version compared with itself is fully compatible.
pub proof fn law_compare_reflexive(v: Version)
    ensures
        compare_spec(v, v) == CompatibilityLevel::Compatible,
{
}

/// Comparing two versions gives the same level in either order.
pub proof fn law_compare_symmetric(a: Version, b: Version)
    ensures
        compare_spec(a, b) == compare_spec(b, a),
{
}

/// Two versions are fully compatible exactly when they are equal.
pub proof fn law_compatible_iff_equal(a: Version, b: Version)
    ensures
        (compare_spec(a, b) == CompatibilityLevel::Compatible) <==> a == b,
{
}

} // verus!
