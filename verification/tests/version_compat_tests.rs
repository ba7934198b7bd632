use grease::version_compat::{CompatibilityLevel, Version, VersionInfo};

#[test]
fn test_version_parsing() {
    assert!(Version::parse("1.2.3").is_ok());
    let version = Version::parse("1.2.3").unwrap();
    assert_eq!(version.major, 1);
    assert_eq!(version.minor, 2);
    assert_eq!(version.patch, 3);

    assert!(Version::parse("1.2").is_err());
    assert!(Version::parse("1.2.3.4").is_err());
    assert!(Version::parse("invalid").is_err());
}

#[test]
fn test_version_comparison_identical() {
    let v1 = Version { major: 1, minor: 2, patch: 3 };
    let v2 = Version { major: 1, minor: 2, patch: 3 };

    assert_eq!(v1.compare(&v2), CompatibilityLevel::Compatible);
}

#[test]
fn test_version_comparison_patch_difference() {
    let v1 = Version { major: 1, minor: 2, patch: 3 };
    let v2 = Version { major: 1, minor: 2, patch: 4 };

    assert_eq!(v1.compare(&v2), CompatibilityLevel::WarningMinor);
}

#[test]
fn test_version_comparison_minor_difference() {
    let v1 = Version { major: 1, minor: 2, patch: 3 };
    let v2 = Version { major: 1, minor: 3, patch: 0 };

    assert_eq!(v1.compare(&v2), CompatibilityLevel::WarningMajor);
}

#[test]
fn test_version_comparison_major_difference() {
    let v1 = Version { major: 1, minor: 0, patch: 0 };
    let v2 = Version { major: 2, minor: 0, patch: 0 };

    assert_eq!(v1.compare(&v2), CompatibilityLevel::Incompatible);
}

#[test]
fn test_version_info_creation() {
    let mut info = VersionInfo::new();
    assert_eq!(info.core_version, "0.1.1");
    assert!(info.ui_version.is_none());

    assert!(info.compatibility.is_empty());

    info = info.with_ui_version("0.1.0".to_string());
    assert_eq!(info.ui_version, Some("0.1.0".to_string()));
}

#[test]
fn test_compatibility_assessment() {
    let mut info = VersionInfo::new();
    info = info.with_ui_version("0.1.0".to_string());
    info.assess_compatibility();

    assert_eq!(info.get_module_compatibility("ui"), CompatibilityLevel::WarningMinor);

    let mut info2 = VersionInfo::new();
    info2 = info2.with_ui_version("0.1.1".to_string());
    info2.assess_compatibility();
    assert_eq!(info2.get_module_compatibility("ui"), CompatibilityLevel::Compatible);
}

#[test]
fn test_compatibility_summary() {
    let mut info = VersionInfo::new();
    info = info.with_ui_version("0.2.0".to_string());
    info.assess_compatibility();

    let summary = info.get_summary();
    assert!(summary.contains("UI: 0.2.0"));
    assert!(summary.contains("Major Warning"));
}

#[test]
fn test_all_compatible() {
    let mut info = VersionInfo::new();
    info = info.with_ui_version("0.1.1".to_string());
    info.assess_compatibility();

    assert!(info.all_compatible());
    assert!(!info.has_incompatible());
}

#[test]
fn test_has_incompatible() {
    let mut info = VersionInfo::new();
    info = info.with_ui_version("2.0.0".to_string());
    info.assess_compatibility();

    assert!(!info.all_compatible());
    assert!(info.has_incompatible());
}

#[test]
fn test_format_compatibility() {
    let info = VersionInfo::new();

    assert_eq!(info.format_compatibility(&CompatibilityLevel::Compatible), "✅ Compatible");
    assert_eq!(info.format_compatibility(&CompatibilityLevel::WarningMinor), "⚠️ Minor Warning");
    assert_eq!(info.format_compatibility(&CompatibilityLevel::WarningMajor), "⚠️ Major Warning");
    assert_eq!(info.format_compatibility(&CompatibilityLevel::Incompatible), "❌ Incompatible");
}

#[test]
fn test_version_info_display() {
    let mut info = VersionInfo::new();
    info = info.with_ui_version("0.1.0".to_string());
    info.assess_compatibility();

    let _summary = info.get_summary();
}

#[test]
fn compare_is_symmetric_on_examples() {
    let a = Version { major: 1, minor: 4, patch: 2 };
    let b = Version { major: 1, minor: 2, patch: 9 };
    assert_eq!(a.compare(&b), b.compare(&a));
    assert_eq!(a.compare(&a), CompatibilityLevel::Compatible);
}

#[test]
fn parse_rejects_signs_and_empty_parts() {
    assert!(Version::parse("1..3").is_err());
    assert!(Version::parse("1.2.-3").is_err());
    assert!(Version::parse("").is_err());
    assert_eq!(Version::parse("10.0.7").unwrap(), Version { major: 10, minor: 0, patch: 7 });
}

#[test]
fn unknown_module_is_compatible() {
    let info = VersionInfo::new();
    assert_eq!(info.get_module_compatibility("ui"), CompatibilityLevel::Compatible);
}
