use grease::module_errors::{CompatibilityLevel, ModuleError};

#[test]
fn test_module_not_found_error_message() {
    let error = ModuleError::ModuleNotFound {
        module: "grease-ui".to_string(),
        searched_paths: vec![
            "./grease-ui".to_string(),
            "../grease-ui".to_string(),
            "./modules/grease-ui".to_string(),
        ],
    };

    let message = error.user_message();
    assert!(message.contains("Module 'grease-ui' not found"));
    assert!(message.contains("./grease-ui"));
    assert!(message.contains("GREASE_UI_PATH"));
    assert!(message.contains("Cargo.toml"));
}

#[test]
fn test_version_mismatch_error_message() {
    let error = ModuleError::VersionMismatch {
        module: "grease-ui".to_string(),
        core_version: "0.1.1".to_string(),
        module_version: "0.2.0".to_string(),
        compatibility: CompatibilityLevel::WarningMajor,
    };

    let message = error.user_message();
    assert!(message.contains("Version mismatch"));
    assert!(message.contains("grease-ui"));
    assert!(message.contains("0.2.0"));
    assert!(message.contains("0.1.1"));
    assert!(message.contains("Expect some issues"));
}

#[test]
fn test_dependency_missing_error_message() {
    let error = ModuleError::DependencyMissing {
        module: "grease-ui".to_string(),
        dependency: "GTK3".to_string(),
        platform: "Linux".to_string(),
        install_cmd: "sudo apt install libgtk-3-dev".to_string(),
    };

    let message = error.user_message();
    assert!(message.contains("Missing dependency"));
    assert!(message.contains("GTK3"));
    assert!(message.contains("Linux"));
    assert!(message.contains("sudo apt install libgtk-3-dev"));
    assert!(message.contains("PLATFORM_SETUP.md"));
}

#[test]
fn test_build_failed_error_message() {
    let error = ModuleError::BuildFailed {
        module: "grease-ui".to_string(),
        error: "Could not compile GTK3".to_string(),
        suggestions: vec![
            "Install GTK3 development libraries".to_string(),
            "Check Rust version compatibility".to_string(),
        ],
    };

    let message = error.user_message();
    assert!(message.contains("Module 'grease-ui' build failed"));
    assert!(message.contains("Could not compile GTK3"));
    assert!(message.contains("Install GTK3 development libraries"));
    assert!(message.contains("TROUBLESHOOTING.md"));
}

#[test]
fn test_platform_unsupported_error_message() {
    let error = ModuleError::PlatformUnsupported {
        module: "grease-ui".to_string(),
        platform: "FreeBSD".to_string(),
        reason: "GTK3 not available on FreeBSD".to_string(),
        alternatives: vec!["Use web-based UI".to_string(), "Try terminal interface".to_string()],
    };

    let message = error.user_message();
    assert!(message.contains("Module 'grease-ui' not supported on FreeBSD"));
    assert!(message.contains("GTK3 not available on FreeBSD"));
    assert!(message.contains("Use web-based UI"));
    assert!(message.contains("PLATFORM_SETUP.md"));
}

#[test]
fn test_initialization_failed_error_message() {
    let error = ModuleError::InitializationFailed {
        module: "grease-ui".to_string(),
        error: "Failed to initialize GTK context".to_string(),
    };

    let message = error.user_message();
    assert!(message.contains("Failed to initialize 'grease-ui' module"));
    assert!(message.contains("Failed to initialize GTK context"));
    assert!(message.contains("TROUBLESHOOTING.md"));
}

#[test]
fn test_io_error_message() {
    let error = ModuleError::IoError {
        operation: "reading Cargo.toml".to_string(),
        path: "/path/to/module/Cargo.toml".to_string(),
        error: "Permission denied".to_string(),
    };

    let message = error.user_message();
    assert!(message.contains("IO error during reading Cargo.toml"));
    assert!(message.contains("/path/to/module/Cargo.toml"));
    assert!(message.contains("Permission denied"));
    assert!(message.contains("File permissions"));
}

#[test]
fn test_error_severity() {
    assert_eq!(
        ModuleError::ModuleNotFound { module: "test".to_string(), searched_paths: vec![] }.severity(),
        "error"
    );

    assert_eq!(
        ModuleError::BuildFailed { module: "test".to_string(), error: "test error".to_string(), suggestions: vec![] }
            .severity(),
        "error"
    );

    assert_eq!(
        ModuleError::VersionMismatch {
            module: "test".to_string(),
            core_version: "0.1.0".to_string(),
            module_version: "0.1.0".to_string(),
            compatibility: CompatibilityLevel::Compatible,
        }
        .severity(),
        "info"
    );

    assert_eq!(
        ModuleError::VersionMismatch {
            module: "test".to_string(),
            core_version: "0.1.0".to_string(),
            module_version: "0.1.1".to_string(),
            compatibility: CompatibilityLevel::WarningMinor,
        }
        .severity(),
        "warning"
    );

    assert_eq!(
        ModuleError::VersionMismatch {
            module: "test".to_string(),
            core_version: "0.1.0".to_string(),
            module_version: "0.2.0".to_string(),
            compatibility: CompatibilityLevel::WarningMajor,
        }
        .severity(),
        "warning"
    );

    assert_eq!(
        ModuleError::VersionMismatch {
            module: "test".to_string(),
            core_version: "0.1.0".to_string(),
            module_version: "2.0.0".to_string(),
            compatibility: CompatibilityLevel::Incompatible,
        }
        .severity(),
        "error"
    );

    assert_eq!(
        ModuleError::DependencyMissing {
            module: "test".to_string(),
            dependency: "test".to_string(),
            platform: "test".to_string(),
            install_cmd: "test".to_string(),
        }
        .severity(),
        "error"
    );

    assert_eq!(
        ModuleError::PlatformUnsupported {
            module: "test".to_string(),
            platform: "test".to_string(),
            reason: "test".to_string(),
            alternatives: vec![],
        }
        .severity(),
        "error"
    );

    assert_eq!(
        ModuleError::InitializationFailed { module: "test".to_string(), error: "test".to_string() }.severity(),
        "error"
    );

    assert_eq!(
        ModuleError::IoError { operation: "test".to_string(), path: "test".to_string(), error: "test".to_string() }
            .severity(),
        "error"
    );
}

#[test]
fn test_error_display_trait() {
    let error = ModuleError::ModuleNotFound {
        module: "test-module".to_string(),
        searched_paths: vec!["./test-module".to_string()],
    };

    let display_str = error.to_display_string();
    assert!(display_str.contains("Module 'test-module' not found"));
}

#[test]
fn test_error_source() {
    let error = ModuleError::ModuleNotFound { module: "test".to_string(), searched_paths: vec![] };

    assert!(error.source().is_none());
}

#[test]
fn test_from_io_error() {
    let io_error = std::io::Error::new(std::io::ErrorKind::NotFound, "File not found");
    let module_error = ModuleError::from_io_error(io_error);

    match module_error {
        ModuleError::IoError { operation, path, error } => {
            assert_eq!(operation, "file operation");
            assert_eq!(path, "unknown");
            assert!(error.contains("File not found"));
        }
        _ => panic!("Expected IoError variant"),
    }
}

#[test]
fn test_from_toml_error() {
    let toml_result: Result<toml::Value, toml::de::Error> = toml::from_str("invalid toml");
    let toml_error = toml_result.unwrap_err();
    let module_error = ModuleError::from_toml_error(toml_error);

    match module_error {
        ModuleError::BuildFailed { module, error, suggestions } => {
            assert_eq!(module, "unknown");
            assert!(error.contains("TOML") || error.contains("parse") || error.contains("invalid"));
            assert!(!suggestions.is_empty());
            assert!(suggestions.iter().any(|s| s.contains("Cargo.toml syntax")));
        }
        _ => panic!("Expected BuildFailed variant"),
    }
}

#[test]
fn io_message_keeps_the_error_text() {
    let module_error = ModuleError::from_io_message("disk full".to_string());
    match module_error {
        ModuleError::IoError { operation, path, error } => {
            assert_eq!(operation, "file operation");
            assert_eq!(path, "unknown");
            assert_eq!(error, "disk full");
        }
        _ => panic!("Expected IoError variant"),
    }
}

#[test]
fn initialization_failed_message_exact() {
    let error = ModuleError::InitializationFailed { module: "m".to_string(), error: "e".to_string() };
    assert_eq!(error.to_display_string(), error.user_message());
    assert_eq!(
        error.user_message(),
        "❌ Failed to initialize 'm' module\n\n🔧 Error: e\n\n💡 Try:\n1. Check module version compatibility\n2. Verify all dependencies are installed\n3. See docs/TROUBLESHOOTING.md"
    );
}
