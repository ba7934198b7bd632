use grease::module_loader::{ModuleInfo, ModuleLoader, ModuleProbe, Platform};

fn loader_on(platform: Platform, ui: &[ModuleProbe], wasm: &[ModuleProbe]) -> ModuleLoader {
    match ModuleLoader::new(platform, "", "", ui, wasm) {
        Ok(l) => l,
        Err(_) => panic!("the loader is always built"),
    }
}

fn absent(path: &str) -> ModuleProbe {
    ModuleProbe { path: path.to_string(), dir_exists: false, manifest_exists: false, manifest_text: None }
}

#[test]
fn test_module_loader_creation() {
    let loader = loader_on(ModuleLoader::detect_platform("linux", "x86_64"), &[], &[]);

    assert!(loader.platform != Platform::Unknown);
    assert_eq!(loader.searched_paths.len(), 10);
}

#[test]
fn test_platform_detection() {
    let platform = ModuleLoader::detect_platform("linux", "x86_64");
    assert!(platform != Platform::Unknown);

    let platform_str = platform.to_string();
    assert!(!platform_str.is_empty());
    assert!(platform_str.len() > 0);
}

#[test]
fn test_module_info_creation() {
    let module_info = ModuleInfo {
        name: "test-module".to_string(),
        path: "./test-module".to_string(),
        version: Some("0.1.0".to_string()),
        available: true,
    };

    assert_eq!(module_info.name, "test-module");
    assert_eq!(module_info.path, "./test-module".to_string());
    assert_eq!(module_info.version, Some("0.1.0".to_string()));
    assert!(module_info.available);
}

#[test]
fn test_module_search_paths() {
    let loader = loader_on(Platform::Linux, &[], &[]);

    let expected_paths = vec![
        "./grease-ui",
        "../grease-ui",
        "./modules/grease-ui",
        "./lib/grease-ui",
        "./grease-webassembly",
        "../grease-webassembly",
        "./modules/grease-webassembly",
        "./lib/grease-webassembly",
    ];

    for expected_path in expected_paths {
        assert!(loader.searched_paths.contains(&expected_path.to_string()));
    }
}

#[test]
fn test_module_availability() {
    let ui = vec![absent("./grease-ui"), absent("../grease-ui")];
    let loader = loader_on(Platform::Linux, &ui, &[]);

    let _ui_available = loader.is_ui_available();
    let _wasm_available = loader.is_wasm_available();
}

#[test]
fn test_environment_variable_paths() {
    let loader = match ModuleLoader::new(Platform::Linux, "/custom/ui/path", "/custom/wasm/path", &[], &[]) {
        Ok(l) => l,
        Err(_) => panic!("the loader is always built"),
    };

    assert!(loader.searched_paths.contains(&"/custom/ui/path".to_string()));
    assert!(loader.searched_paths.contains(&"/custom/wasm/path".to_string()));
}

#[test]
fn test_module_detection_with_fake_directories() {
    let ui = vec![ModuleProbe {
        path: "./grease-ui".to_string(),
        dir_exists: true,
        manifest_exists: true,
        manifest_text: Some("[package]\nname = \"grease-ui\"\nversion = \"0.1.0\"".to_string()),
    }];
    let wasm = vec![ModuleProbe {
        path: "./grease-webassembly".to_string(),
        dir_exists: true,
        manifest_exists: true,
        manifest_text: Some("[package]\nname = \"grease-webassembly\"\nversion = \"0.1.0\"".to_string()),
    }];
    let loader = loader_on(Platform::Linux, &ui, &wasm);

    assert!(loader.searched_paths.contains(&"./grease-ui".to_string()));
    assert!(loader.searched_paths.contains(&"./grease-webassembly".to_string()));
    assert!(loader.is_ui_available());
    assert!(loader.is_wasm_available());
}

#[test]
fn test_platform_compatibility_checking() {
    let loader = loader_on(Platform::Linux, &[], &[]);
    let warnings = loader.check_platform_compatibility(false, false);
    assert!(warnings.is_empty());
}

#[test]
fn test_gtk_availability_check() {
    let present: Vec<bool> = ModuleLoader::gtk_library_paths().iter().map(|_| false).collect();
    let gtk_available = ModuleLoader::check_gtk_available(&present);
    assert!(gtk_available == true || gtk_available == false);
    assert!(!gtk_available);
}

#[test]
fn test_msvc_availability_check() {
    let present: Vec<bool> = ModuleLoader::msvc_runtime_paths().iter().map(|_| false).collect();
    let msvc_available = ModuleLoader::check_msvc_available(&present);
    assert!(msvc_available == true || msvc_available == false);
    assert!(!msvc_available);
}

#[test]
fn detect_platform_by_target() {
    assert_eq!(ModuleLoader::detect_platform("macos", "aarch64"), Platform::MacOS);
    assert_eq!(ModuleLoader::detect_platform("windows", "x86_64"), Platform::Windows);
    assert_eq!(ModuleLoader::detect_platform("android", "aarch64"), Platform::Android);
    assert_eq!(ModuleLoader::detect_platform("unknown", "wasm32"), Platform::WebAssembly);
    assert_eq!(ModuleLoader::detect_platform("haiku", "x86_64"), Platform::Unknown);
    assert_eq!(Platform::MacOS.to_string(), "macOS");
}

#[test]
fn module_version_is_read_from_the_manifest() {
    let text = "[package]\nname = \"grease-ui\"\nversion = \"0.3.1\"\n";
    assert_eq!(ModuleLoader::extract_module_version(text), Some("0.3.1".to_string()));
    assert_eq!(ModuleLoader::extract_module_version("[package]\nname = \"x\"\n"), None);
}

#[test]
fn linux_ui_without_gtk_warns() {
    let ui = vec![ModuleProbe {
        path: "./grease-ui".to_string(),
        dir_exists: true,
        manifest_exists: true,
        manifest_text: Some("version = \"0.1.0\"".to_string()),
    }];
    let loader = loader_on(Platform::Linux, &ui, &[]);
    let warnings = loader.check_platform_compatibility(false, false);
    assert_eq!(warnings.len(), 1);
    assert!(warnings[0].contains("GTK"));
    assert!(loader.check_platform_compatibility(true, false).is_empty());
}
