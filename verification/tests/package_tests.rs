use grease::package::{package_exists, package_info_text, package_list_text, PackageManager, PackageResolver, PathListing};
use grease::package_manager::PackageCliManager;

#[test]
fn discovered_directories_become_packages() {
    let mut pm = PackageManager::new();
    let listings = vec![
        PathListing { exists: true, directories: vec!["json".to_string(), "http".to_string()] },
        PathListing { exists: false, directories: vec!["ignored".to_string()] },
    ];
    assert_eq!(pm.discover_packages(&listings), Ok(2));
    assert!(pm.is_package_installed("json"));
    assert!(!pm.is_package_installed("ignored"));
    let json = pm.get_package("json").unwrap();
    assert_eq!(json.version, "1.0.0");
    assert_eq!(json.description, "json package");
    assert_eq!(json.main_file, "main.grease");
    assert_eq!(json.exports, vec!["*".to_string()]);
    assert_eq!(pm.list_packages().len(), 2);
}

#[test]
fn resolving_unknown_packages_fails() {
    let mut resolver = PackageResolver::new();
    assert_eq!(resolver.resolve_package("nothing").err(), Some("Package 'nothing' not found".to_string()));
    assert_eq!(resolver.get_package_manager().list_packages().len(), 0);
}

#[test]
fn repository_search_describes_the_package() {
    let cli = PackageCliManager::new();
    let info = cli.search_package("json").unwrap();
    assert_eq!(info.name, "json");
    assert_eq!(info.version, "1.0.0");
    assert_eq!(info.description, "json package for Grease");
    assert_eq!(info.homepage, "https://grease-lang.org/packages/json");
    assert_eq!(info.download_url, "https://packages.grease-lang.org/download/json");
    assert_eq!(info.tags, vec!["utility".to_string()]);
}

#[test]
fn install_writes_the_package_files_and_records_it() {
    let mut cli = PackageCliManager::new();
    let files = cli.prepare_install("json").unwrap();
    assert_eq!(files.directory, "./packages/json");
    assert_eq!(files.main_path, "./packages/json/main.grease");
    assert_eq!(files.manifest_path, "./packages/json/package.json");
    assert_eq!(
        files.main_content,
        "# json package for Grease\n# Version: 1.0.0\n# Author: Grease Team\n\nprint('Package json loaded')\n"
    );
    assert_eq!(
        files.manifest_content,
        "{\n  \"name\": \"json\",\n  \"version\": \"1.0.0\",\n  \"description\": \"json package for Grease\",\n  \"author\": \"Grease Team\",\n  \"license\": \"MIT\",\n  \"main\": \"main.grease\"\n}"
    );
    assert_eq!(cli.download_and_install(files, Ok(())), Ok(()));
    let p = cli.get_installed("json").unwrap();
    assert_eq!(p.install_date, "2025-01-01");
    assert_eq!(p.install_path, "./packages/json");
    assert_eq!(p.files, vec!["main.grease".to_string(), "package.json".to_string()]);
    assert_eq!(cli.installed_packages().len(), 1);
    assert_eq!(cli.prepare_install("json").err(), Some("Package 'json' is already installed".to_string()));
}

#[test]
fn failed_write_records_nothing() {
    let mut cli = PackageCliManager::new();
    let files = cli.prepare_install("http").unwrap();
    assert_eq!(cli.download_and_install(files, Err("disk full".to_string())), Err("disk full".to_string()));
    assert!(cli.get_installed("http").is_none());
    assert!(cli.installed_packages().is_empty());
}

#[test]
fn remove_undoes_install() {
    let mut cli = PackageCliManager::new();
    assert_eq!(cli.remove_package("json").err(), Some("Package 'json' is not installed".to_string()));
    let files = cli.prepare_install("json").unwrap();
    cli.download_and_install(files, Ok(())).unwrap();
    let files = cli.prepare_install("math").unwrap();
    cli.download_and_install(files, Ok(())).unwrap();
    let removed = cli.remove_package("json").unwrap();
    assert_eq!(removed.info.name, "json");
    assert!(cli.get_installed("json").is_none());
    assert!(cli.get_installed("math").is_some());
    assert_eq!(cli.installed_packages().len(), 1);
}

#[test]
fn absolute_package_names_replace_the_install_directory() {
    let cli = PackageCliManager::new();
    let files = cli.prepare_install("/opt/pkg").unwrap();
    assert_eq!(files.directory, "/opt/pkg");
}

#[test]
fn search_matches_names_and_descriptions() {
    let cli = PackageCliManager::new();
    let names = |q: &str| cli.search_packages(q).into_iter().map(|(n, _)| n).collect::<Vec<_>>();
    assert_eq!(names("math"), vec!["math".to_string()]);
    assert_eq!(names("utilities"), vec!["math".to_string(), "string".to_string(), "http".to_string()]);
    assert_eq!(names("interface"), vec!["ui".to_string()]);
    assert_eq!(names(""), vec!["math".to_string(), "string".to_string(), "ui".to_string(), "http".to_string()]);
    assert!(names("zzz").is_empty());
}

#[test]
fn package_functions_of_the_language() {
    assert!(package_exists("math"));
    assert!(package_exists("string"));
    assert!(!package_exists("ui"));
    assert_eq!(
        package_info_text("json"),
        "Package: json\nVersion: 1.0.0\nDescription: Example package\nAuthor: Grease Team\nMain: main.grease\nDependencies: none\nExports: *"
    );
    assert!(package_list_text().starts_with("Available Packages:\n  math v1.0.0"));
}

#[test]
fn each_package_is_listed_once_under_its_name() {
    let mut pm = PackageManager::new();
    let listings = vec![
        PathListing { exists: true, directories: vec!["json".to_string(), "http".to_string()] },
        PathListing { exists: true, directories: vec!["json".to_string()] },
    ];
    assert_eq!(pm.discover_packages(&listings), Ok(3));
    assert_eq!(pm.list_packages().len(), 2);
    for name in ["json", "http", "nothing"] {
        let listed = pm.list_packages().iter().any(|p| p.name == name);
        assert_eq!(pm.is_package_installed(name), listed);
        assert_eq!(pm.get_package(name).is_some(), listed);
    }
    assert_eq!(pm.get_package("http").unwrap().name, "http");
}
