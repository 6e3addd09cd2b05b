use blazinit::registry::{
    get_dependencies, get_package_details, is_package_in_registry, list_packages,
    update_registry_version_if_needed, Registry, RegistryEntry,
};

fn entry(
    name: &str,
    display: Option<&str>,
    installers: Vec<(&str, &str)>,
    detect: Option<&str>,
    dependencies: Vec<&str>,
) -> RegistryEntry {
    RegistryEntry {
        name: name.to_string(),
        display: display.map(|s| s.to_string()),
        installers: installers
            .into_iter()
            .map(|(k, v)| (k.to_string(), v.to_string()))
            .collect(),
        detect: detect.map(|s| s.to_string()),
        dependencies: dependencies.into_iter().map(|s| s.to_string()).collect(),
    }
}

fn dummy_registry() -> Registry {
    Registry {
        version: "1".to_string(),
        packages: vec![
            entry(
                "curl",
                Some("cURL"),
                vec![("apt", "curl"), ("brew", "curl")],
                Some("curl --version"),
                vec!["git"],
            ),
            entry(
                "git",
                Some("Git"),
                vec![("apt", "git")],
                Some("git --version"),
                vec![],
            ),
        ],
    }
}

#[test]
fn test_registry_created_if_missing() {
    let bundled = "version = \"1.0.0\"\n\n[package.git]\ndisplay = \"Git\"\n";

    let result = update_registry_version_if_needed(bundled, None);
    assert!(result.is_ok());

    let written = result.unwrap();
    assert!(written.is_some());
    let content = written.unwrap();
    assert!(content.contains("version"));
    assert_eq!(content, bundled);
}

#[test]
fn test_registry_updated_if_version_mismatch() {
    let old_registry = r#"
            version = "0.0.0"
            [packages]
            fake = "old"
        "#;
    let bundled = "version = \"1.0.0\"\n\n[package.git]\ndisplay = \"Git\"\n";

    let result = update_registry_version_if_needed(bundled, Some(old_registry));
    assert!(result.is_ok());

    let written = result.unwrap();
    assert!(written.is_some());
    let content = written.unwrap();
    // Should not be the old one
    assert!(!content.contains("fake = \"old\""));
    // Should be the bundled one
    assert!(content.contains("version"));
    assert_eq!(content, bundled);
}

#[test]
fn test_registry_not_updated_if_version_matches() {
    let bundled = "version = \"1.0.0\"\n\n[package.git]\ndisplay = \"Git\"\n";

    // 1. Populate with current version
    let first = update_registry_version_if_needed(bundled, None)
        .unwrap()
        .unwrap();

    // 2. Modify content but keep the same version
    let modified_content = format!("{}\n# Modified by test", first);

    // 3. Run update again
    let second = update_registry_version_if_needed(bundled, Some(&modified_content)).unwrap();

    // 4. Check that the file would NOT be overwritten
    assert!(second.is_none());
}

#[test]
fn test_registry_sync_missing_bundled_version_fails() {
    let bundled = "[package.git]\ndisplay = \"Git\"\n";
    let result = update_registry_version_if_needed(bundled, None);
    assert!(result.is_err());
    assert_eq!(
        result.err().unwrap().message(),
        "Bundled registry missing 'version' field"
    );
}

#[test]
fn test_get_package_details_full() {
    let registry = dummy_registry();

    let details = get_package_details(&registry, "curl").unwrap();
    assert_eq!(details.name, "curl");
    assert_eq!(details.display, Some("cURL".to_string()));
    assert_eq!(details.detect, Some("curl --version".to_string()));
    assert!(details
        .installers
        .contains(&("apt".to_string(), "curl".to_string())));
    assert!(details
        .installers
        .contains(&("brew".to_string(), "curl".to_string())));
    assert_eq!(details.dependencies, vec!["git".to_string()]);

    let details_git = get_package_details(&registry, "git").unwrap();
    assert_eq!(details_git.name, "git");
    assert_eq!(details_git.display, Some("Git".to_string()));
    assert!(details_git
        .installers
        .contains(&("apt".to_string(), "git".to_string())));
    assert!(!details_git
        .installers
        .iter()
        .any(|(k, _)| k == "brew"));
    assert!(details_git.dependencies.is_empty());
}

#[test]
fn test_get_package_details_non_existent() {
    let registry = Registry {
        version: "1".to_string(),
        packages: vec![entry("existing", Some("Existing Package"), vec![], None, vec![])],
    };

    let result = get_package_details(&registry, "non_existent");
    assert!(result.is_err());
    assert!(result.err().unwrap().message().contains("not found in registry"));
}

#[test]
fn test_list_packages_no_query_runs() {
    let registry = Registry {
        version: "1".to_string(),
        packages: vec![
            entry(
                "curl",
                Some("cURL"),
                vec![("apt", "curl"), ("custom", "install-curl.sh")],
                None,
                vec![],
            ),
            entry("git", Some("Git"), vec![("brew", "git")], None, vec![]),
        ],
    };

    let names = list_packages(&registry, &None);
    assert_eq!(names, vec!["curl".to_string(), "git".to_string()]);
}

#[test]
fn test_list_packages_with_query_runs() {
    let registry = Registry {
        version: "1".to_string(),
        packages: vec![
            entry("curl", Some("cURL"), vec![("apt", "curl")], None, vec![]),
            entry("git", Some("Git"), vec![("brew", "git")], None, vec![]),
        ],
    };

    let query = Some("git".to_string());
    let names = list_packages(&registry, &query);
    assert_eq!(names, vec!["git".to_string()]);
}

#[test]
fn test_list_packages_no_match_runs() {
    let registry = Registry {
        version: "1".to_string(),
        packages: vec![entry("curl", Some("cURL"), vec![("apt", "curl")], None, vec![])],
    };

    let query = Some("nonexistent".to_string());
    let names = list_packages(&registry, &query);
    assert!(names.is_empty());
}

#[test]
fn test_list_packages_query_is_case_insensitive() {
    let registry = Registry {
        version: "1".to_string(),
        packages: vec![entry("Git", Some("Git"), vec![], None, vec![])],
    };

    let names = list_packages(&registry, &Some("GIT".to_string()));
    assert_eq!(names, vec!["Git".to_string()]);
}

#[test]
fn test_is_package_in_registry_exists() {
    let registry = Registry {
        version: "1".to_string(),
        packages: vec![entry("git", Some("Git"), vec![("apt", "git")], None, vec![])],
    };

    assert!(is_package_in_registry(&registry, "git"));
}

#[test]
fn test_is_package_in_registry_not_exists() {
    let registry = Registry {
        version: "1".to_string(),
        packages: vec![entry("git", Some("Git"), vec![], None, vec![])],
    };

    assert!(!is_package_in_registry(&registry, "nonexistent"));
}

#[test]
fn test_get_dependencies_with_deps() {
    let registry = Registry {
        version: "1".to_string(),
        packages: vec![
            entry(
                "curl",
                Some("cURL"),
                vec![("apt", "curl")],
                None,
                vec!["git", "openssl"],
            ),
            entry("git", Some("Git"), vec![], None, vec![]),
        ],
    };

    let result = get_dependencies(&registry, "curl");
    assert!(result.is_ok());

    let deps = result.unwrap();
    assert_eq!(deps.len(), 2);
    assert!(deps.contains(&"git".to_string()));
    assert!(deps.contains(&"openssl".to_string()));
}

#[test]
fn test_get_dependencies_no_deps() {
    let registry = Registry {
        version: "1".to_string(),
        packages: vec![entry("git", Some("Git"), vec![("apt", "git")], None, vec![])],
    };

    let result = get_dependencies(&registry, "git");
    assert!(result.is_ok());
    assert!(result.unwrap().is_empty());
}

#[test]
fn test_get_dependencies_non_existent() {
    let registry = Registry {
        version: "1".to_string(),
        packages: vec![entry("git", Some("Git"), vec![], None, vec![])],
    };

    let result = get_dependencies(&registry, "nonexistent");
    assert!(result.is_err());
    assert!(result.err().unwrap().message().contains("not found"));
}
