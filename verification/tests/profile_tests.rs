use blazinit::profile::{
    add_package_to_profile, create_profile, delete_profile, profile_path, sort_packages_by_name,
    Profile, ProfilePackage,
};
use blazinit::registry::{Registry, RegistryEntry};

fn entry(name: &str, dependencies: Vec<&str>) -> RegistryEntry {
    RegistryEntry {
        name: name.to_string(),
        display: None,
        installers: Vec::new(),
        detect: None,
        dependencies: dependencies.into_iter().map(|s| s.to_string()).collect(),
    }
}

fn registry_of(entries: Vec<RegistryEntry>) -> Registry {
    Registry { version: "1".to_string(), packages: entries }
}

fn empty_profile(name: &str) -> Profile {
    Profile { name: name.to_string(), packages: Vec::new() }
}

fn package_names(profile: &Profile) -> Vec<String> {
    profile.packages.iter().map(|p| p.name.clone()).collect()
}

#[test]
fn test_ensure_default_profile_creates_file() {
    let result = create_profile("default", false);
    assert!(result.is_ok());

    let profile = result.unwrap();
    assert_eq!(profile.name, "default");
    assert!(profile.packages.is_empty());
}

#[test]
fn test_create_profile_success() {
    let profile_name = "my-profile";
    let result = create_profile(profile_name, false);
    assert!(result.is_ok());

    let profile = result.unwrap();
    assert_eq!(profile.name, profile_name);
    assert!(profile.packages.is_empty());
}

#[test]
fn test_create_profile_already_exists() {
    let profile_name = "duplicate";

    create_profile(profile_name, false).unwrap();
    let result = create_profile(profile_name, true);

    assert!(result.is_err());
    assert_eq!(
        result.err().unwrap().message(),
        format!("Profile '{}' already exists", profile_name)
    );
}

#[test]
fn test_delete_profile_success() {
    let profile_name = "to-delete";

    let result = delete_profile(profile_name, "default", true);
    assert!(result.is_ok());
}

#[test]
fn test_delete_default_profile_fails() {
    let result = delete_profile("default", "default", true);
    assert!(result.is_err());
    assert!(result
        .err()
        .unwrap()
        .message()
        .contains("Cannot delete the default profile"));
}

#[test]
fn test_delete_non_existent_profile() {
    let result = delete_profile("ghost", "default", false);
    assert!(result.is_err());
    assert!(result.err().unwrap().message().contains("does not exist"));
}

#[test]
fn test_profile_path_shape() {
    assert_eq!(profile_path("/cfg/profiles", "default"), "/cfg/profiles/default.toml");
}

#[test]
fn test_add_resolves_transitive_closure() {
    // registry {A: deps=[B], B: deps=[C], C: deps=[]}, empty profile
    let registry = registry_of(vec![
        entry("A", vec!["B"]),
        entry("B", vec!["C"]),
        entry("C", vec![]),
    ]);
    let mut profile = empty_profile("default");

    let report = add_package_to_profile(&mut profile, &registry, "A");

    let mut added = report.clone();
    added.sort();
    assert_eq!(added, vec!["A".to_string(), "B".to_string(), "C".to_string()]);
    assert_eq!(
        package_names(&profile),
        vec!["A".to_string(), "B".to_string(), "C".to_string()]
    );
}

#[test]
fn test_add_terminates_on_dependency_cycle() {
    // registry {A: deps=[B], B: deps=[A]}, empty profile
    let registry = registry_of(vec![entry("A", vec!["B"]), entry("B", vec!["A"])]);
    let mut profile = empty_profile("default");

    let report = add_package_to_profile(&mut profile, &registry, "A");

    assert_eq!(report.len(), 2);
    assert_eq!(package_names(&profile), vec!["A".to_string(), "B".to_string()]);
}

#[test]
fn test_add_already_present_reports_nothing() {
    let registry = registry_of(vec![entry("A", vec![])]);
    let mut profile = empty_profile("default");

    let first = add_package_to_profile(&mut profile, &registry, "A");
    assert_eq!(first, vec!["A".to_string()]);
    let names_before = package_names(&profile);

    let second = add_package_to_profile(&mut profile, &registry, "A");
    assert!(second.is_empty());
    assert_eq!(package_names(&profile), names_before);
}

#[test]
fn test_add_tolerates_missing_dependency() {
    // registry {A: deps=[B]} with B absent
    let registry = registry_of(vec![entry("A", vec!["B"])]);
    let mut profile = empty_profile("default");

    let report = add_package_to_profile(&mut profile, &registry, "A");

    assert_eq!(report, vec!["A".to_string()]);
    assert_eq!(package_names(&profile), vec!["A".to_string()]);
}

#[test]
fn test_add_unknown_package_reports_nothing() {
    let registry = registry_of(vec![entry("A", vec![])]);
    let mut profile = empty_profile("default");

    let report = add_package_to_profile(&mut profile, &registry, "missing");
    assert!(report.is_empty());
    assert!(profile.packages.is_empty());
}

#[test]
fn test_add_orders_deterministically() {
    // adding Z then A, in two calls, persists A before Z
    let registry = registry_of(vec![entry("Z", vec![]), entry("A", vec![])]);
    let mut profile = empty_profile("default");

    add_package_to_profile(&mut profile, &registry, "Z");
    add_package_to_profile(&mut profile, &registry, "A");

    assert_eq!(package_names(&profile), vec!["A".to_string(), "Z".to_string()]);
}

#[test]
fn test_add_snapshots_do_not_track_registry() {
    // a profile keeps the snapshot taken at add time
    let registry = registry_of(vec![RegistryEntry {
        name: "A".to_string(),
        display: Some("First".to_string()),
        installers: vec![("apt".to_string(), "a".to_string())],
        detect: Some("a --version".to_string()),
        dependencies: vec![],
    }]);
    let mut profile = empty_profile("default");
    add_package_to_profile(&mut profile, &registry, "A");

    let changed = registry_of(vec![RegistryEntry {
        name: "A".to_string(),
        display: Some("Second".to_string()),
        installers: vec![],
        detect: None,
        dependencies: vec!["B".to_string()],
    }]);
    // a later add against the changed registry adds nothing and changes nothing
    let report = add_package_to_profile(&mut profile, &changed, "A");
    assert!(report.is_empty());
    assert_eq!(profile.packages[0].display, Some("First".to_string()));
    assert_eq!(profile.packages[0].dependencies, Vec::<String>::new());
}

#[test]
fn test_display_name_falls_back_to_package_name() {
    let with_display = ProfilePackage {
        name: "git".to_string(),
        display: Some("Git".to_string()),
        installers: Vec::new(),
        detect: None,
        dependencies: Vec::new(),
    };
    assert_eq!(with_display.display_name(), "Git");

    let without_display = ProfilePackage {
        name: "git".to_string(),
        display: None,
        installers: Vec::new(),
        detect: None,
        dependencies: Vec::new(),
    };
    assert_eq!(without_display.display_name(), "git");
}

#[test]
fn test_sort_packages_by_name_sorts() {
    let mut packages: Vec<ProfilePackage> = ["zsh", "bash", "curl"]
        .iter()
        .map(|n| ProfilePackage {
            name: n.to_string(),
            display: None,
            installers: Vec::new(),
            detect: None,
            dependencies: Vec::new(),
        })
        .collect();

    sort_packages_by_name(&mut packages);

    let names: Vec<String> = packages.iter().map(|p| p.name.clone()).collect();
    assert_eq!(names, vec!["bash".to_string(), "curl".to_string(), "zsh".to_string()]);
}
