use depmgr::format_size;
use depmgr::{Package, PackageManager, PackageUsage, Project};

#[test]
fn manager_names_and_commands() {
    assert_eq!(PackageManager::Homebrew.name(), "Homebrew");
    assert_eq!(PackageManager::Homebrew.command(), "brew");
    assert_eq!(PackageManager::Npm.name(), "npm");
    assert_eq!(PackageManager::Npm.command(), "npm");
    assert_eq!(PackageManager::Cargo.name(), "Cargo");
    assert_eq!(PackageManager::Cargo.command(), "cargo");
    assert_eq!(PackageManager::Pip.name(), "pip");
    assert_eq!(PackageManager::Pip.command(), "pip");
    assert_eq!(PackageManager::Go.name(), "Go");
    assert_eq!(PackageManager::Swift.name(), "Swift");
    assert_eq!(PackageManager::Swift.command(), "swift");
}

#[test]
fn new_package_is_bare() {
    let p = Package::new("ripgrep".to_string(), PackageManager::Homebrew, "14.1.0".to_string());
    assert_eq!(p.name, "ripgrep");
    assert_eq!(p.installed_version, "14.1.0");
    assert!(p.latest_version.is_none());
    assert!(!p.is_outdated);
    assert!(p.description.is_none());
    assert!(p.used_in.is_empty());
    assert!(p.is_unused());
}

#[test]
fn latest_version_drives_outdated_flag() {
    let p = Package::new("foo".to_string(), PackageManager::Homebrew, "1.0".to_string());
    let same = p.clone().with_latest_version("1.0".to_string());
    assert!(!same.is_outdated);
    assert_eq!(same.latest_version.as_deref(), Some("1.0"));
    let newer = p.with_latest_version("1.1".to_string());
    assert!(newer.is_outdated);
    assert_eq!(newer.latest_version.as_deref(), Some("1.1"));
}

#[test]
fn description_is_recorded() {
    let p = Package::new("jq".to_string(), PackageManager::Homebrew, "1.7".to_string())
        .with_description("Command-line JSON processor".to_string());
    assert_eq!(p.description.as_deref(), Some("Command-line JSON processor"));
}

#[test]
fn project_name_comes_from_last_path_component() {
    let p = Project::new("/home/dev/projects/webapp".to_string());
    assert_eq!(p.name, "webapp");
    assert!(p.package_managers.is_empty());
    assert!(p.dependencies.is_empty());
    // Trailing slashes are ignored, as a path's file name ignores them.
    let slashed = Project::new("/ends/with/slash/".to_string());
    assert_eq!(slashed.name, "slash");
    let root = Project::new("/".to_string());
    assert_eq!(root.name, "Unknown");
    let parent = Project::new("/home/dev/..".to_string());
    assert_eq!(parent.name, "Unknown");
    let empty = Project::new(String::new());
    assert_eq!(empty.name, "Unknown");
}

#[test]
fn usage_records_projects() {
    let pkg = Package::new("node".to_string(), PackageManager::Homebrew, "22.0".to_string());
    let mut usage = PackageUsage::new(pkg);
    assert!(usage.is_orphaned);
    usage.add_project(Project::new("/home/dev/app".to_string()));
    assert!(!usage.is_orphaned);
    assert_eq!(usage.used_in_projects.len(), 1);
    assert_eq!(usage.used_in_projects[0].name, "app");
}

#[test]
fn format_size_exact_values() {
    assert_eq!(format_size(0), "0 B");
    assert_eq!(format_size(1), "1.0 B");
    assert_eq!(format_size(512), "512.0 B");
    assert_eq!(format_size(1024), "1.0 KB");
    assert_eq!(format_size(1536), "1.5 KB");
    assert_eq!(format_size(1048576), "1.0 MB");
    assert_eq!(format_size(5 * 1048576 + 524288), "5.5 MB");
    assert_eq!(format_size(1073741824), "1.0 GB");
    assert_eq!(format_size(3 * 1073741824 + 214748365), "3.2 GB");
}
