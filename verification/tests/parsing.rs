use depmgr::enrich::{
    brew_info_desc_of_json, crate_description_of_json, npm_description_of_output,
    parse_pip_show_summary,
};
use depmgr::jsonmodel::parse_json;
use depmgr::listing::{
    formulas_of_json, merge_catalog_installed, npm_packages_of_json, parse_brew_list_versions,
    parse_cargo_install_list, pip_packages_of_json,
};
use depmgr::outdated::{
    apply_outdated_report, check_outdated_packages_fast, npm_outdated_of_json,
    pip_outdated_of_json,
};
use depmgr::PackageManager;

#[test]
fn brew_list_lines_become_packages() {
    let out = "ripgrep 14.1.0\njq 1.7 1.6\n\nloneword\n";
    let pkgs = parse_brew_list_versions(out);
    assert_eq!(pkgs.len(), 3);
    assert_eq!(pkgs[0].name, "ripgrep");
    assert_eq!(pkgs[0].installed_version, "14.1.0");
    assert_eq!(pkgs[0].manager, PackageManager::Homebrew);
    assert_eq!(pkgs[1].name, "jq");
    assert_eq!(pkgs[1].installed_version, "1.7");
    assert_eq!(pkgs[2].name, "loneword");
    assert_eq!(pkgs[2].installed_version, "unknown");
}

#[test]
fn cargo_install_list_lines_become_packages() {
    let out = "bat v0.24.0:\n    bat\nfd-find v10.1.0:\n    fd\nnot a package line\n";
    let pkgs = parse_cargo_install_list(out);
    assert_eq!(pkgs.len(), 2);
    assert_eq!(pkgs[0].name, "bat");
    assert_eq!(pkgs[0].installed_version, "0.24.0");
    assert_eq!(pkgs[0].manager, PackageManager::Cargo);
    assert_eq!(pkgs[1].name, "fd-find");
    assert_eq!(pkgs[1].installed_version, "10.1.0");
}

#[test]
fn npm_listing_reads_dependencies_object() {
    let doc = parse_json(
        "{\"dependencies\":{\"typescript\":{\"version\":\"5.5.2\"},\"broken\":{},\"eslint\":{\"version\":\"9.0.0\"}}}",
    )
    .expect("valid json");
    let pkgs = npm_packages_of_json(&doc);
    assert_eq!(pkgs.len(), 2);
    assert_eq!(pkgs[0].name, "eslint");
    assert_eq!(pkgs[0].installed_version, "9.0.0");
    assert_eq!(pkgs[1].name, "typescript");
    assert_eq!(pkgs[1].installed_version, "5.5.2");
}

#[test]
fn pip_listing_reads_array_items() {
    let doc = parse_json(
        "[{\"name\":\"requests\",\"version\":\"2.32.0\"},{\"nope\":true},{\"name\":\"flask\",\"version\":\"3.0.3\"}]",
    )
    .expect("valid json");
    let pkgs = pip_packages_of_json(&doc);
    assert_eq!(pkgs.len(), 2);
    assert_eq!(pkgs[0].name, "requests");
    assert_eq!(pkgs[1].name, "flask");
    assert_eq!(pkgs[1].installed_version, "3.0.3");
    assert_eq!(pkgs[1].manager, PackageManager::Pip);
}

#[test]
fn invalid_json_is_rejected() {
    assert!(parse_json("{not json").is_none());
    assert!(parse_json("").is_none());
}

#[test]
fn catalog_merge_scenario_marks_only_truly_outdated() {
    // Installed: foo 1.0 and bar 2.0; the catalog's latest: foo 1.0, bar 2.1.
    let catalog = parse_json(
        "[{\"name\":\"foo\",\"desc\":\"tool foo\",\"versions\":{\"stable\":\"1.0\"}},{\"name\":\"bar\",\"versions\":{\"stable\":\"2.1\"}},{\"name\":\"uninstalled\",\"versions\":{\"stable\":\"9.9\"}}]",
    )
    .expect("valid json");
    let formulas = formulas_of_json(&catalog);
    assert_eq!(formulas.len(), 3);
    let installed = parse_brew_list_versions("foo 1.0\nbar 2.0\n");
    let mut merged = merge_catalog_installed(&formulas, &installed);
    assert_eq!(merged.len(), 2);
    check_outdated_packages_fast(&mut merged);
    assert_eq!(merged[0].name, "foo");
    assert!(!merged[0].is_outdated);
    assert_eq!(merged[1].name, "bar");
    assert!(merged[1].is_outdated);
    assert_eq!(merged[1].latest_version.as_deref(), Some("2.1"));
    assert_eq!(merged[0].description.as_deref(), Some("tool foo"));
}

#[test]
fn outdated_flag_is_derived_not_sticky() {
    let mut pkgs = vec![
        depmgr::Package::new("x".to_string(), PackageManager::Homebrew, "1.0".to_string())
            .with_latest_version("1.0".to_string()),
    ];
    // Force an inconsistent flag, as a stale scan might leave behind.
    pkgs[0].is_outdated = true;
    check_outdated_packages_fast(&mut pkgs);
    assert!(!pkgs[0].is_outdated);
}

#[test]
fn npm_outdated_report_is_applied() {
    let doc = parse_json(
        "{\"typescript\":{\"latest\":\"5.6.0\",\"current\":\"5.5.2\"},\"eslint\":{\"latest\":\"9.0.0\"}}",
    )
    .expect("valid json");
    let report = npm_outdated_of_json(&doc);
    assert_eq!(report.len(), 2);
    let mut pkgs = vec![
        depmgr::Package::new(
            "typescript".to_string(),
            PackageManager::Npm,
            "5.5.2".to_string(),
        ),
        depmgr::Package::new("eslint".to_string(), PackageManager::Npm, "9.0.0".to_string()),
        depmgr::Package::new("prettier".to_string(), PackageManager::Npm, "3.3.0".to_string()),
    ];
    apply_outdated_report(&mut pkgs, &report);
    assert!(pkgs[0].is_outdated);
    assert_eq!(pkgs[0].latest_version.as_deref(), Some("5.6.0"));
    // Reported latest equal to installed stays consistent: not outdated.
    assert!(!pkgs[1].is_outdated);
    assert_eq!(pkgs[1].latest_version.as_deref(), Some("9.0.0"));
    // Unreported packages are untouched.
    assert!(!pkgs[2].is_outdated);
    assert!(pkgs[2].latest_version.is_none());
}

#[test]
fn pip_outdated_report_is_applied() {
    let doc = parse_json(
        "[{\"name\":\"requests\",\"version\":\"2.31.0\",\"latest_version\":\"2.32.0\"}]",
    )
    .expect("valid json");
    let report = pip_outdated_of_json(&doc);
    assert_eq!(report.len(), 1);
    let mut pkgs = vec![depmgr::Package::new(
        "requests".to_string(),
        PackageManager::Pip,
        "2.31.0".to_string(),
    )];
    apply_outdated_report(&mut pkgs, &report);
    assert!(pkgs[0].is_outdated);
    assert_eq!(pkgs[0].latest_version.as_deref(), Some("2.32.0"));
}

#[test]
fn brew_info_desc_reads_first_formula() {
    let doc = parse_json(
        "{\"formulae\":[{\"name\":\"jq\",\"desc\":\"Lightweight JSON processor\"}],\"casks\":[]}",
    )
    .expect("valid json");
    assert_eq!(
        brew_info_desc_of_json(&doc).as_deref(),
        Some("Lightweight JSON processor")
    );
    let empty = parse_json("{\"formulae\":[]}").expect("valid json");
    assert!(brew_info_desc_of_json(&empty).is_none());
}

#[test]
fn brew_info_desc_falls_back_to_casks() {
    let doc = parse_json(
        "{\"formulae\":[],\"casks\":[{\"token\":\"firefox\",\"desc\":\"Web browser\"}]}",
    )
    .expect("valid json");
    assert_eq!(brew_info_desc_of_json(&doc).as_deref(), Some("Web browser"));
    let neither = parse_json("{\"formulae\":[],\"casks\":[{}]}").expect("valid json");
    assert!(brew_info_desc_of_json(&neither).is_none());
}

#[test]
fn crates_io_desc_reads_crate_object() {
    let doc = parse_json(
        "{\"crate\":{\"name\":\"ripgrep\",\"description\":\"Recursive line search\"}}",
    )
    .expect("valid json");
    assert_eq!(crate_description_of_json(&doc).as_deref(), Some("Recursive line search"));
    let other = parse_json("{\"crate\":{}}").expect("valid json");
    assert!(crate_description_of_json(&other).is_none());
}

#[test]
fn npm_description_is_trimmed_and_nonempty() {
    assert_eq!(
        npm_description_of_output("  TypeScript compiler\n").as_deref(),
        Some("TypeScript compiler")
    );
    assert!(npm_description_of_output("   \n").is_none());
}

#[test]
fn pip_show_summary_line_is_found() {
    let out = "Name: requests\nVersion: 2.32.0\nSummary: Python HTTP for Humans.\nHome-page: x\n";
    assert_eq!(parse_pip_show_summary(out).as_deref(), Some("Python HTTP for Humans."));
    assert!(parse_pip_show_summary("Name: x\nSummary:   \n").is_none());
    assert!(parse_pip_show_summary("nothing here").is_none());
}
