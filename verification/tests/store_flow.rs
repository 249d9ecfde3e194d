use depmgr::commands::{list_command, outdated_command, uninstall_command};
use depmgr::enrich::{apply_description, missing_description_names, EnrichmentPool};
use depmgr::executor::{
    error_of_action, executor_step, mutation_result_of_output, CommandOutput, ExecAction,
    ExecError, PollResult,
};
use depmgr::scanner::{scan_homebrew_tool_usage, scan_package_usage, DepFile, DepFileKind,
    ScanEntry};
use depmgr::{DepMgrApp, Package, PackageManager, TtlCache};

fn pkg(name: &str, manager: PackageManager, version: &str) -> Package {
    Package::new(name.to_string(), manager, version.to_string())
}

#[test]
fn refresh_requests_coalesce_into_one_follow_up() {
    let mut app = DepMgrApp::default();
    app.start_scan();
    assert!(app.is_scanning);
    // Several refresh requests land while the cycle is in flight.
    app.request_refresh();
    app.request_refresh();
    app.request_refresh();
    // None starts a cycle while one is running.
    assert!(!app.handle_refresh());
    // The cycle completes; exactly one follow-up begins.
    assert!(app.finish_scan());
    assert!(app.handle_refresh());
    assert!(app.is_scanning);
    // And no second follow-up is pending.
    assert!(app.finish_scan() == false);
    assert!(!app.handle_refresh());
}

#[test]
fn uninstall_then_reinstall_round_trip() {
    let mut app = DepMgrApp::default();
    let mut foo = pkg("foo", PackageManager::Homebrew, "1.0");
    foo.used_in = vec!["/home/dev/app".to_string()];
    app.packages = vec![foo];
    let cmd = app.uninstall_package("foo", PackageManager::Homebrew, 100);
    assert!(cmd.is_some());
    assert!(app.is_updating("foo"));
    app.finish_uninstall("foo", Ok(()), 101);
    // The record stays, flagged removed, its usage intact.
    assert!(!app.is_updating("foo"));
    assert!(app.is_removed("foo"));
    assert_eq!(app.packages.len(), 1);
    assert_eq!(app.packages[0].name, "foo");
    assert_eq!(app.packages[0].used_in, vec!["/home/dev/app".to_string()]);
    assert_eq!(app.get_update_status_at(102), "foo removed (click Reinstall to undo)");
    // Reinstalling clears the mark.
    let cmd = app.reinstall_package("foo", PackageManager::Homebrew, 110);
    assert!(cmd.is_some());
    app.finish_reinstall("foo", Ok(()), 111);
    assert!(!app.is_removed("foo"));
    assert_eq!(app.get_update_status_at(112), "foo reinstalled");
}

#[test]
fn failed_mutation_leaves_state_untouched() {
    let mut app = DepMgrApp::default();
    app.packages = vec![pkg("foo", PackageManager::Homebrew, "1.0")];
    app.uninstall_package("foo", PackageManager::Homebrew, 10);
    app.finish_uninstall("foo", Err("permission denied".to_string()), 11);
    assert!(!app.is_removed("foo"));
    assert!(!app.is_updating("foo"));
    assert_eq!(app.get_update_status_at(12), "Failed to remove foo: permission denied");
}

#[test]
fn status_message_goes_stale_after_its_delay() {
    let mut app = DepMgrApp::default();
    app.packages = vec![pkg("foo", PackageManager::Homebrew, "1.0")];
    app.update_package("foo", PackageManager::Homebrew, 100);
    assert_eq!(app.get_update_status_at(100), "Updating foo...");
    app.finish_update("foo", Ok(()), 100);
    assert_eq!(app.get_update_status_at(103), "Updated foo");
    assert_eq!(app.get_update_status_at(104), "");
}

#[test]
fn unsupported_manager_reports_failure_and_marks_nothing() {
    let mut app = DepMgrApp::default();
    let cmd = app.update_package("gopls", PackageManager::Go, 50);
    assert!(cmd.is_none());
    assert!(!app.is_updating("gopls"));
    assert_eq!(
        app.get_update_status_at(51),
        "Failed to update gopls: this manager does not support updates"
    );
}

#[test]
fn filtered_packages_by_manager_query_and_outdated() {
    let mut app = DepMgrApp::default();
    app.packages = vec![
        pkg("ripgrep", PackageManager::Homebrew, "14.0").with_latest_version("14.1".to_string()),
        pkg("TypeScript", PackageManager::Npm, "5.5"),
        pkg("requests", PackageManager::Pip, "2.32"),
    ];
    // No filters: everything.
    assert_eq!(app.filtered_packages().len(), 3);
    // Manager filter.
    app.selected_managers = vec![PackageManager::Npm];
    let r = app.filtered_packages();
    assert_eq!(r.len(), 1);
    assert_eq!(r[0].name, "TypeScript");
    // Case-folded search.
    app.selected_managers = vec![];
    app.search_query = "typescript".to_string();
    let r = app.filtered_packages();
    assert_eq!(r.len(), 1);
    assert_eq!(r[0].name, "TypeScript");
    // Outdated only.
    app.search_query = String::new();
    app.show_outdated_only = true;
    let r = app.filtered_packages();
    assert_eq!(r.len(), 1);
    assert_eq!(r[0].name, "ripgrep");
}

#[test]
fn stats_count_outdated_and_unused() {
    let mut app = DepMgrApp::default();
    let mut used = pkg("node", PackageManager::Homebrew, "22.0");
    used.used_in = vec!["/home/dev/web".to_string()];
    app.packages = vec![
        used,
        pkg("bat", PackageManager::Cargo, "0.24").with_latest_version("0.25".to_string()),
        pkg("flask", PackageManager::Pip, "3.0"),
    ];
    let (total, outdated, unused) = app.stats();
    assert_eq!(total, 3);
    assert_eq!(outdated, 1);
    assert_eq!(unused, 2);
}

#[test]
fn replace_manager_packages_is_wholesale_per_manager() {
    let mut app = DepMgrApp::default();
    app.packages = vec![
        pkg("old-brew", PackageManager::Homebrew, "1"),
        pkg("eslint", PackageManager::Npm, "9"),
    ];
    app.replace_manager_packages(
        PackageManager::Homebrew,
        vec![pkg("new-brew", PackageManager::Homebrew, "2")],
    );
    assert_eq!(app.packages.len(), 2);
    assert_eq!(app.packages[0].name, "eslint");
    assert_eq!(app.packages[1].name, "new-brew");
}

#[test]
fn cache_round_trip_and_expiry() {
    let mut cache = TtlCache::new();
    cache.set_cached_at("catalog".to_string(), "payload-a".to_string(), 3600, 1000);
    // Within the time-to-live the exact payload comes back.
    assert_eq!(cache.get_cached_at("catalog", 1000).as_deref(), Some("payload-a"));
    assert_eq!(cache.get_cached_at("catalog", 4600).as_deref(), Some("payload-a"));
    // Once more than the time-to-live has passed, the entry is evicted.
    assert!(cache.get_cached_at("catalog", 4601).is_none());
    assert!(cache.get_cached_at("catalog", 1000).is_none());
    // Overwrites are unconditional; invalidation removes.
    cache.set_cached_at("k".to_string(), "one".to_string(), 10, 0);
    cache.set_cached_at("k".to_string(), "two".to_string(), 10, 0);
    assert_eq!(cache.get_cached_at("k", 5).as_deref(), Some("two"));
    cache.invalidate("k");
    assert!(cache.get_cached_at("k", 5).is_none());
}

#[test]
fn cache_entry_expiry_policy() {
    let e = depmgr::CacheEntry::new_at("x".to_string(), 10, 100);
    assert!(!e.is_expired_at(100));
    assert!(!e.is_expired_at(110));
    assert!(e.is_expired_at(111));
    // A clock standing before the entry's own timestamp reads fresh.
    assert!(!e.is_expired_at(50));
}

#[test]
fn executor_times_out_overdue_children() {
    // The child is still running past its deadline: it is killed and the
    // caller sees a timeout.
    let action = executor_step(5001, 5000, PollResult::Running);
    assert!(matches!(action, ExecAction::KillAndTimeout));
    assert!(matches!(error_of_action(action), Some(ExecError::Timeout)));
    // At the deadline itself the child may keep running.
    assert!(matches!(executor_step(5000, 5000, PollResult::Running), ExecAction::SleepAndRetry));
    // An exited child is collected whatever the clock says.
    assert!(matches!(executor_step(9999, 10, PollResult::Exited), ExecAction::CollectOutput));
    let failed = executor_step(1, 10, PollResult::PollError("gone".to_string()));
    match &failed {
        ExecAction::KillAndFail(m) => assert_eq!(m, "gone"),
        _ => panic!("expected KillAndFail"),
    }
}

#[test]
fn mutation_outcome_follows_exit_status() {
    let ok = CommandOutput {
        success: true,
        exit_code: Some(0),
        stdout: "done".to_string(),
        stderr: String::new(),
    };
    assert!(mutation_result_of_output(&ok).is_ok());
    let bad = CommandOutput {
        success: false,
        exit_code: Some(1),
        stdout: String::new(),
        stderr: "no such package".to_string(),
    };
    assert_eq!(mutation_result_of_output(&bad).unwrap_err(), "no such package");
}

#[test]
fn enrichment_pool_never_exceeds_its_limit() {
    let mut pool = EnrichmentPool::new(2);
    assert!(pool.try_start());
    assert!(pool.try_start());
    // The third fetch must wait.
    assert!(!pool.try_start());
    assert_eq!(pool.in_flight, 2);
    pool.finish();
    assert!(pool.try_start());
    assert!(pool.in_flight <= pool.limit);
}

#[test]
fn missing_descriptions_and_application() {
    let mut pkgs = vec![
        pkg("bat", PackageManager::Cargo, "0.24"),
        pkg("jq", PackageManager::Homebrew, "1.7").with_description("json tool".to_string()),
        pkg("fd-find", PackageManager::Cargo, "10.1"),
    ];
    let all = missing_description_names(&pkgs, None);
    assert_eq!(all, vec!["bat".to_string(), "fd-find".to_string()]);
    let cargo_only = missing_description_names(&pkgs, Some(PackageManager::Cargo));
    assert_eq!(cargo_only.len(), 2);
    apply_description(&mut pkgs, PackageManager::Cargo, "fd-find", "fast find".to_string());
    assert_eq!(pkgs[2].description.as_deref(), Some("fast find"));
    // A name no package bears changes nothing.
    apply_description(&mut pkgs, PackageManager::Cargo, "ghost", "nope".to_string());
    assert!(pkgs[0].description.is_none());
}

#[test]
fn description_lands_only_on_the_fetching_managers_gap() {
    // Two packages share a name across managers; the Homebrew one comes
    // first in inventory order.  An npm-fetched description must land on
    // the npm entry, not the Homebrew one.
    let mut pkgs = vec![
        pkg("express", PackageManager::Homebrew, "4.0"),
        pkg("express", PackageManager::Npm, "4.19"),
    ];
    apply_description(&mut pkgs, PackageManager::Npm, "express", "web framework".to_string());
    assert!(pkgs[0].description.is_none());
    assert_eq!(pkgs[1].description.as_deref(), Some("web framework"));
    // A package that already has a description is never overwritten: the
    // description lands on the next one of that name still missing one.
    let mut pkgs = vec![
        pkg("x", PackageManager::Npm, "1").with_description("kept".to_string()),
        pkg("x", PackageManager::Npm, "2"),
    ];
    apply_description(&mut pkgs, PackageManager::Npm, "x", "late answer".to_string());
    assert_eq!(pkgs[0].description.as_deref(), Some("kept"));
    assert_eq!(pkgs[1].description.as_deref(), Some("late answer"));
    // With every package of the name described already, nothing changes.
    apply_description(&mut pkgs, PackageManager::Npm, "x", "another".to_string());
    assert_eq!(pkgs[0].description.as_deref(), Some("kept"));
    assert_eq!(pkgs[1].description.as_deref(), Some("late answer"));
}

fn entry(path: &str) -> ScanEntry {
    ScanEntry {
        path: path.to_string(),
        has_package_json: false,
        has_cargo_toml: false,
        has_python_project: false,
        has_gemfile: false,
        has_go_mod: false,
        has_java_build: false,
        has_git: false,
        has_docker: false,
        mentions_postgres: false,
        mentions_redis: false,
        mentions_mongo: false,
    }
}

#[test]
fn tool_usage_is_sorted_deduplicated_and_idempotent() {
    let mut a = entry("/home/dev/zeta");
    a.has_package_json = true;
    let mut b = entry("/home/dev/alpha");
    b.has_package_json = true;
    b.has_git = true;
    let entries = vec![a.clone(), b, a];
    let mut pkgs = vec![
        pkg("node", PackageManager::Homebrew, "22"),
        pkg("git", PackageManager::Homebrew, "2.45"),
        pkg("rust", PackageManager::Homebrew, "1.79"),
    ];
    scan_homebrew_tool_usage(&mut pkgs, &entries);
    assert_eq!(
        pkgs[0].used_in,
        vec!["/home/dev/alpha".to_string(), "/home/dev/zeta".to_string()]
    );
    assert_eq!(pkgs[1].used_in, vec!["/home/dev/alpha".to_string()]);
    assert!(pkgs[2].used_in.is_empty());
    // A second pass over the unchanged findings yields identical lists.
    let before: Vec<Vec<String>> = pkgs.iter().map(|p| p.used_in.clone()).collect();
    scan_homebrew_tool_usage(&mut pkgs, &entries);
    let after: Vec<Vec<String>> = pkgs.iter().map(|p| p.used_in.clone()).collect();
    assert_eq!(before, after);
}

#[test]
fn manifest_usage_matches_by_manager() {
    let files = vec![
        DepFile {
            dir: "/home/dev/web".to_string(),
            kind: DepFileKind::PackageJson,
            content: "{\"dependencies\":{\"express\":\"^4.0.0\"}}".to_string(),
        },
        DepFile {
            dir: "/home/dev/cli".to_string(),
            kind: DepFileKind::CargoToml,
            content: "[dependencies]\nserde = \"1\"\n".to_string(),
        },
    ];
    let mut pkgs = vec![
        pkg("express", PackageManager::Npm, "4.19"),
        pkg("serde", PackageManager::Cargo, "1.0"),
        pkg("express", PackageManager::Pip, "0.1"),
    ];
    scan_package_usage(&mut pkgs, &files);
    assert_eq!(pkgs[0].used_in, vec!["/home/dev/web".to_string()]);
    assert_eq!(pkgs[1].used_in, vec!["/home/dev/cli".to_string()]);
    // The pip package of the same name matches no manifest here.
    assert!(pkgs[2].used_in.is_empty());
}

#[test]
fn scan_directories_derive_from_home() {
    let dirs = depmgr::scanner::get_scan_directories("/home/ada");
    assert_eq!(dirs.len(), 7);
    assert_eq!(dirs[0], "/home/ada/Desktop");
    assert_eq!(dirs[6], "/home/ada/workspace");
}

#[test]
fn command_registry_matches_the_managers() {
    let brew_list = list_command(PackageManager::Homebrew).unwrap();
    assert_eq!(brew_list.program, "brew");
    assert_eq!(brew_list.args, vec!["list".to_string(), "--versions".to_string()]);
    assert_eq!(brew_list.timeout_ms, 15000);
    let pip_outdated = outdated_command(PackageManager::Pip).unwrap();
    assert_eq!(pip_outdated.program, "pip3");
    assert!(outdated_command(PackageManager::Cargo).is_none());
    let npm_rm = uninstall_command(PackageManager::Npm, "left-pad").unwrap();
    assert_eq!(
        npm_rm.args,
        vec!["uninstall".to_string(), "-g".to_string(), "left-pad".to_string()]
    );
    assert!(uninstall_command(PackageManager::Gem, "rails").is_none());
}

#[test]
fn available_managers_follow_probe_results() {
    let all = depmgr::commands::all_managers();
    assert_eq!(all.len(), 12);
    let probes = vec![
        (PackageManager::Homebrew, true),
        (PackageManager::Npm, false),
        (PackageManager::Cargo, true),
    ];
    let avail = depmgr::commands::available_from(&probes);
    assert_eq!(avail, vec![PackageManager::Homebrew, PackageManager::Cargo]);
}
