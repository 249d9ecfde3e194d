//! The usage scanner: turning a filesystem walk's findings into each
//! package's `used_in` list.
//!
//! The walk itself (directories, marker files, file contents) is I/O and
//! lives in the driver; it hands over plain findings.  Each package's list
//! is overwritten wholesale from the current walk — usage recorded earlier
//! for a directory the walk no longer visits is lost, a known limitation
//! kept deliberately — and every list comes out sorted and duplicate-free.

use vstd::prelude::*;

use crate::models::{clone_package, Package, PackageManager, PackageV};
use crate::strutil::{
    contains_seq, contains_sub, insert_sorted_unique, lemma_insert_sorted_unique,
    sorted_unique, spec_insert_sorted, str_eq,
};

verus! {

/// What the walk found in one directory: which project markers stand in
/// it, and, for a package.json, which database names its text mentions.
#[derive(Debug, Clone)]
pub struct ScanEntry {
    pub path: String,
    pub has_package_json: bool,
    pub has_cargo_toml: bool,
    /// requirements.txt, setup.py, pyproject.toml or Pipfile.
    pub has_python_project: bool,
    pub has_gemfile: bool,
    pub has_go_mod: bool,
    /// pom.xml or build.gradle.
    pub has_java_build: bool,
    pub has_git: bool,
    /// Dockerfile or docker-compose.yml.
    pub has_docker: bool,
    pub mentions_postgres: bool,
    pub mentions_redis: bool,
    pub mentions_mongo: bool,
}

/// The mathematical value of a `ScanEntry`.
pub ghost struct ScanEntryV {
    pub path: Seq<char>,
    pub has_package_json: bool,
    pub has_cargo_toml: bool,
    pub has_python_project: bool,
    pub has_gemfile: bool,
    pub has_go_mod: bool,
    pub has_java_build: bool,
    pub has_git: bool,
    pub has_docker: bool,
    pub mentions_postgres: bool,
    pub mentions_redis: bool,
    pub mentions_mongo: bool,
}

impl View for ScanEntry {
    type V = ScanEntryV;

    open spec fn view(&self) -> ScanEntryV {
        ScanEntryV {
            path: self.path@,
            has_package_json: self.has_package_json,
            has_cargo_toml: self.has_cargo_toml,
            has_python_project: self.has_python_project,
            has_gemfile: self.has_gemfile,
            has_go_mod: self.has_go_mod,
            has_java_build: self.has_java_build,
            has_git: self.has_git,
            has_docker: self.has_docker,
            mentions_postgres: self.mentions_postgres,
            mentions_redis: self.mentions_redis,
            mentions_mongo: self.mentions_mongo,
        }
    }
}

impl DeepView for ScanEntry {
    type V = ScanEntryV;

    open spec fn deep_view(&self) -> ScanEntryV {
        self.view()
    }
}

/// Whether a directory's markers imply use of the named tool.
pub open spec fn spec_entry_uses_tool(e: ScanEntryV, tool: Seq<char>) -> bool {
    (e.has_package_json && (tool == "node"@ || tool == "npm"@)) || (e.has_cargo_toml && (tool
        == "rust"@ || tool == "cargo"@)) || (e.has_python_project && (tool == "python"@ || tool
        == "python3"@ || tool == "pip"@)) || (e.has_gemfile && (tool == "ruby"@ || tool == "gem"@
        || tool == "bundle"@)) || (e.has_go_mod && tool == "go"@) || (e.has_java_build && (tool
        == "java"@ || tool == "maven"@ || tool == "gradle"@)) || (e.has_git && tool == "git"@)
        || (e.has_docker && (tool == "docker"@ || tool == "docker-compose"@)) || (
    e.mentions_postgres && tool == "postgresql"@) || (e.mentions_redis && tool == "redis"@) || (
    e.mentions_mongo && tool == "mongodb"@)
}

/// Decide `spec_entry_uses_tool`.
fn entry_uses_tool(e: &ScanEntry, tool: &str) -> (r: bool)
    ensures
        r == spec_entry_uses_tool(e@, tool@),
{
    (e.has_package_json && (str_eq(tool, "node") || str_eq(tool, "npm"))) || (e.has_cargo_toml
        && (str_eq(tool, "rust") || str_eq(tool, "cargo"))) || (e.has_python_project && (str_eq(
        tool,
        "python",
    ) || str_eq(tool, "python3") || str_eq(tool, "pip"))) || (e.has_gemfile && (str_eq(
        tool,
        "ruby",
    ) || str_eq(tool, "gem") || str_eq(tool, "bundle"))) || (e.has_go_mod && str_eq(tool, "go"))
        || (e.has_java_build && (str_eq(tool, "java") || str_eq(tool, "maven") || str_eq(
        tool,
        "gradle",
    ))) || (e.has_git && str_eq(tool, "git")) || (e.has_docker && (str_eq(tool, "docker")
        || str_eq(tool, "docker-compose"))) || (e.mentions_postgres && str_eq(
        tool,
        "postgresql",
    )) || (e.mentions_redis && str_eq(tool, "redis")) || (e.mentions_mongo && str_eq(
        tool,
        "mongodb",
    ))
}

/// The sorted, duplicate-free directory list a walk yields for a tool,
/// folding each matching entry's path in, in walk order.
pub open spec fn spec_usage_fold(
    entries: Seq<ScanEntryV>,
    tool: Seq<char>,
    acc: Seq<Seq<char>>,
) -> Seq<Seq<char>>
    decreases entries.len(),
{
    if entries.len() == 0 {
        acc
    } else {
        spec_usage_fold(
            entries.skip(1),
            tool,
            if spec_entry_uses_tool(entries[0], tool) {
                spec_insert_sorted(acc, entries[0].path)
            } else {
                acc
            },
        )
    }
}

/// The directories that use a tool, per the walk's findings.
pub open spec fn spec_usage_paths(entries: Seq<ScanEntryV>, tool: Seq<char>) -> Seq<Seq<char>> {
    spec_usage_fold(entries, tool, Seq::empty())
}

/// The fold keeps the list sorted and duplicate-free.
proof fn lemma_usage_fold_sorted(entries: Seq<ScanEntryV>, tool: Seq<char>, acc: Seq<Seq<char>>)
    requires
        sorted_unique(acc),
    ensures
        sorted_unique(spec_usage_fold(entries, tool, acc)),
    decreases entries.len(),
{
    if entries.len() > 0 {
        if spec_entry_uses_tool(entries[0], tool) {
            lemma_insert_sorted_unique(acc, entries[0].path);
            lemma_usage_fold_sorted(entries.skip(1), tool, spec_insert_sorted(
                acc,
                entries[0].path,
            ));
        } else {
            lemma_usage_fold_sorted(entries.skip(1), tool, acc);
        }
    }
}

/// Every usage list the walk yields is sorted and duplicate-free.
pub proof fn lemma_usage_paths_sorted(entries: Seq<ScanEntryV>, tool: Seq<char>)
    ensures
        sorted_unique(spec_usage_paths(entries, tool)),
{
    lemma_usage_fold_sorted(entries, tool, Seq::empty());
}

/// Collect the sorted, duplicate-free directories using a tool.
pub fn usage_paths_for(entries: &Vec<ScanEntry>, tool: &str) -> (r: Vec<String>)
    ensures
        r.deep_view() == spec_usage_paths(entries.deep_view(), tool@),
{
    let ghost ev: Seq<ScanEntryV> = entries.deep_view();
    let n = entries.len();
    let mut acc: Vec<String> = Vec::new();
    let mut i: usize = 0;
    proof {
        assert(ev.skip(0) =~= ev);
        assert(acc.deep_view() =~= Seq::<Seq<char>>::empty());
    }
    while i < n
        invariant
            i <= n,
            n == entries@.len(),
            ev == entries.deep_view(),
            spec_usage_paths(ev, tool@) == spec_usage_fold(
                ev.skip(i as int),
                tool@,
                acc.deep_view(),
            ),
        decreases n - i,
    {
        proof {
            assert(ev.skip(i as int)[0] == ev[i as int]);
            assert(ev.skip(i as int).skip(1) =~= ev.skip(i as int + 1));
            assert(entries@[i as int]@ == ev[i as int]);
        }
        if entry_uses_tool(&entries[i], tool) {
            insert_sorted_unique(&mut acc, entries[i].path.clone());
        }
        i = i + 1;
    }
    acc
}

/// A package after one walk's findings land: its `used_in` list is
/// overwritten wholesale with the directories using its name as a tool.
pub open spec fn spec_tool_scanned(p: PackageV, entries: Seq<ScanEntryV>) -> PackageV {
    PackageV { used_in: spec_usage_paths(entries, p.name), ..p }
}

/// The idempotence law: a package's `used_in` list is a function of the
/// walk's findings and the package's name alone, so scanning twice over an
/// unchanged tree leaves exactly what one scan left.
pub proof fn lemma_tool_scan_idempotent(p: PackageV, entries: Seq<ScanEntryV>)
    ensures
        spec_tool_scanned(spec_tool_scanned(p, entries), entries) == spec_tool_scanned(
            p,
            entries,
        ),
{
}

/// Overwrite every package's `used_in` list from the walk's findings,
/// matching each package's name against the tools the markers imply.
pub fn scan_homebrew_tool_usage(packages: &mut Vec<Package>, entries: &Vec<ScanEntry>)
    ensures
        final(packages).deep_view().len() == old(packages).deep_view().len(),
        forall|k: int|
            0 <= k < old(packages).deep_view().len() ==> final(packages).deep_view()[k]
                == spec_tool_scanned(old(packages).deep_view()[k], entries.deep_view()),
{
    let ghost orig: Seq<PackageV> = old(packages).deep_view();
    let ghost ev: Seq<ScanEntryV> = entries.deep_view();
    let n = packages.len();
    let mut scanned: Vec<Package> = Vec::new();
    let mut i: usize = 0;
    while i < n
        invariant
            i <= n,
            n == packages@.len(),
            orig == packages.deep_view(),
            ev == entries.deep_view(),
            scanned@.len() == i,
            forall|k: int| 0 <= k < i ==> scanned.deep_view()[k] == spec_tool_scanned(
                orig[k],
                ev,
            ),
        decreases n - i,
    {
        proof {
            assert(packages@[i as int]@ == orig[i as int]);
        }
        let mut q = clone_package(&packages[i]);
        q.used_in = usage_paths_for(entries, q.name.as_str());
        proof {
            assert(q@ == spec_tool_scanned(orig[i as int], ev));
        }
        let ghost qv: PackageV = q@;
        let ghost prior: Seq<PackageV> = scanned.deep_view();
        scanned.push(q);
        proof {
            assert(scanned.deep_view() =~= prior.push(qv));
            assert forall|k: int| 0 <= k < i + 1 implies scanned.deep_view()[k]
                == spec_tool_scanned(orig[k], ev) by {
                if k < i {
                    assert(scanned.deep_view()[k] == prior[k]);
                }
            }
        }
        i = i + 1;
    }
    *packages = scanned;
}

/// Which manifest file a walk found and read.
#[derive(Debug, Clone, Copy, PartialEq, Eq, Structural)]
pub enum DepFileKind {
    PackageJson,
    CargoToml,
    Requirements,
    Pipfile,
    Gemfile,
}

/// One manifest file the walk read: the directory that holds it, which
/// kind it is, and its text.
#[derive(Debug, Clone)]
pub struct DepFile {
    pub dir: String,
    pub kind: DepFileKind,
    pub content: String,
}

/// The mathematical value of a `DepFile`.
pub ghost struct DepFileV {
    pub dir: Seq<char>,
    pub kind: DepFileKind,
    pub content: Seq<char>,
}

impl View for DepFile {
    type V = DepFileV;

    open spec fn view(&self) -> DepFileV {
        DepFileV { dir: self.dir@, kind: self.kind, content: self.content@ }
    }
}

impl DeepView for DepFile {
    type V = DepFileV;

    open spec fn deep_view(&self) -> DepFileV {
        self.view()
    }
}

/// Whether one manifest file references a package: npm packages by their
/// quoted name in a package.json, Cargo packages by name in a Cargo.toml,
/// pip packages by name in a requirements.txt or Pipfile, gems by name in
/// a Gemfile.  Other managers' packages match no manifest.
pub open spec fn spec_dep_file_matches(
    f: DepFileV,
    manager: PackageManager,
    name: Seq<char>,
) -> bool {
    match manager {
        PackageManager::Npm => f.kind == DepFileKind::PackageJson && contains_seq(
            f.content,
            seq!['"'] + name + seq!['"'],
        ),
        PackageManager::Cargo => f.kind == DepFileKind::CargoToml && contains_seq(
            f.content,
            name,
        ),
        PackageManager::Pip => (f.kind == DepFileKind::Requirements || f.kind
            == DepFileKind::Pipfile) && contains_seq(f.content, name),
        PackageManager::Gem => f.kind == DepFileKind::Gemfile && contains_seq(f.content, name),
        _ => false,
    }
}

/// A package's name in double quotes, as a package.json would hold it.
fn quoted_name(name: &str) -> (r: String)
    ensures
        r@ == seq!['"'] + name@ + seq!['"'],
{
    proof {
        reveal_strlit("\"");
    }
    let mut s = String::from_str("\"");
    s.append(name);
    s.append("\"");
    s
}

/// Decide `spec_dep_file_matches`.
fn dep_file_matches(f: &DepFile, manager: PackageManager, name: &str) -> (r: bool)
    ensures
        r == spec_dep_file_matches(f@, manager, name@),
{
    match manager {
        PackageManager::Npm => {
            if f.kind == DepFileKind::PackageJson {
                let quoted = quoted_name(name);
                contains_sub(f.content.as_str(), quoted.as_str())
            } else {
                false
            }
        },
        PackageManager::Cargo => f.kind == DepFileKind::CargoToml && contains_sub(
            f.content.as_str(),
            name,
        ),
        PackageManager::Pip => (f.kind == DepFileKind::Requirements || f.kind
            == DepFileKind::Pipfile) && contains_sub(f.content.as_str(), name),
        PackageManager::Gem => f.kind == DepFileKind::Gemfile && contains_sub(
            f.content.as_str(),
            name,
        ),
        _ => false,
    }
}

/// The sorted, duplicate-free directory list the manifest files yield for
/// one package, folding each matching file's directory in, in walk order.
pub open spec fn spec_dep_usage_fold(
    files: Seq<DepFileV>,
    manager: PackageManager,
    name: Seq<char>,
    acc: Seq<Seq<char>>,
) -> Seq<Seq<char>>
    decreases files.len(),
{
    if files.len() == 0 {
        acc
    } else {
        spec_dep_usage_fold(
            files.skip(1),
            manager,
            name,
            if spec_dep_file_matches(files[0], manager, name) {
                spec_insert_sorted(acc, files[0].dir)
            } else {
                acc
            },
        )
    }
}

/// The directories whose manifests reference a package.
pub open spec fn spec_dep_usage_paths(
    files: Seq<DepFileV>,
    manager: PackageManager,
    name: Seq<char>,
) -> Seq<Seq<char>> {
    spec_dep_usage_fold(files, manager, name, Seq::empty())
}

/// Collect the sorted, duplicate-free directories referencing a package.
pub fn dep_usage_paths_for(files: &Vec<DepFile>, manager: PackageManager, name: &str) -> (r: Vec<
    String,
>)
    ensures
        r.deep_view() == spec_dep_usage_paths(files.deep_view(), manager, name@),
{
    let ghost fv: Seq<DepFileV> = files.deep_view();
    let n = files.len();
    let mut acc: Vec<String> = Vec::new();
    let mut i: usize = 0;
    proof {
        assert(fv.skip(0) =~= fv);
        assert(acc.deep_view() =~= Seq::<Seq<char>>::empty());
    }
    while i < n
        invariant
            i <= n,
            n == files@.len(),
            fv == files.deep_view(),
            spec_dep_usage_paths(fv, manager, name@) == spec_dep_usage_fold(
                fv.skip(i as int),
                manager,
                name@,
                acc.deep_view(),
            ),
        decreases n - i,
    {
        proof {
            assert(fv.skip(i as int)[0] == fv[i as int]);
            assert(fv.skip(i as int).skip(1) =~= fv.skip(i as int + 1));
            assert(files@[i as int]@ == fv[i as int]);
        }
        if dep_file_matches(&files[i], manager, name) {
            insert_sorted_unique(&mut acc, files[i].dir.clone());
        }
        i = i + 1;
    }
    acc
}

/// A package after the manifest scan: its `used_in` list is overwritten
/// wholesale with the directories whose manifests reference it.
pub open spec fn spec_dep_scanned(p: PackageV, files: Seq<DepFileV>) -> PackageV {
    PackageV { used_in: spec_dep_usage_paths(files, p.manager, p.name), ..p }
}

/// The idempotence law for the manifest scan: the list depends on the
/// files, the package's manager and its name alone, so a second pass over
/// an unchanged tree changes nothing.
pub proof fn lemma_dep_scan_idempotent(p: PackageV, files: Seq<DepFileV>)
    ensures
        spec_dep_scanned(spec_dep_scanned(p, files), files) == spec_dep_scanned(p, files),
{
}

/// Overwrite every package's `used_in` list from the manifest files the
/// walk read.
pub fn scan_package_usage(packages: &mut Vec<Package>, files: &Vec<DepFile>)
    ensures
        final(packages).deep_view().len() == old(packages).deep_view().len(),
        forall|k: int|
            0 <= k < old(packages).deep_view().len() ==> final(packages).deep_view()[k]
                == spec_dep_scanned(old(packages).deep_view()[k], files.deep_view()),
{
    let ghost orig: Seq<PackageV> = old(packages).deep_view();
    let ghost fv: Seq<DepFileV> = files.deep_view();
    let n = packages.len();
    let mut scanned: Vec<Package> = Vec::new();
    let mut i: usize = 0;
    while i < n
        invariant
            i <= n,
            n == packages@.len(),
            orig == packages.deep_view(),
            fv == files.deep_view(),
            scanned@.len() == i,
            forall|k: int| 0 <= k < i ==> scanned.deep_view()[k] == spec_dep_scanned(
                orig[k],
                fv,
            ),
        decreases n - i,
    {
        proof {
            assert(packages@[i as int]@ == orig[i as int]);
        }
        let mut q = clone_package(&packages[i]);
        q.used_in = dep_usage_paths_for(files, q.manager, q.name.as_str());
        proof {
            assert(q@ == spec_dep_scanned(orig[i as int], fv));
        }
        let ghost qv: PackageV = q@;
        let ghost prior: Seq<PackageV> = scanned.deep_view();
        scanned.push(q);
        proof {
            assert(scanned.deep_view() =~= prior.push(qv));
            assert forall|k: int| 0 <= k < i + 1 implies scanned.deep_view()[k]
                == spec_dep_scanned(orig[k], fv) by {
                if k < i {
                    assert(scanned.deep_view()[k] == prior[k]);
                }
            }
        }
        i = i + 1;
    }
    *packages = scanned;
}

/// The conventional development roots under a home directory, the ones the
/// walk visits.
pub fn get_scan_directories(home: &str) -> (r: Vec<String>)
    ensures
        r.deep_view() == seq![
            home@ + "/Desktop"@,
            home@ + "/Documents"@,
            home@ + "/projects"@,
            home@ + "/dev"@,
            home@ + "/Developer"@,
            home@ + "/code"@,
            home@ + "/workspace"@,
        ],
{
    let mut r: Vec<String> = Vec::new();
    r.push(join_path(home, "/Desktop"));
    r.push(join_path(home, "/Documents"));
    r.push(join_path(home, "/projects"));
    r.push(join_path(home, "/dev"));
    r.push(join_path(home, "/Developer"));
    r.push(join_path(home, "/code"));
    r.push(join_path(home, "/workspace"));
    proof {
        assert(r.deep_view() =~= seq![
            home@ + "/Desktop"@,
            home@ + "/Documents"@,
            home@ + "/projects"@,
            home@ + "/dev"@,
            home@ + "/Developer"@,
            home@ + "/code"@,
            home@ + "/workspace"@,
        ]);
    }
    r
}

/// A directory joined under a root.
fn join_path(home: &str, tail: &str) -> (r: String)
    ensures
        r@ == home@ + tail@,
{
    let mut s = home.to_owned();
    s.append(tail);
    s
}


/// Overwriting `used_in` lists touches no version field, so both scans
/// keep the version-policy invariant.
pub proof fn lemma_scans_keep_invariant(p: PackageV, entries: Seq<ScanEntryV>, files: Seq<DepFileV>)
    ensures
        crate::models::outdated_consistent(p) ==> crate::models::outdated_consistent(
            spec_tool_scanned(p, entries),
        ),
        crate::models::outdated_consistent(p) ==> crate::models::outdated_consistent(
            spec_dep_scanned(p, files),
        ),
{
}

} // verus!
