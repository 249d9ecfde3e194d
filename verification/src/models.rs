//! The data model: package managers, packages, projects and dependencies.
//!
//! Each executable type has a mathematical view (`@`) over `Seq` and plain
//! values; every contract in the library speaks of those views.

use vstd::prelude::*;

verus! {

/// The closed set of package managers the tool knows about.
#[derive(Clone, Copy, Debug, PartialEq, Eq, Hash, Structural)]
pub enum PackageManager {
    Homebrew,
    Npm,
    Yarn,
    Pnpm,
    Cargo,
    Pip,
    Pipx,
    Gem,
    Go,
    Composer,
    Pub,
    Swift,
}

/// The display name of a manager, as a sequence of characters.
pub open spec fn spec_manager_name(m: PackageManager) -> Seq<char> {
    match m {
        PackageManager::Homebrew => "Homebrew"@,
        PackageManager::Npm => "npm"@,
        PackageManager::Yarn => "yarn"@,
        PackageManager::Pnpm => "pnpm"@,
        PackageManager::Cargo => "Cargo"@,
        PackageManager::Pip => "pip"@,
        PackageManager::Pipx => "pipx"@,
        PackageManager::Gem => "gem"@,
        PackageManager::Go => "Go"@,
        PackageManager::Composer => "Composer"@,
        PackageManager::Pub => "pub"@,
        PackageManager::Swift => "Swift"@,
    }
}

/// The executable name used to invoke a manager.
pub open spec fn spec_manager_command(m: PackageManager) -> Seq<char> {
    match m {
        PackageManager::Homebrew => "brew"@,
        PackageManager::Npm => "npm"@,
        PackageManager::Yarn => "yarn"@,
        PackageManager::Pnpm => "pnpm"@,
        PackageManager::Cargo => "cargo"@,
        PackageManager::Pip => "pip"@,
        PackageManager::Pipx => "pipx"@,
        PackageManager::Gem => "gem"@,
        PackageManager::Go => "go"@,
        PackageManager::Composer => "composer"@,
        PackageManager::Pub => "pub"@,
        PackageManager::Swift => "swift"@,
    }
}

impl PackageManager {
    /// The human-readable display name of this manager.
    pub fn name(&self) -> (r: &'static str)
        ensures
            r@ == spec_manager_name(*self),
    {
        match self {
            PackageManager::Homebrew => "Homebrew",
            PackageManager::Npm => "npm",
            PackageManager::Yarn => "yarn",
            PackageManager::Pnpm => "pnpm",
            PackageManager::Cargo => "Cargo",
            PackageManager::Pip => "pip",
            PackageManager::Pipx => "pipx",
            PackageManager::Gem => "gem",
            PackageManager::Go => "Go",
            PackageManager::Composer => "Composer",
            PackageManager::Pub => "pub",
            PackageManager::Swift => "Swift",
        }
    }

    /// The executable name used to invoke this manager on the command line.
    pub fn command(&self) -> (r: &'static str)
        ensures
            r@ == spec_manager_command(*self),
    {
        match self {
            PackageManager::Homebrew => "brew",
            PackageManager::Npm => "npm",
            PackageManager::Yarn => "yarn",
            PackageManager::Pnpm => "pnpm",
            PackageManager::Cargo => "cargo",
            PackageManager::Pip => "pip",
            PackageManager::Pipx => "pipx",
            PackageManager::Gem => "gem",
            PackageManager::Go => "go",
            PackageManager::Composer => "composer",
            PackageManager::Pub => "pub",
            PackageManager::Swift => "swift",
        }
    }
}

/// One installed package, as discovered by a manager's listing phase and
/// enriched by the later phases.
#[derive(Debug, Clone)]
pub struct Package {
    pub name: String,
    pub manager: PackageManager,
    pub installed_version: String,
    pub latest_version: Option<String>,
    pub is_outdated: bool,
    /// Disk space in bytes, where the manager reports it.
    pub size: Option<u64>,
    /// What the package does, filled in by the enrichment phase.
    pub description: Option<String>,
    /// Directories of projects that reference this package.
    pub used_in: Vec<String>,
}

/// The mathematical value of a `Package`.
pub ghost struct PackageV {
    pub name: Seq<char>,
    pub manager: PackageManager,
    pub installed_version: Seq<char>,
    pub latest_version: Option<Seq<char>>,
    pub is_outdated: bool,
    pub size: Option<u64>,
    pub description: Option<Seq<char>>,
    pub used_in: Seq<Seq<char>>,
}

impl View for Package {
    type V = PackageV;

    open spec fn view(&self) -> PackageV {
        PackageV {
            name: self.name@,
            manager: self.manager,
            installed_version: self.installed_version@,
            latest_version: self.latest_version.deep_view(),
            is_outdated: self.is_outdated,
            size: self.size,
            description: self.description.deep_view(),
            used_in: self.used_in.deep_view(),
        }
    }
}

impl DeepView for Package {
    type V = PackageV;

    open spec fn deep_view(&self) -> PackageV {
        self.view()
    }
}

/// A freshly listed package's value: only the name, owning manager and
/// installed version are known.
pub open spec fn spec_fresh_package(
    name: Seq<char>,
    manager: PackageManager,
    installed_version: Seq<char>,
) -> PackageV {
    PackageV {
        name,
        manager,
        installed_version,
        latest_version: None,
        is_outdated: false,
        size: None,
        description: None,
        used_in: Seq::empty(),
    }
}

/// The version policy: a package is outdated exactly when a latest version is
/// known and its text differs from the installed version's text.  (Exact
/// string inequality is the comparison policy chosen here, for every
/// manager.)
pub open spec fn outdated_consistent(p: PackageV) -> bool {
    p.is_outdated == match p.latest_version {
        Some(latest) => latest != p.installed_version,
        None => false,
    }
}

impl Package {
    /// A freshly listed package: no latest version known yet, not outdated,
    /// nothing enriched.
    pub fn new(name: String, manager: PackageManager, installed_version: String) -> (r: Package)
        ensures
            r@ == spec_fresh_package(name@, manager, installed_version@),
            outdated_consistent(r@),
    {
        let r = Package {
            name,
            manager,
            installed_version,
            latest_version: None,
            is_outdated: false,
            size: None,
            description: None,
            used_in: Vec::new(),
        };
        proof {
            assert(r@.used_in =~= Seq::<Seq<char>>::empty());
        }
        r
    }

    /// Record the latest known version and derive the outdated flag from it
    /// under the exact-string-inequality policy.
    pub fn with_latest_version(self, latest_version: String) -> (r: Package)
        ensures
            r@ == (PackageV {
                latest_version: Some(latest_version@),
                is_outdated: latest_version@ != self@.installed_version,
                ..self@
            }),
            outdated_consistent(r@),
    {
        let outdated = !(self.installed_version == latest_version);
        Package { latest_version: Some(latest_version), is_outdated: outdated, ..self }
    }

    /// Record a description.
    pub fn with_description(self, description: String) -> (r: Package)
        ensures
            r@ == (PackageV { description: Some(description@), ..self@ }),
    {
        Package { description: Some(description), ..self }
    }

    /// A package is unused when the most recent filesystem walk found no
    /// project referencing it.
    pub fn is_unused(&self) -> (r: bool)
        ensures
            r == (self@.used_in.len() == 0),
    {
        self.used_in.len() == 0
    }
}

/// An exact copy of a package.  Verified code uses this instead of the
/// derived `Clone`, whose effect Verus does not read.
pub fn clone_package(p: &Package) -> (r: Package)
    ensures
        r@ == p@,
{
    Package {
        name: p.name.clone(),
        manager: p.manager,
        installed_version: p.installed_version.clone(),
        latest_version: clone_opt_string(&p.latest_version),
        is_outdated: p.is_outdated,
        size: p.size,
        description: clone_opt_string(&p.description),
        used_in: clone_string_vec(&p.used_in),
    }
}

/// An exact copy of an optional string.
pub fn clone_opt_string(s: &Option<String>) -> (r: Option<String>)
    ensures
        r == *s,
{
    match s {
        Some(inner) => Some(inner.clone()),
        None => None,
    }
}

/// A copy of a vector of strings, character for character.
pub fn clone_string_vec(v: &Vec<String>) -> (r: Vec<String>)
    ensures
        r.deep_view() == v.deep_view(),
{
    let mut r: Vec<String> = Vec::new();
    let mut i: usize = 0;
    while i < v.len()
        invariant
            i <= v.len(),
            r@.len() == i,
            forall|j: int| 0 <= j < i ==> r@[j]@ == v@[j]@,
        decreases v.len() - i,
    {
        r.push(v[i].clone());
        i = i + 1;
    }
    proof {
        assert(r.deep_view() =~= v.deep_view());
    }
    r
}

/// One dependency record read out of a project's manifest file.
#[derive(Debug, Clone)]
pub struct Dependency {
    pub package_name: String,
    pub manager: PackageManager,
    /// The constraint text as written in the manifest, e.g. a caret range.
    pub version_constraint: String,
    pub is_dev: bool,
}

/// The mathematical value of a `Dependency`.
pub ghost struct DependencyV {
    pub package_name: Seq<char>,
    pub manager: PackageManager,
    pub version_constraint: Seq<char>,
    pub is_dev: bool,
}

impl View for Dependency {
    type V = DependencyV;

    open spec fn view(&self) -> DependencyV {
        DependencyV {
            package_name: self.package_name@,
            manager: self.manager,
            version_constraint: self.version_constraint@,
            is_dev: self.is_dev,
        }
    }
}

impl DeepView for Dependency {
    type V = DependencyV;

    open spec fn deep_view(&self) -> DependencyV {
        self.view()
    }
}

/// A development project found on disk.  The timestamp is seconds since the
/// Unix epoch.
#[derive(Debug, Clone)]
pub struct Project {
    pub path: String,
    pub name: String,
    pub package_managers: Vec<PackageManager>,
    pub dependencies: Vec<Dependency>,
    pub last_modified: u64,
}

/// The mathematical value of a `Project`.
pub ghost struct ProjectV {
    pub path: Seq<char>,
    pub name: Seq<char>,
    pub package_managers: Seq<PackageManager>,
    pub dependencies: Seq<DependencyV>,
    pub last_modified: u64,
}

impl View for Project {
    type V = ProjectV;

    open spec fn view(&self) -> ProjectV {
        ProjectV {
            path: self.path@,
            name: self.name@,
            package_managers: self.package_managers@,
            dependencies: self.dependencies.deep_view(),
            last_modified: self.last_modified,
        }
    }
}

impl DeepView for Project {
    type V = ProjectV;

    open spec fn deep_view(&self) -> ProjectV {
        self.view()
    }
}

/// `path` without its trailing slashes.
pub open spec fn spec_drop_trailing_slashes(path: Seq<char>) -> Seq<char>
    decreases path.len(),
{
    if path.len() > 0 && path[path.len() - 1] == '/' {
        spec_drop_trailing_slashes(path.drop_last())
    } else {
        path
    }
}

/// The name a project derives from its path: its last component (trailing
/// slashes ignored), or "Unknown" where none remains or the path ends in a
/// parent-directory step.
pub open spec fn spec_project_name(path: Seq<char>) -> Seq<char> {
    let trimmed = spec_drop_trailing_slashes(path);
    let tail = trimmed.subrange(spec_after_last_slash(trimmed), trimmed.len() as int);
    if tail.len() == 0 || tail == ".."@ {
        "Unknown"@
    } else {
        tail
    }
}

/// The index just after the last slash of a path, or 0 when it has none.
pub open spec fn spec_after_last_slash(path: Seq<char>) -> int
    decreases path.len(),
{
    if path.len() == 0 {
        0
    } else if path[path.len() - 1] == '/' {
        path.len() as int
    } else {
        spec_after_last_slash(path.drop_last())
    }
}

impl Project {
    /// A project rooted at `path`, discovered at the clock's present
    /// reading, with nothing detected yet.
    pub fn new(path: String) -> (r: Project)
        ensures
            r@.path == path@,
            r@.name == spec_project_name(path@),
            r@.package_managers == Seq::<PackageManager>::empty(),
            r@.dependencies == Seq::<DependencyV>::empty(),
    {
        let now = crate::clock::now_epoch_secs();
        Project::new_at(path, now)
    }

    /// A project rooted at `path`, discovered at time `now` (seconds since
    /// the Unix epoch), with nothing detected yet.
    pub fn new_at(path: String, now: u64) -> (r: Project)
        ensures
            r@ == (ProjectV {
                path: path@,
                name: spec_project_name(path@),
                package_managers: Seq::empty(),
                dependencies: Seq::empty(),
                last_modified: now,
            }),
    {
        let name = project_name_of_path(&path);
        let r = Project {
            path,
            name,
            package_managers: Vec::new(),
            dependencies: Vec::new(),
            last_modified: now,
        };
        proof {
            assert(r@.dependencies =~= Seq::<DependencyV>::empty());
        }
        r
    }
}

/// Derive a project's name from its path: its last component, trailing
/// slashes ignored, with "Unknown" where nothing remains or the component
/// is a parent-directory step.
pub fn project_name_of_path(path: &String) -> (r: String)
    ensures
        r@ == spec_project_name(path@),
{
    let s = path.as_str();
    let n = s.unicode_len();
    let mut b: usize = n;
    while b > 0
        invariant
            b <= n,
            n == s@.len(),
            forall|k: int| b <= k < n ==> s@[k] == '/',
        ensures
            b <= n,
            forall|k: int| b <= k < n ==> s@[k] == '/',
            b > 0 ==> s@[b - 1] != '/',
        decreases b,
    {
        if s.get_char(b - 1) != '/' {
            break;
        }
        b = b - 1;
    }
    let ghost trimmed: Seq<char> = s@.subrange(0, b as int);
    proof {
        lemma_drop_trailing_slashes_at(s@, b as int);
    }
    let mut cut: usize = 0;
    let mut i: usize = 0;
    while i < b
        invariant
            i <= b <= n,
            cut <= i,
            n == s@.len(),
            cut > 0 ==> s@[cut - 1] == '/',
            forall|j: int| cut <= j < i ==> s@[j] != '/',
        decreases b - i,
    {
        if s.get_char(i) == '/' {
            cut = i + 1;
        }
        i = i + 1;
    }
    proof {
        assert forall|j: int| cut <= j < trimmed.len() implies trimmed[j] != '/' by {
            assert(trimmed[j] == s@[j]);
        }
        if cut > 0 {
            assert(trimmed[cut - 1] == s@[cut - 1]);
        }
        lemma_after_last_slash(trimmed, cut as int);
    }
    if cut == b {
        let r = String::from_str("Unknown");
        proof {
            assert(trimmed.subrange(cut as int, b as int) =~= Seq::<char>::empty());
        }
        r
    } else {
        let tail = s.substring_char(cut, b);
        proof {
            assert(tail@ =~= trimmed.subrange(cut as int, b as int));
        }
        if crate::strutil::str_eq(tail, "..") {
            String::from_str("Unknown")
        } else {
            tail.to_owned()
        }
    }
}

/// A boundary with only slashes after it and none just before it is where
/// the trailing slashes start.
proof fn lemma_drop_trailing_slashes_at(path: Seq<char>, b: int)
    requires
        0 <= b <= path.len(),
        forall|k: int| b <= k < path.len() ==> path[k] == '/',
        b > 0 ==> path[b - 1] != '/',
    ensures
        spec_drop_trailing_slashes(path) == path.subrange(0, b),
    decreases path.len(),
{
    if path.len() > 0 && path[path.len() - 1] == '/' {
        assert(b < path.len());
        assert forall|k: int| b <= k < path.drop_last().len() implies path.drop_last()[k]
            == '/' by {
            assert(path.drop_last()[k] == path[k]);
        }
        if b > 0 {
            assert(path.drop_last()[b - 1] == path[b - 1]);
        }
        lemma_drop_trailing_slashes_at(path.drop_last(), b);
        assert(path.drop_last().subrange(0, b) =~= path.subrange(0, b));
    } else {
        assert(b == path.len());
        assert(path.subrange(0, path.len() as int) =~= path);
    }
}

/// The scan for the last slash agrees with `spec_after_last_slash`: if no
/// slash stands at or after `cut`, and either `cut` is 0 or a slash stands
/// just before it, then `cut` is the index after the last slash.
proof fn lemma_after_last_slash(path: Seq<char>, cut: int)
    requires
        0 <= cut <= path.len(),
        forall|j: int| cut <= j < path.len() ==> path[j] != '/',
        cut > 0 ==> path[cut - 1] == '/',
    ensures
        spec_after_last_slash(path) == cut,
    decreases path.len(),
{
    if path.len() == 0 {
    } else if path[path.len() - 1] == '/' {
        assert(cut == path.len());
    } else {
        assert(cut < path.len());
        lemma_after_last_slash(path.drop_last(), cut);
    }
}

/// A package together with the projects that reference it.
#[derive(Debug, Clone)]
pub struct PackageUsage {
    pub package: Package,
    pub used_in_projects: Vec<Project>,
    pub is_orphaned: bool,
}

/// The mathematical value of a `PackageUsage`.
pub ghost struct PackageUsageV {
    pub package: PackageV,
    pub used_in_projects: Seq<ProjectV>,
    pub is_orphaned: bool,
}

impl View for PackageUsage {
    type V = PackageUsageV;

    open spec fn view(&self) -> PackageUsageV {
        PackageUsageV {
            package: self.package@,
            used_in_projects: self.used_in_projects.deep_view(),
            is_orphaned: self.is_orphaned,
        }
    }
}

impl PackageUsage {
    /// A usage record with no known referencing project: orphaned until one
    /// is added.
    pub fn new(package: Package) -> (r: PackageUsage)
        ensures
            r@.package == package@,
            r@.used_in_projects == Seq::<ProjectV>::empty(),
            r@.is_orphaned,
    {
        let r = PackageUsage { package, used_in_projects: Vec::new(), is_orphaned: true };
        proof {
            assert(r@.used_in_projects =~= Seq::<ProjectV>::empty());
        }
        r
    }

    /// Record one more referencing project; the package is then not orphaned.
    pub fn add_project(&mut self, project: Project)
        ensures
            final(self)@.package == old(self)@.package,
            final(self)@.used_in_projects == old(self)@.used_in_projects.push(project@),
            !final(self)@.is_orphaned,
    {
        self.used_in_projects.push(project);
        self.is_orphaned = false;
        proof {
            assert(self@.used_in_projects =~= old(self)@.used_in_projects.push(project@));
        }
    }
}

} // verus!
