//! The shared application state: the inventory store, the scan
//! orchestrator's flags, and the mutation coordinator's bookkeeping.
//!
//! The driver wraps one `DepMgrApp` value in its own lock and holds it only
//! across these in-memory operations, never across a subprocess or network
//! call.  Every transition is also stated as a spec function, so laws about
//! sequences of transitions (refresh coalescing, mutation outcomes) are
//! proved below, not just asserted.

use vstd::prelude::*;

use crate::models::{clone_package, Package, PackageManager, PackageUsage, PackageV, Project};
use crate::strutil::{contains_seq, contains_sub, str_eq};

verus! {

/// How the name search folds case: what `str::to_lowercase` yields.  The
/// result depends on the characters alone.
pub uninterp spec fn lower_of(s: Seq<char>) -> Seq<char>;

/// Relies on `str::to_lowercase`: Unicode lowercasing, a function of the
/// characters alone; an empty text stays empty.
#[verifier::external_body]
fn lowercase(s: &str) -> (r: String)
    ensures
        r@ == lower_of(s@),
        s@.len() == 0 ==> r@.len() == 0,
{
    s.to_lowercase()
}

/// How long a single operation's status message stays on screen, in
/// seconds.
pub const STATUS_DELAY_SECS: u64 = 3;

/// How long a bulk operation's status message stays on screen, in seconds.
pub const BULK_STATUS_DELAY_SECS: u64 = 5;

/// The shared state behind the dashboard: the inventory, the scan flags,
/// and the mutation coordinator's sets and status line.
#[derive(Debug)]
pub struct DepMgrApp {
    /// The inventory: every discovered package, all managers together.
    pub packages: Vec<Package>,
    pub available_managers: Vec<PackageManager>,
    pub selected_managers: Vec<PackageManager>,
    pub search_query: String,
    pub show_outdated_only: bool,
    pub show_orphaned_only: bool,
    /// One blocking scan cycle in flight, at most.
    pub is_scanning: bool,
    /// The single pending flag: a refresh asked for while a cycle runs.
    pub refresh_requested: bool,
    /// Names with a mutation in progress (set semantics).
    pub updating_packages: Vec<String>,
    /// The current status line, valid until `status_expires_at`.
    pub update_status: String,
    /// When the status line goes stale, in seconds since the Unix epoch.
    pub status_expires_at: u64,
    /// Names uninstalled this session and still shown (set semantics).
    pub removed_packages: Vec<String>,
}

impl Default for DepMgrApp {
    /// The state before anything is scanned: an empty inventory, no flags
    /// set, nothing in progress.
    fn default() -> (r: DepMgrApp)
        ensures
            r.packages@.len() == 0,
            r.available_managers@.len() == 0,
            r.selected_managers@.len() == 0,
            r.search_query@.len() == 0,
            !r.show_outdated_only,
            !r.show_orphaned_only,
            !r.is_scanning,
            !r.refresh_requested,
            r.updating_packages@.len() == 0,
            r.update_status@.len() == 0,
            r.status_expires_at == 0,
            r.removed_packages@.len() == 0,
    {
        DepMgrApp {
            packages: Vec::new(),
            available_managers: Vec::new(),
            selected_managers: Vec::new(),
            search_query: String::new(),
            show_outdated_only: false,
            show_orphaned_only: false,
            is_scanning: false,
            refresh_requested: false,
            updating_packages: Vec::new(),
            update_status: String::new(),
            status_expires_at: 0,
            removed_packages: Vec::new(),
        }
    }
}

/// A name-set with one more name: unchanged when already present.
pub open spec fn spec_name_set_insert(s: Seq<Seq<char>>, x: Seq<char>) -> Seq<Seq<char>> {
    if s.contains(x) {
        s
    } else {
        s.push(x)
    }
}

/// A name-set without a name.
pub open spec fn spec_name_set_remove(s: Seq<Seq<char>>, x: Seq<char>) -> Seq<Seq<char>>
    decreases s.len(),
{
    if s.len() == 0 {
        Seq::empty()
    } else if s[0] == x {
        spec_name_set_remove(s.skip(1), x)
    } else {
        seq![s[0]] + spec_name_set_remove(s.skip(1), x)
    }
}

/// Whether a name-set holds a name.
fn contains_name(v: &Vec<String>, x: &str) -> (r: bool)
    ensures
        r == v.deep_view().contains(x@),
{
    let n = v.len();
    let mut i: usize = 0;
    while i < n
        invariant
            i <= n,
            n == v@.len(),
            forall|k: int| 0 <= k < i ==> v.deep_view()[k] != x@,
        decreases n - i,
    {
        if str_eq(v[i].as_str(), x) {
            proof {
                assert(v.deep_view()[i as int] == x@);
            }
            return true;
        }
        i = i + 1;
    }
    proof {
        assert forall|k: int| 0 <= k < v.deep_view().len() implies v.deep_view()[k] != x@ by {
            assert(k < i);
        }
    }
    false
}

/// Add a name to a name-set.
fn insert_name(v: &mut Vec<String>, x: String)
    ensures
        final(v).deep_view() == spec_name_set_insert(old(v).deep_view(), x@),
{
    if contains_name(v, x.as_str()) {
        return;
    }
    let ghost prior: Seq<Seq<char>> = v.deep_view();
    v.push(x);
    proof {
        assert(v.deep_view() =~= prior.push(x@));
    }
}

/// Remove a name from a name-set.
fn remove_name(v: &mut Vec<String>, x: &str)
    ensures
        final(v).deep_view() == spec_name_set_remove(old(v).deep_view(), x@),
{
    let ghost orig: Seq<Seq<char>> = old(v).deep_view();
    let n = v.len();
    let mut kept: Vec<String> = Vec::new();
    let mut i: usize = 0;
    proof {
        assert(orig.skip(0) =~= orig);
        assert(kept.deep_view() + spec_name_set_remove(orig, x@) =~= spec_name_set_remove(
            orig,
            x@,
        ));
    }
    while i < n
        invariant
            i <= n,
            n == v@.len(),
            orig == v.deep_view(),
            spec_name_set_remove(orig, x@) == kept.deep_view() + spec_name_set_remove(
                orig.skip(i as int),
                x@,
            ),
        decreases n - i,
    {
        proof {
            assert(orig.skip(i as int)[0] == orig[i as int]);
            assert(orig.skip(i as int).skip(1) =~= orig.skip(i as int + 1));
        }
        let ghost prior: Seq<Seq<char>> = kept.deep_view();
        if !str_eq(v[i].as_str(), x) {
            kept.push(v[i].clone());
            proof {
                assert(kept.deep_view() =~= prior + seq![orig[i as int]]);
                assert(prior + (seq![orig[i as int]] + spec_name_set_remove(
                    orig.skip(i as int + 1),
                    x@,
                )) =~= (prior + seq![orig[i as int]]) + spec_name_set_remove(
                    orig.skip(i as int + 1),
                    x@,
                ));
            }
        }
        i = i + 1;
    }
    proof {
        assert(spec_name_set_remove(orig.skip(n as int), x@) =~= Seq::<Seq<char>>::empty());
        assert(kept.deep_view() + Seq::<Seq<char>>::empty() =~= kept.deep_view());
    }
    *v = kept;
}

/// The state after a refresh request: the single pending flag is set, and
/// nothing else moves.  Asking again changes nothing more.
pub open spec fn spec_request_refresh(a: DepMgrApp) -> DepMgrApp {
    DepMgrApp { refresh_requested: true, ..a }
}

/// The state after the pending flag is consumed and a cycle starts.
pub open spec fn spec_begin_cycle(a: DepMgrApp) -> DepMgrApp {
    DepMgrApp { refresh_requested: false, is_scanning: true, ..a }
}

/// The state after a cycle's blocking phases complete.
pub open spec fn spec_finish_scan(a: DepMgrApp) -> DepMgrApp {
    DepMgrApp { is_scanning: false, ..a }
}

impl DepMgrApp {
    /// Ask for a refresh.  Idempotent and coalesced: while a cycle is in
    /// flight this only sets the single pending flag.
    pub fn request_refresh(&mut self)
        ensures
            *final(self) == spec_request_refresh(*old(self)),
    {
        self.refresh_requested = true;
    }

    /// Consume the pending flag: starts one cycle exactly when a refresh
    /// is pending and no cycle is in flight; the caller runs the cycle
    /// when this returns true.
    pub fn handle_refresh(&mut self) -> (start: bool)
        ensures
            start == (old(self).refresh_requested && !old(self).is_scanning),
            start ==> *final(self) == spec_begin_cycle(*old(self)),
            !start ==> *final(self) == *old(self),
    {
        if self.refresh_requested && !self.is_scanning {
            self.refresh_requested = false;
            self.is_scanning = true;
            true
        } else {
            false
        }
    }

    /// Begin a scan cycle unconditionally (the initial scan at startup).
    pub fn start_scan(&mut self)
        ensures
            *final(self) == (DepMgrApp { is_scanning: true, ..*old(self) }),
    {
        self.is_scanning = true;
    }

    /// A cycle's blocking phases are done: the scanning flag drops, and
    /// the answer says whether a refresh request arrived meanwhile (the
    /// caller then triggers exactly one follow-up cycle).
    pub fn finish_scan(&mut self) -> (follow_up: bool)
        ensures
            *final(self) == spec_finish_scan(*old(self)),
            follow_up == old(self).refresh_requested,
    {
        self.is_scanning = false;
        self.refresh_requested
    }
}

/// The coalescing law: refresh requests landing while a cycle is in flight
/// collapse into the single pending flag — any further request leaves the
/// state exactly as the first did — and when the cycle completes, consuming
/// the flag starts one follow-up cycle and leaves nothing pending, so no
/// second follow-up can start.
pub proof fn lemma_refresh_coalescing(a: DepMgrApp)
    requires
        a.is_scanning,
    ensures
        spec_request_refresh(spec_request_refresh(a)) == spec_request_refresh(a),
        spec_finish_scan(spec_request_refresh(a)).refresh_requested,
        !spec_finish_scan(spec_request_refresh(a)).is_scanning,
        spec_begin_cycle(spec_finish_scan(spec_request_refresh(a))).is_scanning,
        !spec_begin_cycle(spec_finish_scan(spec_request_refresh(a))).refresh_requested,
{
}

/// The packages of other managers, in order: what survives one manager's
/// wholesale replacement.
pub open spec fn spec_retain_other_managers(
    pkgs: Seq<PackageV>,
    m: PackageManager,
) -> Seq<PackageV>
    decreases pkgs.len(),
{
    if pkgs.len() == 0 {
        Seq::empty()
    } else {
        (if pkgs[0].manager == m {
            Seq::empty()
        } else {
            seq![pkgs[0]]
        }) + spec_retain_other_managers(pkgs.skip(1), m)
    }
}

impl DepMgrApp {
    /// Publish one manager's scan result: its old entries are replaced
    /// wholesale, every other manager's entries stay, and the fresh
    /// entries follow them.
    pub fn replace_manager_packages(&mut self, manager: PackageManager, fresh: Vec<Package>)
        ensures
            final(self).packages.deep_view() == spec_retain_other_managers(
                old(self).packages.deep_view(),
                manager,
            ) + fresh.deep_view(),
            *final(self) == (DepMgrApp { packages: final(self).packages, ..*old(self) }),
    {
        let ghost orig: Seq<PackageV> = old(self).packages.deep_view();
        let n = self.packages.len();
        let mut kept: Vec<Package> = Vec::new();
        let mut i: usize = 0;
        proof {
            assert(orig.skip(0) =~= orig);
            assert(kept.deep_view() + spec_retain_other_managers(orig, manager)
                =~= spec_retain_other_managers(orig, manager));
        }
        while i < n
            invariant
                i <= n,
                n == self.packages@.len(),
                orig == self.packages.deep_view(),
                spec_retain_other_managers(orig, manager) == kept.deep_view()
                    + spec_retain_other_managers(orig.skip(i as int), manager),
            decreases n - i,
        {
            proof {
                assert(orig.skip(i as int)[0] == orig[i as int]);
                assert(orig.skip(i as int).skip(1) =~= orig.skip(i as int + 1));
                assert(self.packages@[i as int]@ == orig[i as int]);
            }
            let ghost prior: Seq<PackageV> = kept.deep_view();
            if !(self.packages[i].manager == manager) {
                kept.push(clone_package(&self.packages[i]));
                proof {
                    assert(kept.deep_view() =~= prior + seq![orig[i as int]]);
                    assert(prior + (seq![orig[i as int]] + spec_retain_other_managers(
                        orig.skip(i as int + 1),
                        manager,
                    )) =~= (prior + seq![orig[i as int]]) + spec_retain_other_managers(
                        orig.skip(i as int + 1),
                        manager,
                    ));
                }
            }
            i = i + 1;
        }
        proof {
            assert(spec_retain_other_managers(orig.skip(n as int), manager) =~= Seq::<
                PackageV,
            >::empty());
            assert(kept.deep_view() + Seq::<PackageV>::empty() =~= kept.deep_view());
        }
        let ghost keptv: Seq<PackageV> = kept.deep_view();
        let mut merged = kept;
        let mut j: usize = 0;
        let nf = fresh.len();
        while j < nf
            invariant
                j <= nf,
                nf == fresh@.len(),
                merged.deep_view() =~= keptv + fresh.deep_view().subrange(0, j as int),
            decreases nf - j,
        {
            proof {
                assert(fresh@[j as int]@ == fresh.deep_view()[j as int]);
            }
            let ghost mprior: Seq<PackageV> = merged.deep_view();
            merged.push(clone_package(&fresh[j]));
            proof {
                assert(merged.deep_view() =~= mprior.push(fresh.deep_view()[j as int]));
                assert(fresh.deep_view().subrange(0, j as int + 1) =~= fresh.deep_view()
                    .subrange(0, j as int).push(fresh.deep_view()[j as int]));
                assert(merged.deep_view() =~= keptv + fresh.deep_view().subrange(
                    0,
                    j as int + 1,
                ));
            }
            j = j + 1;
        }
        proof {
            assert(fresh.deep_view().subrange(0, nf as int) =~= fresh.deep_view());
            assert(merged.deep_view() =~= keptv + fresh.deep_view());
        }
        self.packages = merged;
    }
}

/// Whether a package passes the dashboard's filters: its manager is among
/// the selected ones (an empty selection selects all), its lowercased name
/// contains the lowercased search text (an empty search matches all), and
/// it is outdated where only outdated packages are shown.
pub open spec fn spec_passes_filter(
    p: PackageV,
    selected: Seq<PackageManager>,
    query: Seq<char>,
    outdated_only: bool,
) -> bool {
    (selected.len() == 0 || selected.contains(p.manager)) && (query.len() == 0 || contains_seq(
        lower_of(p.name),
        lower_of(query),
    )) && (!outdated_only || p.is_outdated)
}

/// The packages passing the filters, in inventory order.
pub open spec fn spec_filtered(
    pkgs: Seq<PackageV>,
    selected: Seq<PackageManager>,
    query: Seq<char>,
    outdated_only: bool,
) -> Seq<PackageV>
    decreases pkgs.len(),
{
    if pkgs.len() == 0 {
        Seq::empty()
    } else {
        (if spec_passes_filter(pkgs[0], selected, query, outdated_only) {
            seq![pkgs[0]]
        } else {
            Seq::empty()
        }) + spec_filtered(pkgs.skip(1), selected, query, outdated_only)
    }
}

/// Whether a vector of managers holds one.
fn managers_contain(v: &Vec<PackageManager>, m: PackageManager) -> (r: bool)
    ensures
        r == v@.contains(m),
{
    let n = v.len();
    let mut i: usize = 0;
    while i < n
        invariant
            i <= n,
            n == v@.len(),
            forall|k: int| 0 <= k < i ==> v@[k] != m,
        decreases n - i,
    {
        if v[i] == m {
            return true;
        }
        i = i + 1;
    }
    proof {
        assert forall|k: int| 0 <= k < v@.len() implies v@[k] != m by {
            assert(k < i);
        }
    }
    false
}

impl DepMgrApp {
    /// The packages the dashboard should show, filtered by the selected
    /// managers, the search text (case-folded), and the outdated-only
    /// toggle, in inventory order.
    pub fn filtered_packages(&self) -> (r: Vec<Package>)
        ensures
            r.deep_view() == spec_filtered(
                self.packages.deep_view(),
                self.selected_managers@,
                self.search_query@,
                self.show_outdated_only,
            ),
    {
        let ghost pv: Seq<PackageV> = self.packages.deep_view();
        let ghost sel: Seq<PackageManager> = self.selected_managers@;
        let ghost q: Seq<char> = self.search_query@;
        let outdated_only = self.show_outdated_only;
        let query_lower = lowercase(self.search_query.as_str());
        let query_empty = self.search_query.as_str().unicode_len() == 0;
        let n = self.packages.len();
        let mut r: Vec<Package> = Vec::new();
        let mut i: usize = 0;
        proof {
            assert(pv.skip(0) =~= pv);
            assert(r.deep_view() + spec_filtered(pv, sel, q, outdated_only) =~= spec_filtered(
                pv,
                sel,
                q,
                outdated_only,
            ));
        }
        while i < n
            invariant
                i <= n,
                n == self.packages@.len(),
                pv == self.packages.deep_view(),
                sel == self.selected_managers@,
                q == self.search_query@,
                outdated_only == self.show_outdated_only,
                query_lower@ == lower_of(q),
                query_empty == (q.len() == 0),
                spec_filtered(pv, sel, q, outdated_only) == r.deep_view() + spec_filtered(
                    pv.skip(i as int),
                    sel,
                    q,
                    outdated_only,
                ),
            decreases n - i,
        {
            proof {
                assert(pv.skip(i as int)[0] == pv[i as int]);
                assert(pv.skip(i as int).skip(1) =~= pv.skip(i as int + 1));
                assert(self.packages@[i as int]@ == pv[i as int]);
            }
            let ghost prior: Seq<PackageV> = r.deep_view();
            let ghost piece: Seq<PackageV> = (if spec_passes_filter(
                pv[i as int],
                sel,
                q,
                outdated_only,
            ) {
                seq![pv[i as int]]
            } else {
                Seq::<PackageV>::empty()
            });
            let by_manager: bool = self.selected_managers.len() == 0 || managers_contain(
                &self.selected_managers,
                self.packages[i].manager,
            );
            let by_query: bool = query_empty || {
                let name_lower = lowercase(self.packages[i].name.as_str());
                contains_sub(name_lower.as_str(), query_lower.as_str())
            };
            let by_outdated: bool = !outdated_only || self.packages[i].is_outdated;
            if by_manager && by_query && by_outdated {
                r.push(clone_package(&self.packages[i]));
                proof {
                    assert(r.deep_view() =~= prior + piece);
                }
            } else {
                proof {
                    assert(r.deep_view() =~= prior + piece);
                }
            }
            proof {
                assert(prior + (piece + spec_filtered(pv.skip(i as int + 1), sel, q,
                outdated_only)) =~= (prior + piece) + spec_filtered(
                    pv.skip(i as int + 1),
                    sel,
                    q,
                    outdated_only,
                ));
            }
            i = i + 1;
        }
        proof {
            assert(spec_filtered(pv.skip(n as int), sel, q, outdated_only) =~= Seq::<
                PackageV,
            >::empty());
            assert(r.deep_view() + Seq::<PackageV>::empty() =~= r.deep_view());
        }
        r
    }
}

/// How many of these packages are outdated.
pub open spec fn spec_count_outdated(pkgs: Seq<PackageV>) -> int
    decreases pkgs.len(),
{
    if pkgs.len() == 0 {
        0
    } else {
        (if pkgs[0].is_outdated {
            1int
        } else {
            0int
        }) + spec_count_outdated(pkgs.skip(1))
    }
}

/// How many of these packages no project references.
pub open spec fn spec_count_unused(pkgs: Seq<PackageV>) -> int
    decreases pkgs.len(),
{
    if pkgs.len() == 0 {
        0
    } else {
        (if pkgs[0].used_in.len() == 0 {
            1int
        } else {
            0int
        }) + spec_count_unused(pkgs.skip(1))
    }
}

/// Counts are bounded by the number of packages.
proof fn lemma_counts_bounded(pkgs: Seq<PackageV>)
    ensures
        0 <= spec_count_outdated(pkgs) <= pkgs.len(),
        0 <= spec_count_unused(pkgs) <= pkgs.len(),
    decreases pkgs.len(),
{
    if pkgs.len() > 0 {
        lemma_counts_bounded(pkgs.skip(1));
    }
}

impl DepMgrApp {
    /// The dashboard's headline numbers: how many packages there are, how
    /// many are outdated, and how many no project references.
    pub fn stats(&self) -> (r: (usize, usize, usize))
        ensures
            r.0 == self.packages.deep_view().len(),
            r.1 == spec_count_outdated(self.packages.deep_view()),
            r.2 == spec_count_unused(self.packages.deep_view()),
    {
        let ghost pv: Seq<PackageV> = self.packages.deep_view();
        let n = self.packages.len();
        let mut outdated: usize = 0;
        let mut unused: usize = 0;
        let mut i: usize = 0;
        proof {
            assert(pv.skip(0) =~= pv);
        }
        while i < n
            invariant
                i <= n,
                n == self.packages@.len(),
                pv == self.packages.deep_view(),
                outdated <= i,
                unused <= i,
                spec_count_outdated(pv) == outdated + spec_count_outdated(pv.skip(i as int)),
                spec_count_unused(pv) == unused + spec_count_unused(pv.skip(i as int)),
            decreases n - i,
        {
            proof {
                assert(pv.skip(i as int)[0] == pv[i as int]);
                assert(pv.skip(i as int).skip(1) =~= pv.skip(i as int + 1));
                assert(self.packages@[i as int]@ == pv[i as int]);
            }
            if self.packages[i].is_outdated {
                outdated = outdated + 1;
            }
            if self.packages[i].used_in.len() == 0 {
                unused = unused + 1;
            }
            i = i + 1;
        }
        proof {
            assert(pv.skip(n as int).len() == 0);
        }
        (n, outdated, unused)
    }

    /// Project discovery is not wired into the dashboard: the walk's
    /// results reach packages through the usage scanner instead.
    pub fn scan_projects(&self) -> (r: Vec<Project>)
        ensures
            r@.len() == 0,
    {
        Vec::new()
    }

    /// A sketch of per-package usage records: the first package, wrapped
    /// with one example project reference.
    pub fn find_orphaned_packages(&self) -> (r: Vec<PackageUsage>)
        ensures
            self.packages.deep_view().len() == 0 ==> r@.len() == 0,
            self.packages.deep_view().len() > 0 ==> r@.len() == 1 && r@[0]@.package
                == self.packages.deep_view()[0] && !r@[0]@.is_orphaned,
    {
        if self.packages.len() > 0 {
            proof {
                assert(self.packages@[0]@ == self.packages.deep_view()[0]);
            }
            let mut usage = PackageUsage::new(clone_package(&self.packages[0]));
            let example = Project::new(String::from_str("/tmp/example"));
            usage.add_project(example);
            let r = vec![usage];
            proof {
                assert(r@.len() == 1);
            }
            r
        } else {
            Vec::new()
        }
    }
}


/// `a + b`, capped at the largest representable value.
pub open spec fn spec_sat_add(a: u64, b: u64) -> u64 {
    if a + b > u64::MAX {
        u64::MAX
    } else {
        (a + b) as u64
    }
}

/// Saturating addition on timestamps.
fn sat_add(a: u64, b: u64) -> (r: u64)
    ensures
        r == spec_sat_add(a, b),
{
    if a > u64::MAX - b {
        u64::MAX
    } else {
        a + b
    }
}

/// Two texts, joined.
fn msg2(a: &str, b: &str) -> (r: String)
    ensures
        r@ == a@ + b@,
{
    let mut s = a.to_owned();
    s.append(b);
    s
}

/// Three texts, joined.
fn msg3(a: &str, b: &str, c: &str) -> (r: String)
    ensures
        r@ == a@ + b@ + c@,
{
    let mut s = a.to_owned();
    s.append(b);
    s.append(c);
    s
}

/// Four texts, joined.
fn msg4(a: &str, b: &str, c: &str, d: &str) -> (r: String)
    ensures
        r@ == a@ + b@ + c@ + d@,
{
    let mut s = a.to_owned();
    s.append(b);
    s.append(c);
    s.append(d);
    s
}

/// A name-set holds what was inserted.
pub proof fn lemma_name_set_insert_contains(s: Seq<Seq<char>>, x: Seq<char>)
    ensures
        spec_name_set_insert(s, x).contains(x),
{
    if s.contains(x) {
    } else {
        assert(s.push(x)[s.len() as int] == x);
    }
}

/// A name-set no longer holds what was removed.
pub proof fn lemma_name_set_remove_gone(s: Seq<Seq<char>>, x: Seq<char>)
    ensures
        !spec_name_set_remove(s, x).contains(x),
    decreases s.len(),
{
    if s.len() == 0 {
    } else {
        lemma_name_set_remove_gone(s.skip(1), x);
        if s[0] != x {
            let r = seq![s[0]] + spec_name_set_remove(s.skip(1), x);
            assert forall|k: int| 0 <= k < r.len() implies r[k] != x by {
                if k > 0 {
                    assert(r[k] == spec_name_set_remove(s.skip(1), x)[k - 1]);
                    assert(spec_name_set_remove(s.skip(1), x).contains(r[k]) ==> r[k] != x);
                }
            }
        }
    }
}

/// The uninstall/reinstall law: a successful uninstall marks the name
/// removed — the record itself, its `used_in` list included, stays in the
/// inventory untouched — and a following successful reinstall clears the
/// mark again.
pub proof fn lemma_uninstall_reinstall_round_trip(removed: Seq<Seq<char>>, name: Seq<char>)
    ensures
        spec_name_set_insert(removed, name).contains(name),
        !spec_name_set_remove(spec_name_set_insert(removed, name), name).contains(name),
{
    lemma_name_set_insert_contains(removed, name);
    lemma_name_set_remove_gone(spec_name_set_insert(removed, name), name);
}

impl DepMgrApp {
    /// Publish a status line that stays valid until `expires_at`.
    fn set_status(&mut self, msg: String, expires_at: u64)
        ensures
            *final(self) == (DepMgrApp {
                update_status: final(self).update_status,
                status_expires_at: expires_at,
                ..*old(self)
            }),
            final(self).update_status == msg,
    {
        self.update_status = msg;
        self.status_expires_at = expires_at;
    }

    /// Begin updating one package: mark it in progress, publish
    /// "Updating <name>...", and hand back the manager's update command.
    /// A manager without one gets a failure status and nothing marked.
    pub fn update_package(&mut self, package_name: &str, manager: PackageManager, now: u64) -> (r:
        Option<crate::executor::CommandSpec>)
        ensures
            final(self).packages == old(self).packages,
            final(self).removed_packages == old(self).removed_packages,
            final(self).status_expires_at == spec_sat_add(now, STATUS_DELAY_SECS as u64),
            *final(self) == (DepMgrApp {
                updating_packages: final(self).updating_packages,
                update_status: final(self).update_status,
                status_expires_at: final(self).status_expires_at,
                ..*old(self)
            }),
            match r {
                Some(c) => crate::commands::spec_update_command(manager, package_name@) == Some(
                    crate::commands::spec_of_command(c),
                ) && final(self).updating_packages.deep_view() == spec_name_set_insert(
                    old(self).updating_packages.deep_view(),
                    package_name@,
                ) && final(self).update_status@ == "Updating "@ + package_name@ + "..."@,
                None => crate::commands::spec_update_command(manager, package_name@) is None
                    && final(self).updating_packages == old(self).updating_packages && final(self).update_status@ == "Failed to update "@ + package_name@
                    + ": this manager does not support updates"@,
            },
    {
        let expires = sat_add(now, STATUS_DELAY_SECS);
        match crate::commands::update_command(manager, package_name) {
            Some(c) => {
                insert_name(&mut self.updating_packages, package_name.to_owned());
                let msg = msg3("Updating ", package_name, "...");
                self.set_status(msg, expires);
                Some(c)
            },
            None => {
                let msg = msg3(
                    "Failed to update ",
                    package_name,
                    ": this manager does not support updates",
                );
                self.set_status(msg, expires);
                None
            },
        }
    }

    /// Record one update's outcome: the in-progress mark is dropped either
    /// way; success publishes "Updated <name>", failure publishes the
    /// error and leaves every package record exactly as it was.
    pub fn finish_update(&mut self, package_name: &str, outcome: Result<(), String>, now: u64)
        ensures
            final(self).packages == old(self).packages,
            final(self).removed_packages == old(self).removed_packages,
            final(self).updating_packages.deep_view() == spec_name_set_remove(
                old(self).updating_packages.deep_view(),
                package_name@,
            ),
            final(self).status_expires_at == spec_sat_add(now, STATUS_DELAY_SECS as u64),
            *final(self) == (DepMgrApp {
                updating_packages: final(self).updating_packages,
                update_status: final(self).update_status,
                status_expires_at: final(self).status_expires_at,
                ..*old(self)
            }),
            match outcome {
                Ok(()) => final(self).update_status@ == "Updated "@ + package_name@,
                Err(e) => final(self).update_status@ == "Failed to update "@ + package_name@
                    + ": "@ + e@,
            },
    {
        let expires = sat_add(now, STATUS_DELAY_SECS);
        match &outcome {
            Ok(()) => {
                let msg = msg2("Updated ", package_name);
                self.set_status(msg, expires);
            },
            Err(e) => {
                let msg = msg4("Failed to update ", package_name, ": ", e.as_str());
                self.set_status(msg, expires);
            },
        }
        remove_name(&mut self.updating_packages, package_name);
    }

    /// Begin uninstalling one package: mark it in progress, publish
    /// "Removing <name>...", and hand back the manager's uninstall
    /// command.
    pub fn uninstall_package(&mut self, package_name: &str, manager: PackageManager, now: u64)
        -> (r: Option<crate::executor::CommandSpec>)
        ensures
            final(self).packages == old(self).packages,
            final(self).removed_packages == old(self).removed_packages,
            final(self).status_expires_at == spec_sat_add(now, STATUS_DELAY_SECS as u64),
            *final(self) == (DepMgrApp {
                updating_packages: final(self).updating_packages,
                update_status: final(self).update_status,
                status_expires_at: final(self).status_expires_at,
                ..*old(self)
            }),
            match r {
                Some(c) => crate::commands::spec_uninstall_command(manager, package_name@)
                    == Some(crate::commands::spec_of_command(c)) && final(self).updating_packages.deep_view() == spec_name_set_insert(
                    old(self).updating_packages.deep_view(),
                    package_name@,
                ) && final(self).update_status@ == "Removing "@ + package_name@ + "..."@,
                None => crate::commands::spec_uninstall_command(manager, package_name@) is None
                    && final(self).updating_packages == old(self).updating_packages && final(self).update_status@ == "Failed to remove "@ + package_name@
                    + ": this manager does not support uninstalls"@,
            },
    {
        let expires = sat_add(now, STATUS_DELAY_SECS);
        match crate::commands::uninstall_command(manager, package_name) {
            Some(c) => {
                insert_name(&mut self.updating_packages, package_name.to_owned());
                let msg = msg3("Removing ", package_name, "...");
                self.set_status(msg, expires);
                Some(c)
            },
            None => {
                let msg = msg3(
                    "Failed to remove ",
                    package_name,
                    ": this manager does not support uninstalls",
                );
                self.set_status(msg, expires);
                None
            },
        }
    }

    /// Record one uninstall's outcome.  Success marks the name removed —
    /// the record itself stays in the inventory, nothing about it changes
    /// — and failure leaves the removed set alone; either way the
    /// in-progress mark is dropped.
    pub fn finish_uninstall(&mut self, package_name: &str, outcome: Result<(), String>, now: u64)
        ensures
            final(self).packages == old(self).packages,
            final(self).updating_packages.deep_view() == spec_name_set_remove(
                old(self).updating_packages.deep_view(),
                package_name@,
            ),
            final(self).status_expires_at == spec_sat_add(now, STATUS_DELAY_SECS as u64),
            *final(self) == (DepMgrApp {
                updating_packages: final(self).updating_packages,
                update_status: final(self).update_status,
                status_expires_at: final(self).status_expires_at,
                removed_packages: final(self).removed_packages,
                ..*old(self)
            }),
            match outcome {
                Ok(()) => final(self).removed_packages.deep_view() == spec_name_set_insert(
                    old(self).removed_packages.deep_view(),
                    package_name@,
                ) && final(self).update_status@ == package_name@
                    + " removed (click Reinstall to undo)"@,
                Err(e) => final(self).removed_packages == old(self).removed_packages && final(self).update_status@ == "Failed to remove "@ + package_name@ + ": "@ + e@,
            },
    {
        let expires = sat_add(now, STATUS_DELAY_SECS);
        match &outcome {
            Ok(()) => {
                insert_name(&mut self.removed_packages, package_name.to_owned());
                let msg = msg2(package_name, " removed (click Reinstall to undo)");
                self.set_status(msg, expires);
            },
            Err(e) => {
                let msg = msg4("Failed to remove ", package_name, ": ", e.as_str());
                self.set_status(msg, expires);
            },
        }
        remove_name(&mut self.updating_packages, package_name);
    }

    /// Begin reinstalling one package: mark it in progress, publish
    /// "Reinstalling <name>...", and hand back the manager's install
    /// command.
    pub fn reinstall_package(&mut self, package_name: &str, manager: PackageManager, now: u64)
        -> (r: Option<crate::executor::CommandSpec>)
        ensures
            final(self).packages == old(self).packages,
            final(self).removed_packages == old(self).removed_packages,
            final(self).status_expires_at == spec_sat_add(now, STATUS_DELAY_SECS as u64),
            *final(self) == (DepMgrApp {
                updating_packages: final(self).updating_packages,
                update_status: final(self).update_status,
                status_expires_at: final(self).status_expires_at,
                ..*old(self)
            }),
            match r {
                Some(c) => crate::commands::spec_install_command(manager, package_name@) == Some(
                    crate::commands::spec_of_command(c),
                ) && final(self).updating_packages.deep_view() == spec_name_set_insert(
                    old(self).updating_packages.deep_view(),
                    package_name@,
                ) && final(self).update_status@ == "Reinstalling "@ + package_name@ + "..."@,
                None => crate::commands::spec_install_command(manager, package_name@) is None
                    && final(self).updating_packages == old(self).updating_packages && final(self).update_status@ == "Failed to reinstall "@ + package_name@
                    + ": this manager does not support installs"@,
            },
    {
        let expires = sat_add(now, STATUS_DELAY_SECS);
        match crate::commands::install_command(manager, package_name) {
            Some(c) => {
                insert_name(&mut self.updating_packages, package_name.to_owned());
                let msg = msg3("Reinstalling ", package_name, "...");
                self.set_status(msg, expires);
                Some(c)
            },
            None => {
                let msg = msg3(
                    "Failed to reinstall ",
                    package_name,
                    ": this manager does not support installs",
                );
                self.set_status(msg, expires);
                None
            },
        }
    }

    /// Record one reinstall's outcome.  Success clears the removed mark;
    /// failure leaves it; either way the in-progress mark is dropped and
    /// no package record moves.
    pub fn finish_reinstall(&mut self, package_name: &str, outcome: Result<(), String>, now: u64)
        ensures
            final(self).packages == old(self).packages,
            final(self).updating_packages.deep_view() == spec_name_set_remove(
                old(self).updating_packages.deep_view(),
                package_name@,
            ),
            final(self).status_expires_at == spec_sat_add(now, STATUS_DELAY_SECS as u64),
            *final(self) == (DepMgrApp {
                updating_packages: final(self).updating_packages,
                update_status: final(self).update_status,
                status_expires_at: final(self).status_expires_at,
                removed_packages: final(self).removed_packages,
                ..*old(self)
            }),
            match outcome {
                Ok(()) => final(self).removed_packages.deep_view() == spec_name_set_remove(
                    old(self).removed_packages.deep_view(),
                    package_name@,
                ) && final(self).update_status@ == package_name@ + " reinstalled"@,
                Err(e) => final(self).removed_packages == old(self).removed_packages && final(self).update_status@ == "Failed to reinstall "@ + package_name@ + ": "@ + e@,
            },
    {
        let expires = sat_add(now, STATUS_DELAY_SECS);
        match &outcome {
            Ok(()) => {
                remove_name(&mut self.removed_packages, package_name);
                let msg = msg2(package_name, " reinstalled");
                self.set_status(msg, expires);
            },
            Err(e) => {
                let msg = msg4("Failed to reinstall ", package_name, ": ", e.as_str());
                self.set_status(msg, expires);
            },
        }
        remove_name(&mut self.updating_packages, package_name);
    }

    /// Begin the bulk update of everything outdated: one native
    /// bulk-upgrade command, and a status line with the longer delay.
    pub fn update_all_outdated(&mut self, now: u64) -> (r: crate::executor::CommandSpec)
        ensures
            crate::commands::spec_bulk_update_command(PackageManager::Homebrew) == Some(
                crate::commands::spec_of_command(r),
            ),
            final(self).packages == old(self).packages,
            final(self).removed_packages == old(self).removed_packages,
            final(self).updating_packages == old(self).updating_packages,
            final(self).update_status@ == "Updating all outdated packages..."@,
            final(self).status_expires_at == spec_sat_add(now, BULK_STATUS_DELAY_SECS as u64),
            *final(self) == (DepMgrApp {
                update_status: final(self).update_status,
                status_expires_at: final(self).status_expires_at,
                ..*old(self)
            }),
    {
        let expires = sat_add(now, BULK_STATUS_DELAY_SECS);
        let msg = String::from_str("Updating all outdated packages...");
        self.set_status(msg, expires);
        match crate::commands::bulk_update_command(PackageManager::Homebrew) {
            Some(c) => c,
            None => vstd::pervasive::unreached(),
        }
    }

    /// Record the bulk update's outcome: the status reports it, and the
    /// whole in-progress set is cleared.
    pub fn finish_update_all(&mut self, outcome: Result<(), String>, now: u64)
        ensures
            final(self).packages == old(self).packages,
            final(self).removed_packages == old(self).removed_packages,
            final(self).updating_packages@.len() == 0,
            final(self).status_expires_at == spec_sat_add(now, BULK_STATUS_DELAY_SECS as u64),
            *final(self) == (DepMgrApp {
                updating_packages: final(self).updating_packages,
                update_status: final(self).update_status,
                status_expires_at: final(self).status_expires_at,
                ..*old(self)
            }),
            match outcome {
                Ok(()) => final(self).update_status@ == "All packages updated"@,
                Err(e) => final(self).update_status@ == "Failed to update all: "@ + e@,
            },
    {
        let expires = sat_add(now, BULK_STATUS_DELAY_SECS);
        match &outcome {
            Ok(()) => {
                let msg = String::from_str("All packages updated");
                self.set_status(msg, expires);
            },
            Err(e) => {
                let msg = msg2("Failed to update all: ", e.as_str());
                self.set_status(msg, expires);
            },
        }
        self.updating_packages = Vec::new();
    }

    /// Whether a mutation of this package is in flight.
    pub fn is_updating(&self, package_name: &str) -> (r: bool)
        ensures
            r == self.updating_packages.deep_view().contains(package_name@),
    {
        contains_name(&self.updating_packages, package_name)
    }

    /// Whether this package was uninstalled in this session and not yet
    /// reinstalled.
    pub fn is_removed(&self, package_name: &str) -> (r: bool)
        ensures
            r == self.removed_packages.deep_view().contains(package_name@),
    {
        contains_name(&self.removed_packages, package_name)
    }

    /// The status line as of time `now`: the published text while it is
    /// fresh, and nothing once its delay has passed.
    pub fn get_update_status_at(&self, now: u64) -> (r: String)
        ensures
            now <= self.status_expires_at ==> r@ == self.update_status@,
            now > self.status_expires_at ==> r@.len() == 0,
    {
        if now <= self.status_expires_at {
            self.update_status.clone()
        } else {
            String::new()
        }
    }

    /// The status line as of the clock's present reading.
    pub fn get_update_status(&self) -> (r: String)
        ensures
            r@ == self.update_status@ || r@.len() == 0,
    {
        let now = crate::clock::now_epoch_secs();
        self.get_update_status_at(now)
    }
}


} // verus!
