//! Description enrichment: choosing which packages still need a
//! description, reading one out of each manager's answer, writing it into
//! the inventory, and bounding how many fetches run at once.
//!
//! Enrichment is best-effort: results are written one by one, so a partial
//! run still improves the data, and a package left without a description is
//! never an error.

use vstd::prelude::*;
use vstd::pervasive::VecAdditionalExecFns;

use crate::jsonmodel::{obj_get, spec_obj_get, JsonVal};
use crate::models::{clone_package, Package, PackageManager, PackageV};
use crate::strutil::{spec_split, spec_trim, split_char, strip_prefix_str, trim_str};

verus! {

/// How many description fetches may run at once.
pub const ENRICH_WORKERS: usize = 8;

/// Whether a package still needs a description, under an optional manager
/// filter.
pub open spec fn spec_needs_description(p: PackageV, manager: Option<PackageManager>) -> bool {
    p.description is None && match manager {
        Some(m) => p.manager == m,
        None => true,
    }
}

/// The names of the packages still needing a description, in inventory
/// order.
pub open spec fn spec_missing_description_names(
    pkgs: Seq<PackageV>,
    manager: Option<PackageManager>,
) -> Seq<Seq<char>>
    decreases pkgs.len(),
{
    if pkgs.len() == 0 {
        Seq::empty()
    } else {
        (if spec_needs_description(pkgs[0], manager) {
            seq![pkgs[0].name]
        } else {
            Seq::empty()
        }) + spec_missing_description_names(pkgs.skip(1), manager)
    }
}

/// The names of the packages that still need a description, optionally
/// restricted to one manager's packages.
pub fn missing_description_names(packages: &Vec<Package>, manager: Option<PackageManager>) -> (r:
    Vec<String>)
    ensures
        r.deep_view() == spec_missing_description_names(packages.deep_view(), manager),
{
    let n = packages.len();
    let mut r: Vec<String> = Vec::new();
    let mut i: usize = 0;
    let ghost pv: Seq<PackageV> = packages.deep_view();
    proof {
        assert(pv.skip(0) =~= pv);
        assert(r.deep_view() + spec_missing_description_names(pv, manager)
            =~= spec_missing_description_names(pv, manager));
    }
    while i < n
        invariant
            i <= n,
            n == packages@.len(),
            pv == packages.deep_view(),
            spec_missing_description_names(pv, manager) == r.deep_view()
                + spec_missing_description_names(pv.skip(i as int), manager),
        decreases n - i,
    {
        proof {
            assert(pv.skip(i as int)[0] == pv[i as int]);
            assert(pv.skip(i as int).skip(1) =~= pv.skip(i as int + 1));
        }
        let ghost prior: Seq<Seq<char>> = r.deep_view();
        let ghost piece: Seq<Seq<char>> = (if spec_needs_description(pv[i as int], manager) {
            seq![pv[i as int].name]
        } else {
            Seq::<Seq<char>>::empty()
        });
        let wanted: bool = match (&packages[i].description, manager) {
            (Some(_), _) => false,
            (None, Some(m)) => packages[i].manager == m,
            (None, None) => true,
        };
        if wanted {
            r.push(packages[i].name.clone());
            proof {
                assert(r.deep_view() =~= prior + piece);
            }
        } else {
            proof {
                assert(r.deep_view() =~= prior + piece);
            }
        }
        proof {
            assert(prior + (piece + spec_missing_description_names(pv.skip(i as int + 1), manager))
                =~= (prior + piece) + spec_missing_description_names(
                pv.skip(i as int + 1),
                manager,
            ));
        }
        i = i + 1;
    }
    proof {
        assert(spec_missing_description_names(pv.skip(n as int), manager) =~= Seq::<
            Seq<char>,
        >::empty());
        assert(r.deep_view() + Seq::<Seq<char>>::empty() =~= r.deep_view());
    }
    r
}

/// Whether a fetched description may land on this package: it bears the
/// name, belongs to the manager the description was fetched for, and has
/// none yet.
pub open spec fn spec_enrichable(p: PackageV, manager: PackageManager, name: Seq<char>) -> bool {
    p.name == name && p.manager == manager && p.description is None
}

/// The first index where a fetched description may land, or the length
/// when nowhere may.
pub open spec fn spec_first_enrichable(
    pkgs: Seq<PackageV>,
    manager: PackageManager,
    name: Seq<char>,
) -> int
    decreases pkgs.len(),
{
    if pkgs.len() == 0 {
        0
    } else if spec_enrichable(pkgs[0], manager, name) {
        0
    } else {
        1 + spec_first_enrichable(pkgs.skip(1), manager, name)
    }
}

/// Bounds and characterization of `spec_first_enrichable`.
pub proof fn lemma_first_enrichable_bounds(
    pkgs: Seq<PackageV>,
    manager: PackageManager,
    name: Seq<char>,
)
    ensures
        0 <= spec_first_enrichable(pkgs, manager, name) <= pkgs.len(),
        spec_first_enrichable(pkgs, manager, name) < pkgs.len() ==> spec_enrichable(
            pkgs[spec_first_enrichable(pkgs, manager, name)],
            manager,
            name,
        ),
        forall|k: int|
            0 <= k < spec_first_enrichable(pkgs, manager, name) ==> !spec_enrichable(
                pkgs[k],
                manager,
                name,
            ),
    decreases pkgs.len(),
{
    if pkgs.len() == 0 {
    } else if spec_enrichable(pkgs[0], manager, name) {
    } else {
        lemma_first_enrichable_bounds(pkgs.skip(1), manager, name);
        let j = spec_first_enrichable(pkgs, manager, name);
        assert forall|k: int| 0 <= k < j implies !spec_enrichable(pkgs[k], manager, name) by {
            if k > 0 {
                assert(pkgs.skip(1)[k - 1] == pkgs[k]);
            }
        }
        if j < pkgs.len() {
            assert(pkgs.skip(1)[j - 1] == pkgs[j]);
        }
    }
}

/// A position with no earlier landing place, that is one or stands at the
/// end, is the first landing place.
proof fn lemma_first_enrichable_at(
    pkgs: Seq<PackageV>,
    manager: PackageManager,
    name: Seq<char>,
    j: int,
)
    requires
        0 <= j <= pkgs.len(),
        forall|k: int| 0 <= k < j ==> !spec_enrichable(pkgs[k], manager, name),
        j < pkgs.len() ==> spec_enrichable(pkgs[j], manager, name),
    ensures
        spec_first_enrichable(pkgs, manager, name) == j,
    decreases pkgs.len(),
{
    if pkgs.len() == 0 {
    } else if spec_enrichable(pkgs[0], manager, name) {
        assert(j == 0);
    } else {
        assert(j > 0);
        assert forall|k: int| 0 <= k < j - 1 implies !spec_enrichable(
            pkgs.skip(1)[k],
            manager,
            name,
        ) by {
            assert(pkgs.skip(1)[k] == pkgs[k + 1]);
        }
        if j - 1 < pkgs.skip(1).len() {
            assert(pkgs.skip(1)[j - 1] == pkgs[j]);
        }
        lemma_first_enrichable_at(pkgs.skip(1), manager, name, j - 1);
    }
}

/// The inventory after one description lands: the first package that bears
/// the name, belongs to the fetching manager and was still missing one
/// carries it; everything else is untouched.  Where no package qualifies —
/// the name is gone, owned by another manager, or already described —
/// nothing changes.
pub open spec fn spec_apply_description(
    pkgs: Seq<PackageV>,
    manager: PackageManager,
    name: Seq<char>,
    desc: Seq<char>,
) -> Seq<PackageV> {
    let j = spec_first_enrichable(pkgs, manager, name);
    if j < pkgs.len() {
        pkgs.update(j, PackageV { description: Some(desc), ..pkgs[j] })
    } else {
        pkgs
    }
}

/// Enrichment only fills gaps: a landing description changes at most one
/// package — one of the fetching manager, bearing the name, with no
/// description yet — and only by giving it that description.
pub proof fn lemma_apply_description_only_fills_missing(
    pkgs: Seq<PackageV>,
    manager: PackageManager,
    name: Seq<char>,
    desc: Seq<char>,
    k: int,
)
    requires
        0 <= k < pkgs.len(),
    ensures
        spec_apply_description(pkgs, manager, name, desc).len() == pkgs.len(),
        spec_apply_description(pkgs, manager, name, desc)[k] != pkgs[k] ==> spec_enrichable(
            pkgs[k],
            manager,
            name,
        ) && spec_apply_description(pkgs, manager, name, desc)[k] == (PackageV {
            description: Some(desc),
            ..pkgs[k]
        }),
{
    lemma_first_enrichable_bounds(pkgs, manager, name);
}

/// Write one fetched description into the inventory.
pub fn apply_description(
    packages: &mut Vec<Package>,
    manager: PackageManager,
    name: &str,
    desc: String,
)
    ensures
        final(packages).deep_view() == spec_apply_description(
            old(packages).deep_view(),
            manager,
            name@,
            desc@,
        ),
{
    let ghost orig: Seq<PackageV> = old(packages).deep_view();
    let n = packages.len();
    let mut i: usize = 0;
    while i < n
        invariant
            i <= n,
            n == packages@.len(),
            orig == packages.deep_view(),
            orig == old(packages).deep_view(),
            forall|k: int| 0 <= k < i ==> !spec_enrichable(orig[k], manager, name@),
        decreases n - i,
    {
        proof {
            assert(packages@[i as int]@ == orig[i as int]);
        }
        let landing: bool = crate::strutil::str_eq(packages[i].name.as_str(), name)
            && packages[i].manager == manager && packages[i].description.is_none();
        if landing {
            proof {
                lemma_first_enrichable_at(orig, manager, name@, i as int);
            }
            let mut q = clone_package(&packages[i]);
            q.description = Some(desc);
            let ghost qv: PackageV = q@;
            packages.set(i, q);
            proof {
                assert(packages.deep_view() =~= orig.update(i as int, qv));
            }
            return;
        }
        i = i + 1;
    }
    proof {
        lemma_first_enrichable_at(orig, manager, name@, n as int);
    }
}

/// The "desc" string of the first entry of an array value, where there is
/// one.
pub open spec fn spec_first_desc(v: JsonVal) -> Option<Seq<char>> {
    match v {
        JsonVal::Arr(items) => if items@.len() > 0 {
            match items@[0] {
                JsonVal::Obj(f) => match spec_obj_get(f@, "desc"@) {
                    Some(JsonVal::Str(d)) => Some(d@),
                    _ => None,
                },
                _ => None,
            }
        } else {
            None
        },
        _ => None,
    }
}

/// The description a `brew info --json=v2` answer carries: the "desc"
/// string of the first entry of its "formulae" array, falling back to the
/// first entry of its "casks" array where the formulae yield none.
pub open spec fn spec_brew_info_desc(j: JsonVal) -> Option<Seq<char>> {
    match j {
        JsonVal::Obj(f) => {
            let from_formulae = match spec_obj_get(f@, "formulae"@) {
                Some(v) => spec_first_desc(v),
                None => None,
            };
            if from_formulae is Some {
                from_formulae
            } else {
                match spec_obj_get(f@, "casks"@) {
                    Some(v) => spec_first_desc(v),
                    None => None,
                }
            }
        },
        _ => None,
    }
}

/// Read the "desc" string of an array value's first entry.
fn first_desc_of(v: &JsonVal) -> (r: Option<String>)
    ensures
        match r {
            Some(d) => spec_first_desc(*v) == Some(d@),
            None => spec_first_desc(*v) is None,
        },
{
    if let JsonVal::Arr(items) = v {
        if items.len() > 0 {
            if let JsonVal::Obj(f) = &items[0] {
                if let Some(JsonVal::Str(d)) = obj_get(f, "desc") {
                    return Some(d.clone());
                }
                return None;
            }
            return None;
        }
        return None;
    }
    None
}

/// Read a description out of a parsed `brew info --json=v2` answer.
pub fn brew_info_desc_of_json(j: &JsonVal) -> (r: Option<String>)
    ensures
        match r {
            Some(d) => spec_brew_info_desc(*j) == Some(d@),
            None => spec_brew_info_desc(*j) is None,
        },
{
    if let JsonVal::Obj(f) = j {
        if let Some(v) = obj_get(f, "formulae") {
            if let Some(d) = first_desc_of(v) {
                return Some(d);
            }
        }
        if let Some(v) = obj_get(f, "casks") {
            return first_desc_of(v);
        }
        return None;
    }
    None
}

/// The description a crates.io crate document carries: the "description"
/// string of its "crate" object.
pub open spec fn spec_crate_desc(j: JsonVal) -> Option<Seq<char>> {
    match j {
        JsonVal::Obj(f) => match spec_obj_get(f@, "crate"@) {
            Some(JsonVal::Obj(cf)) => match spec_obj_get(cf@, "description"@) {
                Some(JsonVal::Str(d)) => Some(d@),
                _ => None,
            },
            _ => None,
        },
        _ => None,
    }
}

/// Read a description out of a parsed crates.io crate document.
pub fn crate_description_of_json(j: &JsonVal) -> (r: Option<String>)
    ensures
        match r {
            Some(d) => spec_crate_desc(*j) == Some(d@),
            None => spec_crate_desc(*j) is None,
        },
{
    if let JsonVal::Obj(f) = j {
        if let Some(JsonVal::Obj(cf)) = obj_get(f, "crate") {
            if let Some(JsonVal::Str(d)) = obj_get(cf, "description") {
                return Some(d.clone());
            }
            return None;
        }
        return None;
    }
    None
}

/// The description `npm view <name> description` printed: its output
/// trimmed, where that leaves anything.
pub open spec fn spec_npm_desc(s: Seq<char>) -> Option<Seq<char>> {
    if spec_trim(s).len() > 0 {
        Some(spec_trim(s))
    } else {
        None
    }
}

/// Read a description out of npm's plain-text answer.
pub fn npm_description_of_output(s: &str) -> (r: Option<String>)
    ensures
        match r {
            Some(d) => spec_npm_desc(s@) == Some(d@),
            None => spec_npm_desc(s@) is None,
        },
{
    let t = trim_str(s);
    if t.as_str().unicode_len() > 0 {
        Some(t)
    } else {
        None
    }
}

/// The description one `pip3 show` line carries: what follows a
/// "Summary: " prefix, trimmed, where that leaves anything.
pub open spec fn spec_pip_summary_of_line(line: Seq<char>) -> Option<Seq<char>> {
    if line.len() >= "Summary: "@.len() && line.subrange(0, "Summary: "@.len() as int)
        == "Summary: "@ && spec_trim(
        line.subrange("Summary: "@.len() as int, line.len() as int),
    ).len() > 0 {
        Some(spec_trim(line.subrange("Summary: "@.len() as int, line.len() as int)))
    } else {
        None
    }
}

/// The description a whole `pip3 show` answer carries: the first line with
/// a non-empty summary.
pub open spec fn spec_pip_summary_lines(lines: Seq<Seq<char>>) -> Option<Seq<char>>
    decreases lines.len(),
{
    if lines.len() == 0 {
        None
    } else {
        match spec_pip_summary_of_line(lines[0]) {
            Some(d) => Some(d),
            None => spec_pip_summary_lines(lines.skip(1)),
        }
    }
}

/// Read a description out of `pip3 show`'s answer.
pub fn parse_pip_show_summary(s: &str) -> (r: Option<String>)
    ensures
        match r {
            Some(d) => spec_pip_summary_lines(spec_split(s@, '\n')) == Some(d@),
            None => spec_pip_summary_lines(spec_split(s@, '\n')) is None,
        },
{
    let lines = split_char(s, '\n');
    let n = lines.len();
    let mut i: usize = 0;
    let ghost lv: Seq<Seq<char>> = lines.deep_view();
    proof {
        assert(lv.skip(0) =~= lv);
    }
    while i < n
        invariant
            i <= n,
            n == lines@.len(),
            lv == lines.deep_view(),
            lv == spec_split(s@, '\n'),
            spec_pip_summary_lines(lv) == spec_pip_summary_lines(lv.skip(i as int)),
        decreases n - i,
    {
        proof {
            assert(lv.skip(i as int)[0] == lv[i as int]);
            assert(lv.skip(i as int).skip(1) =~= lv.skip(i as int + 1));
            assert(lines@[i as int]@ == lv[i as int]);
        }
        match strip_prefix_str(lines[i].as_str(), "Summary: ") {
            Some(rest) => {
                let t = trim_str(rest.as_str());
                if t.as_str().unicode_len() > 0 {
                    proof {
                        assert(spec_pip_summary_of_line(lv[i as int]) == Some(t@));
                        assert(spec_pip_summary_lines(lv.skip(i as int)) == Some(t@));
                    }
                    return Some(t);
                }
            },
            None => {},
        }
        i = i + 1;
    }
    None
}

/// The description-enrichment worker pool: a counter of fetches in flight,
/// never exceeding the configured limit.  The driver asks `try_start`
/// before each fetch and calls `finish` after it; the bound holds in every
/// reachable state.
#[derive(Debug)]
pub struct EnrichmentPool {
    pub limit: usize,
    pub in_flight: usize,
}

impl EnrichmentPool {
    /// The pool's invariant: never more fetches in flight than the limit.
    pub open spec fn wf(&self) -> bool {
        self.in_flight <= self.limit
    }

    /// A pool with nothing in flight.
    pub fn new(limit: usize) -> (r: EnrichmentPool)
        ensures
            r.wf(),
            r.limit == limit,
            r.in_flight == 0,
    {
        EnrichmentPool { limit, in_flight: 0 }
    }

    /// Ask to start one more fetch: granted exactly while the pool is not
    /// full, and the bound still holds afterwards.
    pub fn try_start(&mut self) -> (granted: bool)
        requires
            old(self).wf(),
        ensures
            final(self).wf(),
            final(self).limit == old(self).limit,
            granted == (old(self).in_flight < old(self).limit),
            granted ==> final(self).in_flight == old(self).in_flight + 1,
            !granted ==> final(self).in_flight == old(self).in_flight,
    {
        if self.in_flight < self.limit {
            self.in_flight = self.in_flight + 1;
            true
        } else {
            false
        }
    }

    /// One fetch finished.
    pub fn finish(&mut self)
        requires
            old(self).wf(),
            old(self).in_flight > 0,
        ensures
            final(self).wf(),
            final(self).limit == old(self).limit,
            final(self).in_flight == old(self).in_flight - 1,
    {
        self.in_flight = self.in_flight - 1;
    }
}


/// A landing description touches no version field, so enrichment keeps
/// the version-policy invariant of every package.
pub proof fn lemma_description_keeps_invariant(
    pkgs: Seq<PackageV>,
    manager: PackageManager,
    name: Seq<char>,
    desc: Seq<char>,
    k: int,
)
    requires
        0 <= k < pkgs.len(),
        crate::models::outdated_consistent(pkgs[k]),
    ensures
        crate::models::outdated_consistent(spec_apply_description(pkgs, manager, name, desc)[k]),
{
    lemma_first_enrichable_bounds(pkgs, manager, name);
    let j = spec_first_enrichable(pkgs, manager, name);
    if j < pkgs.len() {
        if k == j {
            assert(spec_apply_description(pkgs, manager, name, desc)[k] == (PackageV {
                description: Some(desc),
                ..pkgs[j]
            }));
        } else {
            assert(spec_apply_description(pkgs, manager, name, desc)[k] == pkgs[k]);
        }
    }
}

} // verus!
