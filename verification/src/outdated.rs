//! The outdated check: deriving each package's outdated flag from its
//! recorded versions, and folding in what a manager's own outdated report
//! says.
//!
//! The comparison policy is exact string inequality: a package is outdated
//! exactly when a latest version is known and its text differs from the
//! installed version's text.

use vstd::prelude::*;

use crate::jsonmodel::{obj_get, spec_obj_get, JsonField, JsonVal};
use crate::models::{clone_package, outdated_consistent, Package, PackageV};

verus! {

/// The outdated flag a package should carry under the policy.
pub open spec fn spec_outdated_flag(p: PackageV) -> bool {
    match p.latest_version {
        Some(latest) => latest != p.installed_version,
        None => false,
    }
}

/// A package after the outdated check: the flag is derived, everything else
/// stays.
pub open spec fn spec_checked(p: PackageV) -> PackageV {
    PackageV { is_outdated: spec_outdated_flag(p), ..p }
}

/// The version-policy law: a checked package always satisfies the outdated
/// invariant, whatever state it was in before.
pub proof fn lemma_check_restores_invariant(p: PackageV)
    ensures
        outdated_consistent(spec_checked(p)),
{
}

/// Derive every package's outdated flag from the latest version already on
/// record.  The bulk-catalog listing already carries each stable version,
/// so this check needs no further subprocess or network call.
pub fn check_outdated_packages_fast(packages: &mut Vec<Package>)
    ensures
        final(packages).deep_view().len() == old(packages).deep_view().len(),
        forall|k: int|
            0 <= k < old(packages).deep_view().len() ==> final(packages).deep_view()[k]
                == spec_checked(old(packages).deep_view()[k]),
        forall|k: int|
            0 <= k < final(packages).deep_view().len() ==> outdated_consistent(
                #[trigger] final(packages).deep_view()[k],
            ),
{
    let ghost orig: Seq<PackageV> = old(packages).deep_view();
    let n = packages.len();
    let mut checked: Vec<Package> = Vec::new();
    let mut i: usize = 0;
    while i < n
        invariant
            i <= n,
            n == packages@.len(),
            orig == packages.deep_view(),
            checked@.len() == i,
            forall|k: int| 0 <= k < i ==> checked.deep_view()[k] == spec_checked(orig[k]),
        decreases n - i,
    {
        proof {
            assert(packages@[i as int]@ == orig[i as int]);
        }
        let mut q = clone_package(&packages[i]);
        let flag: bool = match &q.latest_version {
            Some(latest) => !(*latest == q.installed_version),
            None => false,
        };
        q.is_outdated = flag;
        proof {
            assert(q@ == spec_checked(orig[i as int]));
        }
        let ghost qv: PackageV = q@;
        let ghost prior: Seq<PackageV> = checked.deep_view();
        checked.push(q);
        proof {
            assert(checked.deep_view() =~= prior.push(qv));
            assert forall|k: int| 0 <= k < i + 1 implies checked.deep_view()[k] == spec_checked(
                orig[k],
            ) by {
                if k < i {
                    assert(checked.deep_view()[k] == prior[k]);
                }
            }
        }
        i = i + 1;
    }
    *packages = checked;
    proof {
        assert(packages.deep_view().len() == orig.len());
    }
}

/// The (name, latest version) pairs an `npm outdated -g --json` document
/// reports: the object's entries whose value carries a "latest" string.
pub open spec fn spec_npm_outdated(j: JsonVal) -> Seq<(Seq<char>, Seq<char>)> {
    match j {
        JsonVal::Obj(fields) => spec_npm_outdated_fields(fields@),
        _ => Seq::empty(),
    }
}

/// The report's entries, in order.
pub open spec fn spec_npm_outdated_fields(fields: Seq<JsonField>) -> Seq<(Seq<char>, Seq<char>)>
    decreases fields.len(),
{
    if fields.len() == 0 {
        Seq::empty()
    } else {
        (match fields[0].value {
            JsonVal::Obj(info) => match spec_obj_get(info@, "latest"@) {
                Some(JsonVal::Str(l)) => seq![(fields[0].key@, l@)],
                _ => Seq::empty(),
            },
            _ => Seq::empty(),
        }) + spec_npm_outdated_fields(fields.skip(1))
    }
}

/// Extract the outdated report of `npm outdated -g --json`.
pub fn npm_outdated_of_json(j: &JsonVal) -> (r: Vec<(String, String)>)
    ensures
        r.deep_view() == spec_npm_outdated(*j),
{
    let mut r: Vec<(String, String)> = Vec::new();
    if let JsonVal::Obj(fields) = j {
        let n = fields.len();
        let mut i: usize = 0;
        proof {
            assert(fields@.skip(0) =~= fields@);
            assert(r.deep_view() + spec_npm_outdated_fields(fields@)
                =~= spec_npm_outdated_fields(fields@));
        }
        while i < n
            invariant
                i <= n,
                n == fields@.len(),
                spec_npm_outdated_fields(fields@) == r.deep_view() + spec_npm_outdated_fields(
                    fields@.skip(i as int),
                ),
            decreases n - i,
        {
            proof {
                assert(fields@.skip(i as int)[0] == fields@[i as int]);
                assert(fields@.skip(i as int).skip(1) =~= fields@.skip(i as int + 1));
            }
            let ghost prior: Seq<(Seq<char>, Seq<char>)> = r.deep_view();
            let ghost piece: Seq<(Seq<char>, Seq<char>)> = (match fields@[i as int].value {
                JsonVal::Obj(info) => match spec_obj_get(info@, "latest"@) {
                    Some(JsonVal::Str(l)) => seq![(fields@[i as int].key@, l@)],
                    _ => Seq::<(Seq<char>, Seq<char>)>::empty(),
                },
                _ => Seq::<(Seq<char>, Seq<char>)>::empty(),
            });
            match &fields[i].value {
                JsonVal::Obj(info) => {
                    match obj_get(info, "latest") {
                        Some(JsonVal::Str(l)) => {
                            r.push((fields[i].key.clone(), l.clone()));
                            proof {
                                assert(r.deep_view() =~= prior + piece);
                            }
                        },
                        _ => {
                            proof {
                                assert(r.deep_view() =~= prior + piece);
                            }
                        },
                    }
                },
                _ => {
                    proof {
                        assert(r.deep_view() =~= prior + piece);
                    }
                },
            }
            proof {
                assert(prior + (piece + spec_npm_outdated_fields(fields@.skip(i as int + 1)))
                    =~= (prior + piece) + spec_npm_outdated_fields(fields@.skip(i as int + 1)));
            }
            i = i + 1;
        }
        proof {
            assert(spec_npm_outdated_fields(fields@.skip(n as int)) =~= Seq::<
                (Seq<char>, Seq<char>),
            >::empty());
            assert(r.deep_view() + Seq::<(Seq<char>, Seq<char>)>::empty() =~= r.deep_view());
        }
        return r;
    }
    proof {
        assert(r.deep_view() =~= Seq::<(Seq<char>, Seq<char>)>::empty());
    }
    r
}

/// The (name, latest version) pairs a `pip3 list --outdated --format=json`
/// document reports: the array items carrying "name" and "latest_version"
/// strings.
pub open spec fn spec_pip_outdated(j: JsonVal) -> Seq<(Seq<char>, Seq<char>)> {
    match j {
        JsonVal::Arr(items) => spec_pip_outdated_items(items@),
        _ => Seq::empty(),
    }
}

/// The report's items, in order.
pub open spec fn spec_pip_outdated_items(items: Seq<JsonVal>) -> Seq<(Seq<char>, Seq<char>)>
    decreases items.len(),
{
    if items.len() == 0 {
        Seq::empty()
    } else {
        (match items[0] {
            JsonVal::Obj(f) => match (
                spec_obj_get(f@, "name"@),
                spec_obj_get(f@, "latest_version"@),
            ) {
                (Some(JsonVal::Str(nm)), Some(JsonVal::Str(l))) => seq![(nm@, l@)],
                _ => Seq::empty(),
            },
            _ => Seq::empty(),
        }) + spec_pip_outdated_items(items.skip(1))
    }
}

/// Extract the outdated report of `pip3 list --outdated --format=json`.
pub fn pip_outdated_of_json(j: &JsonVal) -> (r: Vec<(String, String)>)
    ensures
        r.deep_view() == spec_pip_outdated(*j),
{
    let mut r: Vec<(String, String)> = Vec::new();
    if let JsonVal::Arr(items) = j {
        let n = items.len();
        let mut i: usize = 0;
        proof {
            assert(items@.skip(0) =~= items@);
            assert(r.deep_view() + spec_pip_outdated_items(items@) =~= spec_pip_outdated_items(
                items@,
            ));
        }
        while i < n
            invariant
                i <= n,
                n == items@.len(),
                spec_pip_outdated_items(items@) == r.deep_view() + spec_pip_outdated_items(
                    items@.skip(i as int),
                ),
            decreases n - i,
        {
            proof {
                assert(items@.skip(i as int)[0] == items@[i as int]);
                assert(items@.skip(i as int).skip(1) =~= items@.skip(i as int + 1));
            }
            let ghost prior: Seq<(Seq<char>, Seq<char>)> = r.deep_view();
            let ghost piece: Seq<(Seq<char>, Seq<char>)> = (match items@[i as int] {
                JsonVal::Obj(f) => match (
                    spec_obj_get(f@, "name"@),
                    spec_obj_get(f@, "latest_version"@),
                ) {
                    (Some(JsonVal::Str(nm)), Some(JsonVal::Str(l))) => seq![(nm@, l@)],
                    _ => Seq::<(Seq<char>, Seq<char>)>::empty(),
                },
                _ => Seq::<(Seq<char>, Seq<char>)>::empty(),
            });
            match &items[i] {
                JsonVal::Obj(f) => {
                    match (obj_get(f, "name"), obj_get(f, "latest_version")) {
                        (Some(JsonVal::Str(nm)), Some(JsonVal::Str(l))) => {
                            r.push((nm.clone(), l.clone()));
                            proof {
                                assert(r.deep_view() =~= prior + piece);
                            }
                        },
                        _ => {
                            proof {
                                assert(r.deep_view() =~= prior + piece);
                            }
                        },
                    }
                },
                _ => {
                    proof {
                        assert(r.deep_view() =~= prior + piece);
                    }
                },
            }
            proof {
                assert(prior + (piece + spec_pip_outdated_items(items@.skip(i as int + 1)))
                    =~= (prior + piece) + spec_pip_outdated_items(items@.skip(i as int + 1)));
            }
            i = i + 1;
        }
        proof {
            assert(spec_pip_outdated_items(items@.skip(n as int)) =~= Seq::<
                (Seq<char>, Seq<char>),
            >::empty());
            assert(r.deep_view() + Seq::<(Seq<char>, Seq<char>)>::empty() =~= r.deep_view());
        }
        return r;
    }
    proof {
        assert(r.deep_view() =~= Seq::<(Seq<char>, Seq<char>)>::empty());
    }
    r
}

/// The latest version a report states for a name: its first matching pair.
pub open spec fn spec_latest_for(
    updates: Seq<(Seq<char>, Seq<char>)>,
    name: Seq<char>,
) -> Option<Seq<char>>
    decreases updates.len(),
{
    if updates.len() == 0 {
        None
    } else if updates[0].0 == name {
        Some(updates[0].1)
    } else {
        spec_latest_for(updates.skip(1), name)
    }
}

/// A package after an outdated report is folded in: where the report names
/// it, the latest version is recorded and the flag derived; elsewhere it is
/// untouched.
pub open spec fn spec_with_report(p: PackageV, updates: Seq<(Seq<char>, Seq<char>)>) -> PackageV {
    match spec_latest_for(updates, p.name) {
        Some(latest) => PackageV {
            latest_version: Some(latest),
            is_outdated: latest != p.installed_version,
            ..p
        },
        None => p,
    }
}

/// Look a package's name up in a report.
fn latest_for(updates: &Vec<(String, String)>, name: &str) -> (r: Option<String>)
    ensures
        match r {
            Some(l) => spec_latest_for(updates.deep_view(), name@) == Some(l@),
            None => spec_latest_for(updates.deep_view(), name@) is None,
        },
{
    let n = updates.len();
    let mut i: usize = 0;
    let ghost uv: Seq<(Seq<char>, Seq<char>)> = updates.deep_view();
    proof {
        assert(uv.skip(0) =~= uv);
    }
    while i < n
        invariant
            i <= n,
            n == updates@.len(),
            uv == updates.deep_view(),
            spec_latest_for(uv, name@) == spec_latest_for(uv.skip(i as int), name@),
        decreases n - i,
    {
        proof {
            assert(uv.skip(i as int)[0] == uv[i as int]);
            assert(uv.skip(i as int).skip(1) =~= uv.skip(i as int + 1));
        }
        if crate::strutil::str_eq(updates[i].0.as_str(), name) {
            return Some(updates[i].1.clone());
        }
        i = i + 1;
    }
    None
}

/// Fold a manager's outdated report into its packages: each reported
/// package gets the reported latest version and a flag derived under the
/// policy; the others are untouched.
pub fn apply_outdated_report(packages: &mut Vec<Package>, updates: &Vec<(String, String)>)
    ensures
        final(packages).deep_view().len() == old(packages).deep_view().len(),
        forall|k: int|
            0 <= k < old(packages).deep_view().len() ==> final(packages).deep_view()[k]
                == spec_with_report(old(packages).deep_view()[k], updates.deep_view()),
{
    let ghost orig: Seq<PackageV> = old(packages).deep_view();
    let ghost uv: Seq<(Seq<char>, Seq<char>)> = updates.deep_view();
    let n = packages.len();
    let mut updated: Vec<Package> = Vec::new();
    let mut i: usize = 0;
    while i < n
        invariant
            i <= n,
            n == packages@.len(),
            orig == packages.deep_view(),
            uv == updates.deep_view(),
            updated@.len() == i,
            forall|k: int| 0 <= k < i ==> updated.deep_view()[k] == spec_with_report(
                orig[k],
                uv,
            ),
        decreases n - i,
    {
        proof {
            assert(packages@[i as int]@ == orig[i as int]);
        }
        let q = clone_package(&packages[i]);
        let ghost prior: Seq<PackageV> = updated.deep_view();
        let ghost goal: PackageV = spec_with_report(orig[i as int], uv);
        match latest_for(updates, q.name.as_str()) {
            Some(latest) => {
                let q2 = q.with_latest_version(latest);
                proof {
                    assert(q2@ == goal);
                }
                let ghost qv: PackageV = q2@;
                updated.push(q2);
                proof {
                    assert(updated.deep_view() =~= prior.push(qv));
                }
            },
            None => {
                proof {
                    assert(q@ == goal);
                }
                let ghost qv: PackageV = q@;
                updated.push(q);
                proof {
                    assert(updated.deep_view() =~= prior.push(qv));
                }
            },
        }
        proof {
            assert forall|k: int| 0 <= k < i + 1 implies updated.deep_view()[k]
                == spec_with_report(orig[k], uv) by {
                if k < i {
                    assert(updated.deep_view()[k] == prior[k]);
                }
            }
        }
        i = i + 1;
    }
    *packages = updated;
}


/// Folding a report in keeps the version-policy invariant: a reported
/// package gets a freshly derived flag, and an unreported one is
/// untouched.
pub proof fn lemma_report_keeps_invariant(p: PackageV, updates: Seq<(Seq<char>, Seq<char>)>)
    ensures
        outdated_consistent(p) ==> outdated_consistent(spec_with_report(p, updates)),
{
}

} // verus!
