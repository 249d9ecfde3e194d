//! Parsers for the managers' installed-package listings.
//!
//! Homebrew and Cargo report plain text, one package per line; npm and pip
//! report JSON documents (see `jsonmodel` for how those are parsed).  A
//! malformed line degrades to a minimal record or is skipped, never fatal.

use vstd::prelude::*;

use crate::jsonmodel::{obj_get, spec_obj_get, JsonField, JsonVal};
use crate::models::{spec_fresh_package, Package, PackageManager, PackageV};
use crate::strutil::{spec_split, spec_tokens, split_char, split_tokens};

verus! {

/// The package one `brew list --versions` line describes: "name version"
/// lines give both, a bare name degrades to the version marker "unknown",
/// and a blank line gives nothing.
pub open spec fn spec_brew_line_package(line: Seq<char>) -> Option<PackageV> {
    let toks = spec_tokens(line);
    if toks.len() >= 2 {
        Some(spec_fresh_package(toks[0], PackageManager::Homebrew, toks[1]))
    } else if toks.len() == 1 {
        Some(spec_fresh_package(toks[0], PackageManager::Homebrew, "unknown"@))
    } else {
        None
    }
}

/// The packages a sequence of `brew list --versions` lines describes.
pub open spec fn spec_brew_list_packages(lines: Seq<Seq<char>>) -> Seq<PackageV>
    decreases lines.len(),
{
    if lines.len() == 0 {
        Seq::empty()
    } else {
        (match spec_brew_line_package(lines[0]) {
            Some(p) => seq![p],
            None => Seq::empty(),
        }) + spec_brew_list_packages(lines.skip(1))
    }
}

/// Parse the output of `brew list --versions` into fresh package records.
pub fn parse_brew_list_versions(s: &str) -> (r: Vec<Package>)
    ensures
        r.deep_view() == spec_brew_list_packages(spec_split(s@, '\n')),
{
    let lines = split_char(s, '\n');
    let n = lines.len();
    let mut r: Vec<Package> = Vec::new();
    let mut i: usize = 0;
    let ghost lv: Seq<Seq<char>> = lines.deep_view();
    proof {
        assert(lv.skip(0) =~= lv);
        assert(r.deep_view() + spec_brew_list_packages(lv) =~= spec_brew_list_packages(lv));
    }
    while i < n
        invariant
            i <= n,
            n == lines@.len(),
            lv == lines.deep_view(),
            spec_brew_list_packages(lv) == r.deep_view() + spec_brew_list_packages(
                lv.skip(i as int),
            ),
        decreases n - i,
    {
        proof {
            assert(lv.skip(i as int)[0] == lv[i as int]);
            assert(lv.skip(i as int).skip(1) =~= lv.skip(i as int + 1));
            assert(lines@[i as int]@ == lv[i as int]);
        }
        let toks = split_tokens(lines[i].as_str());
        let ghost prior: Seq<PackageV> = r.deep_view();
        let ghost piece: Seq<PackageV> = (match spec_brew_line_package(lv[i as int]) {
            Some(p) => seq![p],
            None => Seq::<PackageV>::empty(),
        });
        proof {
            assert(toks@.len() == toks.deep_view().len());
        }
        if toks.len() >= 2 {
            proof {
                assert(toks@[0]@ == toks.deep_view()[0]);
                assert(toks@[1]@ == toks.deep_view()[1]);
            }
            let p = Package::new(
                toks[0].clone(),
                PackageManager::Homebrew,
                toks[1].clone(),
            );
            r.push(p);
            proof {
                assert(r.deep_view() =~= prior + piece);
            }
        } else if toks.len() == 1 {
            proof {
                assert(toks@[0]@ == toks.deep_view()[0]);
            }
            let p = Package::new(
                toks[0].clone(),
                PackageManager::Homebrew,
                String::from_str("unknown"),
            );
            r.push(p);
            proof {
                assert(r.deep_view() =~= prior + piece);
            }
        } else {
            proof {
                assert(r.deep_view() =~= prior + piece);
            }
        }
        proof {
            assert(prior + (piece + spec_brew_list_packages(lv.skip(i as int + 1))) =~= (prior
                + piece) + spec_brew_list_packages(lv.skip(i as int + 1)));
        }
        i = i + 1;
    }
    proof {
        assert(spec_brew_list_packages(lv.skip(n as int)) =~= Seq::<PackageV>::empty());
        assert(r.deep_view() + Seq::<PackageV>::empty() =~= r.deep_view());
    }
    r
}

/// `s` with every leading `c` removed.
pub open spec fn spec_strip_leading(s: Seq<char>, c: char) -> Seq<char>
    decreases s.len(),
{
    if s.len() == 0 {
        s
    } else if s[0] == c {
        spec_strip_leading(s.skip(1), c)
    } else {
        s
    }
}

/// A run of `c` ends where the first other character stands.
proof fn lemma_strip_leading_at(s: Seq<char>, c: char, a: int)
    requires
        0 <= a <= s.len(),
        forall|k: int| 0 <= k < a ==> s[k] == c,
        a < s.len() ==> s[a] != c,
    ensures
        spec_strip_leading(s, c) == s.subrange(a, s.len() as int),
    decreases s.len(),
{
    if s.len() == 0 {
        assert(s.subrange(0, 0) =~= s);
    } else if s[0] == c {
        assert(a > 0);
        assert forall|k: int| 0 <= k < a - 1 implies s.skip(1)[k] == c by {
            assert(s.skip(1)[k] == s[k + 1]);
        }
        if a - 1 < s.skip(1).len() {
            assert(s.skip(1)[a - 1] == s[a]);
        }
        lemma_strip_leading_at(s.skip(1), c, a - 1);
        assert(s.skip(1).subrange(a - 1, s.skip(1).len() as int) =~= s.subrange(
            a,
            s.len() as int,
        ));
    } else {
        assert(a == 0);
        assert(s.subrange(0, s.len() as int) =~= s);
    }
}

/// Remove every leading `c` from a string.
pub fn strip_leading_chars(s: &str, c: char) -> (r: String)
    ensures
        r@ == spec_strip_leading(s@, c),
{
    let n = s.unicode_len();
    let mut a: usize = 0;
    while a < n
        invariant
            a <= n,
            n == s@.len(),
            forall|k: int| 0 <= k < a ==> s@[k] == c,
        ensures
            a <= n,
            forall|k: int| 0 <= k < a ==> s@[k] == c,
            a < n ==> s@[a as int] != c,
        decreases n - a,
    {
        if s.get_char(a) != c {
            break;
        }
        a = a + 1;
    }
    proof {
        lemma_strip_leading_at(s@, c, a as int);
    }
    s.substring_char(a, n).to_owned()
}

/// The package one `cargo install --list` line describes: only lines of the
/// shape "name vX.Y.Z:" (ending in a colon, with at least two tokens)
/// describe one, with leading `v` markers stripped from the version.
pub open spec fn spec_cargo_line_package(line: Seq<char>) -> Option<PackageV> {
    if line.len() > 0 && line[line.len() - 1] == ':' {
        let toks = spec_tokens(line.subrange(0, line.len() - 1));
        if toks.len() >= 2 {
            Some(
                spec_fresh_package(
                    toks[0],
                    PackageManager::Cargo,
                    spec_strip_leading(toks[1], 'v'),
                ),
            )
        } else {
            None
        }
    } else {
        None
    }
}

/// The packages a sequence of `cargo install --list` lines describes.
pub open spec fn spec_cargo_list_packages(lines: Seq<Seq<char>>) -> Seq<PackageV>
    decreases lines.len(),
{
    if lines.len() == 0 {
        Seq::empty()
    } else {
        (match spec_cargo_line_package(lines[0]) {
            Some(p) => seq![p],
            None => Seq::empty(),
        }) + spec_cargo_list_packages(lines.skip(1))
    }
}

/// Parse the output of `cargo install --list` into fresh package records.
pub fn parse_cargo_install_list(s: &str) -> (r: Vec<Package>)
    ensures
        r.deep_view() == spec_cargo_list_packages(spec_split(s@, '\n')),
{
    let lines = split_char(s, '\n');
    let n = lines.len();
    let mut r: Vec<Package> = Vec::new();
    let mut i: usize = 0;
    let ghost lv: Seq<Seq<char>> = lines.deep_view();
    proof {
        assert(lv.skip(0) =~= lv);
        assert(r.deep_view() + spec_cargo_list_packages(lv) =~= spec_cargo_list_packages(lv));
    }
    while i < n
        invariant
            i <= n,
            n == lines@.len(),
            lv == lines.deep_view(),
            spec_cargo_list_packages(lv) == r.deep_view() + spec_cargo_list_packages(
                lv.skip(i as int),
            ),
        decreases n - i,
    {
        proof {
            assert(lv.skip(i as int)[0] == lv[i as int]);
            assert(lv.skip(i as int).skip(1) =~= lv.skip(i as int + 1));
            assert(lines@[i as int]@ == lv[i as int]);
        }
        let ghost prior: Seq<PackageV> = r.deep_view();
        let ghost piece: Seq<PackageV> = (match spec_cargo_line_package(lv[i as int]) {
            Some(p) => seq![p],
            None => Seq::<PackageV>::empty(),
        });
        match crate::strutil::strip_suffix_char(lines[i].as_str(), ':') {
            Some(stripped) => {
                let toks = split_tokens(stripped.as_str());
                proof {
                    assert(toks@.len() == toks.deep_view().len());
                }
                if toks.len() >= 2 {
                    proof {
                        assert(toks@[0]@ == toks.deep_view()[0]);
                        assert(toks@[1]@ == toks.deep_view()[1]);
                    }
                    let version = strip_leading_chars(toks[1].as_str(), 'v');
                    let p = Package::new(toks[0].clone(), PackageManager::Cargo, version);
                    r.push(p);
                    proof {
                        assert(r.deep_view() =~= prior + piece);
                    }
                } else {
                    proof {
                        assert(r.deep_view() =~= prior + piece);
                    }
                }
            },
            None => {
                proof {
                    assert(r.deep_view() =~= prior + piece);
                }
            },
        }
        proof {
            assert(prior + (piece + spec_cargo_list_packages(lv.skip(i as int + 1))) =~= (prior
                + piece) + spec_cargo_list_packages(lv.skip(i as int + 1)));
        }
        i = i + 1;
    }
    proof {
        assert(spec_cargo_list_packages(lv.skip(n as int)) =~= Seq::<PackageV>::empty());
        assert(r.deep_view() + Seq::<PackageV>::empty() =~= r.deep_view());
    }
    r
}


/// The packages a `npm list -g --json` document describes: the entries of
/// its "dependencies" object that carry a "version" string.
pub open spec fn spec_npm_packages(j: JsonVal) -> Seq<PackageV> {
    match j {
        JsonVal::Obj(fields) => match spec_obj_get(fields@, "dependencies"@) {
            Some(JsonVal::Obj(deps)) => spec_npm_dep_packages(deps@),
            _ => Seq::empty(),
        },
        _ => Seq::empty(),
    }
}

/// The packages among a "dependencies" object's entries.
pub open spec fn spec_npm_dep_packages(deps: Seq<JsonField>) -> Seq<PackageV>
    decreases deps.len(),
{
    if deps.len() == 0 {
        Seq::empty()
    } else {
        (match deps[0].value {
            JsonVal::Obj(info) => match spec_obj_get(info@, "version"@) {
                Some(JsonVal::Str(v)) => seq![
                    spec_fresh_package(deps[0].key@, PackageManager::Npm, v@),
                ],
                _ => Seq::empty(),
            },
            _ => Seq::empty(),
        }) + spec_npm_dep_packages(deps.skip(1))
    }
}

/// Extract the globally installed npm packages from the parsed output of
/// `npm list -g --depth=0 --json`.
pub fn npm_packages_of_json(j: &JsonVal) -> (r: Vec<Package>)
    ensures
        r.deep_view() == spec_npm_packages(*j),
{
    let mut r: Vec<Package> = Vec::new();
    if let JsonVal::Obj(fields) = j {
        if let Some(JsonVal::Obj(deps)) = obj_get(fields, "dependencies") {
            let n = deps.len();
            let mut i: usize = 0;
            proof {
                assert(deps@.skip(0) =~= deps@);
                assert(r.deep_view() + spec_npm_dep_packages(deps@) =~= spec_npm_dep_packages(
                    deps@,
                ));
            }
            while i < n
                invariant
                    i <= n,
                    n == deps@.len(),
                    spec_npm_dep_packages(deps@) == r.deep_view() + spec_npm_dep_packages(
                        deps@.skip(i as int),
                    ),
                decreases n - i,
            {
                proof {
                    assert(deps@.skip(i as int)[0] == deps@[i as int]);
                    assert(deps@.skip(i as int).skip(1) =~= deps@.skip(i as int + 1));
                }
                let ghost prior: Seq<PackageV> = r.deep_view();
                let ghost piece: Seq<PackageV> = (match deps@[i as int].value {
                    JsonVal::Obj(info) => match spec_obj_get(info@, "version"@) {
                        Some(JsonVal::Str(v)) => seq![
                            spec_fresh_package(deps@[i as int].key@, PackageManager::Npm, v@),
                        ],
                        _ => Seq::<PackageV>::empty(),
                    },
                    _ => Seq::<PackageV>::empty(),
                });
                match &deps[i].value {
                    JsonVal::Obj(info) => {
                        match obj_get(info, "version") {
                            Some(JsonVal::Str(v)) => {
                                let p = Package::new(
                                    deps[i].key.clone(),
                                    PackageManager::Npm,
                                    v.clone(),
                                );
                                r.push(p);
                                proof {
                                    assert(r.deep_view() =~= prior + piece);
                                }
                            },
                            _ => {
                                proof {
                                    assert(r.deep_view() =~= prior + piece);
                                }
                            },
                        }
                    },
                    _ => {
                        proof {
                            assert(r.deep_view() =~= prior + piece);
                        }
                    },
                }
                proof {
                    assert(prior + (piece + spec_npm_dep_packages(deps@.skip(i as int + 1)))
                        =~= (prior + piece) + spec_npm_dep_packages(deps@.skip(i as int + 1)));
                }
                i = i + 1;
            }
            proof {
                assert(spec_npm_dep_packages(deps@.skip(n as int)) =~= Seq::<
                    PackageV,
                >::empty());
                assert(r.deep_view() + Seq::<PackageV>::empty() =~= r.deep_view());
            }
            return r;
        }
        proof {
            assert(r.deep_view() =~= Seq::<PackageV>::empty());
        }
        return r;
    }
    proof {
        assert(r.deep_view() =~= Seq::<PackageV>::empty());
    }
    r
}

/// The packages a `pip3 list --format=json` document describes: the array
/// items that carry "name" and "version" strings.
pub open spec fn spec_pip_packages(j: JsonVal) -> Seq<PackageV> {
    match j {
        JsonVal::Arr(items) => spec_pip_item_packages(items@),
        _ => Seq::empty(),
    }
}

/// The packages among a pip listing's array items.
pub open spec fn spec_pip_item_packages(items: Seq<JsonVal>) -> Seq<PackageV>
    decreases items.len(),
{
    if items.len() == 0 {
        Seq::empty()
    } else {
        (match items[0] {
            JsonVal::Obj(f) => match (spec_obj_get(f@, "name"@), spec_obj_get(f@, "version"@)) {
                (Some(JsonVal::Str(nm)), Some(JsonVal::Str(v))) => seq![
                    spec_fresh_package(nm@, PackageManager::Pip, v@),
                ],
                _ => Seq::empty(),
            },
            _ => Seq::empty(),
        }) + spec_pip_item_packages(items.skip(1))
    }
}

/// Extract the installed pip packages from the parsed output of
/// `pip3 list --format=json`.
pub fn pip_packages_of_json(j: &JsonVal) -> (r: Vec<Package>)
    ensures
        r.deep_view() == spec_pip_packages(*j),
{
    let mut r: Vec<Package> = Vec::new();
    if let JsonVal::Arr(items) = j {
        let n = items.len();
        let mut i: usize = 0;
        proof {
            assert(items@.skip(0) =~= items@);
            assert(r.deep_view() + spec_pip_item_packages(items@) =~= spec_pip_item_packages(
                items@,
            ));
        }
        while i < n
            invariant
                i <= n,
                n == items@.len(),
                spec_pip_item_packages(items@) == r.deep_view() + spec_pip_item_packages(
                    items@.skip(i as int),
                ),
            decreases n - i,
        {
            proof {
                assert(items@.skip(i as int)[0] == items@[i as int]);
                assert(items@.skip(i as int).skip(1) =~= items@.skip(i as int + 1));
            }
            let ghost prior: Seq<PackageV> = r.deep_view();
            let ghost piece: Seq<PackageV> = (match items@[i as int] {
                JsonVal::Obj(f) => match (
                    spec_obj_get(f@, "name"@),
                    spec_obj_get(f@, "version"@),
                ) {
                    (Some(JsonVal::Str(nm)), Some(JsonVal::Str(v))) => seq![
                        spec_fresh_package(nm@, PackageManager::Pip, v@),
                    ],
                    _ => Seq::<PackageV>::empty(),
                },
                _ => Seq::<PackageV>::empty(),
            });
            match &items[i] {
                JsonVal::Obj(f) => {
                    match (obj_get(f, "name"), obj_get(f, "version")) {
                        (Some(JsonVal::Str(nm)), Some(JsonVal::Str(v))) => {
                            let p = Package::new(nm.clone(), PackageManager::Pip, v.clone());
                            r.push(p);
                            proof {
                                assert(r.deep_view() =~= prior + piece);
                            }
                        },
                        _ => {
                            proof {
                                assert(r.deep_view() =~= prior + piece);
                            }
                        },
                    }
                },
                _ => {
                    proof {
                        assert(r.deep_view() =~= prior + piece);
                    }
                },
            }
            proof {
                assert(prior + (piece + spec_pip_item_packages(items@.skip(i as int + 1))) =~= (
                prior + piece) + spec_pip_item_packages(items@.skip(i as int + 1)));
            }
            i = i + 1;
        }
        proof {
            assert(spec_pip_item_packages(items@.skip(n as int)) =~= Seq::<PackageV>::empty());
            assert(r.deep_view() + Seq::<PackageV>::empty() =~= r.deep_view());
        }
        return r;
    }
    proof {
        assert(r.deep_view() =~= Seq::<PackageV>::empty());
    }
    r
}

/// One formula of the Homebrew remote catalog: its name, what it does, and
/// its current stable version.
#[derive(Debug, Clone)]
pub struct BrewFormula {
    pub name: String,
    pub desc: Option<String>,
    pub stable_version: Option<String>,
}

/// The mathematical value of a `BrewFormula`.
pub ghost struct BrewFormulaV {
    pub name: Seq<char>,
    pub desc: Option<Seq<char>>,
    pub stable_version: Option<Seq<char>>,
}

impl View for BrewFormula {
    type V = BrewFormulaV;

    open spec fn view(&self) -> BrewFormulaV {
        BrewFormulaV {
            name: self.name@,
            desc: self.desc.deep_view(),
            stable_version: self.stable_version.deep_view(),
        }
    }
}

impl DeepView for BrewFormula {
    type V = BrewFormulaV;

    open spec fn deep_view(&self) -> BrewFormulaV {
        self.view()
    }
}

/// The formula one catalog array item describes, if it carries a "name"
/// string; "desc" and "versions"."stable" are taken where present.
pub open spec fn spec_formula_of_json(j: JsonVal) -> Option<BrewFormulaV> {
    match j {
        JsonVal::Obj(f) => match spec_obj_get(f@, "name"@) {
            Some(JsonVal::Str(nm)) => Some(
                BrewFormulaV {
                    name: nm@,
                    desc: match spec_obj_get(f@, "desc"@) {
                        Some(JsonVal::Str(d)) => Some(d@),
                        _ => None,
                    },
                    stable_version: match spec_obj_get(f@, "versions"@) {
                        Some(JsonVal::Obj(vf)) => match spec_obj_get(vf@, "stable"@) {
                            Some(JsonVal::Str(sv)) => Some(sv@),
                            _ => None,
                        },
                        _ => None,
                    },
                },
            ),
            _ => None,
        },
        _ => None,
    }
}

/// The formulas a whole catalog document describes.
pub open spec fn spec_formulas_of_json(j: JsonVal) -> Seq<BrewFormulaV> {
    match j {
        JsonVal::Arr(items) => spec_formulas_of_items(items@),
        _ => Seq::empty(),
    }
}

/// The formulas among the catalog's array items.
pub open spec fn spec_formulas_of_items(items: Seq<JsonVal>) -> Seq<BrewFormulaV>
    decreases items.len(),
{
    if items.len() == 0 {
        Seq::empty()
    } else {
        (match spec_formula_of_json(items[0]) {
            Some(f) => seq![f],
            None => Seq::empty(),
        }) + spec_formulas_of_items(items.skip(1))
    }
}

/// Read one formula out of a catalog array item.
pub fn formula_of_json(j: &JsonVal) -> (r: Option<BrewFormula>)
    ensures
        match r {
            Some(f) => spec_formula_of_json(*j) == Some(f@),
            None => spec_formula_of_json(*j) is None,
        },
{
    if let JsonVal::Obj(f) = j {
        if let Some(JsonVal::Str(nm)) = obj_get(f, "name") {
            let desc: Option<String> = match obj_get(f, "desc") {
                Some(JsonVal::Str(d)) => Some(d.clone()),
                _ => None,
            };
            let stable_version: Option<String> = match obj_get(f, "versions") {
                Some(JsonVal::Obj(vf)) => match obj_get(vf, "stable") {
                    Some(JsonVal::Str(sv)) => Some(sv.clone()),
                    _ => None,
                },
                _ => None,
            };
            return Some(BrewFormula { name: nm.clone(), desc, stable_version });
        }
        return None;
    }
    None
}

/// Read the whole remote catalog: one formula per well-shaped array item.
pub fn formulas_of_json(j: &JsonVal) -> (r: Vec<BrewFormula>)
    ensures
        r.deep_view() == spec_formulas_of_json(*j),
{
    let mut r: Vec<BrewFormula> = Vec::new();
    if let JsonVal::Arr(items) = j {
        let n = items.len();
        let mut i: usize = 0;
        proof {
            assert(items@.skip(0) =~= items@);
            assert(r.deep_view() + spec_formulas_of_items(items@) =~= spec_formulas_of_items(
                items@,
            ));
        }
        while i < n
            invariant
                i <= n,
                n == items@.len(),
                spec_formulas_of_items(items@) == r.deep_view() + spec_formulas_of_items(
                    items@.skip(i as int),
                ),
            decreases n - i,
        {
            proof {
                assert(items@.skip(i as int)[0] == items@[i as int]);
                assert(items@.skip(i as int).skip(1) =~= items@.skip(i as int + 1));
            }
            let ghost prior: Seq<BrewFormulaV> = r.deep_view();
            let ghost piece: Seq<BrewFormulaV> = (match spec_formula_of_json(
                items@[i as int],
            ) {
                Some(f) => seq![f],
                None => Seq::<BrewFormulaV>::empty(),
            });
            match formula_of_json(&items[i]) {
                Some(f) => {
                    r.push(f);
                    proof {
                        assert(r.deep_view() =~= prior + piece);
                    }
                },
                None => {
                    proof {
                        assert(r.deep_view() =~= prior + piece);
                    }
                },
            }
            proof {
                assert(prior + (piece + spec_formulas_of_items(items@.skip(i as int + 1))) =~= (
                prior + piece) + spec_formulas_of_items(items@.skip(i as int + 1)));
            }
            i = i + 1;
        }
        proof {
            assert(spec_formulas_of_items(items@.skip(n as int)) =~= Seq::<
                BrewFormulaV,
            >::empty());
            assert(r.deep_view() + Seq::<BrewFormulaV>::empty() =~= r.deep_view());
        }
        return r;
    }
    proof {
        assert(r.deep_view() =~= Seq::<BrewFormulaV>::empty());
    }
    r
}

/// The installed version under a name: the first listed package with that
/// name, if any.
pub open spec fn spec_installed_version(inst: Seq<PackageV>, name: Seq<char>) -> Option<
    Seq<char>,
>
    decreases inst.len(),
{
    if inst.len() == 0 {
        None
    } else if inst[0].name == name {
        Some(inst[0].installed_version)
    } else {
        spec_installed_version(inst.skip(1), name)
    }
}

/// Look a name up among the locally installed packages.
pub fn installed_version_of(installed: &Vec<Package>, name: &str) -> (r: Option<String>)
    ensures
        match r {
            Some(v) => spec_installed_version(installed.deep_view(), name@) == Some(v@),
            None => spec_installed_version(installed.deep_view(), name@) is None,
        },
{
    let n = installed.len();
    let mut i: usize = 0;
    let ghost iv: Seq<PackageV> = installed.deep_view();
    proof {
        assert(iv.skip(0) =~= iv);
    }
    while i < n
        invariant
            i <= n,
            n == installed@.len(),
            iv == installed.deep_view(),
            spec_installed_version(iv, name@) == spec_installed_version(
                iv.skip(i as int),
                name@,
            ),
        decreases n - i,
    {
        proof {
            assert(iv.skip(i as int)[0] == iv[i as int]);
            assert(iv.skip(i as int).skip(1) =~= iv.skip(i as int + 1));
        }
        if crate::strutil::str_eq(installed[i].name.as_str(), name) {
            return Some(installed[i].installed_version.clone());
        }
        i = i + 1;
    }
    None
}

/// The inventory the catalog and the local listing together describe: one
/// record per catalog formula that is installed locally, carrying the local
/// version, the catalog's stable version and description, and the outdated
/// flag still unset (the outdated check is its own phase).
pub open spec fn spec_merge_catalog(
    formulas: Seq<BrewFormulaV>,
    inst: Seq<PackageV>,
) -> Seq<PackageV>
    decreases formulas.len(),
{
    if formulas.len() == 0 {
        Seq::empty()
    } else {
        (match spec_installed_version(inst, formulas[0].name) {
            Some(ver) => seq![
                PackageV {
                    name: formulas[0].name,
                    manager: PackageManager::Homebrew,
                    installed_version: ver,
                    latest_version: formulas[0].stable_version,
                    is_outdated: false,
                    size: None,
                    description: formulas[0].desc,
                    used_in: Seq::empty(),
                },
            ],
            None => Seq::empty(),
        }) + spec_merge_catalog(formulas.skip(1), inst)
    }
}

/// Cross-reference the remote catalog against the local listing: one bulk
/// fetch serves every installed package, instead of one info call each.
pub fn merge_catalog_installed(formulas: &Vec<BrewFormula>, installed: &Vec<Package>) -> (r: Vec<
    Package,
>)
    ensures
        r.deep_view() == spec_merge_catalog(formulas.deep_view(), installed.deep_view()),
{
    let n = formulas.len();
    let mut r: Vec<Package> = Vec::new();
    let mut i: usize = 0;
    let ghost fv: Seq<BrewFormulaV> = formulas.deep_view();
    let ghost iv: Seq<PackageV> = installed.deep_view();
    proof {
        assert(fv.skip(0) =~= fv);
        assert(r.deep_view() + spec_merge_catalog(fv, iv) =~= spec_merge_catalog(fv, iv));
    }
    while i < n
        invariant
            i <= n,
            n == formulas@.len(),
            fv == formulas.deep_view(),
            iv == installed.deep_view(),
            spec_merge_catalog(fv, iv) == r.deep_view() + spec_merge_catalog(
                fv.skip(i as int),
                iv,
            ),
        decreases n - i,
    {
        proof {
            assert(fv.skip(i as int)[0] == fv[i as int]);
            assert(fv.skip(i as int).skip(1) =~= fv.skip(i as int + 1));
        }
        let ghost prior: Seq<PackageV> = r.deep_view();
        let ghost piece: Seq<PackageV> = (match spec_installed_version(iv, fv[i as int].name) {
            Some(ver) => seq![
                PackageV {
                    name: fv[i as int].name,
                    manager: PackageManager::Homebrew,
                    installed_version: ver,
                    latest_version: fv[i as int].stable_version,
                    is_outdated: false,
                    size: None,
                    description: fv[i as int].desc,
                    used_in: Seq::empty(),
                },
            ],
            None => Seq::<PackageV>::empty(),
        });
        match installed_version_of(installed, formulas[i].name.as_str()) {
            Some(ver) => {
                let p = Package {
                    name: formulas[i].name.clone(),
                    manager: PackageManager::Homebrew,
                    installed_version: ver,
                    latest_version: crate::models::clone_opt_string(
                        &formulas[i].stable_version,
                    ),
                    is_outdated: false,
                    size: None,
                    description: crate::models::clone_opt_string(&formulas[i].desc),
                    used_in: Vec::new(),
                };
                proof {
                    assert(p@.used_in =~= Seq::<Seq<char>>::empty());
                }
                r.push(p);
                proof {
                    assert(r.deep_view() =~= prior + piece);
                }
            },
            None => {
                proof {
                    assert(r.deep_view() =~= prior + piece);
                }
            },
        }
        proof {
            assert(prior + (piece + spec_merge_catalog(fv.skip(i as int + 1), iv)) =~= (prior
                + piece) + spec_merge_catalog(fv.skip(i as int + 1), iv));
        }
        i = i + 1;
    }
    proof {
        assert(spec_merge_catalog(fv.skip(n as int), iv) =~= Seq::<PackageV>::empty());
        assert(r.deep_view() + Seq::<PackageV>::empty() =~= r.deep_view());
    }
    r
}



/// Cargo's outdated check is not supported: checking installed binaries
/// against the registry would need a separate tool, so the packages are
/// left exactly as listed.
pub fn check_outdated_cargo(packages: &mut Vec<Package>)
    ensures
        *final(packages) == *old(packages),
{
}

} // verus!
