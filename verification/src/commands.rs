//! The per-manager command registry: which subcommand each package manager
//! uses for listing, outdated checks, enrichment and mutations, and the
//! timeout each is allowed.
//!
//! Listing and outdated timeouts are seconds to tens of seconds; installs
//! and updates are given minutes, reflecting possible compilation;
//! uninstalls stay under two minutes.  A manager without an entry does not
//! support that operation here.

use vstd::prelude::*;

use crate::executor::CommandSpec;
use crate::models::PackageManager;

verus! {

/// A command stated mathematically: program, arguments, timeout in
/// milliseconds.
pub type SpecCommand = (Seq<char>, Seq<Seq<char>>, u64);

/// The listing command of each supported manager.
pub open spec fn spec_list_command(m: PackageManager) -> Option<SpecCommand> {
    match m {
        PackageManager::Homebrew => Some(("brew"@, seq!["list"@, "--versions"@], 15000u64)),
        PackageManager::Npm => Some(
            ("npm"@, seq!["list"@, "-g"@, "--depth=0"@, "--json"@], 30000u64),
        ),
        PackageManager::Cargo => Some(("cargo"@, seq!["install"@, "--list"@], 30000u64)),
        PackageManager::Pip => Some(("pip3"@, seq!["list"@, "--format=json"@], 30000u64)),
        _ => None,
    }
}

/// The outdated-check command of each manager that has one.  Cargo has
/// none: its outdated check is not supported here.
pub open spec fn spec_outdated_command(m: PackageManager) -> Option<SpecCommand> {
    match m {
        PackageManager::Homebrew => Some(("brew"@, seq!["outdated"@, "--json=v2"@], 10000u64)),
        PackageManager::Npm => Some(("npm"@, seq!["outdated"@, "-g"@, "--json"@], 30000u64)),
        PackageManager::Pip => Some(
            ("pip3"@, seq!["list"@, "--outdated"@, "--format=json"@], 60000u64),
        ),
        _ => None,
    }
}

/// The per-package description command of each manager that has one.
/// Cargo descriptions come from the remote catalog instead.
pub open spec fn spec_description_command(m: PackageManager, name: Seq<char>) -> Option<
    SpecCommand,
> {
    match m {
        PackageManager::Homebrew => Some(("brew"@, seq!["info"@, "--json=v2"@, name], 10000u64)),
        PackageManager::Npm => Some(("npm"@, seq!["view"@, name, "description"@], 5000u64)),
        PackageManager::Pip => Some(("pip3"@, seq!["show"@, name], 5000u64)),
        _ => None,
    }
}

/// The single-package update command of each supported manager.
pub open spec fn spec_update_command(m: PackageManager, name: Seq<char>) -> Option<SpecCommand> {
    match m {
        PackageManager::Homebrew => Some(("brew"@, seq!["upgrade"@, name], 300000u64)),
        PackageManager::Npm => Some(("npm"@, seq!["update"@, "-g"@, name], 300000u64)),
        PackageManager::Cargo => Some(
            ("cargo"@, seq!["install"@, name, "--force"@], 600000u64),
        ),
        PackageManager::Pip => Some(
            ("pip3"@, seq!["install"@, "--upgrade"@, name], 300000u64),
        ),
        _ => None,
    }
}

/// The install command of each supported manager.
pub open spec fn spec_install_command(m: PackageManager, name: Seq<char>) -> Option<SpecCommand> {
    match m {
        PackageManager::Homebrew => Some(("brew"@, seq!["install"@, name], 300000u64)),
        PackageManager::Npm => Some(("npm"@, seq!["install"@, "-g"@, name], 300000u64)),
        PackageManager::Cargo => Some(("cargo"@, seq!["install"@, name], 600000u64)),
        PackageManager::Pip => Some(("pip3"@, seq!["install"@, name], 300000u64)),
        _ => None,
    }
}

/// The uninstall command of each supported manager.
pub open spec fn spec_uninstall_command(m: PackageManager, name: Seq<char>) -> Option<
    SpecCommand,
> {
    match m {
        PackageManager::Homebrew => Some(("brew"@, seq!["uninstall"@, name], 120000u64)),
        PackageManager::Npm => Some(("npm"@, seq!["uninstall"@, "-g"@, name], 120000u64)),
        PackageManager::Cargo => Some(("cargo"@, seq!["uninstall"@, name], 60000u64)),
        PackageManager::Pip => Some(("pip3"@, seq!["uninstall"@, "-y"@, name], 120000u64)),
        _ => None,
    }
}

/// The bulk-upgrade command, for the one manager that has a native one.
pub open spec fn spec_bulk_update_command(m: PackageManager) -> Option<SpecCommand> {
    match m {
        PackageManager::Homebrew => Some(("brew"@, seq!["upgrade"@], 600000u64)),
        _ => None,
    }
}

/// The command a `CommandSpec` states.
pub open spec fn spec_of_command(c: CommandSpec) -> SpecCommand {
    (c.program@, c.args.deep_view(), c.timeout_ms)
}

/// Build a command with one argument.
fn cmd1(program: &str, a0: &str, timeout_ms: u64) -> (r: CommandSpec)
    ensures
        spec_of_command(r) == (program@, seq![a0@], timeout_ms),
{
    let args = vec![a0.to_owned()];
    let r = CommandSpec { program: program.to_owned(), args, timeout_ms };
    proof {
        assert(r.args.deep_view() =~= seq![a0@]);
    }
    r
}

/// Build a command with two arguments.
fn cmd2(program: &str, a0: &str, a1: &str, timeout_ms: u64) -> (r: CommandSpec)
    ensures
        spec_of_command(r) == (program@, seq![a0@, a1@], timeout_ms),
{
    let args = vec![a0.to_owned(), a1.to_owned()];
    let r = CommandSpec { program: program.to_owned(), args, timeout_ms };
    proof {
        assert(r.args.deep_view() =~= seq![a0@, a1@]);
    }
    r
}

/// Build a command with three arguments.
fn cmd3(program: &str, a0: &str, a1: &str, a2: &str, timeout_ms: u64) -> (r: CommandSpec)
    ensures
        spec_of_command(r) == (program@, seq![a0@, a1@, a2@], timeout_ms),
{
    let args = vec![a0.to_owned(), a1.to_owned(), a2.to_owned()];
    let r = CommandSpec { program: program.to_owned(), args, timeout_ms };
    proof {
        assert(r.args.deep_view() =~= seq![a0@, a1@, a2@]);
    }
    r
}

/// Build a command with four arguments.
fn cmd4(program: &str, a0: &str, a1: &str, a2: &str, a3: &str, timeout_ms: u64) -> (r:
    CommandSpec)
    ensures
        spec_of_command(r) == (program@, seq![a0@, a1@, a2@, a3@], timeout_ms),
{
    let args = vec![a0.to_owned(), a1.to_owned(), a2.to_owned(), a3.to_owned()];
    let r = CommandSpec { program: program.to_owned(), args, timeout_ms };
    proof {
        assert(r.args.deep_view() =~= seq![a0@, a1@, a2@, a3@]);
    }
    r
}

/// The listing command of a manager.
pub fn list_command(m: PackageManager) -> (r: Option<CommandSpec>)
    ensures
        match r {
            Some(c) => spec_list_command(m) == Some(spec_of_command(c)),
            None => spec_list_command(m) is None,
        },
{
    match m {
        PackageManager::Homebrew => Some(cmd2("brew", "list", "--versions", 15000)),
        PackageManager::Npm => Some(cmd4("npm", "list", "-g", "--depth=0", "--json", 30000)),
        PackageManager::Cargo => Some(cmd2("cargo", "install", "--list", 30000)),
        PackageManager::Pip => Some(cmd2("pip3", "list", "--format=json", 30000)),
        _ => None,
    }
}

/// The outdated-check command of a manager.
pub fn outdated_command(m: PackageManager) -> (r: Option<CommandSpec>)
    ensures
        match r {
            Some(c) => spec_outdated_command(m) == Some(spec_of_command(c)),
            None => spec_outdated_command(m) is None,
        },
{
    match m {
        PackageManager::Homebrew => Some(cmd2("brew", "outdated", "--json=v2", 10000)),
        PackageManager::Npm => Some(cmd3("npm", "outdated", "-g", "--json", 30000)),
        PackageManager::Pip => Some(cmd3("pip3", "list", "--outdated", "--format=json", 60000)),
        _ => None,
    }
}

/// The per-package description command of a manager.
pub fn description_command(m: PackageManager, name: &str) -> (r: Option<CommandSpec>)
    ensures
        match r {
            Some(c) => spec_description_command(m, name@) == Some(spec_of_command(c)),
            None => spec_description_command(m, name@) is None,
        },
{
    match m {
        PackageManager::Homebrew => Some(cmd3("brew", "info", "--json=v2", name, 10000)),
        PackageManager::Npm => Some(cmd3("npm", "view", name, "description", 5000)),
        PackageManager::Pip => Some(cmd2("pip3", "show", name, 5000)),
        _ => None,
    }
}

/// The single-package update command of a manager.
pub fn update_command(m: PackageManager, name: &str) -> (r: Option<CommandSpec>)
    ensures
        match r {
            Some(c) => spec_update_command(m, name@) == Some(spec_of_command(c)),
            None => spec_update_command(m, name@) is None,
        },
{
    match m {
        PackageManager::Homebrew => Some(cmd2("brew", "upgrade", name, 300000)),
        PackageManager::Npm => Some(cmd3("npm", "update", "-g", name, 300000)),
        PackageManager::Cargo => Some(cmd3("cargo", "install", name, "--force", 600000)),
        PackageManager::Pip => Some(cmd3("pip3", "install", "--upgrade", name, 300000)),
        _ => None,
    }
}

/// The install command of a manager.
pub fn install_command(m: PackageManager, name: &str) -> (r: Option<CommandSpec>)
    ensures
        match r {
            Some(c) => spec_install_command(m, name@) == Some(spec_of_command(c)),
            None => spec_install_command(m, name@) is None,
        },
{
    match m {
        PackageManager::Homebrew => Some(cmd2("brew", "install", name, 300000)),
        PackageManager::Npm => Some(cmd3("npm", "install", "-g", name, 300000)),
        PackageManager::Cargo => Some(cmd2("cargo", "install", name, 600000)),
        PackageManager::Pip => Some(cmd2("pip3", "install", name, 300000)),
        _ => None,
    }
}

/// The uninstall command of a manager.
pub fn uninstall_command(m: PackageManager, name: &str) -> (r: Option<CommandSpec>)
    ensures
        match r {
            Some(c) => spec_uninstall_command(m, name@) == Some(spec_of_command(c)),
            None => spec_uninstall_command(m, name@) is None,
        },
{
    match m {
        PackageManager::Homebrew => Some(cmd2("brew", "uninstall", name, 120000)),
        PackageManager::Npm => Some(cmd3("npm", "uninstall", "-g", name, 120000)),
        PackageManager::Cargo => Some(cmd2("cargo", "uninstall", name, 60000)),
        PackageManager::Pip => Some(cmd3("pip3", "uninstall", "-y", name, 120000)),
        _ => None,
    }
}

/// The bulk-upgrade command of a manager, where a native one exists.
pub fn bulk_update_command(m: PackageManager) -> (r: Option<CommandSpec>)
    ensures
        match r {
            Some(c) => spec_bulk_update_command(m) == Some(spec_of_command(c)),
            None => spec_bulk_update_command(m) is None,
        },
{
    match m {
        PackageManager::Homebrew => Some(cmd1("brew", "upgrade", 600000)),
        _ => None,
    }
}

/// Every manager the tool knows about, in the order they are probed.
pub open spec fn spec_all_managers() -> Seq<PackageManager> {
    seq![
        PackageManager::Homebrew,
        PackageManager::Npm,
        PackageManager::Yarn,
        PackageManager::Pnpm,
        PackageManager::Cargo,
        PackageManager::Pip,
        PackageManager::Pipx,
        PackageManager::Gem,
        PackageManager::Go,
        PackageManager::Composer,
        PackageManager::Pub,
        PackageManager::Swift,
    ]
}

/// The candidate managers, in probing order.
pub fn all_managers() -> (r: Vec<PackageManager>)
    ensures
        r@ == spec_all_managers(),
{
    let r = vec![
        PackageManager::Homebrew,
        PackageManager::Npm,
        PackageManager::Yarn,
        PackageManager::Pnpm,
        PackageManager::Cargo,
        PackageManager::Pip,
        PackageManager::Pipx,
        PackageManager::Gem,
        PackageManager::Go,
        PackageManager::Composer,
        PackageManager::Pub,
        PackageManager::Swift,
    ];
    proof {
        assert(r@ =~= spec_all_managers());
    }
    r
}

/// The managers whose probe succeeded, in probing order.
pub open spec fn spec_available_from(probes: Seq<(PackageManager, bool)>) -> Seq<PackageManager>
    decreases probes.len(),
{
    if probes.len() == 0 {
        Seq::empty()
    } else if probes[0].1 {
        seq![probes[0].0] + spec_available_from(probes.skip(1))
    } else {
        spec_available_from(probes.skip(1))
    }
}

/// Keep the managers whose executable was found.  The probe results come
/// from the driver, which runs `which` for each candidate's command.
pub fn available_from(probes: &Vec<(PackageManager, bool)>) -> (r: Vec<PackageManager>)
    ensures
        r@ == spec_available_from(probes@),
{
    let n = probes.len();
    let mut r: Vec<PackageManager> = Vec::new();
    let mut i: usize = 0;
    proof {
        assert(probes@.skip(0) =~= probes@);
        assert(r@ + spec_available_from(probes@) =~= spec_available_from(probes@));
    }
    while i < n
        invariant
            i <= n,
            n == probes@.len(),
            spec_available_from(probes@) == r@ + spec_available_from(probes@.skip(i as int)),
        decreases n - i,
    {
        proof {
            assert(probes@.skip(i as int)[0] == probes@[i as int]);
            assert(probes@.skip(i as int).skip(1) =~= probes@.skip(i as int + 1));
        }
        let ghost prior: Seq<PackageManager> = r@;
        if probes[i].1 {
            r.push(probes[i].0);
            proof {
                assert(r@ =~= prior + seq![probes@[i as int].0]);
                assert(prior + (seq![probes@[i as int].0] + spec_available_from(
                    probes@.skip(i as int + 1),
                )) =~= (prior + seq![probes@[i as int].0]) + spec_available_from(
                    probes@.skip(i as int + 1),
                ));
            }
        }
        i = i + 1;
    }
    proof {
        assert(spec_available_from(probes@.skip(n as int)) =~= Seq::<PackageManager>::empty());
        assert(r@ + Seq::<PackageManager>::empty() =~= r@);
    }
    r
}

} // verus!
