//! The commands each package manager family needs, built as argument vectors.
use vstd::prelude::*;
use vstd::string::*;

use crate::model::command::{
    all_safe, cmd, display_spec, lemma_last_argument_shown, sudo, CommandSpec, CommandView,
};
use crate::model::system::{manager_of, OsInfo, PackageManager};
use crate::text::{concat, contains, strs, strs_ref};

verus! {

pub open spec fn refresh_spec(m: PackageManager) -> CommandView {
    match m {
        PackageManager::AptGet => sudo("apt-get"@, seq!["update"@]),
        PackageManager::Dnf => sudo("dnf"@, seq!["makecache"@]),
        PackageManager::Tdnf => sudo("tdnf"@, seq!["makecache"@]),
        PackageManager::Zypper => sudo("zypper"@, seq!["--non-interactive"@, "refresh"@]),
    }
}

pub open spec fn query_spec(m: PackageManager, package: Seq<char>) -> CommandView {
    match m {
        PackageManager::AptGet => cmd("apt-cache"@, seq!["show"@, "--no-all-versions"@, package]),
        PackageManager::Dnf => cmd("dnf"@, seq!["--quiet"@, "list"@, "--available"@, package]),
        PackageManager::Tdnf => cmd("tdnf"@, seq!["list"@, "available"@, package]),
        PackageManager::Zypper => cmd("zypper"@, seq!["--non-interactive"@, "info"@, package]),
    }
}

pub open spec fn install_spec(m: PackageManager, package: Seq<char>, allow_erasing: bool) -> CommandView {
    match m {
        PackageManager::AptGet => sudo("apt-get"@, seq!["install"@, "-y"@, package]),
        PackageManager::Dnf => if allow_erasing {
            sudo("dnf"@, seq!["install"@, "-y"@, "--allowerasing"@, package])
        } else {
            sudo("dnf"@, seq!["install"@, "-y"@, package])
        },
        PackageManager::Tdnf => sudo("tdnf"@, seq!["install"@, "-y"@, package]),
        PackageManager::Zypper => sudo("zypper"@, seq!["--non-interactive"@, "install"@, package]),
    }
}

/// The package that provides the development files of a kernel release.
pub open spec fn kernel_headers_package(m: PackageManager, kernel_release: Seq<char>) -> Seq<char> {
    match m {
        PackageManager::AptGet => "linux-headers-"@ + kernel_release,
        PackageManager::Dnf | PackageManager::Tdnf => "kernel-devel-"@ + kernel_release,
        PackageManager::Zypper => "kernel-devel"@,
    }
}

/// The reinstall command for `packages`, or nothing when there is nothing to reinstall.
pub open spec fn reinstall_spec(m: PackageManager, packages: Seq<Seq<char>>) -> Option<CommandView> {
    if packages.len() == 0 {
        None
    } else {
        Some(
            match m {
                PackageManager::AptGet => sudo("apt-get"@, seq!["install"@, "--reinstall"@, "-y"@] + packages),
                PackageManager::Dnf => sudo("dnf"@, seq!["reinstall"@, "-y"@] + packages),
                PackageManager::Tdnf => sudo("tdnf"@, seq!["reinstall"@, "-y"@] + packages),
                PackageManager::Zypper => sudo(
                    "zypper"@,
                    seq!["--non-interactive"@, "install"@, "--force"@] + packages,
                ),
            },
        )
    }
}

/// Refreshes the package manager's metadata.
pub fn refresh_command(manager: PackageManager) -> (c: CommandSpec)
    ensures
        c@ == refresh_spec(manager),
{
    let c = match manager {
        PackageManager::AptGet => CommandSpec::sudo("apt-get", &["update"]),
        PackageManager::Dnf => CommandSpec::sudo("dnf", &["makecache"]),
        PackageManager::Tdnf => CommandSpec::sudo("tdnf", &["makecache"]),
        PackageManager::Zypper => CommandSpec::sudo("zypper", &["--non-interactive", "refresh"]),
    };
    assert(c@ =~= refresh_spec(manager));
    c
}

/// Asks the package manager whether `package` can be installed.
pub fn query_command(manager: PackageManager, package: &str) -> (c: CommandSpec)
    ensures
        c@ == query_spec(manager, package@),
{
    let c = match manager {
        PackageManager::AptGet => CommandSpec::new("apt-cache", &["show", "--no-all-versions", package]),
        PackageManager::Dnf => CommandSpec::new("dnf", &["--quiet", "list", "--available", package]),
        PackageManager::Tdnf => CommandSpec::new("tdnf", &["list", "available", package]),
        PackageManager::Zypper => CommandSpec::new("zypper", &["--non-interactive", "info", package]),
    };
    assert(c@ =~= query_spec(manager, package@));
    c
}

/// Installs `package` non-interactively.
pub fn install_command(manager: PackageManager, package: &str) -> (c: CommandSpec)
    ensures
        c@ == install_spec(manager, package@, false),
{
    install_command_with_options(manager, package, false)
}

/// Installs the development files of the running kernel.
pub fn kernel_headers_install_command(os: &OsInfo, kernel_release: &str) -> (c: CommandSpec)
    ensures
        c@ == install_spec(
            manager_of(os.distribution),
            kernel_headers_package(manager_of(os.distribution), kernel_release@),
            false,
        ),
{
    let manager = os.package_manager();
    let package = match manager {
        PackageManager::AptGet => concat("linux-headers-", kernel_release),
        PackageManager::Dnf | PackageManager::Tdnf => concat("kernel-devel-", kernel_release),
        PackageManager::Zypper => String::from_str("kernel-devel"),
    };
    install_command(manager, package.as_str())
}

/// Installs `package`; on dnf, `allow_erasing` lets conflicting packages be replaced.
pub fn install_command_with_options(manager: PackageManager, package: &str, allow_erasing: bool) -> (c: CommandSpec)
    ensures
        c@ == install_spec(manager, package@, allow_erasing),
{
    let c = match manager {
        PackageManager::AptGet => CommandSpec::sudo("apt-get", &["install", "-y", package]),
        PackageManager::Dnf => if allow_erasing {
            CommandSpec::sudo("dnf", &["install", "-y", "--allowerasing", package])
        } else {
            CommandSpec::sudo("dnf", &["install", "-y", package])
        },
        PackageManager::Tdnf => CommandSpec::sudo("tdnf", &["install", "-y", package]),
        PackageManager::Zypper => CommandSpec::sudo("zypper", &["--non-interactive", "install", package]),
    };
    assert(c@ =~= install_spec(manager, package@, allow_erasing));
    c
}

/// Reinstalls exactly `packages`; `None` when the list is empty.
pub fn reinstall_command(manager: PackageManager, packages: &[String]) -> (c: Option<CommandSpec>)
    ensures
        (c matches Some(x) ==> reinstall_spec(manager, strs(packages@)) == Some(x@)),
        (c is None <==> reinstall_spec(manager, strs(packages@)) is None),
{
    if packages.len() == 0 {
        return None;
    }
    let base = match manager {
        PackageManager::AptGet => CommandSpec::sudo("apt-get", &["install", "--reinstall", "-y"]),
        PackageManager::Dnf => CommandSpec::sudo("dnf", &["reinstall", "-y"]),
        PackageManager::Tdnf => CommandSpec::sudo("tdnf", &["reinstall", "-y"]),
        PackageManager::Zypper => CommandSpec::sudo("zypper", &["--non-interactive", "install", "--force"]),
    };
    let c = base.with_args(packages);
    assert(c@ =~= reinstall_spec(manager, strs(packages@))->0);
    Some(c)
}

/// `sudo apt OPTIONS... PACKAGES...`.
pub fn apt_remove_command(options: &[&str], packages: &[&str]) -> (c: CommandSpec)
    ensures
        c@ == sudo("apt"@, strs_ref(options@) + strs_ref(packages@)),
{
    let mut all: Vec<&str> = Vec::new();
    let mut i: usize = 0;
    while i < options.len()
        invariant
            i <= options.len(),
            all@ == options@.take(i as int),
        decreases options.len() - i,
    {
        all.push(options[i]);
        assert(all@ =~= options@.take(i + 1));
        i = i + 1;
    }
    let mut j: usize = 0;
    while j < packages.len()
        invariant
            j <= packages.len(),
            all@ == options@ + packages@.take(j as int),
        decreases packages.len() - j,
    {
        all.push(packages[j]);
        assert(all@ =~= options@ + packages@.take(j + 1));
        j = j + 1;
    }
    assert(options@.take(options.len() as int) =~= options@);
    assert(packages@.take(packages.len() as int) =~= packages@);
    assert(strs_ref(all@) =~= strs_ref(options@) + strs_ref(packages@));
    CommandSpec::sudo("apt", all.as_slice())
}

/// The commands that install a package or ask whether the repository offers it
/// show the package when it is displayed, for a package name that needs no
/// quoting; the query runs without `sudo`.
pub proof fn law_package_commands_show_the_package(m: PackageManager, package: Seq<char>, allow_erasing: bool)
    requires
        all_safe(package),
    ensures
        contains(display_spec(install_spec(m, package, allow_erasing)), package),
        contains(display_spec(query_spec(m, package)), package),
        query_spec(m, package).0 != "sudo"@,
{
    let i = install_spec(m, package, allow_erasing);
    let q = query_spec(m, package);
    assert(i.1.last() == package);
    assert(q.1.last() == package);
    lemma_last_argument_shown(i);
    lemma_last_argument_shown(q);
    reveal_strlit("sudo");
    reveal_strlit("apt-cache");
    reveal_strlit("dnf");
    reveal_strlit("tdnf");
    reveal_strlit("zypper");
    assert(q.0[0] != 's' || q.0.len() != 4);
}

} // verus!
