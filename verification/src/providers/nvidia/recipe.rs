//! The distribution-specific commands that install the NVIDIA driver.
use vstd::prelude::*;
use vstd::string::*;

use crate::error::{ArcError, ErrorKind};
use crate::model::command::{cmd, cmds, sudo, CommandSpec, CommandView};
use crate::model::system::{manager_of, Distribution, OsInfo};
use crate::platform::package_manager::{install_command, install_spec};
use crate::providers::nvidia::driver::{flavor_package, DriverFlavor};
use crate::providers::nvidia::policy::DriverPolicy;
use crate::providers::nvidia::repository::{resolve_spec, version_major, version_major_spec};
use crate::providers::nvidia::toolkit::{debug_quoted, debug_text};
use crate::text::{
    concat, concat3, contains, contains_str, eq_str, is_prefix, last_index_of, last_index_of_char,
    nat_str, starts_with, substring, u32_to_string, u64_to_string,
};

verus! {

/// What installs the driver: prerequisites, the package-stream selection, the
/// install command, and the check that the module is in place.
#[derive(Clone, Debug, PartialEq, Eq)]
pub struct InstallRecipe {
    pub prerequisites: Vec<CommandSpec>,
    pub driver_preparation: Vec<CommandSpec>,
    pub driver_install: CommandSpec,
    pub driver_verification: CommandSpec,
}

/// The release's major number, 0 when it has none.
pub open spec fn release_major(os: OsInfo) -> u32 {
    match version_major_spec(os.version_id@) {
        Some(m) => m,
        None => 0,
    }
}

/// The architecture in NVIDIA's repository and SUSE product names.
pub open spec fn repo_arch_spec(os: OsInfo) -> Seq<char> {
    if os.architecture@ == "aarch64"@ || os.architecture@ == "arm64"@ {
        "aarch64"@
    } else {
        "x86_64"@
    }
}

/// The distribution selects driver streams with dnf modules.
pub open spec fn modular_dnf_spec(os: OsInfo) -> bool {
    let d = os.distribution;
    ((d == Distribution::Rhel || d == Distribution::AlmaLinux || d == Distribution::RockyLinux || d
        == Distribution::OracleLinux) && (version_major_spec(os.version_id@) == Some(8u32)
        || version_major_spec(os.version_id@) == Some(9u32))) || d == Distribution::AmazonLinux
        || d == Distribution::KylinOs
}

pub open spec fn release_text(os: OsInfo) -> Seq<char> {
    nat_str(release_major(os) as nat)
}

/// Enterprise Linux prerequisites; `subscription` for RHEL itself.
pub open spec fn rhel_spec(os: OsInfo, kernel: Seq<char>, subscription: bool) -> Seq<CommandView> {
    let r = release_major(os);
    let repos = if r <= 9 {
        if subscription {
            seq![
                sudo(
                    "subscription-manager"@,
                    seq![
                        "repos"@,
                        "--enable=codeready-builder-for-rhel-"@ + release_text(os) + "-"@ + repo_arch_spec(os)
                            + "-rpms"@,
                    ],
                ),
                sudo(
                    "dnf"@,
                    seq![
                        "install"@,
                        "-y"@,
                        "https://dl.fedoraproject.org/pub/epel/epel-release-latest-"@ + release_text(os)
                            + ".noarch.rpm"@,
                    ],
                ),
            ]
        } else {
            seq![
                sudo(
                    "dnf"@,
                    seq![
                        "config-manager"@,
                        "--set-enabled"@,
                        if r == 8 { "powertools"@ } else { "crb"@ },
                    ],
                ),
                sudo("dnf"@, seq!["install"@, "-y"@, "epel-release"@]),
            ]
        }
    } else {
        seq![]
    };
    let headers = if r == 8 {
        sudo("dnf"@, seq!["install"@, "-y"@, "kernel-devel-"@ + kernel, "kernel-headers"@])
    } else if os.architecture@ == "aarch64"@ && contains(kernel, "64k"@) {
        sudo("dnf"@, seq!["install"@, "-y"@, "kernel-64k-devel-matched"@, "kernel-headers"@])
    } else {
        sudo("dnf"@, seq!["install"@, "-y"@, "kernel-devel-matched"@, "kernel-headers"@])
    };
    repos.push(headers)
}

/// Oracle Linux prerequisites.
pub open spec fn oracle_spec(os: OsInfo, kernel: Seq<char>) -> Seq<CommandView> {
    let headers = if contains(kernel, "uek"@) {
        "kernel-uek-devel-"@ + kernel
    } else if release_major(os) == 8 {
        "kernel-devel-"@ + kernel
    } else if os.architecture@ == "aarch64"@ && contains(kernel, "64k"@) {
        "kernel-64k-devel-matched"@
    } else {
        "kernel-devel-matched"@
    };
    seq![
        sudo("dnf"@, seq!["config-manager"@, "--set-enabled"@, "ol"@ + release_text(os) + "_codeready_builder"@]),
        sudo("dnf"@, seq!["install"@, "-y"@, "oracle-epel-release-el"@ + release_text(os)]),
        sudo("dnf"@, seq!["install"@, "-y"@, headers, "kernel-headers"@]),
    ]
}

/// The kernel release split at its last `-` into version and variant.
pub open spec fn kernel_variant(kernel: Seq<char>) -> Option<(Seq<char>, Seq<char>)> {
    match last_index_of(kernel, '-') {
        Some(i) => Some((kernel.subrange(0, i), kernel.subrange(i + 1, kernel.len() as int))),
        None => None,
    }
}

pub open spec fn supported_variant(v: Seq<char>) -> bool {
    v == "default"@ || v == "64k"@ || v == "azure"@
}

/// Why SUSE prerequisites cannot be chosen for the kernel, for a kernel whose
/// variant has no headers package.
pub open spec fn suse_refusal_message(kernel: Seq<char>) -> Seq<char> {
    match kernel_variant(kernel) {
        Some(p) => "unsupported SUSE kernel variant "@ + debug_text(p.1) + "; expected default, 64k, or azure"@,
        None => "could not determine SUSE kernel variant from "@ + kernel,
    }
}

/// SUSE prerequisites, when the kernel variant is one SUSE packages headers for.
pub open spec fn suse_spec(os: OsInfo, kernel: Seq<char>) -> Option<Seq<CommandView>> {
    match kernel_variant(kernel) {
        Some(p) => if supported_variant(p.1) {
            let install = sudo(
                "zypper"@,
                seq!["--non-interactive"@, "install"@, "-y"@, "kernel-"@ + p.1 + "-devel="@ + p.0],
            );
            Some(
                if os.distribution == Distribution::Sles && is_prefix("15."@, os.version_id@) {
                    seq![sudo("SUSEConnect"@, seq!["--product"@, "PackageHub/15/"@ + repo_arch_spec(os)]), install]
                } else {
                    seq![install]
                },
            )
        } else {
            None
        },
        None => None,
    }
}

/// The commands that install the development files for `kernel` and enable the
/// repositories the driver needs.
pub open spec fn prerequisites_spec(os: OsInfo, kernel: Seq<char>) -> Result<Seq<CommandView>, ErrorKind> {
    match resolve_spec(os) {
        Err(k) => Err(k),
        Ok(_) => match os.distribution {
            Distribution::Ubuntu => Ok(seq![sudo("apt-get"@, seq!["install"@, "-y"@, "linux-headers-"@ + kernel])]),
            Distribution::Debian => Ok(
                seq![
                    sudo("apt-get"@, seq!["install"@, "-y"@, "software-properties-common"@]),
                    sudo("add-apt-repository"@, seq!["-y"@, "contrib"@]),
                    sudo("apt-get"@, seq!["update"@]),
                    sudo("apt-get"@, seq!["install"@, "-y"@, "linux-headers-"@ + kernel]),
                ],
            ),
            Distribution::Rhel => Ok(rhel_spec(os, kernel, true)),
            Distribution::AlmaLinux | Distribution::RockyLinux => Ok(rhel_spec(os, kernel, false)),
            Distribution::OracleLinux => Ok(oracle_spec(os, kernel)),
            Distribution::Fedora | Distribution::KylinOs => Ok(
                seq![sudo("dnf"@, seq!["install"@, "-y"@, "kernel-devel-"@ + kernel, "kernel-headers"@])],
            ),
            Distribution::AmazonLinux => Ok(
                seq![
                    sudo(
                        "dnf"@,
                        seq!["install"@, "-y"@, "kernel-devel-"@ + kernel, "kernel-headers-"@ + kernel],
                    ),
                ],
            ),
            Distribution::AzureLinux => Ok(
                seq![
                    sudo("tdnf"@, seq!["install"@, "-y"@, "azurelinux-repos-extended"@]),
                    sudo(
                        "tdnf"@,
                        seq![
                            "install"@,
                            "-y"@,
                            "kernel-devel-"@ + kernel,
                            "kernel-headers-"@ + kernel,
                            "kernel-modules-extra-"@ + kernel,
                        ],
                    ),
                ],
            ),
            Distribution::OpenSuse | Distribution::Sles => match suse_spec(os, kernel) {
                Some(c) => Ok(c),
                None => Err(ErrorKind::UnsupportedKernelVariant),
            },
        },
    }
}

/// The commands that select the driver's package stream or pin its branch.
pub open spec fn branch_preparation_spec(os: OsInfo, policy: DriverPolicy) -> Seq<CommandView> {
    let d = os.distribution;
    match policy.branch {
        None => if modular_dnf_spec(os) {
            seq![
                sudo(
                    "dnf"@,
                    seq![
                        "module"@,
                        "enable"@,
                        "-y"@,
                        if policy.flavor == DriverFlavor::Open {
                            "nvidia-driver:open-dkms"@
                        } else {
                            "nvidia-driver:latest-dkms"@
                        },
                    ],
                ),
            ]
        } else {
            seq![]
        },
        Some(b) => if d == Distribution::Ubuntu || d == Distribution::Debian {
            seq![sudo("apt-get"@, seq!["install"@, "-y"@, "nvidia-driver-pinning-"@ + nat_str(b as nat)])]
        } else if modular_dnf_spec(os) {
            seq![
                sudo(
                    "dnf"@,
                    seq!["module"@, "enable"@, "-y"@, "nvidia-driver:"@ + nat_str(b as nat) + "-dkms"@],
                ),
            ]
        } else if d == Distribution::Fedora {
            seq![sudo("dnf"@, seq!["versionlock"@, "add"@, "*nvidia*"@ + nat_str(b as nat) + "*"@])]
        } else if d == Distribution::Rhel || d == Distribution::AlmaLinux || d == Distribution::RockyLinux {
            seq![sudo("dnf"@, seq!["versionlock"@, "*nvidia*"@ + nat_str(b as nat) + "*"@])]
        } else if d == Distribution::OpenSuse || d == Distribution::Sles {
            seq![sudo("zypper"@, seq!["addlock"@, "*nvidia* >= "@ + nat_str((b + 10) as nat)])]
        } else {
            seq![]
        },
    }
}

/// On a distribution with dnf module streams and no branch to pin, the driver
/// stream that is enabled follows the policy's kernel-module flavor: the
/// `open-dkms` stream for the open modules, the `latest-dkms` stream for the
/// proprietary ones; and it is the very stream a flavor transition switches to.
pub proof fn law_module_stream_follows_flavor(os: OsInfo, policy: DriverPolicy, from: DriverFlavor)
    requires
        modular_dnf_spec(os),
        policy.branch is None,
    ensures
        branch_preparation_spec(os, policy).len() == 1,
        ({
            let c = branch_preparation_spec(os, policy)[0];
            let stream = c.1[c.1.len() - 1];
            &&& c == sudo("dnf"@, seq!["module"@, "enable"@, "-y"@, stream])
            &&& policy.flavor == DriverFlavor::Open ==> contains(stream, "open-dkms"@)
            &&& policy.flavor == DriverFlavor::Proprietary ==> contains(stream, "latest-dkms"@)
            &&& transition_spec(os, policy, from) == seq![
                sudo("dnf"@, seq!["-y"@, "module"@, "switch-to"@, stream, "--allowerasing"@]),
            ]
        }),
{
    let c = branch_preparation_spec(os, policy)[0];
    assert(c.1[c.1.len() - 1] == c.1[4]);
    reveal_strlit("open-dkms");
    reveal_strlit("latest-dkms");
    if policy.flavor == DriverFlavor::Open {
        reveal_strlit("nvidia-driver:open-dkms");
        let t = "nvidia-driver:open-dkms"@;
        assert(t.subrange(14, 23) =~= "open-dkms"@);
        assert(crate::text::occurs_at(t, "open-dkms"@, 14));
    } else {
        reveal_strlit("nvidia-driver:latest-dkms");
        let t = "nvidia-driver:latest-dkms"@;
        assert(t.subrange(14, 25) =~= "latest-dkms"@);
        assert(crate::text::occurs_at(t, "latest-dkms"@, 14));
    }
}

/// The commands that move an installed driver of flavor `from` to the policy.
pub open spec fn transition_spec(os: OsInfo, policy: DriverPolicy, from: DriverFlavor) -> Seq<CommandView> {
    let target = flavor_package(policy.flavor);
    let d = os.distribution;
    if d == Distribution::Ubuntu || d == Distribution::Debian {
        (if from != policy.flavor {
            seq![sudo("apt-get"@, seq!["remove"@, "--purge"@, "--autoremove"@, "-y"@, flavor_package(from)])]
        } else {
            seq![]
        }) + branch_preparation_spec(os, policy) + seq![sudo("apt-get"@, seq!["install"@, "-y"@, target])]
    } else if modular_dnf_spec(os) {
        let stream = match policy.branch {
            Some(b) => "nvidia-driver:"@ + nat_str(b as nat) + "-dkms"@,
            None => if policy.flavor == DriverFlavor::Open {
                "nvidia-driver:open-dkms"@
            } else {
                "nvidia-driver:latest-dkms"@
            },
        };
        seq![sudo("dnf"@, seq!["-y"@, "module"@, "switch-to"@, stream, "--allowerasing"@])]
    } else if d == Distribution::AzureLinux {
        seq![sudo("tdnf"@, seq!["install"@, "-y"@, "--allowerasing"@, target])]
    } else if d == Distribution::OpenSuse || d == Distribution::Sles {
        branch_preparation_spec(os, policy) + seq![
            sudo("zypper"@, seq!["--non-interactive"@, "install"@, "--force-resolution"@, target]),
        ]
    } else {
        seq![sudo("dnf"@, seq!["install"@, "-y"@, "--allowerasing"@, target])]
    }
}

/// The release's major number, 0 when it has none.
fn major(os: &OsInfo) -> (m: u32)
    ensures
        m == release_major(*os),
{
    match version_major(os.version_id.as_str()) {
        Some(m) => m,
        None => 0,
    }
}

fn repo_arch(os: &OsInfo) -> (s: &'static str)
    ensures
        s@ == repo_arch_spec(*os),
{
    if eq_str(os.architecture.as_str(), "aarch64") || eq_str(os.architecture.as_str(), "arm64") {
        "aarch64"
    } else {
        "x86_64"
    }
}

/// Whether the distribution selects driver streams with dnf modules.
pub fn is_modular_dnf(os: &OsInfo) -> (b: bool)
    ensures
        b == modular_dnf_spec(*os),
{
    let d = os.distribution;
    let el = d == Distribution::Rhel || d == Distribution::AlmaLinux || d == Distribution::RockyLinux
        || d == Distribution::OracleLinux;
    let m = version_major(os.version_id.as_str());
    (el && (m == Some(8u32) || m == Some(9u32))) || d == Distribution::AmazonLinux || d
        == Distribution::KylinOs
}

fn rhel_prerequisites(os: &OsInfo, kernel: &str, subscription: bool) -> (v: Vec<CommandSpec>)
    ensures
        cmds(v@) == rhel_spec(*os, kernel@, subscription),
{
    let release = major(os);
    let r = u32_to_string(release);
    let mut v: Vec<CommandSpec> = Vec::new();
    if release <= 9 {
        if subscription {
            let mut a = String::from_str("--enable=codeready-builder-for-rhel-");
            a.append(r.as_str());
            a.append("-");
            a.append(repo_arch(os));
            a.append("-rpms");
            v.push(CommandSpec::sudo("subscription-manager", &["repos", a.as_str()]));
            let u = concat3("https://dl.fedoraproject.org/pub/epel/epel-release-latest-", r.as_str(), ".noarch.rpm");
            v.push(CommandSpec::sudo("dnf", &["install", "-y", u.as_str()]));
        } else {
            let repo = if release == 8 { "powertools" } else { "crb" };
            v.push(CommandSpec::sudo("dnf", &["config-manager", "--set-enabled", repo]));
            v.push(CommandSpec::sudo("dnf", &["install", "-y", "epel-release"]));
        }
    }
    let headers = if release == 8 {
        let k = concat("kernel-devel-", kernel);
        CommandSpec::sudo("dnf", &["install", "-y", k.as_str(), "kernel-headers"])
    } else if eq_str(os.architecture.as_str(), "aarch64") && contains_str(kernel, "64k") {
        CommandSpec::sudo("dnf", &["install", "-y", "kernel-64k-devel-matched", "kernel-headers"])
    } else {
        CommandSpec::sudo("dnf", &["install", "-y", "kernel-devel-matched", "kernel-headers"])
    };
    let ghost before = v@;
    v.push(headers);
    assert(cmds(v@) =~~= rhel_spec(*os, kernel@, subscription)) by {
        assert(cmds(v@) =~= cmds(before).push(headers@));
    }
    v
}

fn oracle_prerequisites(os: &OsInfo, kernel: &str) -> (v: Vec<CommandSpec>)
    ensures
        cmds(v@) == oracle_spec(*os, kernel@),
{
    let release = major(os);
    let r = u32_to_string(release);
    let repo = concat3("ol", r.as_str(), "_codeready_builder");
    let epel = concat("oracle-epel-release-el", r.as_str());
    let headers = if contains_str(kernel, "uek") {
        concat("kernel-uek-devel-", kernel)
    } else if release == 8 {
        concat("kernel-devel-", kernel)
    } else if eq_str(os.architecture.as_str(), "aarch64") && contains_str(kernel, "64k") {
        String::from_str("kernel-64k-devel-matched")
    } else {
        String::from_str("kernel-devel-matched")
    };
    let v = vec![
        CommandSpec::sudo("dnf", &["config-manager", "--set-enabled", repo.as_str()]),
        CommandSpec::sudo("dnf", &["install", "-y", epel.as_str()]),
        CommandSpec::sudo("dnf", &["install", "-y", headers.as_str(), "kernel-headers"]),
    ];
    assert(cmds(v@) =~~= oracle_spec(*os, kernel@));
    v
}

fn suse_prerequisites(os: &OsInfo, kernel: &str) -> (r: Result<Vec<CommandSpec>, ArcError>)
    ensures
        match r {
            Ok(v) => suse_spec(*os, kernel@) == Some(cmds(v@)),
            Err(e) => suse_spec(*os, kernel@) is None && e.kind == ErrorKind::UnsupportedKernelVariant
                && e.message@ == suse_refusal_message(kernel@),
        },
{
    let n = kernel.unicode_len();
    let i = match last_index_of_char(kernel, '-') {
        Some(i) => i,
        None => {
            let m = concat("could not determine SUSE kernel variant from ", kernel);
            return Err(ArcError::new(ErrorKind::UnsupportedKernelVariant, m));
        },
    };
    let version = substring(kernel, 0, i);
    let variant = substring(kernel, i + 1, n);
    if !(eq_str(variant.as_str(), "default") || eq_str(variant.as_str(), "64k") || eq_str(
        variant.as_str(),
        "azure",
    )) {
        let quoted = debug_quoted(variant.as_str());
        let m = concat3(
            "unsupported SUSE kernel variant ",
            quoted.as_str(),
            "; expected default, 64k, or azure",
        );
        return Err(ArcError::new(ErrorKind::UnsupportedKernelVariant, m));
    }
    let mut pkg = String::from_str("kernel-");
    pkg.append(variant.as_str());
    pkg.append("-devel=");
    pkg.append(version.as_str());
    let install = CommandSpec::sudo("zypper", &["--non-interactive", "install", "-y", pkg.as_str()]);
    let mut v: Vec<CommandSpec> = Vec::new();
    if os.distribution == Distribution::Sles && starts_with(os.version_id.as_str(), "15.") {
        let product = concat("PackageHub/15/", repo_arch(os));
        v.push(CommandSpec::sudo("SUSEConnect", &["--product", product.as_str()]));
    }
    let ghost before = v@;
    v.push(install);
    assert(cmds(v@) =~= cmds(before).push(install@));
    assert(suse_spec(*os, kernel@) =~~= Some(cmds(v@)));
    Ok(v)
}

/// Checks that NVIDIA publishes a repository for the release.
pub fn validate_release(os: &OsInfo) -> (r: Result<(), ArcError>)
    ensures
        (r is Ok <==> resolve_spec(*os) is Ok),
        (r matches Err(e) ==> resolve_spec(*os) == Err::<crate::providers::nvidia::repository::RepositoryView, ErrorKind>(e.kind)
            && e.message@ == crate::providers::nvidia::repository::resolve_error_message(*os, e.kind)),
{
    match crate::providers::nvidia::repository::resolve(os) {
        Ok(_) => Ok(()),
        Err(e) => Err(e),
    }
}

/// The prerequisites of the driver on the machine's distribution.
pub fn prerequisites(os: &OsInfo, kernel: &str) -> (r: Result<Vec<CommandSpec>, ArcError>)
    ensures
        match r {
            Ok(v) => prerequisites_spec(*os, kernel@) == Ok::<Seq<CommandView>, ErrorKind>(cmds(v@)),
            Err(e) => prerequisites_spec(*os, kernel@) == Err::<Seq<CommandView>, ErrorKind>(e.kind),
        },
{
    match validate_release(os) {
        Ok(()) => {},
        Err(e) => return Err(e),
    }
    let v = match os.distribution {
        Distribution::Ubuntu => {
            let h = concat("linux-headers-", kernel);
            let v = vec![CommandSpec::sudo("apt-get", &["install", "-y", h.as_str()])];
            assert(cmds(v@) =~~= seq![sudo("apt-get"@, seq!["install"@, "-y"@, "linux-headers-"@ + kernel@])]);
            assert(prerequisites_spec(*os, kernel@) =~~= Ok::<Seq<CommandView>, ErrorKind>(cmds(v@)));
            v
        },
        Distribution::Debian => {
            let h = concat("linux-headers-", kernel);
            let v = vec![
                CommandSpec::sudo("apt-get", &["install", "-y", "software-properties-common"]),
                CommandSpec::sudo("add-apt-repository", &["-y", "contrib"]),
                CommandSpec::sudo("apt-get", &["update"]),
                CommandSpec::sudo("apt-get", &["install", "-y", h.as_str()]),
            ];
            assert(cmds(v@) =~~= seq![
                sudo("apt-get"@, seq!["install"@, "-y"@, "software-properties-common"@]),
                sudo("add-apt-repository"@, seq!["-y"@, "contrib"@]),
                sudo("apt-get"@, seq!["update"@]),
                sudo("apt-get"@, seq!["install"@, "-y"@, "linux-headers-"@ + kernel@]),
            ]);
            assert(prerequisites_spec(*os, kernel@) =~~= Ok::<Seq<CommandView>, ErrorKind>(cmds(v@)));
            v
        },
        Distribution::Rhel => {
            let v = rhel_prerequisites(os, kernel, true);
            assert(prerequisites_spec(*os, kernel@) =~~= Ok::<Seq<CommandView>, ErrorKind>(cmds(v@)));
            v
        },
        Distribution::AlmaLinux | Distribution::RockyLinux => {
            let v = rhel_prerequisites(os, kernel, false);
            assert(prerequisites_spec(*os, kernel@) =~~= Ok::<Seq<CommandView>, ErrorKind>(cmds(v@)));
            v
        },
        Distribution::OracleLinux => {
            let v = oracle_prerequisites(os, kernel);
            assert(prerequisites_spec(*os, kernel@) =~~= Ok::<Seq<CommandView>, ErrorKind>(cmds(v@)));
            v
        },
        Distribution::Fedora | Distribution::KylinOs => {
            let k = concat("kernel-devel-", kernel);
            let v = vec![CommandSpec::sudo("dnf", &["install", "-y", k.as_str(), "kernel-headers"])];
            assert(cmds(v@) =~~= seq![sudo("dnf"@, seq!["install"@, "-y"@, "kernel-devel-"@ + kernel@, "kernel-headers"@])]);
            assert(prerequisites_spec(*os, kernel@) =~~= Ok::<Seq<CommandView>, ErrorKind>(cmds(v@)));
            v
        },
        Distribution::AmazonLinux => {
            let k = concat("kernel-devel-", kernel);
            let h = concat("kernel-headers-", kernel);
            let v = vec![CommandSpec::sudo("dnf", &["install", "-y", k.as_str(), h.as_str()])];
            assert(cmds(v@) =~~= seq![sudo("dnf"@, seq!["install"@, "-y"@, "kernel-devel-"@ + kernel@, "kernel-headers-"@ + kernel@])]);
            assert(prerequisites_spec(*os, kernel@) =~~= Ok::<Seq<CommandView>, ErrorKind>(cmds(v@)));
            v
        },
        Distribution::AzureLinux => {
            let k = concat("kernel-devel-", kernel);
            let h = concat("kernel-headers-", kernel);
            let x = concat("kernel-modules-extra-", kernel);
            let v = vec![
                CommandSpec::sudo("tdnf", &["install", "-y", "azurelinux-repos-extended"]),
                CommandSpec::sudo("tdnf", &["install", "-y", k.as_str(), h.as_str(), x.as_str()]),
            ];
            assert(cmds(v@) =~~= seq![
                sudo("tdnf"@, seq!["install"@, "-y"@, "azurelinux-repos-extended"@]),
                sudo("tdnf"@, seq!["install"@, "-y"@, "kernel-devel-"@ + kernel@, "kernel-headers-"@ + kernel@, "kernel-modules-extra-"@ + kernel@]),
            ]);
            assert(prerequisites_spec(*os, kernel@) =~~= Ok::<Seq<CommandView>, ErrorKind>(cmds(v@)));
            v
        },
        Distribution::OpenSuse | Distribution::Sles => match suse_prerequisites(os, kernel) {
            Ok(v) => {
                assert(prerequisites_spec(*os, kernel@) =~~= Ok::<Seq<CommandView>, ErrorKind>(cmds(v@)));
                v
            },
            Err(e) => return Err(e),
        },
    };
    Ok(v)
}

/// The commands that select the driver's package stream or pin its branch.
pub fn branch_preparation(os: &OsInfo, policy: DriverPolicy) -> (v: Vec<CommandSpec>)
    ensures
        cmds(v@) == branch_preparation_spec(*os, policy),
{
    let d = os.distribution;
    let v = match policy.branch {
        None => if is_modular_dnf(os) {
            let stream = if policy.flavor == DriverFlavor::Open {
                "nvidia-driver:open-dkms"
            } else {
                "nvidia-driver:latest-dkms"
            };
            vec![CommandSpec::sudo("dnf", &["module", "enable", "-y", stream])]
        } else {
            Vec::new()
        },
        Some(b) => {
            let bs = u32_to_string(b);
            if d == Distribution::Ubuntu || d == Distribution::Debian {
                let p = concat("nvidia-driver-pinning-", bs.as_str());
                vec![CommandSpec::sudo("apt-get", &["install", "-y", p.as_str()])]
            } else if is_modular_dnf(os) {
                let s = concat3("nvidia-driver:", bs.as_str(), "-dkms");
                vec![CommandSpec::sudo("dnf", &["module", "enable", "-y", s.as_str()])]
            } else if d == Distribution::Fedora {
                let s = concat3("*nvidia*", bs.as_str(), "*");
                vec![CommandSpec::sudo("dnf", &["versionlock", "add", s.as_str()])]
            } else if d == Distribution::Rhel || d == Distribution::AlmaLinux || d == Distribution::RockyLinux {
                let s = concat3("*nvidia*", bs.as_str(), "*");
                vec![CommandSpec::sudo("dnf", &["versionlock", s.as_str()])]
            } else if d == Distribution::OpenSuse || d == Distribution::Sles {
                let limit = u64_to_string(b as u64 + 10);
                let s = concat("*nvidia* >= ", limit.as_str());
                vec![CommandSpec::sudo("zypper", &["addlock", s.as_str()])]
            } else {
                Vec::new()
            }
        },
    };
    assert(cmds(v@) =~~= branch_preparation_spec(*os, policy));
    v
}

/// Appends `extra` to `v`.
fn append_commands(v: &mut Vec<CommandSpec>, extra: Vec<CommandSpec>)
    ensures
        cmds(final(v)@) == cmds(old(v)@) + cmds(extra@),
{
    let mut i: usize = 0;
    let ghost start = cmds(v@);
    while i < extra.len()
        invariant
            i <= extra.len(),
            cmds(v@) == start + cmds(extra@).take(i as int),
        decreases extra.len() - i,
    {
        let ghost before = v@;
        v.push(extra[i].copy());
        assert(cmds(v@) =~= cmds(before).push(extra@[i as int]@));
        assert(cmds(extra@).take(i + 1) =~= cmds(extra@).take(i as int).push(extra@[i as int]@));
        i = i + 1;
    }
    assert(cmds(extra@).take(extra.len() as int) =~= cmds(extra@));
}

/// The commands that move an installed driver of flavor `from` to the policy.
pub fn transition_commands(os: &OsInfo, policy: DriverPolicy, from: DriverFlavor) -> (v: Vec<CommandSpec>)
    ensures
        cmds(v@) == transition_spec(*os, policy, from),
{
    let target = policy.flavor.package();
    let d = os.distribution;
    if d == Distribution::Ubuntu || d == Distribution::Debian {
        let mut v: Vec<CommandSpec> = Vec::new();
        if from != policy.flavor {
            v.push(CommandSpec::sudo("apt-get", &["remove", "--purge", "--autoremove", "-y", from.package()]));
        }
        append_commands(&mut v, branch_preparation(os, policy));
        let ghost before = v@;
        let install = CommandSpec::sudo("apt-get", &["install", "-y", target]);
        v.push(install);
        assert(cmds(v@) =~= cmds(before).push(install@));
        assert(cmds(v@) =~~= transition_spec(*os, policy, from));
        v
    } else if is_modular_dnf(os) {
        let stream = match policy.branch {
            Some(b) => {
                let bs = u32_to_string(b);
                concat3("nvidia-driver:", bs.as_str(), "-dkms")
            },
            None => if policy.flavor == DriverFlavor::Open {
                String::from_str("nvidia-driver:open-dkms")
            } else {
                String::from_str("nvidia-driver:latest-dkms")
            },
        };
        let v = vec![CommandSpec::sudo("dnf", &["-y", "module", "switch-to", stream.as_str(), "--allowerasing"])];
        assert(cmds(v@) =~~= transition_spec(*os, policy, from));
        v
    } else if d == Distribution::AzureLinux {
        let v = vec![CommandSpec::sudo("tdnf", &["install", "-y", "--allowerasing", target])];
        assert(cmds(v@) =~~= transition_spec(*os, policy, from));
        v
    } else if d == Distribution::OpenSuse || d == Distribution::Sles {
        let mut v = branch_preparation(os, policy);
        let ghost before = v@;
        let install = CommandSpec::sudo("zypper", &["--non-interactive", "install", "--force-resolution", target]);
        v.push(install);
        assert(cmds(v@) =~= cmds(before).push(install@));
        assert(cmds(v@) =~~= transition_spec(*os, policy, from));
        v
    } else {
        let v = vec![CommandSpec::sudo("dnf", &["install", "-y", "--allowerasing", target])];
        assert(cmds(v@) =~~= transition_spec(*os, policy, from));
        v
    }
}

/// `modinfo nvidia`.
pub open spec fn module_check() -> CommandView {
    cmd("modinfo"@, seq!["nvidia"@])
}

/// The recipe that installs the policy's driver on the machine.
pub fn resolve(os: &OsInfo, kernel_release: &str, policy: DriverPolicy) -> (r: Result<InstallRecipe, ArcError>)
    ensures
        match r {
            Ok(recipe) => {
                &&& prerequisites_spec(*os, kernel_release@) == Ok::<Seq<CommandView>, ErrorKind>(cmds(recipe.prerequisites@))
                &&& cmds(recipe.driver_preparation@) == branch_preparation_spec(*os, policy)
                &&& recipe.driver_install@ == install_spec(manager_of(os.distribution), flavor_package(policy.flavor), false)
                &&& recipe.driver_verification@ == module_check()
            },
            Err(e) => prerequisites_spec(*os, kernel_release@) == Err::<Seq<CommandView>, ErrorKind>(e.kind),
        },
{
    let prerequisites = match prerequisites(os, kernel_release) {
        Ok(p) => p,
        Err(e) => return Err(e),
    };
    let driver_preparation = branch_preparation(os, policy);
    let driver_install = install_command(os.package_manager(), policy.flavor.package());
    let driver_verification = CommandSpec::new("modinfo", &["nvidia"]);
    assert(driver_verification@ =~~= module_check());
    Ok(InstallRecipe { prerequisites, driver_preparation, driver_install, driver_verification })
}

} // verus!
