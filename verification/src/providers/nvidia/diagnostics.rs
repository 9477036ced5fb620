//! `arc doctor`: checks of the machine's NVIDIA stack and the fixes for what failed.
use vstd::prelude::*;
use vstd::string::*;

use crate::error::{ArcError, ErrorKind};
use crate::model::command::{cmd, cmds, sudo, CommandSpec, CommandView};
use crate::model::environment::{
    cause_views, check_views, description_spec, evidence_list, fix_plan_spec, fix_views, describe_evidence,
    opt_text, CauseView, CheckView, Confidence, DiagnosticCause, DiagnosticCheck, DiagnosticId,
    DiagnosticSection, DiagnosticStatus, Diagnostics, DriverInstallation, DriverRuntimeState, Fix, FixId,
    FixPlan, FixView,
};
use crate::model::device::GpuVendor;
use crate::model::system::{display_name_spec, manager_of, OsInfo};
use crate::providers::nvidia::compatibility::{evaluate, evaluate_spec, Compatibility};
use crate::providers::nvidia::driver::DriverPreference;
use crate::providers::nvidia::policy::{policy_refusal, policy_refusal_message};
use crate::providers::nvidia::repository::{resolve, resolve_error_message, resolve_spec};
use crate::providers::nvidia::recipe::validate_release;
use crate::providers::nvidia::runtime::{classify, classify_spec, module_problem, module_problem_spec, opt_view, RuntimeEvidence};
use crate::platform::package_manager::{refresh_command, refresh_spec, reinstall_command, reinstall_spec};
use crate::providers::nvidia::gpu::NvidiaGpu;
use crate::providers::nvidia::recipe::{prerequisites, prerequisites_spec};
use crate::text::{
    concat, contains, contains_str, is_digit, is_prefix, join, join_strings, lower, lower_string, nat_str, starts_with,
    strs, substring, u64_to_string,
};
use crate::providers::nvidia::uninstall::{insert_sorted, strictly_sorted};

verus! {

/// What the checks are tuned for.
#[derive(Clone, Copy, Debug, PartialEq, Eq, Structural)]
pub enum DoctorProfile {
    ModelTraining,
    CudaDevelopment,
}

/// What running a command showed.
#[derive(Clone, Debug, PartialEq, Eq)]
pub struct CommandEvidence {
    pub exists: bool,
    pub succeeded: bool,
    pub stdout: String,
    pub stderr: String,
}

impl Default for CommandEvidence {
    fn default() -> (c: CommandEvidence)
        ensures
            !c.exists,
            !c.succeeded,
            c.stdout@ == Seq::<char>::empty(),
            c.stderr@ == Seq::<char>::empty(),
    {
        CommandEvidence { exists: false, succeeded: false, stdout: String::new(), stderr: String::new() }
    }
}

/// What `/usr/local/cuda` is.
#[derive(Clone, Debug, PartialEq, Eq)]
pub enum CudaSymlinkState {
    Missing,
    Valid(String),
    Broken(String),
    NotSymlink,
    Unavailable(String),
}

/// Everything the checks look at.
#[derive(Clone, Debug)]
pub struct NvidiaEvidence {
    pub os: OsInfo,
    pub gpus: Vec<NvidiaGpu>,
    pub driver: DriverInstallation,
    pub nvidia_module_loaded: bool,
    pub nvidia_smi: CommandEvidence,
    pub kernel_release: String,
    pub matching_kernel_headers: bool,
    pub secure_boot_enabled: Option<bool>,
    pub dkms_status: Option<String>,
    pub driver_version: Option<String>,
    pub driver_module_signed: bool,
    pub toolkit_packages: Vec<String>,
    pub managed_toolkit_version: Option<String>,
    pub managed_nvcc: CommandEvidence,
    pub nvcc: CommandEvidence,
    pub nvcc_path: Option<String>,
    pub nvcc_version: Option<String>,
    pub cuda_symlink: CudaSymlinkState,
    pub installed_cuda_versions: Vec<String>,
}

impl NvidiaEvidence {
    /// Some system package of the Toolkit is installed.
    pub fn toolkit_installed(&self) -> (b: bool)
        ensures
            b == (self.toolkit_packages@.len() > 0),
    {
        self.toolkit_packages.len() > 0
    }
}

// ---------------------------------------------------------------------------
// The fixes on offer

pub open spec fn arc_install_spec() -> CommandView {
    cmd("arc"@, seq!["install"@])
}

pub open spec fn dkms_rebuild_spec(kernel: Seq<char>) -> CommandView {
    sudo("dkms"@, seq!["autoinstall"@, "-k"@, kernel])
}

/// The prerequisites of the release, or none where it has no recipe.
pub open spec fn prerequisites_or_none(os: OsInfo, kernel: Seq<char>) -> Seq<CommandView> {
    match prerequisites_spec(os, kernel) {
        Ok(v) => v,
        Err(_) => Seq::empty(),
    }
}

pub open spec fn option_seq(o: Option<CommandView>) -> Seq<CommandView> {
    match o {
        Some(c) => seq![c],
        None => Seq::empty(),
    }
}

/// The packages of a managed installation, working or broken.
pub open spec fn driver_packages_spec(d: DriverInstallation) -> Seq<Seq<char>> {
    match d {
        DriverInstallation::Managed { packages, .. } => strs(packages@),
        DriverInstallation::BrokenManaged { packages, .. } => strs(packages@),
        _ => Seq::empty(),
    }
}

pub open spec fn mentions_dkms(packages: Seq<Seq<char>>) -> bool {
    exists|i: int| 0 <= i < packages.len() && contains(#[trigger] packages[i], "dkms"@)
}

/// Reinstalling a broken managed driver: the prerequisites, a metadata refresh,
/// the exact packages, a DKMS rebuild where DKMS is in use, and a module check.
pub open spec fn repair_spec(e: NvidiaEvidence) -> Seq<CommandView> {
    match e.driver {
        DriverInstallation::BrokenManaged { packages, .. } => {
            let m = manager_of(e.os.distribution);
            prerequisites_or_none(e.os, e.kernel_release@) + seq![refresh_spec(m)] + option_seq(
                reinstall_spec(m, strs(packages@)),
            ) + (if e.dkms_status is Some || mentions_dkms(strs(packages@)) {
                seq![dkms_rebuild_spec(e.kernel_release@)]
            } else {
                Seq::empty()
            }) + seq![cmd("modinfo"@, seq!["nvidia"@])]
        },
        _ => Seq::empty(),
    }
}

/// Pointing `/usr/local/cuda` at the newest installed Toolkit, or saying how
/// to where none is known.
pub open spec fn symlink_repair_spec(versions: Seq<Seq<char>>) -> (Seq<CommandView>, Seq<Seq<char>>) {
    if versions.len() == 0 {
        (
            Seq::empty(),
            seq![
                "Select a directory installed by the system CUDA packages under /usr/local/cuda-VERSION, then create /usr/local/cuda as a symlink to that exact directory."@,
            ],
        )
    } else {
        (
            seq![
                sudo("ln"@, seq!["-sfn"@, "/usr/local/cuda-"@ + versions.last(), "/usr/local/cuda"@]),
                cmd("test"@, seq!["-x"@, "/usr/local/cuda/bin/nvcc"@]),
            ],
            Seq::empty(),
        )
    }
}

/// `arc install` for a missing or managed driver; manual steps for an unmanaged one.
pub open spec fn install_driver_spec(d: DriverInstallation) -> (Seq<CommandView>, Seq<Seq<char>>) {
    match d {
        DriverInstallation::Unmanaged { evidence, .. } => (
            Seq::empty(),
            seq![
                "Do not use arc to overwrite this installation (evidence: "@ + evidence_list(
                    evidence@,
                ) + "). Repair or remove it with the original installation method."@,
            ],
        ),
        _ => (seq![arc_install_spec()], Seq::empty()),
    }
}

pub open spec fn reboot_recheck_fix() -> FixView {
    (
        FixId::RebootThenRecheck,
        "Reboot, then verify the driver again"@,
        Seq::empty(),
        seq![
            "Run `sudo reboot`."@,
            "If the module still does not load after rebooting, run `sudo modprobe nvidia` and inspect the kernel logs reported by `arc doctor`."@,
        ],
        1u16,
    )
}

pub open spec fn inspect_hardware_fix() -> FixView {
    (
        FixId::InspectHardware,
        "Verify that the NVIDIA GPU is visible"@,
        seq![cmd("lspci"@, seq!["-nnk"@, "-d"@, "10de:"@])],
        Seq::empty(),
        5u16,
    )
}

pub open spec fn kernel_headers_fix(e: NvidiaEvidence) -> FixView {
    (
        FixId::InstallKernelHeaders,
        "Install exact prerequisites for the running kernel"@,
        prerequisites_or_none(e.os, e.kernel_release@),
        Seq::empty(),
        10u16,
    )
}

pub open spec fn install_driver_fix(e: NvidiaEvidence) -> FixView {
    (
        FixId::InstallDriver,
        "Install a missing managed driver or handle an unmanaged driver manually"@,
        install_driver_spec(e.driver).0,
        install_driver_spec(e.driver).1,
        20u16,
    )
}

pub open spec fn repair_driver_fix(e: NvidiaEvidence) -> FixView {
    (
        FixId::RepairManagedDriver,
        "Reinstall the exact managed NVIDIA packages and rebuild the running-kernel module"@,
        repair_spec(e),
        Seq::empty(),
        20u16,
    )
}

pub open spec fn upgrade_driver_fix() -> FixView {
    (FixId::UpgradeDriver, "Upgrade the managed NVIDIA driver"@, seq![arc_install_spec()], Seq::empty(), 20u16)
}

pub open spec fn reinstall_libraries_fix(e: NvidiaEvidence) -> FixView {
    (
        FixId::ReinstallDriverLibraries,
        "Reinstall the managed NVIDIA packages"@,
        option_seq(reinstall_spec(manager_of(e.os.distribution), driver_packages_spec(e.driver))),
        Seq::empty(),
        30u16,
    )
}

pub open spec fn rebuild_dkms_fix(e: NvidiaEvidence) -> FixView {
    (
        FixId::RebuildDkms,
        "Rebuild NVIDIA DKMS modules"@,
        seq![dkms_rebuild_spec(e.kernel_release@)],
        seq!["If DKMS cannot build the matching module, reinstall the managed NVIDIA driver packages."@],
        40u16,
    )
}

pub open spec fn install_toolkit_fix() -> FixView {
    (FixId::InstallToolkit, "Install or repair the CUDA Toolkit"@, seq![arc_install_spec()], Seq::empty(), 50u16)
}

pub open spec fn repair_symlink_fix(e: NvidiaEvidence) -> FixView {
    let r = symlink_repair_spec(strs(e.installed_cuda_versions@));
    (FixId::RepairCudaSymlink, "Repair /usr/local/cuda"@, r.0, r.1, 60u16)
}

pub open spec fn debug_driver_fix() -> FixView {
    (
        FixId::DebugDriver,
        "Try loading the module and inspect the kernel logs"@,
        seq![
            sudo("modprobe"@, seq!["nvidia"@]),
            cmd("journalctl"@, seq!["-k"@, "-b"@, "-g"@, "NVRM|nvidia|nouveau"@]),
            cmd("dkms"@, seq!["status"@]),
        ],
        Seq::empty(),
        80u16,
    )
}

pub open spec fn secure_boot_fix() -> FixView {
    (
        FixId::ResolveSecureBoot,
        "Enroll the NVIDIA module signing key or disable Secure Boot"@,
        Seq::empty(),
        seq![
            "Enroll the distribution/NVIDIA module signing key (MOK), or disable Secure Boot in firmware, then reboot."@,
        ],
        85u16,
    )
}

pub open spec fn debug_toolkit_fix() -> FixView {
    (
        FixId::DebugToolkit,
        "Inspect Toolkit paths"@,
        seq![cmd("readlink"@, seq!["-f"@, "/usr/local/cuda"@]), cmd("nvcc"@, seq!["--version"@])],
        Seq::empty(),
        80u16,
    )
}

pub open spec fn reboot_fix() -> FixView {
    (
        FixId::Reboot,
        "Reboot to load the repaired driver"@,
        seq![sudo("systemctl"@, seq!["reboot"@])],
        Seq::empty(),
        90u16,
    )
}

/// Every fix that doctor knows, with its commands for this machine.
pub open spec fn available_fixes_spec(e: NvidiaEvidence) -> Seq<FixView> {
    seq![
        reboot_recheck_fix(),
        inspect_hardware_fix(),
        kernel_headers_fix(e),
        install_driver_fix(e),
        repair_driver_fix(e),
        upgrade_driver_fix(),
        reinstall_libraries_fix(e),
        rebuild_dkms_fix(e),
        install_toolkit_fix(),
        repair_symlink_fix(e),
        debug_driver_fix(),
        secure_boot_fix(),
        debug_toolkit_fix(),
        reboot_fix(),
    ]
}

fn arc_install_command() -> (c: CommandSpec)
    ensures
        c@ == arc_install_spec(),
{
    let c = CommandSpec::new("arc", &["install"]);
    assert(c@ =~= arc_install_spec());
    c
}

fn dkms_rebuild_command(kernel: &str) -> (c: CommandSpec)
    ensures
        c@ == dkms_rebuild_spec(kernel@),
{
    let c = CommandSpec::sudo("dkms", &["autoinstall", "-k", kernel]);
    assert(c@ =~~= dkms_rebuild_spec(kernel@));
    c
}

fn one_line(s: &str) -> (v: Vec<String>)
    ensures
        strs(v@) == seq![s@],
{
    let v = vec![String::from_str(s)];
    assert(strs(v@) =~= seq![s@]);
    v
}

fn fix_with_manual(
    id: FixId,
    title: &str,
    commands: Vec<CommandSpec>,
    manual_steps: Vec<String>,
    order: u16,
) -> (f: Fix)
    ensures
        f@ == (id, title@, cmds(commands@), strs(manual_steps@), order),
{
    Fix { id, title: String::from_str(title), commands, manual_steps, order }
}

fn fix(id: FixId, title: &str, commands: Vec<CommandSpec>, order: u16) -> (f: Fix)
    ensures
        f@ == (id, title@, cmds(commands@), Seq::<Seq<char>>::empty(), order),
{
    let steps: Vec<String> = Vec::new();
    assert(strs(steps@) =~= Seq::<Seq<char>>::empty());
    fix_with_manual(id, title, commands, steps, order)
}

fn option_vec(o: Option<CommandSpec>) -> (v: Vec<CommandSpec>)
    ensures
        cmds(v@) == option_seq(
            match o {
                Some(c) => Some(c@),
                None => None,
            },
        ),
{
    match o {
        Some(c) => {
            let v = vec![c];
            assert(cmds(v@) =~= seq![v@[0]@]);
            v
        },
        None => {
            let v: Vec<CommandSpec> = Vec::new();
            assert(cmds(v@) =~= Seq::<CommandView>::empty());
            v
        },
    }
}

fn prerequisites_or_empty(os: &OsInfo, kernel: &str) -> (v: Vec<CommandSpec>)
    ensures
        cmds(v@) == prerequisites_or_none(*os, kernel@),
{
    match prerequisites(os, kernel) {
        Ok(v) => v,
        Err(_) => {
            let v: Vec<CommandSpec> = Vec::new();
            assert(cmds(v@) =~= Seq::<CommandView>::empty());
            v
        },
    }
}

fn any_mentions_dkms(packages: &Vec<String>) -> (b: bool)
    ensures
        b == mentions_dkms(strs(packages@)),
{
    let mut i: usize = 0;
    while i < packages.len()
        invariant
            i <= packages.len(),
            forall|j: int| 0 <= j < i ==> !contains(#[trigger] strs(packages@)[j], "dkms"@),
        decreases packages.len() - i,
    {
        if contains_str(packages[i].as_str(), "dkms") {
            assert(contains(strs(packages@)[i as int], "dkms"@));
            return true;
        }
        assert(strs(packages@)[i as int] == packages@[i as int]@);
        i = i + 1;
    }
    false
}

fn append_commands(v: &mut Vec<CommandSpec>, more: Vec<CommandSpec>)
    ensures
        cmds(final(v)@) == cmds(old(v)@) + cmds(more@),
{
    let ghost start = cmds(v@);
    let mut rest = more;
    let ghost all = cmds(rest@);
    let n = rest.len();
    let mut k: usize = 0;
    while rest.len() > 0
        invariant
            all.len() == n,
            k + rest@.len() == all.len(),
            cmds(rest@) == all.skip(k as int),
            cmds(v@) == start + all.take(k as int),
        decreases rest.len(),
    {
        let ghost before = rest@;
        let c = rest.remove(0);
        assert(c@ == all[k as int]) by {
            assert(cmds(before)[0] == all.skip(k as int)[0]);
        }
        assert(cmds(rest@) =~= all.skip(k + 1)) by {
            assert forall|j: int| 0 <= j < cmds(rest@).len() implies cmds(rest@)[j] == all.skip(k + 1)[j] by {
                assert(rest@[j] == before[j + 1]);
                assert(cmds(before)[j + 1] == all.skip(k as int)[j + 1]);
            }
        }
        let ghost vv = cmds(v@);
        v.push(c);
        assert(cmds(v@) =~= vv.push(c@));
        assert(all.take(k + 1) =~= all.take(k as int).push(all[k as int]));
        k = k + 1;
    }
    assert(all.take(k as int) =~= all);
}

/// The commands that reinstall a broken managed driver.
fn managed_driver_repair_commands(e: &NvidiaEvidence, prerequisites: Vec<CommandSpec>) -> (v: Vec<CommandSpec>)
    requires
        cmds(prerequisites@) == prerequisites_or_none(e.os, e.kernel_release@),
    ensures
        cmds(v@) == repair_spec(*e),
{
    match &e.driver {
        DriverInstallation::BrokenManaged { packages, .. } => {
            let m = e.os.package_manager();
            let mut v = prerequisites;
            let r = refresh_command(m);
            let ghost v0 = cmds(v@);
            v.push(r);
            assert(cmds(v@) =~= v0 + seq![refresh_spec(m)]);
            append_commands(&mut v, option_vec(reinstall_command(m, packages.as_slice())));
            let ghost v1 = cmds(v@);
            if e.dkms_status.is_some() || any_mentions_dkms(packages) {
                v.push(dkms_rebuild_command(e.kernel_release.as_str()));
                assert(cmds(v@) =~= v1 + seq![dkms_rebuild_spec(e.kernel_release@)]);
            } else {
                assert(v1 + Seq::<CommandView>::empty() =~= v1);
            }
            let ghost v2 = cmds(v@);
            let modinfo = CommandSpec::new("modinfo", &["nvidia"]);
            v.push(modinfo);
            assert(cmds(v@) =~= v2 + seq![modinfo@]);
            assert(modinfo@ =~~= cmd("modinfo"@, seq!["nvidia"@]));
            assert(cmds(v@) =~~= repair_spec(*e));
            v
        },
        _ => {
            let v: Vec<CommandSpec> = Vec::new();
            assert(cmds(v@) =~= Seq::<CommandView>::empty());
            v
        },
    }
}

/// The packages of the managed driver, reinstalled.
fn managed_package_reinstall_commands(os: &OsInfo, packages: &[String]) -> (v: Vec<CommandSpec>)
    ensures
        cmds(v@) == option_seq(reinstall_spec(manager_of(os.distribution), strs(packages@))),
{
    let c = reinstall_command(os.package_manager(), packages);
    option_vec(c)
}

fn driver_package_list(driver: &DriverInstallation) -> (v: Vec<String>)
    ensures
        strs(v@) == driver_packages_spec(*driver),
{
    match driver {
        DriverInstallation::Managed { packages, .. } => packages.clone(),
        DriverInstallation::BrokenManaged { packages, .. } => packages.clone(),
        _ => {
            let v: Vec<String> = Vec::new();
            assert(strs(v@) =~= Seq::<Seq<char>>::empty());
            v
        },
    }
}

fn cuda_symlink_repair(versions: &Vec<String>) -> (r: (Vec<CommandSpec>, Vec<String>))
    ensures
        (cmds(r.0@), strs(r.1@)) == symlink_repair_spec(strs(versions@)),
{
    if versions.len() == 0 {
        let v: Vec<CommandSpec> = Vec::new();
        assert(cmds(v@) =~= Seq::<CommandView>::empty());
        let steps = one_line(
            "Select a directory installed by the system CUDA packages under /usr/local/cuda-VERSION, then create /usr/local/cuda as a symlink to that exact directory.",
        );
        return (v, steps);
    }
    let last = &versions[versions.len() - 1];
    let target = crate::text::concat("/usr/local/cuda-", last.as_str());
    let ln = CommandSpec::sudo("ln", &["-sfn", target.as_str(), "/usr/local/cuda"]);
    let test = CommandSpec::new("test", &["-x", "/usr/local/cuda/bin/nvcc"]);
    let v = vec![ln, test];
    let steps: Vec<String> = Vec::new();
    assert(strs(versions@).last() == last@);
    assert(cmds(v@) =~~= symlink_repair_spec(strs(versions@)).0);
    assert(strs(steps@) =~= Seq::<Seq<char>>::empty());
    (v, steps)
}

fn install_driver_fix_parts(driver: &DriverInstallation) -> (r: (Vec<CommandSpec>, Vec<String>))
    ensures
        (cmds(r.0@), strs(r.1@)) == install_driver_spec(*driver),
{
    match driver {
        DriverInstallation::Unmanaged { evidence, .. } => {
            let v: Vec<CommandSpec> = Vec::new();
            assert(cmds(v@) =~= Seq::<CommandView>::empty());
            let mut m = String::from_str("Do not use arc to overwrite this installation (evidence: ");
            let listed = describe_evidence(evidence);
            m.append(listed.as_str());
            m.append("). Repair or remove it with the original installation method.");
            let steps = vec![m];
            assert(strs(steps@) =~= install_driver_spec(*driver).1);
            (v, steps)
        },
        _ => {
            let v = vec![arc_install_command()];
            let steps: Vec<String> = Vec::new();
            assert(cmds(v@) =~= seq![arc_install_spec()]);
            assert(strs(steps@) =~= Seq::<Seq<char>>::empty());
            (v, steps)
        },
    }
}

fn no_commands() -> (v: Vec<CommandSpec>)
    ensures
        cmds(v@) == Seq::<CommandView>::empty(),
{
    let v: Vec<CommandSpec> = Vec::new();
    assert(cmds(v@) =~= Seq::<CommandView>::empty());
    v
}

fn single(c: CommandSpec) -> (v: Vec<CommandSpec>)
    ensures
        cmds(v@) == seq![c@],
{
    let v = vec![c];
    assert(cmds(v@) =~= seq![v@[0]@]);
    v
}

fn push_command(v: &mut Vec<CommandSpec>, c: CommandSpec)
    ensures
        cmds(final(v)@) == cmds(old(v)@).push(c@),
{
    let ghost before = cmds(v@);
    v.push(c);
    assert(cmds(v@) =~= before.push(c@));
}

fn push_fix(v: &mut Vec<Fix>, f: Fix)
    ensures
        fix_views(final(v)@) == fix_views(old(v)@).push(f@),
{
    let ghost before = fix_views(v@);
    v.push(f);
    assert(fix_views(v@) =~= before.push(f@));
}

fn reboot_recheck() -> (f: Fix)
    ensures
        f@ == reboot_recheck_fix(),
{
    let mut steps = one_line("Run `sudo reboot`.");
    let ghost s0 = strs(steps@);
    let second = String::from_str(
        "If the module still does not load after rebooting, run `sudo modprobe nvidia` and inspect the kernel logs reported by `arc doctor`.",
    );
    steps.push(second);
    assert(strs(steps@) =~= s0.push(second@));
    assert(strs(steps@) =~= reboot_recheck_fix().3);
    fix_with_manual(FixId::RebootThenRecheck, "Reboot, then verify the driver again", no_commands(), steps, 1)
}

fn inspect_hardware() -> (f: Fix)
    ensures
        f@ == inspect_hardware_fix(),
{
    let c = CommandSpec::new("lspci", &["-nnk", "-d", "10de:"]);
    assert(c@ =~~= cmd("lspci"@, seq!["-nnk"@, "-d"@, "10de:"@]));
    fix(FixId::InspectHardware, "Verify that the NVIDIA GPU is visible", single(c), 5)
}

fn rebuild_dkms(kernel: &str) -> (f: Fix)
    ensures
        f@ == (
            FixId::RebuildDkms,
            "Rebuild NVIDIA DKMS modules"@,
            seq![dkms_rebuild_spec(kernel@)],
            seq!["If DKMS cannot build the matching module, reinstall the managed NVIDIA driver packages."@],
            40u16,
        ),
{
    fix_with_manual(
        FixId::RebuildDkms,
        "Rebuild NVIDIA DKMS modules",
        single(dkms_rebuild_command(kernel)),
        one_line("If DKMS cannot build the matching module, reinstall the managed NVIDIA driver packages."),
        40,
    )
}

fn debug_driver() -> (f: Fix)
    ensures
        f@ == debug_driver_fix(),
{
    let a = CommandSpec::sudo("modprobe", &["nvidia"]);
    let b = CommandSpec::new("journalctl", &["-k", "-b", "-g", "NVRM|nvidia|nouveau"]);
    let c = CommandSpec::new("dkms", &["status"]);
    assert(a@ =~~= sudo("modprobe"@, seq!["nvidia"@]));
    assert(b@ =~~= cmd("journalctl"@, seq!["-k"@, "-b"@, "-g"@, "NVRM|nvidia|nouveau"@]));
    assert(c@ =~~= cmd("dkms"@, seq!["status"@]));
    let mut v = single(a);
    push_command(&mut v, b);
    push_command(&mut v, c);
    assert(cmds(v@) =~= debug_driver_fix().2);
    fix(FixId::DebugDriver, "Try loading the module and inspect the kernel logs", v, 80)
}

fn secure_boot() -> (f: Fix)
    ensures
        f@ == secure_boot_fix(),
{
    fix_with_manual(
        FixId::ResolveSecureBoot,
        "Enroll the NVIDIA module signing key or disable Secure Boot",
        no_commands(),
        one_line(
            "Enroll the distribution/NVIDIA module signing key (MOK), or disable Secure Boot in firmware, then reboot.",
        ),
        85,
    )
}

fn debug_toolkit() -> (f: Fix)
    ensures
        f@ == debug_toolkit_fix(),
{
    let a = CommandSpec::new("readlink", &["-f", "/usr/local/cuda"]);
    let b = CommandSpec::new("nvcc", &["--version"]);
    assert(a@ =~~= cmd("readlink"@, seq!["-f"@, "/usr/local/cuda"@]));
    assert(b@ =~~= cmd("nvcc"@, seq!["--version"@]));
    let mut v = single(a);
    push_command(&mut v, b);
    assert(cmds(v@) =~= debug_toolkit_fix().2);
    fix(FixId::DebugToolkit, "Inspect Toolkit paths", v, 80)
}

fn reboot() -> (f: Fix)
    ensures
        f@ == reboot_fix(),
{
    let c = CommandSpec::sudo("systemctl", &["reboot"]);
    assert(c@ =~~= sudo("systemctl"@, seq!["reboot"@]));
    fix(FixId::Reboot, "Reboot to load the repaired driver", single(c), 90)
}

/// Every fix that doctor knows, in a fixed order, with its commands for this machine.
pub fn available_fixes(e: &NvidiaEvidence) -> (r: Result<Vec<Fix>, ArcError>)
    ensures
        r matches Ok(v) && fix_views(v@) == available_fixes_spec(*e),
{
    let (install_commands, install_steps) = install_driver_fix_parts(&e.driver);
    let repair = managed_driver_repair_commands(e, prerequisites_or_empty(&e.os, e.kernel_release.as_str()));
    let (symlink_commands, symlink_steps) = cuda_symlink_repair(&e.installed_cuda_versions);
    let packages = driver_package_list(&e.driver);
    let mut fixes: Vec<Fix> = Vec::new();
    push_fix(&mut fixes, reboot_recheck());
    push_fix(&mut fixes, inspect_hardware());
    push_fix(
        &mut fixes,
        fix(
            FixId::InstallKernelHeaders,
            "Install exact prerequisites for the running kernel",
            prerequisites_or_empty(&e.os, e.kernel_release.as_str()),
            10,
        ),
    );
    push_fix(
        &mut fixes,
        fix_with_manual(
            FixId::InstallDriver,
            "Install a missing managed driver or handle an unmanaged driver manually",
            install_commands,
            install_steps,
            20,
        ),
    );
    push_fix(
        &mut fixes,
        fix(
            FixId::RepairManagedDriver,
            "Reinstall the exact managed NVIDIA packages and rebuild the running-kernel module",
            repair,
            20,
        ),
    );
    push_fix(
        &mut fixes,
        fix(FixId::UpgradeDriver, "Upgrade the managed NVIDIA driver", single(arc_install_command()), 20),
    );
    push_fix(
        &mut fixes,
        fix(
            FixId::ReinstallDriverLibraries,
            "Reinstall the managed NVIDIA packages",
            managed_package_reinstall_commands(&e.os, packages.as_slice()),
            30,
        ),
    );
    push_fix(&mut fixes, rebuild_dkms(e.kernel_release.as_str()));
    push_fix(
        &mut fixes,
        fix(FixId::InstallToolkit, "Install or repair the CUDA Toolkit", single(arc_install_command()), 50),
    );
    push_fix(
        &mut fixes,
        fix_with_manual(FixId::RepairCudaSymlink, "Repair /usr/local/cuda", symlink_commands, symlink_steps, 60),
    );
    push_fix(&mut fixes, debug_driver());
    push_fix(&mut fixes, secure_boot());
    push_fix(&mut fixes, debug_toolkit());
    push_fix(&mut fixes, reboot());
    assert(fix_views(fixes@) =~= available_fixes_spec(*e));
    Ok(fixes)
}


// ---------------------------------------------------------------------------
// The checks

pub open spec fn text_or(o: Option<String>, default: Seq<char>) -> Seq<char> {
    match o {
        Some(s) => s@,
        None => default,
    }
}

pub open spec fn yes_no_spec(b: bool) -> Seq<char> {
    if b {
        "yes"@
    } else {
        "no"@
    }
}

pub open spec fn list_or_none_spec(v: Seq<Seq<char>>) -> Seq<char> {
    if v.len() == 0 {
        "none"@
    } else {
        join(v, ", "@)
    }
}

pub open spec fn outcome_text(c: CommandEvidence) -> Seq<char> {
    if !c.exists {
        "not found"@
    } else if c.succeeded {
        "succeeded"@
    } else {
        "failed"@
    }
}

/// How a command went, and what it wrote to stderr.
pub open spec fn evidence_lines_spec(name: Seq<char>, c: CommandEvidence) -> Seq<Seq<char>> {
    seq![name + ": "@ + outcome_text(c), "stderr: "@ + c.stderr@]
}

pub open spec fn symlink_description_spec(s: CudaSymlinkState) -> Seq<char> {
    match s {
        CudaSymlinkState::Missing => "/usr/local/cuda: missing"@,
        CudaSymlinkState::Valid(p) => "/usr/local/cuda -> "@ + p@ + " (valid)"@,
        CudaSymlinkState::Broken(p) => "/usr/local/cuda -> "@ + p@ + " (broken)"@,
        CudaSymlinkState::NotSymlink => "/usr/local/cuda is not a symlink"@,
        CudaSymlinkState::Unavailable(m) => "/usr/local/cuda unavailable: "@ + m@,
    }
}

/// NVML reported that the kernel driver and its libraries differ.
pub open spec fn version_mismatch_spec(e: NvidiaEvidence) -> bool {
    contains(
        lower(e.nvidia_smi.stdout@ + "\n"@ + e.nvidia_smi.stderr@),
        "driver/library version mismatch"@,
    )
}

pub open spec fn runtime_state_spec(e: NvidiaEvidence) -> DriverRuntimeState {
    classify_spec(
        e.driver is Managed,
        opt_text(e.driver_version),
        e.nvidia_module_loaded,
        e.nvidia_smi.exists && e.nvidia_smi.succeeded,
        Some(e.kernel_release@),
        opt_text(e.dkms_status),
        e.secure_boot_enabled,
        e.driver_module_signed,
    )
}

pub open spec fn gpu_check_spec(e: NvidiaEvidence) -> CheckView {
    let ok = e.gpus@.len() > 0;
    (
        DiagnosticId::NvidiaGpu,
        DiagnosticSection::Hardware,
        "NVIDIA GPU detected"@,
        if ok {
            DiagnosticStatus::Pass
        } else {
            DiagnosticStatus::Error
        },
        seq![
            if ok {
                nat_str(e.gpus@.len()) + " NVIDIA GPU(s) detected"@
            } else {
                "No NVIDIA PCI device found"@
            },
        ],
        if ok {
            None
        } else {
            Some("No NVIDIA GPU was detected by lspci or sysfs."@)
        },
        Seq::empty(),
        seq![FixId::InspectHardware],
    )
}

/// The release has no repository, is WSL, or the GPU policy refuses it.
pub open spec fn os_refused(e: NvidiaEvidence, profile: DoctorProfile) -> bool {
    ||| resolve_spec(e.os) is Err
    ||| e.os.is_wsl
    ||| policy_refusal(
        e.os,
        e.gpus@,
        DriverPreference::Auto,
        opt_text(e.managed_toolkit_version),
        profile == DoctorProfile::CudaDevelopment,
    )
}

/// What the OS check says when it refuses: the message of the first refusal
/// among the repository, WSL and the GPU policy.
pub open spec fn os_refusal_text(e: NvidiaEvidence, profile: DoctorProfile) -> Seq<char> {
    match resolve_spec(e.os) {
        Err(k) => resolve_error_message(e.os, k),
        Ok(_) => if e.os.is_wsl {
            "NVIDIA"@
                + " driver installation is not supported inside WSL. Install the GPU driver on the Windows host; WSL uses the host driver."@
        } else {
            policy_refusal_message(e.os, e.gpus@, DriverPreference::Auto)
        },
    }
}

pub open spec fn release_warning_spec(os: OsInfo) -> Option<Seq<char>> {
    match resolve_spec(os) {
        Ok(r) => if !r.3 {
            Some("Repository-compatible via "@ + r.0 + ", but this exact release is not NVIDIA-validated."@)
        } else {
            None
        },
        Err(_) => None,
    }
}

pub open spec fn repository_line_spec(os: OsInfo) -> Seq<char> {
    match resolve_spec(os) {
        Ok(r) => "repository target: "@ + r.0 + "; family: "@ + r.2 + "; NVIDIA validated: "@ + yes_no_spec(
            r.3,
        ),
        Err(_) => "repository target: unavailable"@,
    }
}

/// The OS check; `refusal` is the message of the first refusal, when there is one.
pub open spec fn os_check_spec(e: NvidiaEvidence, profile: DoctorProfile, refusal: Seq<char>) -> CheckView {
    (
        DiagnosticId::OperatingSystem,
        DiagnosticSection::OperatingSystem,
        "Supported OS/GPU policy"@,
        if os_refused(e, profile) {
            DiagnosticStatus::Error
        } else if release_warning_spec(e.os) is Some {
            DiagnosticStatus::Warning
        } else {
            DiagnosticStatus::Pass
        },
        seq![display_name_spec(e.os) + " ("@ + e.os.architecture@ + ")"@, repository_line_spec(e.os)],
        if os_refused(e, profile) {
            Some(refusal)
        } else {
            release_warning_spec(e.os)
        },
        seq![DiagnosticId::NvidiaGpu],
        Seq::empty(),
    )
}

pub open spec fn headers_check_spec(e: NvidiaEvidence) -> CheckView {
    let h = e.matching_kernel_headers;
    (
        DiagnosticId::KernelHeaders,
        DiagnosticSection::OperatingSystem,
        "Headers for the running kernel"@,
        if h {
            DiagnosticStatus::Pass
        } else {
            DiagnosticStatus::Warning
        },
        seq!["kernel "@ + e.kernel_release@ + ": headers "@ + yes_no_spec(h)],
        if h {
            None
        } else {
            Some("Matching kernel development packages must be installed before DKMS builds the driver."@)
        },
        Seq::empty(),
        seq![FixId::InstallKernelHeaders],
    )
}

pub open spec fn secure_boot_check_spec(e: NvidiaEvidence) -> CheckView {
    let sb = e.secure_boot_enabled;
    (
        DiagnosticId::SecureBoot,
        DiagnosticSection::OperatingSystem,
        "Secure Boot state"@,
        if sb == Some(false) {
            DiagnosticStatus::Pass
        } else {
            DiagnosticStatus::Warning
        },
        seq![
            "Secure Boot: "@ + match sb {
                Some(true) => "enabled"@,
                Some(false) => "disabled"@,
                None => "unknown"@,
            },
        ],
        if sb is None {
            Some("Secure Boot state could not be determined."@)
        } else {
            None
        },
        Seq::empty(),
        Seq::empty(),
    )
}

pub open spec fn driver_status_spec(d: DriverInstallation) -> DiagnosticStatus {
    match d {
        DriverInstallation::Managed { .. } => DiagnosticStatus::Pass,
        DriverInstallation::Unmanaged { working, .. } => if working {
            DiagnosticStatus::Warning
        } else {
            DiagnosticStatus::Error
        },
        _ => DiagnosticStatus::Error,
    }
}

pub open spec fn driver_problem_spec(d: DriverInstallation) -> Option<Seq<char>> {
    match d {
        DriverInstallation::Managed { .. } => None,
        DriverInstallation::Missing => Some("No managed NVIDIA driver package installation was detected."@),
        DriverInstallation::BrokenManaged { .. } => Some(
            "NVIDIA packages are installed, but the driver runtime is broken."@,
        ),
        DriverInstallation::Unmanaged { working, evidence } => if working {
            Some(
                "A working unmanaged driver is present (evidence: "@ + evidence_list(evidence@)
                    + "); arc will not overwrite it with repository packages."@,
            )
        } else {
            Some(
                "An unmanaged driver installation appears broken (evidence: "@ + evidence_list(
                    evidence@,
                ) + ") and must be removed with its original installer."@,
            )
        },
    }
}

pub open spec fn driver_check_spec(e: NvidiaEvidence) -> CheckView {
    (
        DiagnosticId::DriverPackage,
        DiagnosticSection::Driver,
        "NVIDIA driver installation method"@,
        driver_status_spec(e.driver),
        seq![description_spec(e.driver)],
        driver_problem_spec(e.driver),
        seq![DiagnosticId::NvidiaGpu],
        if e.driver is BrokenManaged {
            seq![FixId::RepairManagedDriver]
        } else {
            seq![FixId::InstallDriver]
        },
    )
}

pub open spec fn module_fixes_spec(s: DriverRuntimeState) -> Seq<FixId> {
    match s {
        DriverRuntimeState::Operational => Seq::empty(),
        DriverRuntimeState::RebootLikelyRequired => seq![FixId::RebootThenRecheck],
        DriverRuntimeState::DkmsModuleMissing => seq![FixId::RebuildDkms],
        DriverRuntimeState::SecureBootBlocked => seq![FixId::ResolveSecureBoot],
        DriverRuntimeState::Failed => seq![FixId::DebugDriver],
    }
}

pub open spec fn module_check_spec(e: NvidiaEvidence) -> CheckView {
    let loaded = e.nvidia_module_loaded;
    (
        DiagnosticId::DriverModule,
        DiagnosticSection::Driver,
        "NVIDIA kernel module loaded"@,
        if loaded {
            DiagnosticStatus::Pass
        } else {
            DiagnosticStatus::Error
        },
        seq![
            "/sys/module/nvidia: "@ + (if loaded {
                "present"@
            } else {
                "missing"@
            }) + "; DKMS: "@ + text_or(e.dkms_status, "unavailable"@),
        ],
        module_problem_spec(runtime_state_spec(e)),
        seq![DiagnosticId::DriverPackage],
        module_fixes_spec(runtime_state_spec(e)),
    )
}

pub open spec fn smi_check_spec(e: NvidiaEvidence) -> CheckView {
    (
        DiagnosticId::NvidiaSmi,
        DiagnosticSection::Driver,
        "nvidia-smi operational"@,
        if e.nvidia_smi.exists && e.nvidia_smi.succeeded {
            DiagnosticStatus::Pass
        } else {
            DiagnosticStatus::Error
        },
        evidence_lines_spec("nvidia-smi"@, e.nvidia_smi),
        if e.nvidia_smi.succeeded {
            None
        } else {
            Some("nvidia-smi cannot communicate with the driver."@)
        },
        seq![DiagnosticId::DriverModule],
        seq![FixId::DebugDriver],
    )
}

pub open spec fn library_check_spec(e: NvidiaEvidence) -> CheckView {
    let mismatch = version_mismatch_spec(e);
    (
        DiagnosticId::DriverLibrary,
        DiagnosticSection::Driver,
        "Driver and userspace libraries match"@,
        if mismatch {
            DiagnosticStatus::Error
        } else {
            DiagnosticStatus::Pass
        },
        match e.driver_version {
            Some(v) => seq!["driver version: "@ + v@],
            None => Seq::empty(),
        },
        if mismatch {
            Some("NVML reports a driver/library version mismatch."@)
        } else {
            None
        },
        seq![DiagnosticId::DriverPackage],
        seq![FixId::ReinstallDriverLibraries, FixId::Reboot],
    )
}

pub open spec fn toolkit_check_spec(e: NvidiaEvidence, profile: DoctorProfile) -> CheckView {
    let present = e.toolkit_packages@.len() > 0;
    let development = profile == DoctorProfile::CudaDevelopment;
    (
        DiagnosticId::ToolkitInstall,
        DiagnosticSection::CudaToolkit,
        "CUDA Toolkit installation"@,
        if present {
            DiagnosticStatus::Pass
        } else if development {
            DiagnosticStatus::Error
        } else {
            DiagnosticStatus::Warning
        },
        seq![
            "system package(s): "@ + list_or_none_spec(strs(e.toolkit_packages@))
                + "; /usr/local versions: "@ + list_or_none_spec(strs(e.installed_cuda_versions@)),
        ],
        if present {
            None
        } else if development {
            Some("CUDA development requires a Toolkit."@)
        } else {
            Some("No Toolkit detected; this is normal for frameworks that bundle a CUDA runtime."@)
        },
        Seq::empty(),
        if development {
            seq![FixId::InstallToolkit]
        } else {
            Seq::empty()
        },
    )
}

pub open spec fn managed_nvcc_ok(e: NvidiaEvidence) -> bool {
    e.managed_nvcc.exists && e.managed_nvcc.succeeded && e.managed_toolkit_version is Some
}

pub open spec fn active_nvcc_line(e: NvidiaEvidence) -> Seq<char> {
    "active nvcc: "@ + text_or(e.nvcc_path, "not found on PATH"@) + match e.nvcc_version {
        Some(v) => " (CUDA "@ + v@ + ")"@,
        None => Seq::empty(),
    }
}

pub open spec fn nvcc_check_spec(e: NvidiaEvidence) -> CheckView {
    (
        DiagnosticId::Nvcc,
        DiagnosticSection::CudaToolkit,
        "nvcc available"@,
        if managed_nvcc_ok(e) {
            DiagnosticStatus::Pass
        } else {
            DiagnosticStatus::Error
        },
        evidence_lines_spec("system-managed nvcc"@, e.managed_nvcc).push(active_nvcc_line(e))
            + evidence_lines_spec("active nvcc"@, e.nvcc),
        if managed_nvcc_ok(e) {
            None
        } else {
            Some(
                "System Toolkit packages are present, but their nvcc is missing or broken; an unrelated active nvcc does not satisfy this check."@,
            )
        },
        seq![DiagnosticId::ToolkitInstall],
        seq![FixId::InstallToolkit, FixId::DebugToolkit],
    )
}

pub open spec fn symlink_check_spec(e: NvidiaEvidence) -> CheckView {
    let valid = e.cuda_symlink is Valid;
    (
        DiagnosticId::CudaSymlink,
        DiagnosticSection::CudaToolkit,
        "/usr/local/cuda configuration"@,
        if valid {
            DiagnosticStatus::Pass
        } else if e.cuda_symlink is Missing && e.installed_cuda_versions@.len() <= 1 {
            DiagnosticStatus::Warning
        } else {
            DiagnosticStatus::Error
        },
        seq![symlink_description_spec(e.cuda_symlink)],
        if valid {
            None
        } else {
            Some("/usr/local/cuda does not point to a valid Toolkit."@)
        },
        seq![DiagnosticId::ToolkitInstall],
        seq![FixId::RepairCudaSymlink],
    )
}

/// How the driver supports the system Toolkit, where both versions are known.
pub open spec fn compatibility_spec(e: NvidiaEvidence) -> Option<Compatibility> {
    match (e.driver_version, e.managed_toolkit_version) {
        (Some(d), Some(t)) => evaluate_spec(d@, t@),
        _ => None,
    }
}

/// `{:?}` of an optional compatibility.
pub open spec fn compatibility_debug(c: Option<Compatibility>) -> Seq<char> {
    match c {
        None => "None"@,
        Some(Compatibility::Incompatible) => "Some(Incompatible)"@,
        Some(Compatibility::MinorVersionCompatible) => "Some(MinorVersionCompatible)"@,
        Some(Compatibility::BundledDriverOrNewer) => "Some(BundledDriverOrNewer)"@,
    }
}

pub open spec fn compatibility_check_spec(e: NvidiaEvidence) -> CheckView {
    let c = compatibility_spec(e);
    (
        DiagnosticId::DriverToolkitCompatibility,
        DiagnosticSection::CudaToolkit,
        "Driver supports CUDA Toolkit"@,
        match c {
            Some(Compatibility::Incompatible) => DiagnosticStatus::Error,
            Some(Compatibility::MinorVersionCompatible) => DiagnosticStatus::Warning,
            _ => DiagnosticStatus::Pass,
        },
        seq![
            "driver: "@ + text_or(e.driver_version, "unknown"@) + "; system Toolkit: "@ + text_or(
                e.managed_toolkit_version,
                "unknown"@,
            ) + "; compatibility: "@ + compatibility_debug(c),
        ],
        if c == Some(Compatibility::Incompatible) {
            Some("The complete driver version is below the Toolkit's minimum compatibility version."@)
        } else {
            None
        },
        seq![DiagnosticId::NvidiaSmi, DiagnosticId::Nvcc],
        seq![FixId::UpgradeDriver, FixId::Reboot],
    )
}

/// Some prerequisite of a check is among the earlier checks and did not pass.
pub open spec fn blocked(prior: Seq<CheckView>, deps: Seq<DiagnosticId>) -> bool {
    exists|i: int, j: int|
        #![trigger prior[j], deps[i]]
        0 <= i < deps.len() && 0 <= j < prior.len() && prior[j].0 == deps[i] && prior[j].3
            != DiagnosticStatus::Pass
}

/// A check turned into a skipped one: no fixes, and the reason.
pub open spec fn skipped(c: CheckView) -> CheckView {
    (
        c.0,
        c.1,
        c.2,
        DiagnosticStatus::Skipped,
        c.4,
        Some("Skipped because a prerequisite check did not pass."@),
        c.6,
        Seq::empty(),
    )
}

/// Adds a check that depends on earlier ones: skipped when one of them did not pass.
pub open spec fn push_dependent_spec(prior: Seq<CheckView>, c: CheckView) -> Seq<CheckView> {
    prior.push(
        if blocked(prior, c.6) {
            skipped(c)
        } else {
            c
        },
    )
}

/// All checks in order; `refusal` is the message of the OS refusal, if any.
pub open spec fn checks_spec(e: NvidiaEvidence, profile: DoctorProfile, refusal: Seq<char>) -> Seq<CheckView> {
    let s = seq![
        gpu_check_spec(e),
        os_check_spec(e, profile, refusal),
        headers_check_spec(e),
        secure_boot_check_spec(e),
        driver_check_spec(e),
    ];
    let s = push_dependent_spec(s, module_check_spec(e));
    let s = push_dependent_spec(s, smi_check_spec(e));
    let s = push_dependent_spec(s, library_check_spec(e));
    let s = s.push(toolkit_check_spec(e, profile));
    let s = push_dependent_spec(s, nvcc_check_spec(e));
    let s = push_dependent_spec(s, symlink_check_spec(e));
    push_dependent_spec(s, compatibility_check_spec(e))
}

/// `v` are the checks of `e`.
pub open spec fn are_checks_of(v: Seq<CheckView>, e: NvidiaEvidence, profile: DoctorProfile) -> bool {
    v == checks_spec(e, profile, os_refusal_text(e, profile))
}

fn make_check(
    id: DiagnosticId,
    section: DiagnosticSection,
    name: &str,
    status: DiagnosticStatus,
    evidence: Vec<String>,
    problem: Option<String>,
    dependencies: Vec<DiagnosticId>,
    fixes: Vec<FixId>,
) -> (c: DiagnosticCheck)
    ensures
        c@ == (id, section, name@, status, strs(evidence@), opt_text(problem), dependencies@, fixes@),
{
    DiagnosticCheck {
        id,
        section,
        name: String::from_str(name),
        status,
        evidence,
        problem,
        dependencies,
        recommended_fixes: fixes,
    }
}

fn some_text(s: &str) -> (o: Option<String>)
    ensures
        opt_text(o) == Some(s@),
{
    Some(String::from_str(s))
}

fn no_text() -> (o: Option<String>)
    ensures
        opt_text(o) == None::<Seq<char>>,
{
    None
}

fn ids(a: &[DiagnosticId]) -> (v: Vec<DiagnosticId>)
    ensures
        v@ == a@,
{
    let mut v: Vec<DiagnosticId> = Vec::new();
    let mut i: usize = 0;
    while i < a.len()
        invariant
            i <= a.len(),
            v@ == a@.take(i as int),
        decreases a.len() - i,
    {
        v.push(a[i]);
        assert(a@.take(i + 1) =~= a@.take(i as int).push(a@[i as int]));
        i = i + 1;
    }
    assert(a@.take(a.len() as int) =~= a@);
    v
}

fn fix_ids(a: &[FixId]) -> (v: Vec<FixId>)
    ensures
        v@ == a@,
{
    let mut v: Vec<FixId> = Vec::new();
    let mut i: usize = 0;
    while i < a.len()
        invariant
            i <= a.len(),
            v@ == a@.take(i as int),
        decreases a.len() - i,
    {
        v.push(a[i]);
        assert(a@.take(i + 1) =~= a@.take(i as int).push(a@[i as int]));
        i = i + 1;
    }
    assert(a@.take(a.len() as int) =~= a@);
    v
}

fn yes_no(b: bool) -> (s: &'static str)
    ensures
        s@ == yes_no_spec(b),
{
    if b {
        "yes"
    } else {
        "no"
    }
}

fn list_or_none(values: &Vec<String>) -> (s: String)
    ensures
        s@ == list_or_none_spec(strs(values@)),
{
    if values.len() == 0 {
        String::from_str("none")
    } else {
        join_strings(values, ", ")
    }
}

fn command_evidence_lines(name: &str, value: &CommandEvidence) -> (v: Vec<String>)
    ensures
        strs(v@) == evidence_lines_spec(name@, *value),
{
    let outcome = if !value.exists {
        "not found"
    } else if value.succeeded {
        "succeeded"
    } else {
        "failed"
    };
    let first = crate::text::concat3(name, ": ", outcome);
    let second = concat("stderr: ", value.stderr.as_str());
    let v = vec![first, second];
    assert(strs(v@) =~= evidence_lines_spec(name@, *value));
    v
}

fn cuda_symlink_description(state: &CudaSymlinkState) -> (s: String)
    ensures
        s@ == symlink_description_spec(*state),
{
    match state {
        CudaSymlinkState::Missing => String::from_str("/usr/local/cuda: missing"),
        CudaSymlinkState::Valid(p) => crate::text::concat3("/usr/local/cuda -> ", p.as_str(), " (valid)"),
        CudaSymlinkState::Broken(p) => crate::text::concat3("/usr/local/cuda -> ", p.as_str(), " (broken)"),
        CudaSymlinkState::NotSymlink => String::from_str("/usr/local/cuda is not a symlink"),
        CudaSymlinkState::Unavailable(m) => concat("/usr/local/cuda unavailable: ", m.as_str()),
    }
}

fn version_mismatch(e: &NvidiaEvidence) -> (b: bool)
    ensures
        b == version_mismatch_spec(*e),
{
    let all = crate::text::concat3(e.nvidia_smi.stdout.as_str(), "\n", e.nvidia_smi.stderr.as_str());
    let lowered = lower_string(all.as_str());
    contains_str(lowered.as_str(), "driver/library version mismatch")
}

fn text_ref(o: &Option<String>) -> (r: Option<&str>)
    ensures
        opt_view(r) == opt_text(*o),
{
    match o {
        Some(s) => Some(s.as_str()),
        None => None,
    }
}

fn runtime_state(e: &NvidiaEvidence) -> (s: DriverRuntimeState)
    ensures
        s == runtime_state_spec(*e),
{
    classify(
        RuntimeEvidence {
            driver: &e.driver,
            driver_version: text_ref(&e.driver_version),
            module_loaded: e.nvidia_module_loaded,
            runtime_operational: e.nvidia_smi.exists && e.nvidia_smi.succeeded,
            kernel_release: Some(e.kernel_release.as_str()),
            dkms_status: text_ref(&e.dkms_status),
            secure_boot_enabled: e.secure_boot_enabled,
            module_signed: e.driver_module_signed,
        },
    )
}

fn one_string(s: String) -> (v: Vec<String>)
    ensures
        strs(v@) == seq![s@],
{
    let v = vec![s];
    assert(strs(v@) =~= seq![v@[0]@]);
    v
}

fn gpu_check(e: &NvidiaEvidence) -> (c: DiagnosticCheck)
    ensures
        c@ == gpu_check_spec(*e),
{
    let ok = e.gpus.len() > 0;
    let line = if ok {
        let n = u64_to_string(e.gpus.len() as u64);
        concat(n.as_str(), " NVIDIA GPU(s) detected")
    } else {
        String::from_str("No NVIDIA PCI device found")
    };
    let c = make_check(
        DiagnosticId::NvidiaGpu,
        DiagnosticSection::Hardware,
        "NVIDIA GPU detected",
        if ok {
            DiagnosticStatus::Pass
        } else {
            DiagnosticStatus::Error
        },
        one_string(line),
        if ok {
            no_text()
        } else {
            some_text("No NVIDIA GPU was detected by lspci or sysfs.")
        },
        ids(&[]),
        fix_ids(&[FixId::InspectHardware]),
    );
    assert(c@ =~~= gpu_check_spec(*e));
    c
}

/// The message of the first refusal among the repository, the release, WSL
/// and the GPU policy.
fn os_refusal(e: &NvidiaEvidence, profile: DoctorProfile) -> (r: Option<String>)
    ensures
        match r {
            Some(m) => os_refused(*e, profile) && m@ == os_refusal_text(*e, profile),
            None => !os_refused(*e, profile),
        },
{
    match resolve(&e.os) {
        Err(err) => return Some(err.message),
        Ok(_) => {},
    }
    match validate_release(&e.os) {
        Err(err) => return Some(err.message),
        Ok(_) => {},
    }
    match e.os.ensure_driver_installable("NVIDIA") {
        Err(err) => return Some(err.message),
        Ok(_) => {},
    }
    match crate::providers::nvidia::policy::resolve(
        &e.os,
        e.gpus.as_slice(),
        DriverPreference::Auto,
        text_ref(&e.managed_toolkit_version),
        profile == DoctorProfile::CudaDevelopment,
    ) {
        Err(err) => Some(err.message),
        Ok(_) => None,
    }
}

/// The repository line of the OS check, and the warning for a release NVIDIA
/// has not validated.
fn repository_facts(os: &OsInfo) -> (r: (String, Option<String>))
    ensures
        r.0@ == repository_line_spec(*os),
        opt_text(r.1) == release_warning_spec(*os),
{
    match resolve(os) {
        Ok(repository) => {
            let mut line = String::from_str("repository target: ");
            line.append(repository.distro.as_str());
            line.append("; family: ");
            line.append(repository.family.as_str());
            line.append("; NVIDIA validated: ");
            line.append(yes_no(repository.nvidia_validated));
            let warning = if !repository.nvidia_validated {
                Some(
                    crate::text::concat3(
                        "Repository-compatible via ",
                        repository.distro.as_str(),
                        ", but this exact release is not NVIDIA-validated.",
                    ),
                )
            } else {
                None
            };
            (line, warning)
        },
        Err(_) => (String::from_str("repository target: unavailable"), None),
    }
}

fn os_check(e: &NvidiaEvidence, profile: DoctorProfile) -> (c: DiagnosticCheck)
    ensures
        c@ == os_check_spec(*e, profile, os_refusal_text(*e, profile)),
{
    let refusal = os_refusal(e, profile);
    let (repository_line, warning) = repository_facts(&e.os);
    let refused = refusal.is_some();
    let status = if refused {
        DiagnosticStatus::Error
    } else if warning.is_some() {
        DiagnosticStatus::Warning
    } else {
        DiagnosticStatus::Pass
    };
    let name = e.os.display_name();
    let mut first = name;
    first.append(" (");
    first.append(e.os.architecture.as_str());
    first.append(")");
    let ghost l1 = first@;
    let ghost l2 = repository_line@;
    let mut evidence = one_string(first);
    let ghost before = strs(evidence@);
    evidence.push(repository_line);
    assert(strs(evidence@) =~= before.push(l2));
    let problem = if refused {
        refusal
    } else {
        warning
    };
    let c = make_check(
        DiagnosticId::OperatingSystem,
        DiagnosticSection::OperatingSystem,
        "Supported OS/GPU policy",
        status,
        evidence,
        problem,
        ids(&[DiagnosticId::NvidiaGpu]),
        fix_ids(&[]),
    );
    assert(c@ =~~= os_check_spec(*e, profile, os_refusal_text(*e, profile)));
    c
}

fn headers_check(e: &NvidiaEvidence) -> (c: DiagnosticCheck)
    ensures
        c@ == headers_check_spec(*e),
{
    let h = e.matching_kernel_headers;
    let mut line = String::from_str("kernel ");
    line.append(e.kernel_release.as_str());
    line.append(": headers ");
    line.append(yes_no(h));
    let c = make_check(
        DiagnosticId::KernelHeaders,
        DiagnosticSection::OperatingSystem,
        "Headers for the running kernel",
        if h {
            DiagnosticStatus::Pass
        } else {
            DiagnosticStatus::Warning
        },
        one_string(line),
        if h {
            no_text()
        } else {
            some_text("Matching kernel development packages must be installed before DKMS builds the driver.")
        },
        ids(&[]),
        fix_ids(&[FixId::InstallKernelHeaders]),
    );
    assert(c@ =~~= headers_check_spec(*e));
    c
}

fn secure_boot_check(e: &NvidiaEvidence) -> (c: DiagnosticCheck)
    ensures
        c@ == secure_boot_check_spec(*e),
{
    let sb = e.secure_boot_enabled;
    let state = match sb {
        Some(true) => "enabled",
        Some(false) => "disabled",
        None => "unknown",
    };
    let c = make_check(
        DiagnosticId::SecureBoot,
        DiagnosticSection::OperatingSystem,
        "Secure Boot state",
        if sb == Some(false) {
            DiagnosticStatus::Pass
        } else {
            DiagnosticStatus::Warning
        },
        one_string(concat("Secure Boot: ", state)),
        if sb.is_none() {
            some_text("Secure Boot state could not be determined.")
        } else {
            no_text()
        },
        ids(&[]),
        fix_ids(&[]),
    );
    assert(c@ =~~= secure_boot_check_spec(*e));
    c
}

fn driver_check(e: &NvidiaEvidence) -> (c: DiagnosticCheck)
    ensures
        c@ == driver_check_spec(*e),
{
    let (status, problem) = match &e.driver {
        DriverInstallation::Managed { .. } => (DiagnosticStatus::Pass, no_text()),
        DriverInstallation::Missing => (
            DiagnosticStatus::Error,
            some_text("No managed NVIDIA driver package installation was detected."),
        ),
        DriverInstallation::BrokenManaged { .. } => (
            DiagnosticStatus::Error,
            some_text("NVIDIA packages are installed, but the driver runtime is broken."),
        ),
        DriverInstallation::Unmanaged { working, evidence } => {
            let listed = describe_evidence(evidence);
            if *working {
                let m = crate::text::concat3(
                    "A working unmanaged driver is present (evidence: ",
                    listed.as_str(),
                    "); arc will not overwrite it with repository packages.",
                );
                (DiagnosticStatus::Warning, Some(m))
            } else {
                let m = crate::text::concat3(
                    "An unmanaged driver installation appears broken (evidence: ",
                    listed.as_str(),
                    ") and must be removed with its original installer.",
                );
                (DiagnosticStatus::Error, Some(m))
            }
        },
    };
    let fixes = match &e.driver {
        DriverInstallation::BrokenManaged { .. } => fix_ids(&[FixId::RepairManagedDriver]),
        _ => fix_ids(&[FixId::InstallDriver]),
    };
    let c = make_check(
        DiagnosticId::DriverPackage,
        DiagnosticSection::Driver,
        "NVIDIA driver installation method",
        status,
        one_string(e.driver.description()),
        problem,
        ids(&[DiagnosticId::NvidiaGpu]),
        fixes,
    );
    assert(c@ =~~= driver_check_spec(*e));
    c
}

fn module_check(e: &NvidiaEvidence) -> (c: DiagnosticCheck)
    ensures
        c@ == module_check_spec(*e),
{
    let state = runtime_state(e);
    let loaded = e.nvidia_module_loaded;
    let mut line = String::from_str("/sys/module/nvidia: ");
    line.append(
        if loaded {
            "present"
        } else {
            "missing"
        },
    );
    line.append("; DKMS: ");
    match &e.dkms_status {
        Some(d) => line.append(d.as_str()),
        None => line.append("unavailable"),
    }
    let problem = match module_problem(state) {
        Some(p) => Some(String::from_str(p)),
        None => None,
    };
    let fixes = match state {
        DriverRuntimeState::Operational => fix_ids(&[]),
        DriverRuntimeState::RebootLikelyRequired => fix_ids(&[FixId::RebootThenRecheck]),
        DriverRuntimeState::DkmsModuleMissing => fix_ids(&[FixId::RebuildDkms]),
        DriverRuntimeState::SecureBootBlocked => fix_ids(&[FixId::ResolveSecureBoot]),
        DriverRuntimeState::Failed => fix_ids(&[FixId::DebugDriver]),
    };
    let c = make_check(
        DiagnosticId::DriverModule,
        DiagnosticSection::Driver,
        "NVIDIA kernel module loaded",
        if loaded {
            DiagnosticStatus::Pass
        } else {
            DiagnosticStatus::Error
        },
        one_string(line),
        problem,
        ids(&[DiagnosticId::DriverPackage]),
        fixes,
    );
    assert(c@ =~~= module_check_spec(*e));
    c
}

fn smi_check(e: &NvidiaEvidence) -> (c: DiagnosticCheck)
    ensures
        c@ == smi_check_spec(*e),
{
    let c = make_check(
        DiagnosticId::NvidiaSmi,
        DiagnosticSection::Driver,
        "nvidia-smi operational",
        if e.nvidia_smi.exists && e.nvidia_smi.succeeded {
            DiagnosticStatus::Pass
        } else {
            DiagnosticStatus::Error
        },
        command_evidence_lines("nvidia-smi", &e.nvidia_smi),
        if e.nvidia_smi.succeeded {
            no_text()
        } else {
            some_text("nvidia-smi cannot communicate with the driver.")
        },
        ids(&[DiagnosticId::DriverModule]),
        fix_ids(&[FixId::DebugDriver]),
    );
    assert(c@ =~~= smi_check_spec(*e));
    c
}

fn library_check(e: &NvidiaEvidence) -> (c: DiagnosticCheck)
    ensures
        c@ == library_check_spec(*e),
{
    let mismatch = version_mismatch(e);
    let evidence = match &e.driver_version {
        Some(v) => one_string(concat("driver version: ", v.as_str())),
        None => {
            let v: Vec<String> = Vec::new();
            assert(strs(v@) =~= Seq::<Seq<char>>::empty());
            v
        },
    };
    let c = make_check(
        DiagnosticId::DriverLibrary,
        DiagnosticSection::Driver,
        "Driver and userspace libraries match",
        if mismatch {
            DiagnosticStatus::Error
        } else {
            DiagnosticStatus::Pass
        },
        evidence,
        if mismatch {
            some_text("NVML reports a driver/library version mismatch.")
        } else {
            no_text()
        },
        ids(&[DiagnosticId::DriverPackage]),
        fix_ids(&[FixId::ReinstallDriverLibraries, FixId::Reboot]),
    );
    assert(c@ =~~= library_check_spec(*e));
    c
}

fn toolkit_check(e: &NvidiaEvidence, profile: DoctorProfile) -> (c: DiagnosticCheck)
    ensures
        c@ == toolkit_check_spec(*e, profile),
{
    let present = e.toolkit_installed();
    let development = profile == DoctorProfile::CudaDevelopment;
    let mut line = String::from_str("system package(s): ");
    let packages = list_or_none(&e.toolkit_packages);
    line.append(packages.as_str());
    line.append("; /usr/local versions: ");
    let versions = list_or_none(&e.installed_cuda_versions);
    line.append(versions.as_str());
    let c = make_check(
        DiagnosticId::ToolkitInstall,
        DiagnosticSection::CudaToolkit,
        "CUDA Toolkit installation",
        if present {
            DiagnosticStatus::Pass
        } else if development {
            DiagnosticStatus::Error
        } else {
            DiagnosticStatus::Warning
        },
        one_string(line),
        if present {
            no_text()
        } else if development {
            some_text("CUDA development requires a Toolkit.")
        } else {
            some_text("No Toolkit detected; this is normal for frameworks that bundle a CUDA runtime.")
        },
        ids(&[]),
        if development {
            fix_ids(&[FixId::InstallToolkit])
        } else {
            fix_ids(&[])
        },
    );
    assert(c@ =~~= toolkit_check_spec(*e, profile));
    c
}

fn append_strings(v: &mut Vec<String>, more: Vec<String>)
    ensures
        strs(final(v)@) == strs(old(v)@) + strs(more@),
{
    let ghost start = strs(v@);
    let mut rest = more;
    let ghost all = strs(rest@);
    let n = rest.len();
    let mut k: usize = 0;
    while rest.len() > 0
        invariant
            all.len() == n,
            k + rest@.len() == all.len(),
            strs(rest@) == all.skip(k as int),
            strs(v@) == start + all.take(k as int),
        decreases rest.len(),
    {
        let ghost before = rest@;
        let x = rest.remove(0);
        assert(x@ == all[k as int]) by {
            assert(strs(before)[0] == all.skip(k as int)[0]);
        }
        assert(strs(rest@) =~= all.skip(k + 1)) by {
            assert forall|j: int| 0 <= j < strs(rest@).len() implies strs(rest@)[j] == all.skip(k + 1)[j] by {
                assert(rest@[j] == before[j + 1]);
                assert(strs(before)[j + 1] == all.skip(k as int)[j + 1]);
            }
        }
        let ghost vv = strs(v@);
        v.push(x);
        assert(strs(v@) =~= vv.push(x@));
        assert(all.take(k + 1) =~= all.take(k as int).push(all[k as int]));
        k = k + 1;
    }
    assert(all.take(k as int) =~= all);
}

fn nvcc_check(e: &NvidiaEvidence) -> (c: DiagnosticCheck)
    ensures
        c@ == nvcc_check_spec(*e),
{
    let ok = e.managed_nvcc.exists && e.managed_nvcc.succeeded && e.managed_toolkit_version.is_some();
    let mut lines = command_evidence_lines("system-managed nvcc", &e.managed_nvcc);
    let mut active = String::from_str("active nvcc: ");
    match &e.nvcc_path {
        Some(p) => active.append(p.as_str()),
        None => active.append("not found on PATH"),
    }
    match &e.nvcc_version {
        Some(v) => {
            active.append(" (CUDA ");
            active.append(v.as_str());
            active.append(")");
        },
        None => {},
    }
    assert(active@ =~= active_nvcc_line(*e));
    let ghost l0 = strs(lines@);
    let ghost a = active@;
    lines.push(active);
    assert(strs(lines@) =~= l0.push(a));
    append_strings(&mut lines, command_evidence_lines("active nvcc", &e.nvcc));
    let c = make_check(
        DiagnosticId::Nvcc,
        DiagnosticSection::CudaToolkit,
        "nvcc available",
        if ok {
            DiagnosticStatus::Pass
        } else {
            DiagnosticStatus::Error
        },
        lines,
        if ok {
            no_text()
        } else {
            some_text(
                "System Toolkit packages are present, but their nvcc is missing or broken; an unrelated active nvcc does not satisfy this check.",
            )
        },
        ids(&[DiagnosticId::ToolkitInstall]),
        fix_ids(&[FixId::InstallToolkit, FixId::DebugToolkit]),
    );
    assert(c@ =~~= nvcc_check_spec(*e));
    c
}

fn symlink_check(e: &NvidiaEvidence) -> (c: DiagnosticCheck)
    ensures
        c@ == symlink_check_spec(*e),
{
    let valid = match &e.cuda_symlink {
        CudaSymlinkState::Valid(_) => true,
        _ => false,
    };
    let missing = match &e.cuda_symlink {
        CudaSymlinkState::Missing => true,
        _ => false,
    };
    let c = make_check(
        DiagnosticId::CudaSymlink,
        DiagnosticSection::CudaToolkit,
        "/usr/local/cuda configuration",
        if valid {
            DiagnosticStatus::Pass
        } else if missing && e.installed_cuda_versions.len() <= 1 {
            DiagnosticStatus::Warning
        } else {
            DiagnosticStatus::Error
        },
        one_string(cuda_symlink_description(&e.cuda_symlink)),
        if valid {
            no_text()
        } else {
            some_text("/usr/local/cuda does not point to a valid Toolkit.")
        },
        ids(&[DiagnosticId::ToolkitInstall]),
        fix_ids(&[FixId::RepairCudaSymlink]),
    );
    assert(c@ =~~= symlink_check_spec(*e));
    c
}

fn compatibility_of(e: &NvidiaEvidence) -> (c: Option<Compatibility>)
    ensures
        c == compatibility_spec(*e),
{
    match (&e.driver_version, &e.managed_toolkit_version) {
        (Some(d), Some(t)) => evaluate(d.as_str(), t.as_str()),
        _ => None,
    }
}

fn compatibility_check(e: &NvidiaEvidence) -> (c: DiagnosticCheck)
    ensures
        c@ == compatibility_check_spec(*e),
{
    let compatibility = compatibility_of(e);
    let mut line = String::from_str("driver: ");
    match &e.driver_version {
        Some(v) => line.append(v.as_str()),
        None => line.append("unknown"),
    }
    line.append("; system Toolkit: ");
    match &e.managed_toolkit_version {
        Some(v) => line.append(v.as_str()),
        None => line.append("unknown"),
    }
    line.append("; compatibility: ");
    line.append(
        match compatibility {
            None => "None",
            Some(Compatibility::Incompatible) => "Some(Incompatible)",
            Some(Compatibility::MinorVersionCompatible) => "Some(MinorVersionCompatible)",
            Some(Compatibility::BundledDriverOrNewer) => "Some(BundledDriverOrNewer)",
        },
    );
    let incompatible = compatibility == Some(Compatibility::Incompatible);
    let c = make_check(
        DiagnosticId::DriverToolkitCompatibility,
        DiagnosticSection::CudaToolkit,
        "Driver supports CUDA Toolkit",
        match compatibility {
            Some(Compatibility::Incompatible) => DiagnosticStatus::Error,
            Some(Compatibility::MinorVersionCompatible) => DiagnosticStatus::Warning,
            _ => DiagnosticStatus::Pass,
        },
        one_string(line),
        if incompatible {
            some_text("The complete driver version is below the Toolkit's minimum compatibility version.")
        } else {
            no_text()
        },
        ids(&[DiagnosticId::NvidiaSmi, DiagnosticId::Nvcc]),
        fix_ids(&[FixId::UpgradeDriver, FixId::Reboot]),
    );
    assert(c@ =~~= compatibility_check_spec(*e));
    c
}

/// Some prerequisite among `deps` is an earlier check that did not pass.
fn is_blocked(prior: &Vec<DiagnosticCheck>, deps: &Vec<DiagnosticId>) -> (b: bool)
    ensures
        b == blocked(check_views(prior@), deps@),
{
    let ghost pv = check_views(prior@);
    let mut i: usize = 0;
    while i < deps.len()
        invariant
            i <= deps.len(),
            pv == check_views(prior@),
            forall|a: int, j: int|
                #![trigger pv[j], deps@[a]]
                0 <= a < i && 0 <= j < pv.len() ==> !(pv[j].0 == deps@[a] && pv[j].3 != DiagnosticStatus::Pass),
        decreases deps.len() - i,
    {
        let mut j: usize = 0;
        while j < prior.len()
            invariant
                i < deps.len(),
                j <= prior.len(),
                pv == check_views(prior@),
                forall|a: int, k: int|
                    #![trigger pv[k], deps@[a]]
                    0 <= a < i && 0 <= k < pv.len() ==> !(pv[k].0 == deps@[a] && pv[k].3 != DiagnosticStatus::Pass),
                forall|k: int|
                    0 <= k < j ==> !(#[trigger] pv[k].0 == deps@[i as int] && pv[k].3 != DiagnosticStatus::Pass),
            decreases prior.len() - j,
        {
            assert(pv[j as int] == prior@[j as int]@);
            if prior[j].id == deps[i] && prior[j].status != DiagnosticStatus::Pass {
                assert(pv[j as int].0 == deps@[i as int] && pv[j as int].3 != DiagnosticStatus::Pass);
                return true;
            }
            j = j + 1;
        }
        i = i + 1;
    }
    false
}

fn push_check(result: &mut Vec<DiagnosticCheck>, check: DiagnosticCheck)
    ensures
        check_views(final(result)@) == check_views(old(result)@).push(check@),
{
    let ghost before = check_views(result@);
    result.push(check);
    assert(check_views(result@) =~= before.push(check@));
}

/// Adds a check whose prerequisites are among the earlier checks: when one
/// of them did not pass, the check is skipped and recommends nothing.
fn push_dependent(result: &mut Vec<DiagnosticCheck>, check: DiagnosticCheck)
    ensures
        check_views(final(result)@) == push_dependent_spec(check_views(old(result)@), check@),
{
    if is_blocked(result, &check.dependencies) {
        let ghost original = check@;
        let skipped_check = make_check(
            check.id,
            check.section,
            "",
            DiagnosticStatus::Skipped,
            check.evidence,
            some_text("Skipped because a prerequisite check did not pass."),
            check.dependencies,
            fix_ids(&[]),
        );
        let skipped_check = DiagnosticCheck { name: check.name, ..skipped_check };
        assert(skipped_check@ =~~= skipped(original));
        push_check(result, skipped_check);
    } else {
        push_check(result, check);
    }
}

/// Runs every check on the evidence, in order. A check whose prerequisite did
/// not pass is reported as skipped.
pub fn checks(e: &NvidiaEvidence, profile: DoctorProfile) -> (r: Vec<DiagnosticCheck>)
    ensures
        are_checks_of(check_views(r@), *e, profile),
{
    let os = os_check(e, profile);
    let ghost refusal = os_refusal_text(*e, profile);
    let mut result: Vec<DiagnosticCheck> = Vec::new();
    push_check(&mut result, gpu_check(e));
    push_check(&mut result, os);
    push_check(&mut result, headers_check(e));
    push_check(&mut result, secure_boot_check(e));
    push_check(&mut result, driver_check(e));
    assert(check_views(result@) =~= seq![
        gpu_check_spec(*e),
        os_check_spec(*e, profile, refusal),
        headers_check_spec(*e),
        secure_boot_check_spec(*e),
        driver_check_spec(*e),
    ]);
    push_dependent(&mut result, module_check(e));
    push_dependent(&mut result, smi_check(e));
    push_dependent(&mut result, library_check(e));
    push_check(&mut result, toolkit_check(e, profile));
    push_dependent(&mut result, nvcc_check(e));
    push_dependent(&mut result, symlink_check(e));
    push_dependent(&mut result, compatibility_check(e));
    assert(check_views(result@) == checks_spec(*e, profile, refusal));
    result
}

// ---------------------------------------------------------------------------
// From failed checks to causes and a plan

/// Some check with this id failed with an error.
pub open spec fn failed_spec(cs: Seq<CheckView>, id: DiagnosticId) -> bool {
    exists|i: int| 0 <= i < cs.len() && (#[trigger] cs[i]).0 == id && cs[i].3 == DiagnosticStatus::Error
}

pub open spec fn cause_spec(title: Seq<char>, fixes: Seq<FixId>) -> CauseView {
    (title, Confidence::High, Seq::empty(), fixes)
}

/// The cause, when `b` holds.
pub open spec fn cause_when(b: bool, title: Seq<char>, fixes: Seq<FixId>) -> Seq<CauseView> {
    if b {
        seq![cause_spec(title, fixes)]
    } else {
        Seq::empty()
    }
}

/// Why the driver check failed.
pub open spec fn driver_cause_spec(d: DriverInstallation) -> Seq<CauseView> {
    match d {
        DriverInstallation::BrokenManaged { .. } => seq![
            cause_spec(
                "The managed NVIDIA driver installation is broken"@,
                seq![FixId::RepairManagedDriver, FixId::Reboot],
            ),
        ],
        DriverInstallation::Missing => seq![
            cause_spec("The NVIDIA driver installation is missing"@, seq![FixId::InstallDriver]),
        ],
        DriverInstallation::Unmanaged { .. } => seq![
            cause_spec(
                "The unmanaged NVIDIA driver needs its original maintenance method"@,
                seq![FixId::InstallDriver],
            ),
        ],
        DriverInstallation::Managed { .. } => Seq::empty(),
    }
}

/// Why a managed driver's module is not loaded.
pub open spec fn runtime_causes_spec(state: DriverRuntimeState, headers: bool) -> Seq<CauseView> {
    match state {
        DriverRuntimeState::RebootLikelyRequired => seq![
            cause_spec(
                "The NVIDIA driver was installed successfully and a reboot is likely required"@,
                seq![FixId::RebootThenRecheck],
            ),
        ],
        DriverRuntimeState::DkmsModuleMissing => cause_when(
            headers,
            "The matching NVIDIA DKMS module is missing for the running kernel"@,
            seq![FixId::RebuildDkms],
        ),
        DriverRuntimeState::SecureBootBlocked => seq![
            cause_spec("Secure Boot is blocking the NVIDIA kernel module"@, seq![FixId::ResolveSecureBoot]),
        ],
        DriverRuntimeState::Failed => seq![
            cause_spec("The NVIDIA module still fails to load"@, seq![FixId::DebugDriver]),
        ],
        DriverRuntimeState::Operational => Seq::empty(),
    }
}

/// The causes that the evidence and the failed checks point to, in order.
pub open spec fn causes_spec(e: NvidiaEvidence, cs: Seq<CheckView>, profile: DoctorProfile) -> Seq<CauseView> {
    let managed = e.driver is Managed;
    let unloaded = managed && !e.nvidia_module_loaded;
    let toolkit = e.toolkit_packages@.len() > 0;
    Seq::empty() + cause_when(
        failed_spec(cs, DiagnosticId::NvidiaGpu),
        "The NVIDIA GPU is not visible"@,
        seq![FixId::InspectHardware],
    ) + cause_when(
        failed_spec(cs, DiagnosticId::OperatingSystem),
        "The OS/GPU combination is unsupported"@,
        Seq::empty(),
    ) + (if failed_spec(cs, DiagnosticId::DriverPackage) {
        driver_cause_spec(e.driver)
    } else {
        Seq::empty()
    }) + cause_when(
        unloaded && !e.matching_kernel_headers,
        "Headers for the running kernel are missing"@,
        seq![FixId::InstallKernelHeaders, FixId::RebuildDkms, FixId::Reboot],
    ) + (if unloaded {
        runtime_causes_spec(runtime_state_spec(e), e.matching_kernel_headers)
    } else {
        Seq::empty()
    }) + cause_when(
        version_mismatch_spec(e) && managed,
        "NVIDIA driver and userspace libraries do not match"@,
        seq![FixId::ReinstallDriverLibraries, FixId::Reboot],
    ) + cause_when(
        toolkit && failed_spec(cs, DiagnosticId::Nvcc),
        "The CUDA Toolkit is partially installed or broken"@,
        seq![FixId::InstallToolkit, FixId::DebugToolkit],
    ) + cause_when(
        profile == DoctorProfile::CudaDevelopment && !toolkit,
        "CUDA development was requested but the Toolkit is missing"@,
        seq![FixId::InstallToolkit],
    ) + cause_when(
        failed_spec(cs, DiagnosticId::DriverToolkitCompatibility),
        "The NVIDIA driver is incompatible with the CUDA Toolkit"@,
        seq![FixId::UpgradeDriver, FixId::Reboot],
    ) + cause_when(
        failed_spec(cs, DiagnosticId::CudaSymlink) && toolkit,
        "The system CUDA Toolkit symlink is invalid"@,
        seq![FixId::RepairCudaSymlink],
    )
}

fn failed(checks: &[DiagnosticCheck], id: DiagnosticId) -> (b: bool)
    ensures
        b == failed_spec(check_views(checks@), id),
{
    let ghost cv = check_views(checks@);
    let mut i: usize = 0;
    while i < checks.len()
        invariant
            i <= checks.len(),
            cv == check_views(checks@),
            forall|j: int| 0 <= j < i ==> !((#[trigger] cv[j]).0 == id && cv[j].3 == DiagnosticStatus::Error),
        decreases checks.len() - i,
    {
        assert(cv[i as int] == checks@[i as int]@);
        if checks[i].id == id && checks[i].status == DiagnosticStatus::Error {
            return true;
        }
        i = i + 1;
    }
    false
}

fn push_cause(causes: &mut Vec<DiagnosticCause>, title: &str, fixes: &[FixId])
    ensures
        cause_views(final(causes)@) == cause_views(old(causes)@).push(cause_spec(title@, fixes@)),
{
    let evidence: Vec<String> = Vec::new();
    let c = DiagnosticCause {
        title: String::from_str(title),
        confidence: Confidence::High,
        evidence,
        fixes: fix_ids(fixes),
    };
    assert(strs(evidence@) =~= Seq::<Seq<char>>::empty());
    let ghost before = cause_views(causes@);
    causes.push(c);
    assert(cause_views(causes@) =~= before.push(cause_spec(title@, fixes@)));
}

fn add_cause_when(causes: &mut Vec<DiagnosticCause>, b: bool, title: &str, fixes: &[FixId])
    ensures
        cause_views(final(causes)@) == cause_views(old(causes)@) + cause_when(b, title@, fixes@),
{
    let ghost before = cause_views(causes@);
    if b {
        push_cause(causes, title, fixes);
        assert(before.push(cause_spec(title@, fixes@)) =~= before + seq![cause_spec(title@, fixes@)]);
    } else {
        assert(before + Seq::<CauseView>::empty() =~= before);
    }
}

fn add_driver_cause(causes: &mut Vec<DiagnosticCause>, b: bool, driver: &DriverInstallation)
    requires
        b ==> !(driver is Managed),
    ensures
        cause_views(final(causes)@) == cause_views(old(causes)@) + (if b {
            driver_cause_spec(*driver)
        } else {
            Seq::empty()
        }),
{
    let ghost before = cause_views(causes@);
    if b {
        match driver {
            DriverInstallation::BrokenManaged { .. } => {
                let fixes = [FixId::RepairManagedDriver, FixId::Reboot];
                assert(fixes@ =~= seq![FixId::RepairManagedDriver, FixId::Reboot]);
                push_cause(causes, "The managed NVIDIA driver installation is broken", &fixes);
                assert(cause_views(causes@) =~= before + driver_cause_spec(*driver));
            },
            DriverInstallation::Missing => {
                let fixes = [FixId::InstallDriver];
                assert(fixes@ =~= seq![FixId::InstallDriver]);
                push_cause(causes, "The NVIDIA driver installation is missing", &fixes);
                assert(cause_views(causes@) =~= before + driver_cause_spec(*driver));
            },
            DriverInstallation::Unmanaged { .. } => {
                let fixes = [FixId::InstallDriver];
                assert(fixes@ =~= seq![FixId::InstallDriver]);
                push_cause(causes, "The unmanaged NVIDIA driver needs its original maintenance method", &fixes);
                assert(cause_views(causes@) =~= before + driver_cause_spec(*driver));
            },
            DriverInstallation::Managed { .. } => {},
        }
    } else {
        assert(before + Seq::<CauseView>::empty() =~= before);
    }
}

fn add_runtime_causes(causes: &mut Vec<DiagnosticCause>, b: bool, state: DriverRuntimeState, headers: bool)
    ensures
        cause_views(final(causes)@) == cause_views(old(causes)@) + (if b {
            runtime_causes_spec(state, headers)
        } else {
            Seq::empty()
        }),
{
    let ghost before = cause_views(causes@);
    if b {
        match state {
            DriverRuntimeState::RebootLikelyRequired => {
                let fixes = [FixId::RebootThenRecheck];
                assert(fixes@ =~= seq![FixId::RebootThenRecheck]);
                push_cause(
                    causes,
                    "The NVIDIA driver was installed successfully and a reboot is likely required",
                    &fixes,
                );
                assert(cause_views(causes@) =~= before + runtime_causes_spec(state, headers));
            },
            DriverRuntimeState::DkmsModuleMissing => {
                let fixes = [FixId::RebuildDkms];
                assert(fixes@ =~= seq![FixId::RebuildDkms]);
                add_cause_when(
                    causes,
                    headers,
                    "The matching NVIDIA DKMS module is missing for the running kernel",
                    &fixes,
                );
                assert(cause_views(causes@) =~= before + runtime_causes_spec(state, headers));
            },
            DriverRuntimeState::SecureBootBlocked => {
                let fixes = [FixId::ResolveSecureBoot];
                assert(fixes@ =~= seq![FixId::ResolveSecureBoot]);
                push_cause(causes, "Secure Boot is blocking the NVIDIA kernel module", &fixes);
                assert(cause_views(causes@) =~= before + runtime_causes_spec(state, headers));
            },
            DriverRuntimeState::Failed => {
                let fixes = [FixId::DebugDriver];
                assert(fixes@ =~= seq![FixId::DebugDriver]);
                push_cause(causes, "The NVIDIA module still fails to load", &fixes);
                assert(cause_views(causes@) =~= before + runtime_causes_spec(state, headers));
            },
            DriverRuntimeState::Operational => {
                assert(cause_views(causes@) =~= before + runtime_causes_spec(state, headers));
            },
        }
    } else {
        assert(before + Seq::<CauseView>::empty() =~= before);
    }
}

/// The causes behind the failed checks, and the fixes they ask for, each
/// once and in order.
pub fn fix_plan(e: &NvidiaEvidence, checks: &[DiagnosticCheck], profile: DoctorProfile) -> (r: Result<FixPlan, ArcError>)
    requires
        failed_spec(check_views(checks@), DiagnosticId::DriverPackage) ==> !(e.driver is Managed),
    ensures
        r matches Ok(plan) && cause_views(plan.causes@) == causes_spec(*e, check_views(checks@), profile)
            && fix_views(plan.fixes@) == fix_plan_spec(plan.causes@, available_fixes_spec(*e)),
{
    let state = runtime_state(e);
    let managed = match &e.driver {
        DriverInstallation::Managed { .. } => true,
        _ => false,
    };
    let unloaded = managed && !e.nvidia_module_loaded;
    let toolkit = e.toolkit_installed();
    let mut causes: Vec<DiagnosticCause> = Vec::new();
    assert(cause_views(causes@) =~= Seq::<CauseView>::empty());
    let f1 = [FixId::InspectHardware];
    assert(f1@ =~= seq![FixId::InspectHardware]);
    add_cause_when(&mut causes, failed(checks, DiagnosticId::NvidiaGpu), "The NVIDIA GPU is not visible", &f1);
    let f2: [FixId; 0] = [];
    assert(f2@ =~= Seq::<FixId>::empty());
    add_cause_when(
        &mut causes,
        failed(checks, DiagnosticId::OperatingSystem),
        "The OS/GPU combination is unsupported",
        &f2,
    );
    add_driver_cause(&mut causes, failed(checks, DiagnosticId::DriverPackage), &e.driver);
    let f3 = [FixId::InstallKernelHeaders, FixId::RebuildDkms, FixId::Reboot];
    assert(f3@ =~= seq![FixId::InstallKernelHeaders, FixId::RebuildDkms, FixId::Reboot]);
    add_cause_when(
        &mut causes,
        unloaded && !e.matching_kernel_headers,
        "Headers for the running kernel are missing",
        &f3,
    );
    add_runtime_causes(&mut causes, unloaded, state, e.matching_kernel_headers);
    let f4 = [FixId::ReinstallDriverLibraries, FixId::Reboot];
    assert(f4@ =~= seq![FixId::ReinstallDriverLibraries, FixId::Reboot]);
    add_cause_when(
        &mut causes,
        version_mismatch(e) && managed,
        "NVIDIA driver and userspace libraries do not match",
        &f4,
    );
    let f5 = [FixId::InstallToolkit, FixId::DebugToolkit];
    assert(f5@ =~= seq![FixId::InstallToolkit, FixId::DebugToolkit]);
    add_cause_when(
        &mut causes,
        toolkit && failed(checks, DiagnosticId::Nvcc),
        "The CUDA Toolkit is partially installed or broken",
        &f5,
    );
    let f6 = [FixId::InstallToolkit];
    assert(f6@ =~= seq![FixId::InstallToolkit]);
    add_cause_when(
        &mut causes,
        profile == DoctorProfile::CudaDevelopment && !toolkit,
        "CUDA development was requested but the Toolkit is missing",
        &f6,
    );
    let f7 = [FixId::UpgradeDriver, FixId::Reboot];
    assert(f7@ =~= seq![FixId::UpgradeDriver, FixId::Reboot]);
    add_cause_when(
        &mut causes,
        failed(checks, DiagnosticId::DriverToolkitCompatibility),
        "The NVIDIA driver is incompatible with the CUDA Toolkit",
        &f7,
    );
    let f8 = [FixId::RepairCudaSymlink];
    assert(f8@ =~= seq![FixId::RepairCudaSymlink]);
    add_cause_when(
        &mut causes,
        failed(checks, DiagnosticId::CudaSymlink) && toolkit,
        "The system CUDA Toolkit symlink is invalid",
        &f8,
    );
    let fixes = match available_fixes(e) {
        Ok(f) => f,
        Err(err) => return Err(err),
    };
    Ok(FixPlan::new(causes, fixes))
}

/// The ids of the checks, in order.
pub proof fn lemma_check_ids(e: NvidiaEvidence, profile: DoctorProfile, m: Seq<char>)
    ensures
        ({
            let cs = checks_spec(e, profile, m);
            &&& cs.len() == 12
            &&& cs[0] == gpu_check_spec(e)
            &&& cs[1] == os_check_spec(e, profile, m)
            &&& cs[2] == headers_check_spec(e)
            &&& cs[3] == secure_boot_check_spec(e)
            &&& cs[4] == driver_check_spec(e)
            &&& cs[5].0 == DiagnosticId::DriverModule
            &&& cs[6].0 == DiagnosticId::NvidiaSmi
            &&& cs[7].0 == DiagnosticId::DriverLibrary
            &&& cs[8] == toolkit_check_spec(e, profile)
            &&& cs[9].0 == DiagnosticId::Nvcc
            &&& cs[10].0 == DiagnosticId::CudaSymlink
            &&& cs[11].0 == DiagnosticId::DriverToolkitCompatibility
        }),
{
}

pub open spec fn skip_reason() -> Seq<char> {
    "Skipped because a prerequisite check did not pass."@
}

/// The check, or its skipped form when a prerequisite before it did not pass.
pub open spec fn raw_or_skipped(c: CheckView, raw: CheckView, prior: Seq<CheckView>) -> bool {
    if blocked(prior, raw.6) {
        c == skipped(raw)
    } else {
        c == raw
    }
}

/// A skipped check recommends no fix and says why; only checks that have
/// prerequisites are ever skipped, and one is skipped exactly when one of its
/// prerequisites among the earlier checks did not pass.
pub proof fn law_skipped_checks_recommend_nothing(e: NvidiaEvidence, profile: DoctorProfile, m: Seq<char>)
    ensures
        ({
            let cs = checks_spec(e, profile, m);
            &&& cs.len() == 12
            &&& forall|i: int| 0 <= i < cs.len() && (#[trigger] cs[i]).3 == DiagnosticStatus::Skipped ==> {
                &&& cs[i].7.len() == 0
                &&& cs[i].5 == Some(skip_reason())
                &&& cs[i].6.len() > 0
            }
            &&& raw_or_skipped(cs[5], module_check_spec(e), cs.take(5))
            &&& raw_or_skipped(cs[6], smi_check_spec(e), cs.take(6))
            &&& raw_or_skipped(cs[7], library_check_spec(e), cs.take(7))
            &&& raw_or_skipped(cs[9], nvcc_check_spec(e), cs.take(9))
            &&& raw_or_skipped(cs[10], symlink_check_spec(e), cs.take(10))
            &&& raw_or_skipped(cs[11], compatibility_check_spec(e), cs.take(11))
        }),
{
    let cs = checks_spec(e, profile, m);
    lemma_check_ids(e, profile, m);
    let s5 = seq![
        gpu_check_spec(e),
        os_check_spec(e, profile, m),
        headers_check_spec(e),
        secure_boot_check_spec(e),
        driver_check_spec(e),
    ];
    let s6 = push_dependent_spec(s5, module_check_spec(e));
    let s7 = push_dependent_spec(s6, smi_check_spec(e));
    let s8 = push_dependent_spec(s7, library_check_spec(e));
    let s9 = s8.push(toolkit_check_spec(e, profile));
    let s10 = push_dependent_spec(s9, nvcc_check_spec(e));
    let s11 = push_dependent_spec(s10, symlink_check_spec(e));
    assert(cs == push_dependent_spec(s11, compatibility_check_spec(e)));
    assert(cs.take(5) =~= s5);
    assert(cs.take(6) =~= s6);
    assert(cs.take(7) =~= s7);
    assert(cs.take(9) =~= s9);
    assert(cs.take(10) =~= s10);
    assert(cs.take(11) =~= s11);
    assert forall|i: int| 0 <= i < cs.len() && (#[trigger] cs[i]).3 == DiagnosticStatus::Skipped implies {
        &&& cs[i].7.len() == 0
        &&& cs[i].5 == Some(skip_reason())
        &&& cs[i].6.len() > 0
    } by {
        assert(i != 0 && i != 1 && i != 2 && i != 3 && i != 4 && i != 8);
    }
}

/// A driver below the minimum that NVIDIA's table gives for the system
/// Toolkit is an error: the last check, driver/Toolkit compatibility, fails
/// with `Error`, unless `nvidia-smi` or `nvcc` already did not pass, in which
/// case the diagnostics hold that earlier failure.
pub proof fn law_incompatible_driver_is_an_error(e: NvidiaEvidence, profile: DoctorProfile, v: Seq<CheckView>)
    requires
        are_checks_of(v, e, profile),
        e.driver_version is Some && e.managed_toolkit_version is Some,
        evaluate_spec(e.driver_version->0@, e.managed_toolkit_version->0@) == Some(Compatibility::Incompatible),
    ensures
        v.len() > 0,
        v.last().0 == DiagnosticId::DriverToolkitCompatibility,
        v.last().3 == DiagnosticStatus::Error || exists|j: int|
            0 <= j < v.len() - 1 && (#[trigger] v[j]).3 != DiagnosticStatus::Pass && (v[j].0
                == DiagnosticId::NvidiaSmi || v[j].0 == DiagnosticId::Nvcc),
{
    let m = os_refusal_text(e, profile);
    let s5 = seq![
        gpu_check_spec(e),
        os_check_spec(e, profile, m),
        headers_check_spec(e),
        secure_boot_check_spec(e),
        driver_check_spec(e),
    ];
    let s6 = push_dependent_spec(s5, module_check_spec(e));
    let s7 = push_dependent_spec(s6, smi_check_spec(e));
    let s8 = push_dependent_spec(s7, library_check_spec(e));
    let s9 = s8.push(toolkit_check_spec(e, profile));
    let s10 = push_dependent_spec(s9, nvcc_check_spec(e));
    let s11 = push_dependent_spec(s10, symlink_check_spec(e));
    let c = compatibility_check_spec(e);
    assert(v == push_dependent_spec(s11, c));
    assert(v.last() == if blocked(s11, c.6) { skipped(c) } else { c });
    if blocked(s11, c.6) {
        let (i, j) = choose|i: int, j: int|
            #![trigger s11[j], c.6[i]]
            0 <= i < c.6.len() && 0 <= j < s11.len() && s11[j].0 == c.6[i] && s11[j].3 != DiagnosticStatus::Pass;
        assert(v[j] == s11[j]);
        assert(c.6[i] == DiagnosticId::NvidiaSmi || c.6[i] == DiagnosticId::Nvcc);
    } else {
        assert(compatibility_spec(e) == Some(Compatibility::Incompatible));
    }
}

/// Runs the checks on the evidence and plans the fixes for what failed.
pub fn diagnose(e: NvidiaEvidence, profile: DoctorProfile) -> (r: Result<Diagnostics, ArcError>)
    ensures
        r matches Ok(d) && d.vendor == GpuVendor::Nvidia && are_checks_of(check_views(d.checks@), e, profile)
            && cause_views(d.fix_plan.causes@) == causes_spec(e, check_views(d.checks@), profile)
            && fix_views(d.fix_plan.fixes@) == fix_plan_spec(d.fix_plan.causes@, available_fixes_spec(e)),
{
    let checks = checks(&e, profile);
    proof {
        let m = os_refusal_text(e, profile);
        lemma_check_ids(e, profile, m);
        let cs = check_views(checks@);
        if failed_spec(cs, DiagnosticId::DriverPackage) {
            let i = choose|i: int| 0 <= i < cs.len() && (#[trigger] cs[i]).0 == DiagnosticId::DriverPackage && cs[i].3 == DiagnosticStatus::Error;
            assert(i == 4);
        }
    }
    let fix_plan = match fix_plan(&e, checks.as_slice(), profile) {
        Ok(p) => p,
        Err(err) => return Err(err),
    };
    Ok(Diagnostics { vendor: GpuVendor::Nvidia, checks, fix_plan })
}

/// The Toolkit version of a `/usr/local` entry named `cuda-VERSION`, where
/// VERSION starts with a digit.
pub open spec fn cuda_dir_version(name: Seq<char>) -> Option<Seq<char>> {
    if is_prefix("cuda-"@, name) && name.len() > 5 && is_digit(name[5]) {
        Some(name.subrange(5, name.len() as int))
    } else {
        None
    }
}

pub open spec fn names_a_version(names: Seq<Seq<char>>, v: Seq<char>) -> bool {
    exists|i: int| 0 <= i < names.len() && cuda_dir_version(#[trigger] names[i]) == Some(v)
}

/// The Toolkit versions installed under `/usr/local`, from the names of its
/// entries: sorted, each once.
pub fn installed_cuda_versions_from(names: &Vec<String>) -> (v: Vec<String>)
    ensures
        strictly_sorted(strs(v@)),
        forall|y: Seq<char>| strs(v@).contains(y) <==> names_a_version(strs(names@), y),
{
    let ghost ns = strs(names@);
    let mut v: Vec<String> = Vec::new();
    let mut i: usize = 0;
    while i < names.len()
        invariant
            i <= names.len(),
            ns == strs(names@),
            strictly_sorted(strs(v@)),
            forall|y: Seq<char>| strs(v@).contains(y) <==> names_a_version(ns.take(i as int), y),
        decreases names.len() - i,
    {
        let name = names[i].as_str();
        let ghost before = strs(v@);
        assert(ns[i as int] == name@);
        let n = name.unicode_len();
        let found = if starts_with(name, "cuda-") && n > 5 {
            proof {
                reveal_strlit("cuda-");
            }
            let c = name.get_char(5);
            if '0' <= c && c <= '9' {
                Some(substring(name, 5, n))
            } else {
                None
            }
        } else {
            None
        };
        assert(found matches Some(x) ==> cuda_dir_version(name@) == Some(x@));
        assert(found is None ==> cuda_dir_version(name@) is None);
        let ghost fv: Option<Seq<char>> = match &found {
            Some(x) => Some(x@),
            None => None,
        };
        match found {
            Some(x) => insert_sorted(&mut v, x),
            None => {},
        }
        assert forall|y: Seq<char>| strs(v@).contains(y) <==> names_a_version(ns.take(i + 1), y) by {
            let t = ns.take(i + 1);
            if names_a_version(ns.take(i as int), y) {
                let k = choose|k: int| 0 <= k < i && cuda_dir_version(#[trigger] ns.take(i as int)[k]) == Some(y);
                assert(t[k] == ns.take(i as int)[k]);
            }
            if names_a_version(t, y) {
                let k = choose|k: int| 0 <= k < t.len() && cuda_dir_version(#[trigger] t[k]) == Some(y);
                if k < i {
                    assert(ns.take(i as int)[k] == t[k]);
                } else {
                    assert(t[k] == name@);
                }
            }
            if fv == Some(y) {
                assert(t[i as int] == name@);
            }
        }
        i = i + 1;
    }
    assert(ns.take(names.len() as int) =~= ns);
    v
}

} // verus!
