//! The installation plan: ordered, staged commands built from a decision.
use vstd::prelude::*;
use vstd::string::*;

use crate::error::{ArcError, ErrorKind};
use crate::model::command::{cmds, sudo, CommandSpec, CommandView};
use crate::model::device::GpuDevice;
use crate::model::environment::{description_spec, ProviderStatus};
use crate::model::operation::{
    steps_view, NextStep, OperationPlan, PlanDetail, PlanStage, PlanStep, StageView, StepView,
};
use crate::model::profile::plan_label_spec;
use crate::model::system::{display_name_spec, manager_label, manager_of, OsInfo};
use crate::platform::package_manager::{
    install_command, install_spec, query_command, query_spec, refresh_command, refresh_spec,
    reinstall_command, reinstall_spec,
};
use crate::providers::nvidia::driver::{flavor_package, DriverFlavor};
use crate::providers::nvidia::install::decision::{opt_str, InstallDecision};
use crate::providers::nvidia::install::{InstallContext, InstallOptions};
use crate::providers::nvidia::policy::DriverPolicy;
use crate::providers::nvidia::recipe::{
    branch_preparation_spec, module_check, prerequisites_spec, resolve as resolve_recipe,
    transition_commands, transition_spec,
};
use crate::providers::nvidia::repository::{setup_commands_with_downloader, setup_spec};
use crate::providers::nvidia::toolkit::{nvcc_version_command, verification_command};
use crate::text::{concat, concat3, contains, contains_str, nat_str, strs, u32_to_string};

verus! {

pub open spec fn repository_stage() -> StageView {
    (
        "Configure the NVIDIA CUDA repository"@,
        "Configuring the NVIDIA repository..."@,
        "Configured the NVIDIA repository"@,
        "Could not configure the NVIDIA repository"@,
    )
}

pub open spec fn refresh_stage() -> StageView {
    (
        "Refresh package metadata"@,
        "Refreshing package metadata..."@,
        "Refreshed package metadata"@,
        "Could not refresh package metadata"@,
    )
}

pub open spec fn prerequisites_stage() -> StageView {
    (
        "Install driver prerequisites"@,
        "Installing driver prerequisites..."@,
        "Installed driver prerequisites"@,
        "Could not install driver prerequisites"@,
    )
}

pub open spec fn driver_name(f: DriverFlavor) -> Seq<char> {
    match f {
        DriverFlavor::Open => "NVIDIA Open driver"@,
        DriverFlavor::Proprietary => "NVIDIA proprietary driver"@,
    }
}

pub open spec fn driver_stage(f: DriverFlavor) -> StageView {
    (
        "Install the "@ + driver_name(f),
        "Installing the "@ + driver_name(f) + "..."@,
        "Installed the "@ + driver_name(f),
        "Could not install the "@ + driver_name(f),
    )
}

pub open spec fn driver_verification_stage() -> StageView {
    (
        "Verify the installation"@,
        "Verifying the installation..."@,
        "Verified the installation"@,
        "Could not verify the installation"@,
    )
}

pub open spec fn toolkit_stage() -> StageView {
    (
        "Install the CUDA Toolkit"@,
        "Installing the CUDA Toolkit..."@,
        "Installed the CUDA Toolkit"@,
        "Could not install the CUDA Toolkit"@,
    )
}

pub open spec fn toolkit_verification_stage() -> StageView {
    (
        "Verify the CUDA Toolkit"@,
        "Verifying the CUDA Toolkit..."@,
        "Verified the CUDA Toolkit"@,
        "Could not verify the CUDA Toolkit"@,
    )
}

/// Each command as a step with `description` in `stage`.
pub open spec fn staged(cs: Seq<CommandView>, description: Seq<char>, stage: StageView) -> Seq<StepView> {
    cs.map_values(|c: CommandView| (description, c, stage))
}

/// Some package name holds `dkms`.
pub open spec fn any_dkms(ps: Seq<Seq<char>>) -> bool {
    exists|i: int| 0 <= i < ps.len() && contains(#[trigger] ps[i], "dkms"@)
}

/// The refusal when the repository must be configured but nothing can download it.
pub open spec fn downloader_missing_message() -> Seq<char> {
    "Configuring the NVIDIA repository requires curl or wget, but neither command is available."@
}

/// The repository setup and the metadata refresh, when anything is installed.
pub open spec fn repository_steps(ctx: InstallContext, d: InstallDecision, downloader: Seq<char>, path: Seq<char>) -> Seq<StepView> {
    let m = manager_of(ctx.os.distribution);
    if d.install_driver || d.install_toolkit {
        (if !ctx.repository_configured {
            staged(
                setup_spec(m, ctx.repository@, downloader, path),
                "Configure the NVIDIA CUDA repository"@,
                repository_stage(),
            )
        } else {
            seq![]
        }) + seq![("Refresh package metadata"@, refresh_spec(m), refresh_stage())]
    } else {
        seq![]
    }
}

/// The repair of a broken managed driver: reinstall its packages, and rebuild
/// its DKMS module for the running kernel.
pub open spec fn repair_steps(ctx: InstallContext, d: InstallDecision) -> Seq<StepView> {
    let m = manager_of(ctx.os.distribution);
    let stage = driver_stage(d.policy.flavor);
    match d.broken_managed_packages {
        Some(ps) => (match reinstall_spec(m, strs(ps@)) {
            Some(c) => seq![("Reinstall the detected NVIDIA driver packages"@, c, stage)],
            None => seq![],
        }) + (if any_dkms(strs(ps@)) {
            seq![
                (
                    "Rebuild the NVIDIA module for the running kernel"@,
                    sudo("dkms"@, seq!["autoinstall"@, "-k"@, ctx.kernel@]),
                    stage,
                ),
            ]
        } else {
            seq![]
        }),
        None => seq![],
    }
}

/// The driver steps, given the prerequisites of the recipe.
pub open spec fn driver_steps(ctx: InstallContext, d: InstallDecision, prerequisites: Seq<CommandView>) -> Seq<StepView> {
    let m = manager_of(ctx.os.distribution);
    let stage = driver_stage(d.policy.flavor);
    let package = flavor_package(d.policy.flavor);
    if d.install_driver {
        staged(prerequisites, "Ensure NVIDIA driver prerequisites"@, prerequisites_stage()) + seq![
            ("Refresh package metadata after ensuring prerequisites"@, refresh_spec(m), prerequisites_stage()),
        ] + repair_steps(ctx, d) + match d.current_flavor {
            Some(f) => staged(
                transition_spec(ctx.os, d.policy, f),
                "Transition the NVIDIA driver package stream"@,
                stage,
            ),
            None => staged(
                branch_preparation_spec(ctx.os, d.policy),
                "Select the NVIDIA driver package stream"@,
                stage,
            ) + seq![
                ("Verify NVIDIA driver package "@ + package + " is available"@, query_spec(m, package), stage),
                ("Install the NVIDIA driver"@, install_spec(m, package, false), stage),
            ],
        } + seq![
            (
                "Verify that NVIDIA kernel module metadata is installed"@,
                module_check(),
                driver_verification_stage(),
            ),
        ]
    } else {
        seq![]
    }
}

/// The toolkit steps.
pub open spec fn toolkit_steps(ctx: InstallContext, d: InstallDecision) -> Seq<StepView> {
    let m = manager_of(ctx.os.distribution);
    match opt_str(d.toolkit_package) {
        Some(p) => if d.install_toolkit {
            seq![
                ("Verify CUDA Toolkit package "@ + p + " is available"@, query_spec(m, p), toolkit_stage()),
                ("Install "@ + p, install_spec(m, p, false), toolkit_stage()),
                ("Verify the CUDA Toolkit with nvcc"@, nvcc_version_command(), toolkit_verification_stage()),
            ]
        } else {
            seq![]
        },
        None => seq![],
    }
}

pub open spec fn plan_steps(
    ctx: InstallContext,
    d: InstallDecision,
    prerequisites: Seq<CommandView>,
    downloader: Seq<char>,
    path: Seq<char>,
) -> Seq<StepView> {
    repository_steps(ctx, d, downloader, path) + driver_steps(ctx, d, prerequisites) + toolkit_steps(ctx, d)
}

pub open spec fn pin_text(policy: DriverPolicy) -> Seq<char> {
    match policy.branch {
        Some(b) => " pinned to R"@ + nat_str(b as nat),
        None => Seq::empty(),
    }
}

/// What the plan does with the driver.
pub open spec fn driver_detail(d: InstallDecision) -> Seq<char> {
    let package = flavor_package(d.policy.flavor);
    if d.driver_pending_activation {
        package + " installed; kernel module is ready but not loaded — reboot required"@
    } else if !d.install_driver {
        package + " already managed correctly — skipped"@
    } else if d.broken_managed_packages is Some {
        "repair detected packages and ensure "@ + package + " is installed"@
    } else if d.transition_driver {
        "transition to "@ + package + pin_text(d.policy)
    } else {
        "install "@ + package + pin_text(d.policy)
    }
}

pub open spec fn toolkit_detail(d: InstallDecision) -> Seq<char> {
    match opt_str(d.toolkit_package) {
        None => "not requested"@,
        Some(p) => if d.install_toolkit {
            "install "@ + p
        } else {
            "requested version already installed — skipped"@
        },
    }
}

pub open spec fn plan_details(ctx: InstallContext, d: InstallDecision, options: InstallOptions) -> Seq<(Seq<char>, Seq<char>)> {
    seq![
        ("OS"@, display_name_spec(ctx.os)),
        ("Kernel"@, ctx.kernel@),
        ("Package manager"@, manager_label(manager_of(ctx.os.distribution))),
        ("Repository"@, ctx.repository.base_url@),
        (
            "Release validation"@,
            "repository-compatible "@ + ctx.repository.family@ + "; NVIDIA validated: "@ + if ctx.repository.nvidia_validated {
                "yes"@
            } else {
                "no"@
            },
        ),
        ("Profile"@, plan_label_spec(options.profile)),
        ("Existing driver"@, description_spec(ctx.status.driver)),
        ("Driver"@, driver_detail(d)),
        ("CUDA Toolkit"@, toolkit_detail(d)),
        (
            "Kernel headers"@,
            if ctx.kernel_headers_available {
                "detected for running kernel"@
            } else {
                "install exact matching prerequisites before driver"@
            },
        ),
    ]
}

pub open spec fn completion_spec(d: InstallDecision) -> Seq<char> {
    let name = driver_name(d.policy.flavor);
    if d.install_driver && d.install_toolkit {
        name + " and CUDA Toolkit installed and verified."@
    } else if d.install_driver {
        name + " installed and verified."@
    } else if d.install_toolkit {
        "CUDA Toolkit installed and verified."@
    } else {
        "Requested NVIDIA components are already installed."@
    }
}

pub open spec fn details_view(v: Seq<PlanDetail>) -> Seq<(Seq<char>, Seq<char>)> {
    v.map_values(|x: PlanDetail| (x.label@, x.value@))
}

pub open spec fn device_view(d: GpuDevice) -> (crate::model::device::GpuVendor, Seq<char>, Option<u16>) {
    (d.vendor, d.name@, d.pci_device_id)
}

pub open spec fn devices_view(v: Seq<GpuDevice>) -> Seq<(crate::model::device::GpuVendor, Seq<char>, Option<u16>)> {
    v.map_values(|d: GpuDevice| device_view(d))
}

/// The installation plan for an accepted decision.
pub open spec fn plan_holds(
    p: OperationPlan,
    ctx: InstallContext,
    d: InstallDecision,
    options: InstallOptions,
    prerequisites: Seq<CommandView>,
    downloader: Seq<char>,
    path: Seq<char>,
) -> bool {
    &&& p.title@ == "NVIDIA Installation Plan"@
    &&& details_view(p.details@) == plan_details(ctx, d, options)
    &&& devices_view(p.devices@) == devices_view(ctx.status.devices@)
    &&& steps_view(p.steps@) == plan_steps(ctx, d, prerequisites, downloader, path)
    &&& p.confirmation_warning@ == Seq::<char>::empty()
    &&& p.completion_message@ == completion_spec(d)
    &&& p.next_step == if d.driver_pending_activation || d.install_driver {
        Some(NextStep::LoadNvidiaDriver)
    } else {
        None
    }
}

/// Appends each command as a step with `description` in `stage`.
fn push_staged(steps: &mut Vec<PlanStep>, commands: Vec<CommandSpec>, description: &str, stage: &PlanStage)
    ensures
        steps_view(final(steps)@) == steps_view(old(steps)@) + staged(cmds(commands@), description@, stage@),
{
    let ghost start = steps_view(steps@);
    let mut i: usize = 0;
    while i < commands.len()
        invariant
            i <= commands.len(),
            steps_view(steps@) == start + staged(cmds(commands@).take(i as int), description@, stage@),
        decreases commands.len() - i,
    {
        let ghost before = steps@;
        let step = PlanStep::new(description, commands[i].copy()).in_stage(stage);
        steps.push(step);
        assert(steps_view(steps@) =~= steps_view(before).push(step@));
        assert(staged(cmds(commands@).take(i + 1), description@, stage@) =~= staged(
            cmds(commands@).take(i as int),
            description@,
            stage@,
        ).push((description@, commands@[i as int]@, stage@)));
        i = i + 1;
    }
    assert(cmds(commands@).take(commands.len() as int) =~= cmds(commands@));
}

/// Appends one step with `description` in `stage`.
fn push_one(steps: &mut Vec<PlanStep>, command: CommandSpec, description: &str, stage: &PlanStage)
    ensures
        steps_view(final(steps)@) == steps_view(old(steps)@).push((description@, command@, stage@)),
{
    let ghost before = steps@;
    let step = PlanStep::new(description, command).in_stage(stage);
    steps.push(step);
    assert(steps_view(steps@) =~= steps_view(before).push(step@));
}

fn any_dkms_package(ps: &Vec<String>) -> (b: bool)
    ensures
        b == any_dkms(strs(ps@)),
{
    let mut i: usize = 0;
    while i < ps.len()
        invariant
            i <= ps.len(),
            forall|j: int| 0 <= j < i ==> !contains(#[trigger] strs(ps@)[j], "dkms"@),
        decreases ps.len() - i,
    {
        if contains_str(ps[i].as_str(), "dkms") {
            assert(contains(strs(ps@)[i as int], "dkms"@));
            return true;
        }
        i = i + 1;
    }
    false
}

pub fn copy_devices(v: &Vec<GpuDevice>) -> (r: Vec<GpuDevice>)
    ensures
        devices_view(r@) == devices_view(v@),
{
    let mut r: Vec<GpuDevice> = Vec::new();
    let mut i: usize = 0;
    while i < v.len()
        invariant
            i <= v.len(),
            devices_view(r@) == devices_view(v@.take(i as int)),
        decreases v.len() - i,
    {
        let d = v[i].copy();
        let ghost before = r@;
        r.push(d);
        assert(devices_view(r@) =~= devices_view(before).push(device_view(v@[i as int])));
        assert(devices_view(v@.take(i + 1)) =~= devices_view(v@.take(i as int)).push(device_view(v@[i as int])));
        i = i + 1;
    }
    assert(v@.take(v.len() as int) =~= v@);
    r
}

fn stage(title: &str, running: &str, success: &str, failure: &str) -> (s: PlanStage)
    ensures
        s@ == (title@, running@, success@, failure@),
{
    PlanStage::new(title, running, success, failure)
}

/// The reinstall and DKMS rebuild of a broken managed driver.
fn push_repair_steps(steps: &mut Vec<PlanStep>, ctx: &InstallContext, d: &InstallDecision, dstage: &PlanStage)
    requires
        dstage@ == driver_stage(d.policy.flavor),
    ensures
        steps_view(final(steps)@) == steps_view(old(steps)@) + repair_steps(*ctx, *d),
{
    let ghost start = steps_view(steps@);
    let manager = ctx.os.package_manager();
    match &d.broken_managed_packages {
        Some(ps) => {
            let ghost m = manager_of(ctx.os.distribution);
            match reinstall_command(manager, ps.as_slice()) {
                Some(c) => push_one(steps, c, "Reinstall the detected NVIDIA driver packages", dstage),
                None => {},
            }
            let ghost mid = steps_view(steps@);
            assert(mid =~= start + match reinstall_spec(m, strs(ps@)) {
                Some(c) => seq![("Reinstall the detected NVIDIA driver packages"@, c, driver_stage(d.policy.flavor))],
                None => Seq::<StepView>::empty(),
            });
            if any_dkms_package(ps) {
                let cmd = CommandSpec::sudo("dkms", &["autoinstall", "-k", ctx.kernel.as_str()]);
                assert(cmd@ =~~= sudo("dkms"@, seq!["autoinstall"@, "-k"@, ctx.kernel@]));
                push_one(steps, cmd, "Rebuild the NVIDIA module for the running kernel", dstage);
            }
            assert(steps_view(steps@) =~= start + repair_steps(*ctx, *d));
        },
        None => {
            assert(steps_view(steps@) =~= start + repair_steps(*ctx, *d));
        },
    }
}

/// The repair, stream selection, installation and verification of the driver.
fn push_driver_steps(
    steps: &mut Vec<PlanStep>,
    ctx: &InstallContext,
    d: &InstallDecision,
    prerequisites: Vec<CommandSpec>,
    driver_preparation: Vec<CommandSpec>,
    driver_install: CommandSpec,
    driver_verification: CommandSpec,
)
    requires
        d.install_driver,
        cmds(driver_preparation@) == branch_preparation_spec(ctx.os, d.policy),
        driver_install@ == install_spec(manager_of(ctx.os.distribution), flavor_package(d.policy.flavor), false),
        driver_verification@ == module_check(),
    ensures
        steps_view(final(steps)@) == steps_view(old(steps)@) + driver_steps(*ctx, *d, cmds(prerequisites@)),
{
    let os = &ctx.os;
    let manager = os.package_manager();
    let package = d.policy.flavor.package();
    let name = match d.policy.flavor {
        DriverFlavor::Open => "NVIDIA Open driver",
        DriverFlavor::Proprietary => "NVIDIA proprietary driver",
    };
    let prerequisites_stage = stage(
        "Install driver prerequisites",
        "Installing driver prerequisites...",
        "Installed driver prerequisites",
        "Could not install driver prerequisites",
    );
    let t = concat("Install the ", name);
    let r = concat3("Installing the ", name, "...");
    let s = concat("Installed the ", name);
    let f = concat("Could not install the ", name);
    let dstage = stage(t.as_str(), r.as_str(), s.as_str(), f.as_str());
    assert(dstage@ == driver_stage(d.policy.flavor));
    let verification_stage = stage(
        "Verify the installation",
        "Verifying the installation...",
        "Verified the installation",
        "Could not verify the installation",
    );
    let ghost start = steps_view(steps@);
    push_staged(steps, prerequisites, "Ensure NVIDIA driver prerequisites", &prerequisites_stage);
    push_one(steps, refresh_command(manager), "Refresh package metadata after ensuring prerequisites", &prerequisites_stage);
    push_repair_steps(steps, ctx, d, &dstage);
    let ghost after_repair = steps_view(steps@);
    match d.current_flavor {
        Some(from) => {
            push_staged(steps, transition_commands(os, d.policy, from), "Transition the NVIDIA driver package stream", &dstage);
        },
        None => {
            push_staged(steps, driver_preparation, "Select the NVIDIA driver package stream", &dstage);
            let desc = concat3("Verify NVIDIA driver package ", package, " is available");
            push_one(steps, query_command(manager, package), desc.as_str(), &dstage);
            push_one(steps, driver_install, "Install the NVIDIA driver", &dstage);
        },
    }
    push_one(steps, driver_verification, "Verify that NVIDIA kernel module metadata is installed", &verification_stage);
    assert(steps_view(steps@) =~= start + driver_steps(*ctx, *d, cmds(prerequisites@)));
}

/// The repository setup, when needed, and the metadata refresh.
fn push_repository_steps(
    steps: &mut Vec<PlanStep>,
    context: &InstallContext,
    decision: &InstallDecision,
    downloader: &str,
    temporary_path: &str,
) -> (r: Result<(), ArcError>)
    requires
        old(steps)@.len() == 0,
    ensures
        match r {
            Ok(()) => !((decision.install_driver || decision.install_toolkit) && !context.repository_configured
                && !context.repository_downloader_available) && steps_view(final(steps)@) == repository_steps(
                *context,
                *decision,
                downloader@,
                temporary_path@,
            ),
            Err(e) => e.kind == ErrorKind::DownloaderUnavailable && e.message@ == downloader_missing_message()
                && (decision.install_driver || decision.install_toolkit) && !context.repository_configured
                && !context.repository_downloader_available,
        },
{
    let manager = context.os.package_manager();
    if decision.install_driver || decision.install_toolkit {
        if !context.repository_configured {
            if !context.repository_downloader_available {
                return Err(
                    ArcError::from_str(
                        ErrorKind::DownloaderUnavailable,
                        "Configuring the NVIDIA repository requires curl or wget, but neither command is available.",
                    ),
                );
            }
            let repository_stage = stage(
                "Configure the NVIDIA CUDA repository",
                "Configuring the NVIDIA repository...",
                "Configured the NVIDIA repository",
                "Could not configure the NVIDIA repository",
            );
            let setup = setup_commands_with_downloader(manager, &context.repository, downloader, temporary_path);
            push_staged(steps, setup, "Configure the NVIDIA CUDA repository", &repository_stage);
        }
        let refresh_stage = stage(
            "Refresh package metadata",
            "Refreshing package metadata...",
            "Refreshed package metadata",
            "Could not refresh package metadata",
        );
        push_one(steps, refresh_command(manager), "Refresh package metadata", &refresh_stage);
    }
    assert(steps_view(steps@) =~= repository_steps(*context, *decision, downloader@, temporary_path@));
    Ok(())
}

/// The toolkit installation and its check.
fn push_toolkit_steps(steps: &mut Vec<PlanStep>, context: &InstallContext, decision: &InstallDecision)
    ensures
        steps_view(final(steps)@) == steps_view(old(steps)@) + toolkit_steps(*context, *decision),
{
    let ghost start = steps_view(steps@);
    let manager = context.os.package_manager();
    match &decision.toolkit_package {
        Some(package) => {
            if decision.install_toolkit {
                let toolkit_stage = stage(
                    "Install the CUDA Toolkit",
                    "Installing the CUDA Toolkit...",
                    "Installed the CUDA Toolkit",
                    "Could not install the CUDA Toolkit",
                );
                let toolkit_verification_stage = stage(
                    "Verify the CUDA Toolkit",
                    "Verifying the CUDA Toolkit...",
                    "Verified the CUDA Toolkit",
                    "Could not verify the CUDA Toolkit",
                );
                let desc = concat3("Verify CUDA Toolkit package ", package.as_str(), " is available");
                push_one(steps, query_command(manager, package.as_str()), desc.as_str(), &toolkit_stage);
                let install_desc = concat("Install ", package.as_str());
                push_one(steps, install_command(manager, package.as_str()), install_desc.as_str(), &toolkit_stage);
                push_one(steps, verification_command(), "Verify the CUDA Toolkit with nvcc", &toolkit_verification_stage);
            }
        },
        None => {},
    }
    assert(steps_view(steps@) =~= start + toolkit_steps(*context, *decision));
}

/// Builds the installation plan.
///
/// Fails when the recipe has no prerequisites for the machine, and when the
/// repository must be configured but neither curl nor wget is available.
/// Repository downloads use `downloader` and go to `temporary_path`.
pub fn plan(
    context: &InstallContext,
    decision: &InstallDecision,
    options: &InstallOptions,
    downloader: &str,
    temporary_path: &str,
) -> (r: Result<OperationPlan, ArcError>)
    ensures
        match r {
            Ok(p) => prerequisites_spec(context.os, context.kernel@) matches Ok(pre) && !((decision.install_driver
                || decision.install_toolkit) && !context.repository_configured
                && !context.repository_downloader_available) && plan_holds(
                p,
                *context,
                *decision,
                *options,
                pre,
                downloader@,
                temporary_path@,
            ),
            Err(e) => match prerequisites_spec(context.os, context.kernel@) {
                Err(k) => e.kind == k,
                Ok(_) => e.kind == ErrorKind::DownloaderUnavailable && e.message@ == downloader_missing_message()
                    && (decision.install_driver || decision.install_toolkit) && !context.repository_configured
                    && !context.repository_downloader_available,
            },
        },
{
    let os = &context.os;
    let manager = os.package_manager();
    let recipe = match resolve_recipe(os, context.kernel.as_str(), decision.policy) {
        Ok(r) => r,
        Err(e) => return Err(e),
    };
    let ghost pre = cmds(recipe.prerequisites@);
    let install_driver = decision.install_driver;
    let install_toolkit = decision.install_toolkit;
    let mut steps: Vec<PlanStep> = Vec::new();
    match push_repository_steps(&mut steps, context, decision, downloader, temporary_path) {
        Ok(()) => {},
        Err(e) => return Err(e),
    }
    assert(steps_view(steps@) =~= repository_steps(*context, *decision, downloader@, temporary_path@));
    let ghost after_repository = steps_view(steps@);
    if install_driver {
        push_driver_steps(
            &mut steps,
            context,
            decision,
            recipe.prerequisites,
            recipe.driver_preparation,
            recipe.driver_install,
            recipe.driver_verification,
        );
    }
    assert(steps_view(steps@) =~= after_repository + driver_steps(*context, *decision, pre));
    let ghost after_driver = steps_view(steps@);
    push_toolkit_steps(&mut steps, context, decision);
    assert(steps_view(steps@) =~= after_driver + toolkit_steps(*context, *decision));
    let details = plan_details_exec(context, decision, options);
    let name = match decision.policy.flavor {
        DriverFlavor::Open => "NVIDIA Open driver",
        DriverFlavor::Proprietary => "NVIDIA proprietary driver",
    };
    let completion_message = if install_driver && install_toolkit {
        concat(name, " and CUDA Toolkit installed and verified.")
    } else if install_driver {
        concat(name, " installed and verified.")
    } else if install_toolkit {
        String::from_str("CUDA Toolkit installed and verified.")
    } else {
        String::from_str("Requested NVIDIA components are already installed.")
    };
    let next_step = if decision.driver_pending_activation || install_driver {
        Some(NextStep::LoadNvidiaDriver)
    } else {
        None
    };
    let p = OperationPlan {
        title: String::from_str("NVIDIA Installation Plan"),
        details,
        devices: copy_devices(&context.status.devices),
        steps,
        confirmation_warning: String::new(),
        completion_message,
        next_step,
    };
    assert(steps_view(p.steps@) =~= plan_steps(*context, *decision, pre, downloader@, temporary_path@));
    Ok(p)
}

fn detail(label: &str, value: &str) -> (d: PlanDetail)
    ensures
        d.label@ == label@,
        d.value@ == value@,
{
    PlanDetail::new(label, value)
}

fn plan_details_exec(ctx: &InstallContext, d: &InstallDecision, options: &InstallOptions) -> (v: Vec<PlanDetail>)
    ensures
        details_view(v@) == plan_details(*ctx, *d, *options),
{
    let package = d.policy.flavor.package();
    let pin = match d.policy.branch {
        Some(b) => {
            let n = u32_to_string(b);
            concat(" pinned to R", n.as_str())
        },
        None => String::new(),
    };
    let driver_value = if d.driver_pending_activation {
        concat(package, " installed; kernel module is ready but not loaded — reboot required")
    } else if !d.install_driver {
        concat(package, " already managed correctly — skipped")
    } else if d.broken_managed_packages.is_some() {
        concat3("repair detected packages and ensure ", package, " is installed")
    } else if d.transition_driver {
        concat3("transition to ", package, pin.as_str())
    } else {
        concat3("install ", package, pin.as_str())
    };
    let toolkit_value = match &d.toolkit_package {
        None => String::from_str("not requested"),
        Some(p) => if d.install_toolkit {
            concat("install ", p.as_str())
        } else {
            String::from_str("requested version already installed — skipped")
        },
    };
    let mut validation = String::from_str("repository-compatible ");
    validation.append(ctx.repository.family.as_str());
    validation.append("; NVIDIA validated: ");
    validation.append(if ctx.repository.nvidia_validated { "yes" } else { "no" });
    let name = ctx.os.display_name();
    let existing = ctx.status.driver.description();
    let v = vec![
        detail("OS", name.as_str()),
        detail("Kernel", ctx.kernel.as_str()),
        detail("Package manager", ctx.os.package_manager().label()),
        detail("Repository", ctx.repository.base_url.as_str()),
        detail("Release validation", validation.as_str()),
        detail("Profile", options.profile.plan_label()),
        detail("Existing driver", existing.as_str()),
        detail("Driver", driver_value.as_str()),
        detail("CUDA Toolkit", toolkit_value.as_str()),
        detail(
            "Kernel headers",
            if ctx.kernel_headers_available {
                "detected for running kernel"
            } else {
                "install exact matching prerequisites before driver"
            },
        ),
    ];
    assert(details_view(v@) =~~= plan_details(*ctx, *d, *options));
    v
}

/// The prerequisites for the running kernel come before the driver: in a plan
/// that installs the driver, the prerequisite commands are the steps right after
/// the repository's, and every step that installs the driver package or moves
/// it to another package stream comes after them. Where no driver flavor is
/// installed yet, the plan installs the driver package.
pub proof fn law_prerequisites_precede_driver(
    p: OperationPlan,
    ctx: InstallContext,
    d: InstallDecision,
    options: InstallOptions,
    pre: Seq<CommandView>,
    downloader: Seq<char>,
    path: Seq<char>,
)
    requires
        plan_holds(p, ctx, d, options, pre, downloader, path),
        d.install_driver,
    ensures
        ({
            let s = steps_view(p.steps@);
            let r = repository_steps(ctx, d, downloader, path).len();
            &&& forall|k: int|
                0 <= k < pre.len() ==> s[r + k] == (
                    "Ensure NVIDIA driver prerequisites"@,
                    #[trigger] pre[k],
                    prerequisites_stage(),
                )
            &&& forall|b: int|
                0 <= b < s.len() && (#[trigger] s[b].0 == "Install the NVIDIA driver"@ || s[b].0
                    == "Transition the NVIDIA driver package stream"@) ==> r + pre.len() <= b
            &&& d.current_flavor is None ==> exists|b: int|
                r + pre.len() <= b < s.len() && #[trigger] s[b] == (
                    "Install the NVIDIA driver"@,
                    install_spec(manager_of(ctx.os.distribution), flavor_package(d.policy.flavor), false),
                    driver_stage(d.policy.flavor),
                )
        }),
{
    let s = steps_view(p.steps@);
    let m = manager_of(ctx.os.distribution);
    let repo = repository_steps(ctx, d, downloader, path);
    let r = repo.len();
    let pres = staged(pre, "Ensure NVIDIA driver prerequisites"@, prerequisites_stage());
    let ds = driver_steps(ctx, d, pre);
    assert(s == repo + ds + toolkit_steps(ctx, d));
    reveal_strlit("Install the NVIDIA driver");
    reveal_strlit("Transition the NVIDIA driver package stream");
    reveal_strlit("Ensure NVIDIA driver prerequisites");
    reveal_strlit("Configure the NVIDIA CUDA repository");
    reveal_strlit("Refresh package metadata");
    let install_d = "Install the NVIDIA driver"@;
    let transition_d = "Transition the NVIDIA driver package stream"@;
    assert(install_d[0] == 'I' && transition_d[0] == 'T');
    assert("Configure the NVIDIA CUDA repository"@[0] == 'C');
    assert("Refresh package metadata"@[0] == 'R');
    assert("Ensure NVIDIA driver prerequisites"@[0] == 'E');
    assert("Configure the NVIDIA CUDA repository"@ != install_d && "Configure the NVIDIA CUDA repository"@ != transition_d);
    assert("Refresh package metadata"@ != install_d && "Refresh package metadata"@ != transition_d);
    assert("Ensure NVIDIA driver prerequisites"@ != install_d && "Ensure NVIDIA driver prerequisites"@ != transition_d);
    assert forall|k: int| 0 <= k < pre.len() implies s[r + k] == (
        "Ensure NVIDIA driver prerequisites"@,
        #[trigger] pre[k],
        prerequisites_stage(),
    ) by {
        assert(ds[k] == pres[k]);
        assert(s[r + k] == ds[k]);
    }
    assert forall|b: int|
        0 <= b < s.len() && (#[trigger] s[b].0 == "Install the NVIDIA driver"@ || s[b].0
            == "Transition the NVIDIA driver package stream"@) implies r + pre.len() <= b by {
        if b < r {
            assert(s[b] == repo[b]);
            if !ctx.repository_configured {
                let setup = staged(
                    setup_spec(m, ctx.repository@, downloader, path),
                    "Configure the NVIDIA CUDA repository"@,
                    repository_stage(),
                );
                if b < setup.len() {
                    assert(repo[b] == setup[b]);
                    assert(setup[b].0 == "Configure the NVIDIA CUDA repository"@);
                } else {
                    assert(repo[b].0 == "Refresh package metadata"@);
                }
            } else {
                assert(repo[b].0 == "Refresh package metadata"@);
            }
        } else if b < r + pre.len() {
            assert(s[b] == ds[b - r]);
            assert(ds[b - r] == pres[b - r]);
        }
    }
    if d.current_flavor is None {
        let repair = repair_steps(ctx, d);
        let prep = staged(branch_preparation_spec(ctx.os, d.policy), "Select the NVIDIA driver package stream"@, driver_stage(d.policy.flavor));
        let b: int = (r + pre.len() + 1 + repair.len() + prep.len() + 1) as int;
        assert(ds[b - r] == (
            "Install the NVIDIA driver"@,
            install_spec(m, flavor_package(d.policy.flavor), false),
            driver_stage(d.policy.flavor),
        ));
        assert(s[b] == ds[b - r]);
    }
}

} // verus!
