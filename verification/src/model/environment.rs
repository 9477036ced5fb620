//! What is installed, how it runs, and what diagnosis found.
use vstd::prelude::*;
use vstd::string::*;

use crate::model::command::{cmds, display_spec, CommandSpec, CommandView};
use crate::model::device::{GpuDevice, GpuVendor};
use crate::text::{join, nat_str, strs};

verus! {

#[derive(Clone, Copy, Debug, PartialEq, Eq, Structural)]
pub enum ToolkitSource {
    SystemPackageManager,
    ActivePath,
}

#[derive(Clone, Debug, PartialEq, Eq)]
pub struct ToolkitStatus {
    pub name: String,
    pub version: Option<String>,
    pub executable_path: Option<String>,
    pub source: ToolkitSource,
    pub packages: Vec<String>,
    pub manageable: bool,
}

#[derive(Clone, Debug, Default, PartialEq, Eq)]
pub struct DriverModuleInfo {
    pub path: Option<String>,
    pub version: Option<String>,
    pub signer: Option<String>,
    pub signature_id: Option<String>,
}

#[derive(Clone, Copy, Debug, PartialEq, Eq, Structural)]
pub enum DriverRuntimeState {
    Operational,
    RebootLikelyRequired,
    DkmsModuleMissing,
    SecureBootBlocked,
    Failed,
}

#[derive(Clone, Copy, Debug, PartialEq, Eq, Structural)]
pub enum DriverFlavorState {
    Open,
    Proprietary,
    Mixed,
}

#[derive(Clone, Copy, Debug, PartialEq, Eq, Structural)]
pub enum DriverPackageScope {
    Full,
    ComputeOnly,
    DesktopOnly,
}

/// Why a driver without packages is believed to be installed.
#[derive(Clone, Copy, Debug, PartialEq, Eq, Structural)]
pub enum UnmanagedDriverEvidence {
    RunfileUninstaller,
    DriverVersion,
    LoadedModule,
    ModuleMetadata,
    InstallerLog,
}

pub open spec fn evidence_text(e: UnmanagedDriverEvidence) -> Seq<char> {
    match e {
        UnmanagedDriverEvidence::RunfileUninstaller => "`/usr/bin/nvidia-uninstall` exists"@,
        UnmanagedDriverEvidence::DriverVersion => "an NVIDIA driver version was detected"@,
        UnmanagedDriverEvidence::LoadedModule => "the NVIDIA kernel module is loaded"@,
        UnmanagedDriverEvidence::ModuleMetadata => "NVIDIA kernel module metadata is present"@,
        UnmanagedDriverEvidence::InstallerLog =>
            "`/var/log/nvidia-installer.log` exists (supporting evidence only)"@,
    }
}

/// The evidence items described and joined with `; `.
pub open spec fn evidence_list(v: Seq<UnmanagedDriverEvidence>) -> Seq<char> {
    join(v.map_values(|e: UnmanagedDriverEvidence| evidence_text(e)), "; "@)
}

impl UnmanagedDriverEvidence {
    pub fn describe(self) -> (s: &'static str)
        ensures
            s@ == evidence_text(self),
    {
        match self {
            UnmanagedDriverEvidence::RunfileUninstaller => "`/usr/bin/nvidia-uninstall` exists",
            UnmanagedDriverEvidence::DriverVersion => "an NVIDIA driver version was detected",
            UnmanagedDriverEvidence::LoadedModule => "the NVIDIA kernel module is loaded",
            UnmanagedDriverEvidence::ModuleMetadata => "NVIDIA kernel module metadata is present",
            UnmanagedDriverEvidence::InstallerLog =>
                "`/var/log/nvidia-installer.log` exists (supporting evidence only)",
        }
    }
}

/// Describes each evidence item and joins them with `; `.
pub fn describe_evidence(evidence: &Vec<UnmanagedDriverEvidence>) -> (s: String)
    ensures
        s@ == evidence_list(evidence@),
{
    let mut r = String::new();
    let mut i: usize = 0;
    while i < evidence.len()
        invariant
            i <= evidence.len(),
            r@ == evidence_list(evidence@.take(i as int)),
        decreases evidence.len() - i,
    {
        let ghost m = |e: UnmanagedDriverEvidence| evidence_text(e);
        assert(evidence@.take(i + 1).map_values(m).drop_last() =~= evidence@.take(i as int).map_values(m));
        if i > 0 {
            r.append("; ");
        }
        r.append(evidence[i].describe());
        proof {
            if i == 0 {
                assert(evidence@.take(1).map_values(m) =~= seq![evidence_text(evidence@[0])]);
            }
        }
        i = i + 1;
    }
    assert(evidence@.take(evidence.len() as int) =~= evidence@);
    r
}

#[derive(Clone, Debug, PartialEq, Eq)]
pub enum DriverInstallation {
    Missing,
    Managed {
        flavor: DriverFlavorState,
        scope: DriverPackageScope,
        branch: Option<u32>,
        packages: Vec<String>,
    },
    BrokenManaged { flavor: DriverFlavorState, packages: Vec<String> },
    Unmanaged { working: bool, evidence: Vec<UnmanagedDriverEvidence> },
}

pub open spec fn flavor_debug(f: DriverFlavorState) -> Seq<char> {
    match f {
        DriverFlavorState::Open => "Open"@,
        DriverFlavorState::Proprietary => "Proprietary"@,
        DriverFlavorState::Mixed => "Mixed"@,
    }
}

pub open spec fn scope_debug(s: DriverPackageScope) -> Seq<char> {
    match s {
        DriverPackageScope::Full => "Full"@,
        DriverPackageScope::ComputeOnly => "ComputeOnly"@,
        DriverPackageScope::DesktopOnly => "DesktopOnly"@,
    }
}

pub open spec fn description_spec(d: DriverInstallation) -> Seq<char> {
    match d {
        DriverInstallation::Missing => "not installed"@,
        DriverInstallation::Managed { flavor, scope, branch, .. } => "managed "@ + scope_debug(
            scope,
        ) + " "@ + flavor_debug(flavor) + " installation"@ + match branch {
            Some(b) => " pinned to R"@ + nat_str(b as nat),
            None => Seq::empty(),
        },
        DriverInstallation::BrokenManaged { flavor, .. } => "broken managed "@ + flavor_debug(
            flavor,
        ) + " installation"@,
        DriverInstallation::Unmanaged { working, evidence } => (if working {
            "working"@
        } else {
            "broken"@
        }) + " unmanaged installation (evidence: "@ + evidence_list(evidence@) + ")"@,
    }
}

pub open spec fn flavor_of(d: DriverInstallation) -> Option<DriverFlavorState> {
    match d {
        DriverInstallation::Managed { flavor, .. } => Some(flavor),
        DriverInstallation::BrokenManaged { flavor, .. } => Some(flavor),
        _ => None,
    }
}

pub open spec fn branch_of(d: DriverInstallation) -> Option<u32> {
    match d {
        DriverInstallation::Managed { branch, .. } => branch,
        _ => None,
    }
}

pub fn flavor_name(f: DriverFlavorState) -> (s: &'static str)
    ensures
        s@ == flavor_debug(f),
{
    match f {
        DriverFlavorState::Open => "Open",
        DriverFlavorState::Proprietary => "Proprietary",
        DriverFlavorState::Mixed => "Mixed",
    }
}

pub fn scope_name(s: DriverPackageScope) -> (r: &'static str)
    ensures
        r@ == scope_debug(s),
{
    match s {
        DriverPackageScope::Full => "Full",
        DriverPackageScope::ComputeOnly => "ComputeOnly",
        DriverPackageScope::DesktopOnly => "DesktopOnly",
    }
}

impl DriverInstallation {
    /// The kernel-module flavor of a package-managed installation.
    pub fn flavor(&self) -> (f: Option<DriverFlavorState>)
        ensures
            f == flavor_of(*self),
    {
        match self {
            DriverInstallation::Managed { flavor, .. } => Some(*flavor),
            DriverInstallation::BrokenManaged { flavor, .. } => Some(*flavor),
            DriverInstallation::Missing => None,
            DriverInstallation::Unmanaged { .. } => None,
        }
    }

    /// The pinned driver branch of a working managed installation.
    pub fn branch(&self) -> (b: Option<u32>)
        ensures
            b == branch_of(*self),
    {
        match self {
            DriverInstallation::Managed { branch, .. } => *branch,
            _ => None,
        }
    }

    /// A one-line description of the installation.
    pub fn description(&self) -> (s: String)
        ensures
            s@ == description_spec(*self),
    {
        match self {
            DriverInstallation::Missing => String::from_str("not installed"),
            DriverInstallation::Managed { flavor, scope, branch, .. } => {
                let mut s = String::from_str("managed ");
                s.append(scope_name(*scope));
                s.append(" ");
                s.append(flavor_name(*flavor));
                s.append(" installation");
                match branch {
                    Some(b) => {
                        s.append(" pinned to R");
                        let n = crate::text::u32_to_string(*b);
                        s.append(n.as_str());
                    },
                    None => {},
                }
                s
            },
            DriverInstallation::BrokenManaged { flavor, .. } => {
                let mut s = String::from_str("broken managed ");
                s.append(flavor_name(*flavor));
                s.append(" installation");
                s
            },
            DriverInstallation::Unmanaged { working, evidence } => {
                let mut s = String::from_str(if *working { "working" } else { "broken" });
                s.append(" unmanaged installation (evidence: ");
                let e = describe_evidence(evidence);
                s.append(e.as_str());
                s.append(")");
                s
            },
        }
    }

    /// A copy of this installation.
    pub fn copy(&self) -> (d: DriverInstallation)
        ensures
            same_installation(d, *self),
    {
        match self {
            DriverInstallation::Missing => DriverInstallation::Missing,
            DriverInstallation::Managed { flavor, scope, branch, packages } => {
                DriverInstallation::Managed {
                    flavor: *flavor,
                    scope: *scope,
                    branch: *branch,
                    packages: copy_strings(packages),
                }
            },
            DriverInstallation::BrokenManaged { flavor, packages } => {
                DriverInstallation::BrokenManaged { flavor: *flavor, packages: copy_strings(packages) }
            },
            DriverInstallation::Unmanaged { working, evidence } => {
                DriverInstallation::Unmanaged { working: *working, evidence: evidence.clone() }
            },
        }
    }
}

/// Two installations agree in every field.
pub open spec fn same_installation(a: DriverInstallation, b: DriverInstallation) -> bool {
    match (a, b) {
        (DriverInstallation::Missing, DriverInstallation::Missing) => true,
        (
            DriverInstallation::Managed { flavor: f1, scope: s1, branch: b1, packages: p1 },
            DriverInstallation::Managed { flavor: f2, scope: s2, branch: b2, packages: p2 },
        ) => f1 == f2 && s1 == s2 && b1 == b2 && p1@ == p2@,
        (
            DriverInstallation::BrokenManaged { flavor: f1, packages: p1 },
            DriverInstallation::BrokenManaged { flavor: f2, packages: p2 },
        ) => f1 == f2 && p1@ == p2@,
        (
            DriverInstallation::Unmanaged { working: w1, evidence: e1 },
            DriverInstallation::Unmanaged { working: w2, evidence: e2 },
        ) => w1 == w2 && e1@ == e2@,
        _ => false,
    }
}

/// A copy of a vector of strings.
pub fn copy_strings(v: &Vec<String>) -> (r: Vec<String>)
    ensures
        r@ == v@,
{
    v.clone()
}

#[derive(Clone, Debug, PartialEq, Eq)]
pub struct ProviderStatus {
    pub vendor: GpuVendor,
    pub devices: Vec<GpuDevice>,
    pub driver: DriverInstallation,
    pub driver_version: Option<String>,
    pub driver_runtime_operational: bool,
    pub driver_runtime_state: DriverRuntimeState,
    pub dkms_status: Option<String>,
    pub driver_module: Option<DriverModuleInfo>,
    pub kernel_version: Option<String>,
    pub secure_boot_enabled: Option<bool>,
    /// Toolkit installations proven by the system package-manager inventory.
    pub toolkits: Vec<ToolkitStatus>,
    /// The nvcc selected by PATH, which may be Conda-, module-, or user-managed.
    pub active_toolkit: Option<ToolkitStatus>,
}

#[derive(Clone, Copy, Debug, PartialEq, Eq, Structural)]
pub enum DiagnosticStatus {
    Pass,
    Warning,
    Error,
    Skipped,
}

#[derive(Clone, Copy, Debug, Hash, PartialEq, Eq, Structural)]
pub enum DiagnosticId {
    NvidiaGpu,
    OperatingSystem,
    KernelHeaders,
    SecureBoot,
    DriverPackage,
    DriverModule,
    NvidiaSmi,
    DriverLibrary,
    ToolkitInstall,
    Nvcc,
    CudaSymlink,
    DriverToolkitCompatibility,
}

#[derive(Clone, Copy, Debug, PartialEq, Eq, Structural)]
pub enum DiagnosticSection {
    Hardware,
    OperatingSystem,
    Driver,
    CudaToolkit,
}

pub open spec fn section_label(s: DiagnosticSection) -> Seq<char> {
    match s {
        DiagnosticSection::Hardware => "Hardware"@,
        DiagnosticSection::OperatingSystem => "Operating System"@,
        DiagnosticSection::Driver => "Driver"@,
        DiagnosticSection::CudaToolkit => "CUDA Toolkit"@,
    }
}

impl DiagnosticSection {
    pub fn label(self) -> (s: &'static str)
        ensures
            s@ == section_label(self),
    {
        match self {
            DiagnosticSection::Hardware => "Hardware",
            DiagnosticSection::OperatingSystem => "Operating System",
            DiagnosticSection::Driver => "Driver",
            DiagnosticSection::CudaToolkit => "CUDA Toolkit",
        }
    }
}

#[derive(Clone, Debug, PartialEq, Eq)]
pub struct DiagnosticCheck {
    pub id: DiagnosticId,
    pub section: DiagnosticSection,
    pub name: String,
    pub status: DiagnosticStatus,
    pub evidence: Vec<String>,
    pub problem: Option<String>,
    pub dependencies: Vec<DiagnosticId>,
    pub recommended_fixes: Vec<FixId>,
}

/// A check as plain values: id, section, name, status, evidence, problem,
/// prerequisites and recommended fixes.
pub type CheckView = (
    DiagnosticId,
    DiagnosticSection,
    Seq<char>,
    DiagnosticStatus,
    Seq<Seq<char>>,
    Option<Seq<char>>,
    Seq<DiagnosticId>,
    Seq<FixId>,
);

pub open spec fn opt_text(o: Option<String>) -> Option<Seq<char>> {
    match o {
        Some(s) => Some(s@),
        None => None,
    }
}

impl View for DiagnosticCheck {
    type V = CheckView;

    open spec fn view(&self) -> CheckView {
        (
            self.id,
            self.section,
            self.name@,
            self.status,
            strs(self.evidence@),
            opt_text(self.problem),
            self.dependencies@,
            self.recommended_fixes@,
        )
    }
}

pub open spec fn check_views(v: Seq<DiagnosticCheck>) -> Seq<CheckView> {
    v.map_values(|c: DiagnosticCheck| c@)
}

#[derive(Clone, Copy, Debug, PartialEq, Eq, PartialOrd, Ord, Structural)]
pub enum Confidence {
    Low,
    Medium,
    High,
}

pub open spec fn confidence_label(c: Confidence) -> Seq<char> {
    match c {
        Confidence::Low => "low"@,
        Confidence::Medium => "medium"@,
        Confidence::High => "high"@,
    }
}

impl Confidence {
    pub fn label(self) -> (s: &'static str)
        ensures
            s@ == confidence_label(self),
    {
        match self {
            Confidence::Low => "low",
            Confidence::Medium => "medium",
            Confidence::High => "high",
        }
    }
}

#[derive(Clone, Debug, PartialEq, Eq)]
pub struct DiagnosticCause {
    pub title: String,
    pub confidence: Confidence,
    pub evidence: Vec<String>,
    pub fixes: Vec<FixId>,
}

/// A cause as plain values: title, confidence, evidence and fixes.
pub type CauseView = (Seq<char>, Confidence, Seq<Seq<char>>, Seq<FixId>);

impl View for DiagnosticCause {
    type V = CauseView;

    open spec fn view(&self) -> CauseView {
        (self.title@, self.confidence, strs(self.evidence@), self.fixes@)
    }
}

pub open spec fn cause_views(v: Seq<DiagnosticCause>) -> Seq<CauseView> {
    v.map_values(|c: DiagnosticCause| c@)
}

#[derive(Clone, Copy, Debug, Hash, PartialEq, Eq, Structural)]
pub enum FixId {
    InspectHardware,
    InstallKernelHeaders,
    InstallDriver,
    RepairManagedDriver,
    RebuildDkms,
    ReinstallDriverLibraries,
    InstallToolkit,
    RepairCudaSymlink,
    UpgradeDriver,
    Reboot,
    RebootThenRecheck,
    ResolveSecureBoot,
    DebugDriver,
    DebugToolkit,
}

#[derive(Clone, Debug, PartialEq, Eq)]
pub struct Fix {
    pub id: FixId,
    pub title: String,
    pub commands: Vec<CommandSpec>,
    pub manual_steps: Vec<String>,
    pub order: u16,
}

/// A fix as plain values: id, title, commands, manual steps and order.
pub type FixView = (FixId, Seq<char>, Seq<CommandView>, Seq<Seq<char>>, u16);

impl View for Fix {
    type V = FixView;

    open spec fn view(&self) -> FixView {
        (self.id, self.title@, cmds(self.commands@), strs(self.manual_steps@), self.order)
    }
}

pub open spec fn fix_views(v: Seq<Fix>) -> Seq<FixView> {
    v.map_values(|f: Fix| f@)
}

#[derive(Clone, Debug, Default, PartialEq, Eq)]
pub struct FixPlan {
    pub causes: Vec<DiagnosticCause>,
    pub fixes: Vec<Fix>,
}

/// Some cause asks for the fix `id`.
pub open spec fn requested(causes: Seq<DiagnosticCause>, id: FixId) -> bool {
    exists|i: int, j: int|
        0 <= i < causes.len() && 0 <= j < causes[i].fixes@.len() && #[trigger] causes[i].fixes@[j]
            == id
}

/// The displays seen after going through `cs`, starting from `seen`.
pub open spec fn seen_after(cs: Seq<CommandView>, seen: Set<Seq<char>>) -> Set<Seq<char>>
    decreases cs.len(),
{
    if cs.len() == 0 {
        seen
    } else {
        seen_after(cs.drop_last(), seen).insert(display_spec(cs.last()))
    }
}

/// The commands whose display was not seen before them, in order.
pub open spec fn fresh_commands(cs: Seq<CommandView>, seen: Set<Seq<char>>) -> Seq<CommandView>
    decreases cs.len(),
{
    if cs.len() == 0 {
        Seq::empty()
    } else {
        let prior = fresh_commands(cs.drop_last(), seen);
        if seen_after(cs.drop_last(), seen).contains(display_spec(cs.last())) {
            prior
        } else {
            prior.push(cs.last())
        }
    }
}

/// A fix is kept when some cause asks for it and no earlier fix had its id.
pub open spec fn kept_ids(fs: Seq<FixView>, req: spec_fn(FixId) -> bool) -> Set<FixId>
    decreases fs.len(),
{
    if fs.len() == 0 {
        Set::empty()
    } else if req(fs.last().0) {
        kept_ids(fs.drop_last(), req).insert(fs.last().0)
    } else {
        kept_ids(fs.drop_last(), req)
    }
}

pub open spec fn keeps_last(fs: Seq<FixView>, req: spec_fn(FixId) -> bool) -> bool {
    fs.len() > 0 && req(fs.last().0) && !kept_ids(fs.drop_last(), req).contains(fs.last().0)
}

/// The command displays of the kept fixes.
pub open spec fn seen_in_fixes(fs: Seq<FixView>, req: spec_fn(FixId) -> bool) -> Set<Seq<char>>
    decreases fs.len(),
{
    if fs.len() == 0 {
        Set::empty()
    } else if keeps_last(fs, req) {
        seen_after(fs.last().2, seen_in_fixes(fs.drop_last(), req))
    } else {
        seen_in_fixes(fs.drop_last(), req)
    }
}

/// The requested fixes, each id once (its first occurrence), with every
/// command whose display appeared earlier removed.
pub open spec fn dedup_fixes(fs: Seq<FixView>, req: spec_fn(FixId) -> bool) -> Seq<FixView>
    decreases fs.len(),
{
    if fs.len() == 0 {
        Seq::empty()
    } else if keeps_last(fs, req) {
        let f = fs.last();
        dedup_fixes(fs.drop_last(), req).push(
            (f.0, f.1, fresh_commands(f.2, seen_in_fixes(fs.drop_last(), req)), f.3, f.4),
        )
    } else {
        dedup_fixes(fs.drop_last(), req)
    }
}

/// Inserts `x` after every element whose order is not greater.
pub open spec fn insert_by_order(s: Seq<FixView>, x: FixView) -> Seq<FixView>
    decreases s.len(),
{
    if s.len() == 0 {
        seq![x]
    } else if s.last().4 <= x.4 {
        s.push(x)
    } else {
        insert_by_order(s.drop_last(), x).push(s.last())
    }
}

/// Stable sort by order.
pub open spec fn sort_by_order(s: Seq<FixView>) -> Seq<FixView>
    decreases s.len(),
{
    if s.len() == 0 {
        Seq::empty()
    } else {
        insert_by_order(sort_by_order(s.drop_last()), s.last())
    }
}

pub open spec fn fix_plan_spec(causes: Seq<DiagnosticCause>, fixes: Seq<FixView>) -> Seq<FixView> {
    sort_by_order(dedup_fixes(fixes, |id: FixId| requested(causes, id)))
}

fn is_requested(causes: &Vec<DiagnosticCause>, id: FixId) -> (b: bool)
    ensures
        b == requested(causes@, id),
{
    let mut i: usize = 0;
    while i < causes.len()
        invariant
            i <= causes.len(),
            forall|a: int, j: int|
                0 <= a < i && 0 <= j < causes@[a].fixes@.len() ==> causes@[a].fixes@[j] != id,
        decreases causes.len() - i,
    {
        let mut j: usize = 0;
        while j < causes[i].fixes.len()
            invariant
                i < causes.len(),
                j <= causes@[i as int].fixes@.len(),
                forall|k: int| 0 <= k < j ==> causes@[i as int].fixes@[k] != id,
            decreases causes@[i as int].fixes@.len() - j,
        {
            if causes[i].fixes[j] == id {
                assert(causes@[i as int].fixes@[j as int] == id);
                return true;
            }
            j = j + 1;
        }
        i = i + 1;
    }
    false
}

fn contains_display(seen: &Vec<String>, d: &String) -> (b: bool)
    ensures
        b == strs(seen@).contains(d@),
{
    let mut i: usize = 0;
    while i < seen.len()
        invariant
            i <= seen.len(),
            forall|j: int| 0 <= j < i ==> seen@[j]@ != d@,
        decreases seen.len() - i,
    {
        if crate::text::eq_str(seen[i].as_str(), d.as_str()) {
            assert(strs(seen@)[i as int] == d@);
            return true;
        }
        i = i + 1;
    }
    assert forall|j: int| 0 <= j < strs(seen@).len() implies strs(seen@)[j] != d@ by {
        assert(strs(seen@)[j] == seen@[j]@);
    }
    false
}

/// Keeps the commands whose display has not been seen, recording each display.
fn keep_fresh_commands(commands: &Vec<CommandSpec>, seen: &mut Vec<String>) -> (kept: Vec<CommandSpec>)
    ensures
        cmds(kept@) == fresh_commands(cmds(commands@), strs(old(seen)@).to_set()),
        strs(final(seen)@).to_set() == seen_after(cmds(commands@), strs(old(seen)@).to_set()),
{
    let ghost s0 = strs(seen@).to_set();
    let ghost cs = cmds(commands@);
    let mut kept: Vec<CommandSpec> = Vec::new();
    let mut i: usize = 0;
    assert(cs.take(0) =~= Seq::<CommandView>::empty());
    while i < commands.len()
        invariant
            i <= commands.len(),
            cs == cmds(commands@),
            cs.len() == commands@.len(),
            kept@.len() == cmds(kept@).len(),
            cmds(kept@) == fresh_commands(cs.take(i as int), s0),
            strs(seen@).to_set() == seen_after(cs.take(i as int), s0),
        decreases commands.len() - i,
    {
        assert(cs.take(i + 1).drop_last() =~= cs.take(i as int));
        assert(cs.take(i + 1).last() == cs[i as int]);
        assert(cs[i as int] == commands@[i as int]@);
        let d = commands[i].display();
        let ghost old_seen = seen@;
        if contains_display(seen, &d) {
            assert(strs(seen@).to_set().contains(d@));
        } else {
            let ghost old_kept = kept@;
            kept.push(commands[i].copy());
            seen.push(d);
            assert(cmds(kept@) =~= cmds(old_kept).push(cs[i as int]));
            assert(strs(seen@) =~= strs(old_seen).push(d@));
            assert(strs(seen@).to_set() =~= strs(old_seen).to_set().insert(d@)) by {
                assert forall|x: Seq<char>| strs(seen@).to_set().contains(x) <==> strs(old_seen).to_set().insert(d@).contains(x) by {
                    if strs(seen@).contains(x) {
                        let k = choose|k: int| 0 <= k < strs(seen@).len() && strs(seen@)[k] == x;
                        if k < strs(old_seen).len() {
                            assert(strs(old_seen)[k] == x);
                        }
                    }
                    if strs(old_seen).contains(x) {
                        let k = choose|k: int| 0 <= k < strs(old_seen).len() && strs(old_seen)[k] == x;
                        assert(strs(seen@)[k] == x);
                    }
                    if x == d@ {
                        assert(strs(seen@)[strs(old_seen).len() as int] == x);
                    }
                }
            }
        }
        proof {
            if strs(old_seen).to_set().contains(d@) {
                assert(seen_after(cs.take(i as int), s0).insert(display_spec(cs[i as int])) =~= seen_after(cs.take(i as int), s0));
            }
        }
        i = i + 1;
    }
    assert(cs.take(commands.len() as int) =~= cs);
    kept
}

proof fn lemma_insert_position(s: Seq<FixView>, x: FixView, p: int)
    requires
        0 <= p <= s.len(),
        forall|j: int| p <= j < s.len() ==> (#[trigger] s[j]).4 > x.4,
        p == 0 || s[p - 1].4 <= x.4,
    ensures
        insert_by_order(s, x) == s.insert(p, x),
    decreases s.len(),
{
    if s.len() == 0 {
        assert(s.insert(p, x) =~= seq![x]);
    } else if p == s.len() {
        assert(s.insert(p, x) =~= s.push(x));
    } else {
        let t = s.drop_last();
        assert forall|j: int| p <= j < t.len() implies (#[trigger] t[j]).4 > x.4 by {
            assert(t[j] == s[j]);
        }
        if p > 0 {
            assert(t[p - 1] == s[p - 1]);
        }
        lemma_insert_position(t, x, p);
        assert(s.insert(p, x) =~= t.insert(p, x).push(s.last()));
    }
}

/// Stable sort of the fixes by their order.
fn sort_fixes(fixes: Vec<Fix>) -> (sorted: Vec<Fix>)
    ensures
        fix_views(sorted@) == sort_by_order(fix_views(fixes@)),
{
    let ghost fv = fix_views(fixes@);
    let mut rest = fixes;
    let mut sorted: Vec<Fix> = Vec::new();
    let mut k: usize = 0;
    let n = rest.len();
    assert(fv.take(0) =~= Seq::<FixView>::empty());
    while rest.len() > 0
        invariant
            k + rest@.len() == n,
            fv.len() == n,
            fix_views(rest@) == fv.skip(k as int),
            sorted@.len() == fix_views(sorted@).len(),
            fix_views(sorted@) == sort_by_order(fv.take(k as int)),
        decreases rest.len(),
    {
        let ghost old_rest = rest@;
        let x = rest.remove(0);
        assert(x@ == fv[k as int]) by {
            assert(fix_views(old_rest)[0] == fv.skip(k as int)[0]);
        }
        assert(fix_views(rest@) =~= fv.skip(k + 1)) by {
            assert forall|j: int| 0 <= j < fix_views(rest@).len() implies fix_views(rest@)[j] == fv.skip(k + 1)[j] by {
                assert(rest@[j] == old_rest[j + 1]);
                assert(fix_views(old_rest)[j + 1] == fv.skip(k as int)[j + 1]);
            }
        }
        let mut p = sorted.len();
        while p > 0 && sorted[p - 1].order > x.order
            invariant
                p <= sorted@.len(),
                forall|j: int| p <= j < sorted@.len() ==> (#[trigger] sorted@[j]).order > x.order,
            decreases p,
        {
            p = p - 1;
        }
        let ghost old_sorted = fix_views(sorted@);
        proof {
            assert forall|j: int| p <= j < old_sorted.len() implies (#[trigger] old_sorted[j]).4 > x@.4 by {
                assert(old_sorted[j] == sorted@[j]@);
            }
            if p > 0 {
                assert(old_sorted[p - 1] == sorted@[p - 1]@);
            }
            lemma_insert_position(old_sorted, x@, p as int);
            assert(fv.take(k + 1).drop_last() =~= fv.take(k as int));
        }
        let ghost sv = sorted@;
        sorted.insert(p, x);
        assert(fix_views(sorted@) =~= old_sorted.insert(p as int, x@)) by {
            assert(sorted@ == sv.insert(p as int, x));
            assert forall|j: int| 0 <= j < fix_views(sorted@).len() implies fix_views(sorted@)[j] == old_sorted.insert(p as int, x@)[j] by {
                if j < p {
                    assert(sorted@[j] == sv[j]);
                } else if j > p {
                    assert(sorted@[j] == sv[j - 1]);
                }
            }
        }
        k = k + 1;
    }
    assert(fv.take(n as int) =~= fv);
    sorted
}

impl FixPlan {
    /// Keeps the fixes that some cause asks for, each once, drops commands
    /// already shown by an earlier fix, and orders the fixes by `order`
    /// (stable).
    pub fn new(causes: Vec<DiagnosticCause>, fixes: Vec<Fix>) -> (plan: FixPlan)
        ensures
            plan.causes@ == causes@,
            fix_views(plan.fixes@) == fix_plan_spec(causes@, fix_views(fixes@)),
    {
        let ghost req = |id: FixId| requested(causes@, id);
        let ghost fv = fix_views(fixes@);
        let mut rest = fixes;
        let mut kept: Vec<Fix> = Vec::new();
        let mut kept_ids_v: Vec<FixId> = Vec::new();
        let mut seen: Vec<String> = Vec::new();
        let ghost mut k: int = 0;
        assert(fv.len() == rest@.len());
        assert(kept_ids_v@.to_set() =~= Set::<FixId>::empty());
        assert(strs(seen@).to_set() =~= Set::<Seq<char>>::empty());
        assert(fv.take(0) =~= Seq::<FixView>::empty());
        while rest.len() > 0
            invariant
                0 <= k <= fv.len(),
                k + rest@.len() == fv.len(),
                fix_views(rest@) == fv.skip(k),
                kept@.len() == fix_views(kept@).len(),
                fix_views(kept@) == dedup_fixes(fv.take(k), req),
                kept_ids_v@.to_set() == kept_ids(fv.take(k), req),
                strs(seen@).to_set() == seen_in_fixes(fv.take(k), req),
                req == (|id: FixId| requested(causes@, id)),
            decreases rest.len(),
        {
            let ghost old_rest = rest@;
            let ghost ids0 = kept_ids_v@.to_set();
            let f = rest.remove(0);
            assert(fv[k] == f@) by {
                assert(fix_views(old_rest)[0] == f@);
                assert(fv.skip(k)[0] == fv[k]);
            }
            assert(fix_views(rest@) =~= fv.skip(k + 1)) by {
                assert forall|j: int| 0 <= j < fix_views(rest@).len() implies fix_views(rest@)[j] == fv.skip(k + 1)[j] by {
                    assert(rest@[j] == old_rest[j + 1]);
                    assert(fix_views(old_rest)[j + 1] == fv.skip(k)[j + 1]);
                }
            }
            assert(fv.take(k + 1).drop_last() =~= fv.take(k));
            assert(fv.take(k + 1).last() == fv[k]);
            let wanted = is_requested(&causes, f.id);
            let already = vec_contains_id(&kept_ids_v, f.id);
            if wanted && !already {
                let commands = keep_fresh_commands(&f.commands, &mut seen);
                let ghost old_kept = fix_views(kept@);
                let nf = Fix {
                    id: f.id,
                    title: f.title,
                    commands,
                    manual_steps: f.manual_steps,
                    order: f.order,
                };
                kept.push(nf);
                let ghost old_ids = kept_ids_v@;
                kept_ids_v.push(f.id);
                assert(kept_ids_v@.drop_last() =~= old_ids);
                assert(fix_views(kept@) =~= old_kept.push(nf@));
                assert(kept_ids_v@.to_set() =~= ids0.insert(f.id)) by {
                    assert(kept_ids_v@ == kept_ids_v@.drop_last().push(f.id));
                    assert forall|x: FixId| kept_ids_v@.to_set().contains(x) <==> ids0.insert(f.id).contains(x) by {
                        if kept_ids_v@.contains(x) {
                            let j = choose|j: int| 0 <= j < kept_ids_v@.len() && kept_ids_v@[j] == x;
                            if j < kept_ids_v@.len() - 1 {
                                assert(kept_ids_v@.drop_last()[j] == x);
                            }
                        }
                        if ids0.contains(x) {
                            assert(kept_ids_v@.drop_last().contains(x));
                            let j = choose|j: int| 0 <= j < kept_ids_v@.drop_last().len() && kept_ids_v@.drop_last()[j] == x;
                            assert(kept_ids_v@[j] == x);
                        }
                        if x == f.id {
                            assert(kept_ids_v@[kept_ids_v@.len() - 1] == x);
                        }
                    }
                }
            } else {
                proof {
                    if wanted {
                        assert(kept_ids(fv.take(k), req).insert(f.id) =~= kept_ids(fv.take(k), req));
                    }
                }
            }
            proof {
                k = k + 1;
            }
        }
        assert(fv.skip(k).len() == 0);
        assert(fv.take(k) =~= fv);
        let sorted = sort_fixes(kept);
        FixPlan { causes, fixes: sorted }
    }
}

fn vec_contains_id(v: &Vec<FixId>, id: FixId) -> (b: bool)
    ensures
        b == v@.to_set().contains(id),
{
    let mut i: usize = 0;
    while i < v.len()
        invariant
            i <= v.len(),
            forall|j: int| 0 <= j < i ==> v@[j] != id,
        decreases v.len() - i,
    {
        if v[i] == id {
            assert(v@.contains(id));
            return true;
        }
        i = i + 1;
    }
    false
}

/// The orders of the fixes never decrease.
pub open spec fn ordered_by_order(s: Seq<FixView>) -> bool {
    forall|i: int, j: int| 0 <= i < j < s.len() ==> (#[trigger] s[i]).4 <= (#[trigger] s[j]).4
}

/// No id occurs twice.
pub open spec fn distinct_ids(s: Seq<FixView>) -> bool {
    forall|i: int, j: int| 0 <= i < j < s.len() ==> (#[trigger] s[i]).0 != (#[trigger] s[j]).0
}

pub open spec fn has_id(s: Seq<FixView>, id: FixId) -> bool {
    exists|i: int| 0 <= i < s.len() && (#[trigger] s[i]).0 == id
}

proof fn lemma_insert_by_order_position(s: Seq<FixView>, x: FixView) -> (p: int)
    requires
        ordered_by_order(s),
    ensures
        0 <= p <= s.len(),
        insert_by_order(s, x) == s.insert(p, x),
        forall|j: int| 0 <= j < p ==> (#[trigger] s[j]).4 <= x.4,
        forall|j: int| p <= j < s.len() ==> (#[trigger] s[j]).4 > x.4,
    decreases s.len(),
{
    if s.len() == 0 {
        assert(s.insert(0, x) =~= seq![x]);
        0
    } else if s.last().4 <= x.4 {
        assert(s.insert(s.len() as int, x) =~= s.push(x));
        s.len() as int
    } else {
        let t = s.drop_last();
        assert(ordered_by_order(t)) by {
            assert forall|i: int, j: int| 0 <= i < j < t.len() implies (#[trigger] t[i]).4 <= (#[trigger] t[j]).4 by {
                assert(t[i] == s[i] && t[j] == s[j]);
            }
        }
        let q = lemma_insert_by_order_position(t, x);
        assert(t.insert(q, x).push(s.last()) =~= s.insert(q, x));
        assert forall|j: int| q <= j < s.len() implies (#[trigger] s[j]).4 > x.4 by {
            if j < t.len() {
                assert(s[j] == t[j]);
            }
        }
        assert forall|j: int| 0 <= j < q implies (#[trigger] s[j]).4 <= x.4 by {
            assert(s[j] == t[j]);
        }
        q
    }
}

proof fn lemma_sort_by_order(s: Seq<FixView>)
    ensures
        ordered_by_order(sort_by_order(s)),
        sort_by_order(s).len() == s.len(),
        forall|id: FixId| has_id(sort_by_order(s), id) <==> has_id(s, id),
        distinct_ids(s) ==> distinct_ids(sort_by_order(s)),
        forall|k: int| 0 <= k < sort_by_order(s).len() ==> s.contains(#[trigger] sort_by_order(s)[k]),
    decreases s.len(),
{
    if s.len() > 0 {
        let t = s.drop_last();
        let x = s.last();
        lemma_sort_by_order(t);
        let st = sort_by_order(t);
        let p = lemma_insert_by_order_position(st, x);
        let r = st.insert(p, x);
        assert(sort_by_order(s) == r);
        assert forall|i: int, j: int| 0 <= i < j < r.len() implies (#[trigger] r[i]).4 <= (#[trigger] r[j]).4 by {
            if j < p {
                assert(r[i] == st[i] && r[j] == st[j]);
            } else if j == p {
                assert(r[i] == st[i]);
            } else if i < p {
                assert(r[i] == st[i] && r[j] == st[j - 1]);
            } else if i == p {
                assert(r[j] == st[j - 1]);
            } else {
                assert(r[i] == st[i - 1] && r[j] == st[j - 1]);
            }
        }
        assert forall|id: FixId| has_id(r, id) <==> has_id(s, id) by {
            if has_id(r, id) {
                let k = choose|k: int| 0 <= k < r.len() && (#[trigger] r[k]).0 == id;
                if k < p {
                    assert(r[k] == st[k]);
                    assert(has_id(st, id));
                    let m = choose|m: int| 0 <= m < t.len() && (#[trigger] t[m]).0 == id;
                    assert(s[m] == t[m]);
                } else if k == p {
                    assert(s[s.len() - 1].0 == id);
                } else {
                    assert(r[k] == st[k - 1]);
                    assert(has_id(st, id));
                    let m = choose|m: int| 0 <= m < t.len() && (#[trigger] t[m]).0 == id;
                    assert(s[m] == t[m]);
                }
            }
            if has_id(s, id) {
                let k = choose|k: int| 0 <= k < s.len() && (#[trigger] s[k]).0 == id;
                if k == s.len() - 1 {
                    assert(r[p] == x);
                } else {
                    assert(t[k] == s[k]);
                    assert(has_id(t, id));
                    let m = choose|m: int| 0 <= m < st.len() && (#[trigger] st[m]).0 == id;
                    if m < p {
                        assert(r[m] == st[m]);
                    } else {
                        assert(r[m + 1] == st[m]);
                    }
                }
            }
        }
        assert forall|k: int| 0 <= k < r.len() implies s.contains(#[trigger] r[k]) by {
            if k < p {
                assert(r[k] == st[k]);
                assert(t.contains(st[k]));
                let m = choose|m: int| 0 <= m < t.len() && t[m] == st[k];
                assert(s[m] == t[m]);
            } else if k == p {
                assert(s[s.len() - 1] == x);
            } else {
                assert(r[k] == st[k - 1]);
                assert(t.contains(st[k - 1]));
                let m = choose|m: int| 0 <= m < t.len() && t[m] == st[k - 1];
                assert(s[m] == t[m]);
            }
        }
        if distinct_ids(s) {
            assert(distinct_ids(t)) by {
                assert forall|i: int, j: int| 0 <= i < j < t.len() implies (#[trigger] t[i]).0 != (#[trigger] t[j]).0 by {
                    assert(t[i] == s[i] && t[j] == s[j]);
                }
            }
            assert(!has_id(t, x.0)) by {
                if has_id(t, x.0) {
                    let m = choose|m: int| 0 <= m < t.len() && (#[trigger] t[m]).0 == x.0;
                    assert(s[m] == t[m]);
                    assert(s[m].0 == s[s.len() - 1].0);
                }
            }
            assert(!has_id(st, x.0));
            assert forall|i: int, j: int| 0 <= i < j < r.len() implies (#[trigger] r[i]).0 != (#[trigger] r[j]).0 by {
                if i == p {
                    assert(r[j] == st[j - 1]);
                } else if j == p {
                    assert(r[i] == st[i]);
                } else {
                    let a = if i < p { i } else { i - 1 };
                    let b = if j < p { j } else { j - 1 };
                    assert(r[i] == st[a] && r[j] == st[b]);
                }
            }
        }
    } else {
        assert(sort_by_order(s) =~= s);
    }
}

proof fn lemma_dedup_fixes(fs: Seq<FixView>, req: spec_fn(FixId) -> bool)
    ensures
        distinct_ids(dedup_fixes(fs, req)),
        forall|id: FixId| has_id(dedup_fixes(fs, req), id) <==> kept_ids(fs, req).contains(id),
        forall|id: FixId| #[trigger] kept_ids(fs, req).contains(id) ==> req(id),
        forall|k: int| 0 <= k < fs.len() && req(fs[k].0) ==> #[trigger] kept_ids(fs, req).contains(fs[k].0),
    decreases fs.len(),
{
    if fs.len() > 0 {
        let t = fs.drop_last();
        lemma_dedup_fixes(t, req);
        let d = dedup_fixes(t, req);
        if keeps_last(fs, req) {
            let f = fs.last();
            let nf = (f.0, f.1, fresh_commands(f.2, seen_in_fixes(t, req)), f.3, f.4);
            let r = d.push(nf);
            assert(dedup_fixes(fs, req) == r);
            assert(!has_id(d, f.0));
            assert forall|i: int, j: int| 0 <= i < j < r.len() implies (#[trigger] r[i]).0 != (#[trigger] r[j]).0 by {
                if j == d.len() {
                    assert(r[i] == d[i]);
                } else {
                    assert(r[i] == d[i] && r[j] == d[j]);
                }
            }
            assert forall|id: FixId| has_id(r, id) <==> kept_ids(fs, req).contains(id) by {
                if has_id(r, id) {
                    let k = choose|k: int| 0 <= k < r.len() && (#[trigger] r[k]).0 == id;
                    if k < d.len() {
                        assert(r[k] == d[k]);
                        assert(has_id(d, id));
                    }
                }
                if kept_ids(fs, req).contains(id) {
                    if id == f.0 {
                        assert(r[d.len() as int].0 == id);
                    } else {
                        assert(has_id(d, id));
                        let k = choose|k: int| 0 <= k < d.len() && (#[trigger] d[k]).0 == id;
                        assert(r[k] == d[k]);
                    }
                }
            }
        } else {
            assert(dedup_fixes(fs, req) == d);
        }
        assert forall|id: FixId| #[trigger] kept_ids(fs, req).contains(id) implies req(id) by {
            if id != fs.last().0 {
                assert(kept_ids(t, req).contains(id));
            }
        }
        assert forall|k: int| 0 <= k < fs.len() && req(fs[k].0) implies #[trigger] kept_ids(fs, req).contains(fs[k].0) by {
            if k < t.len() {
                assert(fs[k] == t[k]);
                assert(kept_ids(t, req).contains(t[k].0));
            }
        }
    }
}

/// The fixes of a plan are asked for by some cause, each appears once, they
/// come in the order of their `order` field, and every fix on offer that some
/// cause asks for is in the plan.
pub proof fn law_fix_plan_requested_once_and_ordered(causes: Seq<DiagnosticCause>, fixes: Seq<FixView>)
    ensures
        ({
            let plan = fix_plan_spec(causes, fixes);
            &&& forall|i: int| 0 <= i < plan.len() ==> requested(causes, (#[trigger] plan[i]).0)
            &&& distinct_ids(plan)
            &&& ordered_by_order(plan)
            &&& forall|k: int| 0 <= k < fixes.len() && requested(causes, (#[trigger] fixes[k]).0) ==> has_id(plan, fixes[k].0)
        }),
{
    let req = |id: FixId| requested(causes, id);
    let d = dedup_fixes(fixes, req);
    lemma_dedup_fixes(fixes, req);
    lemma_sort_by_order(d);
    let plan = sort_by_order(d);
    assert forall|i: int| 0 <= i < plan.len() implies requested(causes, (#[trigger] plan[i]).0) by {
        assert(has_id(plan, plan[i].0));
        assert(has_id(d, plan[i].0));
        assert(kept_ids(fixes, req).contains(plan[i].0));
    }
    assert forall|k: int| 0 <= k < fixes.len() && requested(causes, (#[trigger] fixes[k]).0) implies has_id(plan, fixes[k].0) by {
        assert(req(fixes[k].0));
        assert(kept_ids(fixes, req).contains(fixes[k].0));
    }
}

#[derive(Clone, Debug, PartialEq, Eq)]
pub struct Diagnostics {
    pub vendor: GpuVendor,
    pub checks: Vec<DiagnosticCheck>,
    pub fix_plan: FixPlan,
}

pub open spec fn has_errors_spec(checks: Seq<DiagnosticCheck>) -> bool {
    exists|i: int| 0 <= i < checks.len() && (#[trigger] checks[i]).status == DiagnosticStatus::Error
}

impl Diagnostics {
    /// No check failed with an error.
    pub fn healthy(&self) -> (b: bool)
        ensures
            b == !has_errors_spec(self.checks@),
    {
        !self.has_errors()
    }

    /// Some check failed with an error.
    pub fn has_errors(&self) -> (b: bool)
        ensures
            b == has_errors_spec(self.checks@),
    {
        let mut i: usize = 0;
        while i < self.checks.len()
            invariant
                i <= self.checks.len(),
                forall|j: int| 0 <= j < i ==> self.checks@[j].status != DiagnosticStatus::Error,
            decreases self.checks.len() - i,
        {
            if self.checks[i].status == DiagnosticStatus::Error {
                return true;
            }
            i = i + 1;
        }
        false
    }
}

} // verus!
