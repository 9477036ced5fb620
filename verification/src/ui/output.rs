//! The text that `arc status` and `arc doctor` print.
use vstd::prelude::*;
use vstd::string::*;

use crate::model::command::{display_spec, CommandSpec, CommandView};
use crate::model::device::vendor_label;
use crate::model::environment::{
    cause_views, check_views, confidence_label, fix_views, has_errors_spec, section_label, CauseView,
    CheckView, DiagnosticCause, DiagnosticCheck, DiagnosticSection, DiagnosticStatus, Diagnostics,
    DriverFlavorState, DriverInstallation, DriverPackageScope, DriverRuntimeState, Fix, FixView,
    ProviderStatus,
};
use crate::model::system::{display_name_spec, OsInfo};
use crate::providers::nvidia::runtime::{status_warning, status_warning_spec};
pub use crate::ui::plan::format_operation_plan;
use crate::text::{
    concat, contains, contains_str, is_prefix, join, join_strings, nat_str, split, split_once,
    split_once_str, split_str, starts_with, strs, trim, trim_str, u64_to_string,
};

verus! {

/// `label` padded with spaces to `width` characters, as `{:<width}` does.
pub open spec fn pad_spec(label: Seq<char>, width: nat) -> Seq<char> {
    if label.len() < width {
        label + Seq::new((width - label.len()) as nat, |i: int| ' ')
    } else {
        label
    }
}

pub open spec fn status_row_spec(label: Seq<char>, value: Seq<char>) -> Seq<char> {
    pad_spec(label, 20) + value + "\n"@
}

pub open spec fn technical_row_spec(label: Seq<char>, value: Seq<char>) -> Seq<char> {
    pad_spec(label, 24) + value + "\n"@
}

/// The value of the last `[value]` in the pieces after each `[` that holds no `:`.
pub open spec fn bracket_model(pieces: Seq<Seq<char>>) -> Option<Seq<char>>
    decreases pieces.len(),
{
    if pieces.len() == 0 {
        None
    } else {
        match split_once(pieces.last(), "]"@) {
            Some(p) => if !contains(p.0, ":"@) {
                Some(p.0)
            } else {
                bracket_model(pieces.drop_last())
            },
            None => bracket_model(pieces.drop_last()),
        }
    }
}

/// The marketing name in a PCI device name, with the vendor in front.
pub open spec fn friendly_gpu_name_spec(name: Seq<char>) -> Seq<char> {
    let model = trim(
        match bracket_model(split(name, seq!['[']).drop_first()) {
            Some(m) => m,
            None => name,
        },
    );
    if is_prefix("NVIDIA "@, model) {
        model
    } else {
        "NVIDIA "@ + model
    }
}

/// The first group with this name, from `from` on.
pub open spec fn group_index(groups: Seq<(Seq<char>, nat)>, name: Seq<char>, from: int) -> Option<int>
    decreases groups.len() - from,
{
    if from < 0 || from >= groups.len() {
        None
    } else if groups[from].0 == name {
        Some(from)
    } else {
        group_index(groups, name, from + 1)
    }
}

/// Counts one more of `name`, keeping the groups in order of first appearance.
pub open spec fn add_to_groups(groups: Seq<(Seq<char>, nat)>, name: Seq<char>) -> Seq<(Seq<char>, nat)> {
    match group_index(groups, name, 0) {
        Some(k) => groups.update(k, (name, groups[k].1 + 1)),
        None => groups.push((name, 1)),
    }
}

/// The names with their counts, in order of first appearance.
pub open spec fn groups_spec(names: Seq<Seq<char>>) -> Seq<(Seq<char>, nat)>
    decreases names.len(),
{
    if names.len() == 0 {
        Seq::empty()
    } else {
        add_to_groups(groups_spec(names.drop_last()), names.last())
    }
}

pub open spec fn group_text(g: (Seq<char>, nat)) -> Seq<char> {
    if g.1 == 1 {
        g.0
    } else {
        nat_str(g.1) + " × "@ + g.0
    }
}

/// The GPUs, grouped by their friendly names and counted.
pub open spec fn grouped_devices_spec(p: ProviderStatus) -> Seq<char> {
    if p.devices@.len() == 0 {
        "Not detected"@
    } else {
        let names = p.devices@.map_values(|d: crate::model::device::GpuDevice| friendly_gpu_name_spec(d.name@));
        join(groups_spec(names).map_values(|g: (Seq<char>, nat)| group_text(g)), ", "@)
    }
}

pub open spec fn flavor_label(f: DriverFlavorState) -> Seq<char> {
    match f {
        DriverFlavorState::Open => "Open"@,
        DriverFlavorState::Proprietary => "Proprietary"@,
        DriverFlavorState::Mixed => "Mixed"@,
    }
}

pub open spec fn installation_label_spec(d: DriverInstallation) -> Seq<char> {
    match d {
        DriverInstallation::Missing => "Not installed"@,
        DriverInstallation::Managed { flavor, .. } => "Managed · "@ + flavor_label(flavor),
        DriverInstallation::BrokenManaged { flavor, .. } => "Managed · "@ + flavor_label(flavor)
            + " · Needs repair"@,
        DriverInstallation::Unmanaged { .. } => "Unmanaged"@,
    }
}

pub open spec fn package_scope_spec(d: DriverInstallation) -> Seq<char> {
    match d {
        DriverInstallation::Managed { scope, .. } => match scope {
            DriverPackageScope::Full => "Full"@,
            DriverPackageScope::ComputeOnly => "Compute only"@,
            DriverPackageScope::DesktopOnly => "Desktop only"@,
        },
        DriverInstallation::BrokenManaged { .. } => "Incomplete"@,
        DriverInstallation::Unmanaged { .. } => "Unmanaged"@,
        DriverInstallation::Missing => "Not installed"@,
    }
}

pub open spec fn text_or(o: Option<String>, default: Seq<char>) -> Seq<char> {
    match o {
        Some(s) => s@,
        None => default,
    }
}

pub open spec fn module_signature_spec(p: ProviderStatus) -> Seq<char> {
    match p.driver_module {
        None => "Unknown"@,
        Some(m) => match (m.signature_id, m.signer) {
            (Some(id), Some(signer)) => "Signed · "@ + id@ + " · "@ + signer@,
            (Some(id), None) => "Signed · "@ + id@,
            (None, Some(signer)) => "Signed · "@ + signer@,
            (None, None) => "Unsigned or unknown"@,
        },
    }
}

pub open spec fn module_field(p: ProviderStatus, path: bool, default: Seq<char>) -> Seq<char> {
    match p.driver_module {
        Some(m) => text_or(if path { m.path } else { m.version }, default),
        None => default,
    }
}

pub open spec fn driver_version_text(p: ProviderStatus) -> Seq<char> {
    match p.driver_version {
        Some(v) => v@,
        None => module_field(p, false, "Not detected"@),
    }
}

pub open spec fn runtime_label(s: DriverRuntimeState) -> Seq<char> {
    match s {
        DriverRuntimeState::Operational => "Operational"@,
        DriverRuntimeState::RebootLikelyRequired => "Reboot likely required"@,
        _ => "Not operational"@,
    }
}

pub open spec fn toolkit_text(p: ProviderStatus) -> Seq<char> {
    if p.toolkits@.len() == 0 {
        "Not installed"@
    } else {
        text_or(p.toolkits@[0].version, "Installed"@)
    }
}

pub open spec fn nvcc_text(p: ProviderStatus) -> Seq<char> {
    match p.active_toolkit {
        Some(t) => text_or(t.version, "Not found"@),
        None => "Not found"@,
    }
}

pub open spec fn secure_boot_text(s: Option<bool>) -> Seq<char> {
    match s {
        None => "Unknown"@,
        Some(true) => "Enabled"@,
        Some(false) => "Disabled"@,
    }
}

pub open spec fn technical_details_spec(p: ProviderStatus) -> Seq<char> {
    "\nTechnical details\n"@ + technical_row_spec("Kernel version"@, text_or(p.kernel_version, "Unknown"@))
        + technical_row_spec("Module path"@, module_field(p, true, "Not found"@)) + technical_row_spec(
        "Kernel module version"@,
        module_field(p, false, "Not detected"@),
    ) + technical_row_spec("Driver package scope"@, package_scope_spec(p.driver)) + technical_row_spec(
        "Secure Boot"@,
        secure_boot_text(p.secure_boot_enabled),
    ) + technical_row_spec("Secure Boot signature"@, module_signature_spec(p))
}

pub open spec fn basic_rows_spec(p: ProviderStatus) -> Seq<char> {
    status_row_spec("GPU"@, grouped_devices_spec(p)) + status_row_spec(
        "Driver installation"@,
        installation_label_spec(p.driver),
    ) + status_row_spec("Driver version"@, driver_version_text(p)) + status_row_spec(
        "Driver runtime"@,
        runtime_label(p.driver_runtime_state),
    ) + status_row_spec("CUDA Toolkit"@, toolkit_text(p)) + status_row_spec("nvcc"@, nvcc_text(p))
}

pub open spec fn runtime_warning_spec(p: ProviderStatus) -> Seq<char> {
    if !(p.driver is Missing) && p.driver_runtime_state != DriverRuntimeState::Operational {
        "\n⚠ "@ + status_warning_spec(p.driver_runtime_state) + "\n"@
    } else {
        Seq::empty()
    }
}

/// The rows of one provider, its technical details when asked for, and a
/// warning when an installed driver is not operational.
#[verifier::opaque]
pub open spec fn provider_text(p: ProviderStatus, verbose: bool) -> Seq<char> {
    basic_rows_spec(p) + (if verbose {
        technical_details_spec(p)
    } else {
        Seq::empty()
    }) + runtime_warning_spec(p)
}

pub open spec fn providers_text(ps: Seq<ProviderStatus>, verbose: bool) -> Seq<char>
    decreases ps.len(),
{
    if ps.len() == 0 {
        Seq::empty()
    } else {
        providers_text(ps.drop_last(), verbose) + provider_text(ps.last(), verbose)
    }
}

/// The whole of `arc status`.
pub open spec fn system_status_spec(os: OsInfo, ps: Seq<ProviderStatus>, verbose: bool) -> Seq<char> {
    "GPU Environment\n\n"@ + status_row_spec("OS"@, display_name_spec(os)) + providers_text(ps, verbose)
}

pub(crate) fn pad(label: &str, width: usize) -> (s: String)
    ensures
        s@ == pad_spec(label@, width as nat),
{
    let mut s = String::from_str(label);
    let n = label.unicode_len();
    if n < width {
        let mut k: usize = n;
        while k < width
            invariant
                n <= k <= width,
                n == label@.len(),
                s@ == label@ + Seq::new((k - n) as nat, |i: int| ' '),
            decreases width - k,
        {
            let ghost before = s@;
            s.append(" ");
            proof {
                reveal_strlit(" ");
            }
            assert(" "@ =~= seq![' ']);
            assert(s@ =~= before + seq![' ']);
            assert(Seq::new((k + 1 - n) as nat, |i: int| ' ') =~= Seq::new((k - n) as nat, |i: int| ' ').push(' '));
            assert(s@ =~= label@ + Seq::new((k + 1 - n) as nat, |i: int| ' '));
            k = k + 1;
        }
    }
    s
}

fn status_row(rendered: &mut String, label: &str, value: &str)
    ensures
        final(rendered)@ == old(rendered)@ + status_row_spec(label@, value@),
{
    let p = pad(label, 20);
    rendered.append(p.as_str());
    rendered.append(value);
    rendered.append("\n");
}

fn technical_row(rendered: &mut String, label: &str, value: &str)
    ensures
        final(rendered)@ == old(rendered)@ + technical_row_spec(label@, value@),
{
    let p = pad(label, 24);
    rendered.append(p.as_str());
    rendered.append(value);
    rendered.append("\n");
}

/// The marketing name in a PCI device name, with the vendor in front.
pub fn friendly_gpu_name(name: &str) -> (s: String)
    ensures
        s@ == friendly_gpu_name_spec(name@),
{
    let pieces = split_str(name, &['[']);
    let ghost pv = strs(pieces@);
    assert(['[']@ =~= seq!['[']);
    let ghost rest = pv.drop_first();
    let mut found: Option<String> = None;
    let mut i: usize = pieces.len();
    assert(rest.subrange(0, (i - 1) as int) =~= rest);
    while i > 1 && found.is_none()
        invariant
            1 <= i <= pieces@.len(),
            pv == strs(pieces@),
            rest == pv.drop_first(),
            match found {
                Some(m) => bracket_model(rest) == Some(m@),
                None => bracket_model(rest) == bracket_model(rest.subrange(0, i - 1)),
            },
        decreases i,
    {
        let ghost sub = rest.subrange(0, i - 1);
        assert(sub.last() == pieces@[i - 1]@);
        assert(sub.drop_last() =~= rest.subrange(0, i - 2));
        match split_once_str(pieces[i - 1].as_str(), "]") {
            Some((value, _)) => {
                if !contains_str(value.as_str(), ":") {
                    found = Some(value);
                }
            },
            None => {},
        }
        i = i - 1;
    }
    let model = match found {
        Some(m) => trim_str(m.as_str()),
        None => {
            assert(rest.subrange(0, 0) =~= Seq::<Seq<char>>::empty());
            trim_str(name)
        },
    };
    if starts_with(model.as_str(), "NVIDIA ") {
        model
    } else {
        concat("NVIDIA ", model.as_str())
    }
}

/// The view of parallel name and count vectors as groups.
pub open spec fn groups_view(names: Seq<String>, counts: Seq<usize>) -> Seq<(Seq<char>, nat)> {
    Seq::new(names.len(), |k: int| (names[k]@, counts[k] as nat))
}

proof fn lemma_group_index_from(groups: Seq<(Seq<char>, nat)>, name: Seq<char>, i: int)
    requires
        0 <= i <= groups.len(),
        forall|j: int| 0 <= j < i ==> (#[trigger] groups[j]).0 != name,
    ensures
        group_index(groups, name, 0) == group_index(groups, name, i),
    decreases i,
{
    if i > 0 {
        lemma_group_index_from(groups, name, i - 1);
    }
}

/// The GPUs of the provider, grouped by their friendly names and counted.
fn grouped_devices(status: &ProviderStatus) -> (s: String)
    ensures
        s@ == grouped_devices_spec(*status),
{
    if status.devices.len() == 0 {
        return String::from_str("Not detected");
    }
    let ghost all = status.devices@.map_values(
        |d: crate::model::device::GpuDevice| friendly_gpu_name_spec(d.name@),
    );
    let mut names: Vec<String> = Vec::new();
    let mut counts: Vec<usize> = Vec::new();
    let mut i: usize = 0;
    assert(all.take(0) =~= Seq::<Seq<char>>::empty());
    assert(groups_view(names@, counts@) =~= groups_spec(all.take(0)));
    while i < status.devices.len()
        invariant
            i <= status.devices@.len(),
            all == status.devices@.map_values(
                |d: crate::model::device::GpuDevice| friendly_gpu_name_spec(d.name@),
            ),
            names@.len() == counts@.len(),
            groups_view(names@, counts@) == groups_spec(all.take(i as int)),
            forall|k: int| 0 <= k < counts@.len() ==> #[trigger] counts@[k] <= i,
        decreases status.devices.len() - i,
    {
        let name = friendly_gpu_name(status.devices[i].name.as_str());
        let ghost g = groups_view(names@, counts@);
        assert(all.take(i + 1).drop_last() =~= all.take(i as int));
        assert(all.take(i + 1).last() == name@);
        let mut k: usize = 0;
        while k < names.len() && !crate::text::eq_str(names[k].as_str(), name.as_str())
            invariant
                k <= names@.len(),
                names@.len() == counts@.len(),
                g == groups_view(names@, counts@),
                forall|j: int| 0 <= j < k ==> (#[trigger] g[j]).0 != name@,
            decreases names.len() - k,
        {
            assert(g[k as int].0 == names@[k as int]@);
            k = k + 1;
        }
        proof {
            lemma_group_index_from(g, name@, k as int);
        }
        if k < names.len() {
            assert(g[k as int].0 == name@);
            assert(group_index(g, name@, k as int) == Some(k as int));
            let c = counts[k];
            counts.set(k, c + 1);
            assert(groups_view(names@, counts@) =~= g.update(k as int, (name@, g[k as int].1 + 1)));
        } else {
            assert(group_index(g, name@, k as int) is None);
            let ghost n0 = name@;
            names.push(name);
            counts.push(1);
            assert(groups_view(names@, counts@) =~= g.push((n0, 1)));
        }
        i = i + 1;
    }
    assert(all.take(i as int) =~= all);
    let ghost groups = groups_view(names@, counts@);
    let mut pieces: Vec<String> = Vec::new();
    let mut j: usize = 0;
    while j < names.len()
        invariant
            j <= names@.len(),
            names@.len() == counts@.len(),
            groups == groups_view(names@, counts@),
            strs(pieces@) == groups.take(j as int).map_values(|g: (Seq<char>, nat)| group_text(g)),
        decreases names.len() - j,
    {
        let piece = if counts[j] == 1 {
            names[j].clone()
        } else {
            let mut p = u64_to_string(counts[j] as u64);
            p.append(" × ");
            p.append(names[j].as_str());
            p
        };
        assert(piece@ == group_text(groups[j as int]));
        let ghost before = strs(pieces@);
        let ghost pv = piece@;
        pieces.push(piece);
        assert(strs(pieces@) =~= before.push(pv));
        assert(groups.take(j + 1).map_values(|g: (Seq<char>, nat)| group_text(g)) =~= groups.take(
            j as int,
        ).map_values(|g: (Seq<char>, nat)| group_text(g)).push(group_text(groups[j as int])));
        j = j + 1;
    }
    assert(groups.take(j as int) =~= groups);
    join_strings(&pieces, ", ")
}

fn flavor_text(f: DriverFlavorState) -> (s: &'static str)
    ensures
        s@ == flavor_label(f),
{
    match f {
        DriverFlavorState::Open => "Open",
        DriverFlavorState::Proprietary => "Proprietary",
        DriverFlavorState::Mixed => "Mixed",
    }
}

/// How the driver was installed, in a few words.
pub fn driver_installation_label(driver: &DriverInstallation) -> (s: String)
    ensures
        s@ == installation_label_spec(*driver),
{
    match driver {
        DriverInstallation::Missing => String::from_str("Not installed"),
        DriverInstallation::Managed { flavor, .. } => concat("Managed · ", flavor_text(*flavor)),
        DriverInstallation::BrokenManaged { flavor, .. } => {
            let mut s = concat("Managed · ", flavor_text(*flavor));
            s.append(" · Needs repair");
            s
        },
        DriverInstallation::Unmanaged { .. } => String::from_str("Unmanaged"),
    }
}

/// Which part of the driver the packages install.
pub fn driver_package_scope(driver: &DriverInstallation) -> (s: &'static str)
    ensures
        s@ == package_scope_spec(*driver),
{
    match driver {
        DriverInstallation::Managed { scope, .. } => match scope {
            DriverPackageScope::Full => "Full",
            DriverPackageScope::ComputeOnly => "Compute only",
            DriverPackageScope::DesktopOnly => "Desktop only",
        },
        DriverInstallation::BrokenManaged { .. } => "Incomplete",
        DriverInstallation::Unmanaged { .. } => "Unmanaged",
        DriverInstallation::Missing => "Not installed",
    }
}

/// Who signed the kernel module, if anyone.
pub fn module_signature(status: &ProviderStatus) -> (s: String)
    ensures
        s@ == module_signature_spec(*status),
{
    match &status.driver_module {
        None => String::from_str("Unknown"),
        Some(module) => match (&module.signature_id, &module.signer) {
            (Some(id), Some(signer)) => {
                let mut s = concat("Signed · ", id.as_str());
                s.append(" · ");
                s.append(signer.as_str());
                s
            },
            (Some(id), None) => concat("Signed · ", id.as_str()),
            (None, Some(signer)) => concat("Signed · ", signer.as_str()),
            (None, None) => String::from_str("Unsigned or unknown"),
        },
    }
}

fn str_or<'a>(o: &'a Option<String>, default: &'a str) -> (s: &'a str)
    ensures
        s@ == text_or(*o, default@),
{
    match o {
        Some(v) => v.as_str(),
        None => default,
    }
}

fn module_text<'a>(status: &'a ProviderStatus, path: bool, default: &'a str) -> (s: &'a str)
    ensures
        s@ == module_field(*status, path, default@),
{
    match &status.driver_module {
        Some(m) => if path {
            str_or(&m.path, default)
        } else {
            str_or(&m.version, default)
        },
        None => default,
    }
}

#[verifier::rlimit(40)]
fn basic_rows(rendered: &mut String, status: &ProviderStatus)
    ensures
        final(rendered)@ == old(rendered)@ + basic_rows_spec(*status),
{
    let ghost start = rendered@;
    let groups = grouped_devices(status);
    status_row(rendered, "GPU", groups.as_str());
    let label = driver_installation_label(&status.driver);
    status_row(rendered, "Driver installation", label.as_str());
    let version = match &status.driver_version {
        Some(v) => v.as_str(),
        None => module_text(status, false, "Not detected"),
    };
    status_row(rendered, "Driver version", version);
    let runtime = match status.driver_runtime_state {
        DriverRuntimeState::Operational => "Operational",
        DriverRuntimeState::RebootLikelyRequired => "Reboot likely required",
        _ => "Not operational",
    };
    status_row(rendered, "Driver runtime", runtime);
    let toolkit = if status.toolkits.len() == 0 {
        "Not installed"
    } else {
        str_or(&status.toolkits[0].version, "Installed")
    };
    status_row(rendered, "CUDA Toolkit", toolkit);
    let nvcc = match &status.active_toolkit {
        Some(t) => str_or(&t.version, "Not found"),
        None => "Not found",
    };
    status_row(rendered, "nvcc", nvcc);
    assert(rendered@ =~= start + basic_rows_spec(*status));
}

fn technical_details(rendered: &mut String, status: &ProviderStatus)
    ensures
        final(rendered)@ == old(rendered)@ + technical_details_spec(*status),
{
    let ghost start = rendered@;
    rendered.append("\nTechnical details\n");
    technical_row(rendered, "Kernel version", str_or(&status.kernel_version, "Unknown"));
    technical_row(rendered, "Module path", module_text(status, true, "Not found"));
    technical_row(rendered, "Kernel module version", module_text(status, false, "Not detected"));
    technical_row(rendered, "Driver package scope", driver_package_scope(&status.driver));
    let secure = match status.secure_boot_enabled {
        None => "Unknown",
        Some(true) => "Enabled",
        Some(false) => "Disabled",
    };
    technical_row(rendered, "Secure Boot", secure);
    let signature = module_signature(status);
    technical_row(rendered, "Secure Boot signature", signature.as_str());
    assert(rendered@ =~= start + technical_details_spec(*status));
}

fn runtime_warning(rendered: &mut String, status: &ProviderStatus)
    ensures
        final(rendered)@ == old(rendered)@ + runtime_warning_spec(*status),
{
    let ghost start = rendered@;
    let missing = match &status.driver {
        DriverInstallation::Missing => true,
        _ => false,
    };
    if !missing && status.driver_runtime_state != DriverRuntimeState::Operational {
        rendered.append("\n⚠ ");
        rendered.append(status_warning(status.driver_runtime_state));
        rendered.append("\n");
        assert(rendered@ =~= start + runtime_warning_spec(*status));
    } else {
        assert(rendered@ =~= start + runtime_warning_spec(*status));
    }
}

fn provider_rows(rendered: &mut String, status: &ProviderStatus, verbose: bool)
    ensures
        final(rendered)@ == old(rendered)@ + provider_text(*status, verbose),
{
    let ghost start = rendered@;
    basic_rows(rendered, status);
    let ghost rows = rendered@;
    if verbose {
        technical_details(rendered, status);
    } else {
        assert(rendered@ =~= rows + Seq::<char>::empty());
    }
    let ghost details = rendered@;
    runtime_warning(rendered, status);
    reveal(provider_text);
    assert(rendered@ =~= start + provider_text(*status, verbose));
}

/// The text of `arc status`: the OS, then for each provider its GPUs, driver,
/// runtime, Toolkit and nvcc, the technical details when `verbose`, and a
/// warning when an installed driver is not operational.
pub fn format_system_status(os: &OsInfo, providers: &[ProviderStatus], verbose: bool) -> (s: String)
    ensures
        s@ == system_status_spec(*os, providers@, verbose),
{
    let mut rendered = String::from_str("GPU Environment\n\n");
    let name = os.display_name();
    status_row(&mut rendered, "OS", name.as_str());
    let ghost head = rendered@;
    let mut i: usize = 0;
    assert(providers@.take(0) =~= Seq::<ProviderStatus>::empty());
    while i < providers.len()
        invariant
            i <= providers@.len(),
            rendered@ == head + providers_text(providers@.take(i as int), verbose),
        decreases providers.len() - i,
    {
        assert(providers@.take(i + 1).drop_last() =~= providers@.take(i as int));
        let ghost before = providers_text(providers@.take(i as int), verbose);
        provider_rows(&mut rendered, &providers[i], verbose);
        assert(providers_text(providers@.take(i + 1), verbose) == before + provider_text(providers@[i as int], verbose));
        assert(rendered@ =~= head + providers_text(providers@.take(i + 1), verbose));
        i = i + 1;
    }
    assert(providers@.take(i as int) =~= providers@);
    rendered
}

// ---------------------------------------------------------------------------
// arc doctor

pub open spec fn mark_spec(s: DiagnosticStatus) -> Seq<char> {
    match s {
        DiagnosticStatus::Pass => "✓"@,
        DiagnosticStatus::Warning => "⚠"@,
        DiagnosticStatus::Error => "✗"@,
        DiagnosticStatus::Skipped => "↷ skipped"@,
    }
}

/// One line per item, each after `prefix`.
pub open spec fn lines_with(prefix: Seq<char>, items: Seq<Seq<char>>) -> Seq<char>
    decreases items.len(),
{
    if items.len() == 0 {
        Seq::empty()
    } else {
        lines_with(prefix, items.drop_last()) + prefix + items.last() + "\n"@
    }
}

/// A check: its mark and name, and for one that did not pass, its problem and evidence.
pub open spec fn check_text(c: CheckView) -> Seq<char> {
    mark_spec(c.3) + " "@ + c.2 + "\n"@ + if c.3 != DiagnosticStatus::Pass {
        (match c.5 {
            Some(p) => "  "@ + p + "\n"@,
            None => Seq::empty(),
        }) + lines_with("  Evidence: "@, c.4)
    } else {
        Seq::empty()
    }
}

/// The checks of one section, in order.
pub open spec fn section_checks_text(cs: Seq<CheckView>, section: DiagnosticSection) -> Seq<char>
    decreases cs.len(),
{
    if cs.len() == 0 {
        Seq::empty()
    } else {
        section_checks_text(cs.drop_last(), section) + if cs.last().1 == section {
            check_text(cs.last())
        } else {
            Seq::empty()
        }
    }
}

pub open spec fn section_text(cs: Seq<CheckView>, section: DiagnosticSection) -> Seq<char> {
    "\n"@ + section_label(section) + "\n"@ + section_checks_text(cs, section)
}

pub open spec fn has_warnings_spec(cs: Seq<CheckView>) -> bool {
    exists|i: int| 0 <= i < cs.len() && (#[trigger] cs[i]).3 == DiagnosticStatus::Warning
}

pub open spec fn cause_text(n: nat, c: CauseView) -> Seq<char> {
    nat_str(n) + ". Likely root cause: "@ + c.0 + " ("@ + confidence_label(c.1) + " confidence)\n"@
        + lines_with("   Evidence: "@, c.2)
}

/// The causes, numbered from 1.
pub open spec fn causes_text(cs: Seq<CauseView>) -> Seq<char>
    decreases cs.len(),
{
    if cs.len() == 0 {
        Seq::empty()
    } else {
        causes_text(cs.drop_last()) + cause_text(cs.len(), cs.last())
    }
}

pub open spec fn command_lines(cs: Seq<CommandView>) -> Seq<char>
    decreases cs.len(),
{
    if cs.len() == 0 {
        Seq::empty()
    } else {
        command_lines(cs.drop_last()) + "   $ "@ + display_spec(cs.last()) + "\n"@
    }
}

pub open spec fn fix_text(n: nat, f: FixView) -> Seq<char> {
    "\n"@ + nat_str(n) + ". "@ + f.1 + "\n"@ + command_lines(f.2) + lines_with("   - "@, f.3)
}

/// The fixes, numbered from 1, with their commands and manual steps.
pub open spec fn fixes_text(fs: Seq<FixView>) -> Seq<char>
    decreases fs.len(),
{
    if fs.len() == 0 {
        Seq::empty()
    } else {
        fixes_text(fs.drop_last()) + fix_text(fs.len(), fs.last())
    }
}

pub open spec fn any_manual(fs: Seq<FixView>) -> bool {
    exists|i: int| 0 <= i < fs.len() && (#[trigger] fs[i]).3.len() > 0
}

pub open spec fn report_head(d: Diagnostics) -> Seq<char> {
    let cs = check_views(d.checks@);
    vendor_label(d.vendor) + " Diagnostics\n"@ + section_text(cs, DiagnosticSection::Hardware)
        + section_text(cs, DiagnosticSection::OperatingSystem) + section_text(cs, DiagnosticSection::Driver)
        + section_text(cs, DiagnosticSection::CudaToolkit)
}

pub open spec fn plan_text(d: Diagnostics) -> Seq<char> {
    let fs = fix_views(d.fix_plan.fixes@);
    "\nActionable fix plan\n"@ + causes_text(cause_views(d.fix_plan.causes@)) + fixes_text(fs) + if any_manual(
        fs,
    ) {
        "\nComplete the recommended manual actions above.\n"@
    } else {
        "\nNo fixes were executed. After completing the plan, rerun `arc doctor`.\n"@
    }
}

/// The whole of `arc doctor`: the checks by section; then either the verdict
/// or the causes and the fixes with what to do next.
pub open spec fn diagnostics_text(d: Diagnostics) -> Seq<char> {
    if !has_errors_spec(d.checks@) && d.fix_plan.causes@.len() == 0 {
        report_head(d) + "\n"@ + (if has_warnings_spec(check_views(d.checks@)) {
            "Completed with warnings"@
        } else {
            "Healthy"@
        }) + "\n"@
    } else {
        report_head(d) + plan_text(d)
    }
}

fn mark(status: DiagnosticStatus) -> (s: &'static str)
    ensures
        s@ == mark_spec(status),
{
    match status {
        DiagnosticStatus::Pass => "✓",
        DiagnosticStatus::Warning => "⚠",
        DiagnosticStatus::Error => "✗",
        DiagnosticStatus::Skipped => "↷ skipped",
    }
}

fn append_lines(rendered: &mut String, prefix: &str, items: &Vec<String>)
    ensures
        final(rendered)@ == old(rendered)@ + lines_with(prefix@, strs(items@)),
{
    let ghost start = rendered@;
    let ghost all = strs(items@);
    let mut i: usize = 0;
    assert(all.take(0) =~= Seq::<Seq<char>>::empty());
    while i < items.len()
        invariant
            i <= items@.len(),
            all == strs(items@),
            rendered@ == start + lines_with(prefix@, all.take(i as int)),
        decreases items.len() - i,
    {
        assert(all.take(i + 1).drop_last() =~= all.take(i as int));
        assert(all.take(i + 1).last() == items@[i as int]@);
        rendered.append(prefix);
        rendered.append(items[i].as_str());
        rendered.append("\n");
        assert(rendered@ =~= start + lines_with(prefix@, all.take(i + 1)));
        i = i + 1;
    }
    assert(all.take(i as int) =~= all);
}

fn append_check(rendered: &mut String, check: &DiagnosticCheck)
    ensures
        final(rendered)@ == old(rendered)@ + check_text(check@),
{
    let ghost start = rendered@;
    rendered.append(mark(check.status));
    rendered.append(" ");
    rendered.append(check.name.as_str());
    rendered.append("\n");
    let ghost head = rendered@;
    if check.status != DiagnosticStatus::Pass {
        match &check.problem {
            Some(p) => {
                rendered.append("  ");
                rendered.append(p.as_str());
                rendered.append("\n");
            },
            None => {},
        }
        let ghost problem = rendered@;
        append_lines(rendered, "  Evidence: ", &check.evidence);
        assert(rendered@ =~= start + check_text(check@));
    } else {
        assert(rendered@ =~= start + check_text(check@));
    }
}

fn append_section(rendered: &mut String, checks: &Vec<DiagnosticCheck>, section: DiagnosticSection)
    ensures
        final(rendered)@ == old(rendered)@ + section_text(check_views(checks@), section),
{
    let ghost start = rendered@;
    let ghost cs = check_views(checks@);
    rendered.append("\n");
    rendered.append(section.label());
    rendered.append("\n");
    let ghost head = rendered@;
    let mut i: usize = 0;
    assert(cs.take(0) =~= Seq::<CheckView>::empty());
    while i < checks.len()
        invariant
            i <= checks@.len(),
            cs == check_views(checks@),
            rendered@ == head + section_checks_text(cs.take(i as int), section),
        decreases checks.len() - i,
    {
        assert(cs.take(i + 1).drop_last() =~= cs.take(i as int));
        assert(cs.take(i + 1).last() == checks@[i as int]@);
        let ghost before = rendered@;
        if checks[i].section == section {
            append_check(rendered, &checks[i]);
        }
        assert(rendered@ =~= head + section_checks_text(cs.take(i + 1), section));
        i = i + 1;
    }
    assert(cs.take(i as int) =~= cs);
    assert(rendered@ =~= start + section_text(cs, section));
}

fn has_warnings(checks: &Vec<DiagnosticCheck>) -> (b: bool)
    ensures
        b == has_warnings_spec(check_views(checks@)),
{
    let ghost cs = check_views(checks@);
    let mut i: usize = 0;
    while i < checks.len()
        invariant
            i <= checks@.len(),
            cs == check_views(checks@),
            forall|j: int| 0 <= j < i ==> (#[trigger] cs[j]).3 != DiagnosticStatus::Warning,
        decreases checks.len() - i,
    {
        assert(cs[i as int] == checks@[i as int]@);
        if checks[i].status == DiagnosticStatus::Warning {
            return true;
        }
        i = i + 1;
    }
    false
}

fn append_causes(rendered: &mut String, causes: &Vec<DiagnosticCause>)
    ensures
        final(rendered)@ == old(rendered)@ + causes_text(cause_views(causes@)),
{
    let ghost start = rendered@;
    let ghost cs = cause_views(causes@);
    let mut i: usize = 0;
    assert(cs.take(0) =~= Seq::<CauseView>::empty());
    while i < causes.len()
        invariant
            i <= causes@.len(),
            cs == cause_views(causes@),
            rendered@ == start + causes_text(cs.take(i as int)),
        decreases causes.len() - i,
    {
        assert(cs.take(i + 1).drop_last() =~= cs.take(i as int));
        assert(cs.take(i + 1).last() == causes@[i as int]@);
        let ghost before = rendered@;
        let n = u64_to_string((i + 1) as u64);
        rendered.append(n.as_str());
        rendered.append(". Likely root cause: ");
        rendered.append(causes[i].title.as_str());
        rendered.append(" (");
        rendered.append(causes[i].confidence.label());
        rendered.append(" confidence)\n");
        append_lines(rendered, "   Evidence: ", &causes[i].evidence);
        assert(rendered@ =~= before + cause_text((i + 1) as nat, cs[i as int]));
        assert(rendered@ =~= start + causes_text(cs.take(i + 1)));
        i = i + 1;
    }
    assert(cs.take(i as int) =~= cs);
}

fn append_commands(rendered: &mut String, commands: &Vec<CommandSpec>)
    ensures
        final(rendered)@ == old(rendered)@ + command_lines(crate::model::command::cmds(commands@)),
{
    let ghost start = rendered@;
    let ghost cs = crate::model::command::cmds(commands@);
    let mut i: usize = 0;
    assert(cs.take(0) =~= Seq::<CommandView>::empty());
    while i < commands.len()
        invariant
            i <= commands@.len(),
            cs == crate::model::command::cmds(commands@),
            rendered@ == start + command_lines(cs.take(i as int)),
        decreases commands.len() - i,
    {
        assert(cs.take(i + 1).drop_last() =~= cs.take(i as int));
        assert(cs.take(i + 1).last() == commands@[i as int]@);
        rendered.append("   $ ");
        let shown = commands[i].display();
        rendered.append(shown.as_str());
        rendered.append("\n");
        assert(rendered@ =~= start + command_lines(cs.take(i + 1)));
        i = i + 1;
    }
    assert(cs.take(i as int) =~= cs);
}

fn append_fixes(rendered: &mut String, fixes: &Vec<Fix>)
    ensures
        final(rendered)@ == old(rendered)@ + fixes_text(fix_views(fixes@)),
{
    let ghost start = rendered@;
    let ghost fs = fix_views(fixes@);
    let mut i: usize = 0;
    assert(fs.take(0) =~= Seq::<FixView>::empty());
    while i < fixes.len()
        invariant
            i <= fixes@.len(),
            fs == fix_views(fixes@),
            rendered@ == start + fixes_text(fs.take(i as int)),
        decreases fixes.len() - i,
    {
        assert(fs.take(i + 1).drop_last() =~= fs.take(i as int));
        assert(fs.take(i + 1).last() == fixes@[i as int]@);
        let ghost before = rendered@;
        rendered.append("\n");
        let n = u64_to_string((i + 1) as u64);
        rendered.append(n.as_str());
        rendered.append(". ");
        rendered.append(fixes[i].title.as_str());
        rendered.append("\n");
        append_commands(rendered, &fixes[i].commands);
        append_lines(rendered, "   - ", &fixes[i].manual_steps);
        assert(rendered@ =~= before + fix_text((i + 1) as nat, fs[i as int]));
        assert(rendered@ =~= start + fixes_text(fs.take(i + 1)));
        i = i + 1;
    }
    assert(fs.take(i as int) =~= fs);
}

fn has_manual_steps(fixes: &Vec<Fix>) -> (b: bool)
    ensures
        b == any_manual(fix_views(fixes@)),
{
    let ghost fs = fix_views(fixes@);
    let mut i: usize = 0;
    while i < fixes.len()
        invariant
            i <= fixes@.len(),
            fs == fix_views(fixes@),
            forall|j: int| 0 <= j < i ==> (#[trigger] fs[j]).3.len() == 0,
        decreases fixes.len() - i,
    {
        assert(fs[i as int] == fixes@[i as int]@);
        if fixes[i].manual_steps.len() > 0 {
            return true;
        }
        i = i + 1;
    }
    false
}

fn append_plan(rendered: &mut String, diagnostics: &Diagnostics)
    ensures
        final(rendered)@ == old(rendered)@ + plan_text(*diagnostics),
{
    let ghost start = rendered@;
    rendered.append("\nActionable fix plan\n");
    append_causes(rendered, &diagnostics.fix_plan.causes);
    append_fixes(rendered, &diagnostics.fix_plan.fixes);
    let ghost listed = rendered@;
    if has_manual_steps(&diagnostics.fix_plan.fixes) {
        rendered.append("\nComplete the recommended manual actions above.\n");
    } else {
        rendered.append("\nNo fixes were executed. After completing the plan, rerun `arc doctor`.\n");
    }
    assert(rendered@ =~= start + plan_text(*diagnostics));
}

/// The text of `arc doctor`: every check under its section, with the problem
/// and evidence of each that did not pass; then the verdict when nothing
/// failed, or the causes and the fixes to apply.
pub fn format_diagnostics(diagnostics: &Diagnostics) -> (s: String)
    ensures
        s@ == diagnostics_text(*diagnostics),
{
    let mut rendered = String::from_str(diagnostics.vendor.label());
    rendered.append(" Diagnostics\n");
    append_section(&mut rendered, &diagnostics.checks, DiagnosticSection::Hardware);
    append_section(&mut rendered, &diagnostics.checks, DiagnosticSection::OperatingSystem);
    append_section(&mut rendered, &diagnostics.checks, DiagnosticSection::Driver);
    append_section(&mut rendered, &diagnostics.checks, DiagnosticSection::CudaToolkit);
    assert(rendered@ =~= report_head(*diagnostics));
    if diagnostics.healthy() && diagnostics.fix_plan.causes.len() == 0 {
        let warned = has_warnings(&diagnostics.checks);
        rendered.append("\n");
        rendered.append(
            if warned {
                "Completed with warnings"
            } else {
                "Healthy"
            },
        );
        rendered.append("\n");
        return rendered;
    }
    append_plan(&mut rendered, diagnostics);
    rendered
}

} // verus!
