//! NVIDIA GPUs and their architecture generation.
use vstd::prelude::*;
use vstd::string::*;

use crate::model::device::{GpuDevice, GpuVendor};
use crate::text::{
    before_first, before_first_str, chars_of, contains, contains_chars, first_occ, lower,
    lower_chars, parse_hex_u16, parse_hex_u16_range, parse_hex_u32, parse_hex_u32_range, split_once,
    split_once_str, strs_ref, trim, trim_str, upper, upper_chars, find_chars, occurs_at,
};

verus! {

#[derive(Clone, Copy, Debug, PartialEq, Eq, Structural)]
pub enum Generation {
    MaxwellPascalVolta,
    TuringOrNewer,
    Unknown,
}

#[derive(Clone, Debug, PartialEq, Eq)]
pub struct NvidiaGpu {
    pub name: String,
    pub pci_device_id: Option<u16>,
    pub generation: Generation,
}

impl From<NvidiaGpu> for GpuDevice {
    fn from(gpu: NvidiaGpu) -> (d: GpuDevice) {
        GpuDevice { vendor: GpuVendor::Nvidia, name: gpu.name, pci_device_id: gpu.pci_device_id }
    }
}

impl vstd::std_specs::convert::FromSpecImpl<NvidiaGpu> for GpuDevice {
    open spec fn obeys_from_spec() -> bool {
        true
    }

    open spec fn from_spec(v: NvidiaGpu) -> GpuDevice {
        GpuDevice { vendor: GpuVendor::Nvidia, name: v.name, pci_device_id: v.pci_device_id }
    }
}

/// Some marker occurs in `s`.
pub open spec fn contains_any(s: Seq<char>, markers: Seq<Seq<char>>) -> bool {
    exists|i: int| 0 <= i < markers.len() && contains(s, #[trigger] markers[i])
}

/// Name fragments of Turing and newer GPUs.
pub open spec fn turing_markers() -> Seq<Seq<char>> {
    seq![
        " TU"@, " GA"@, " GH"@, " AD"@, " GB"@, " GN"@, "RTX 20"@, "RTX 30"@, "RTX 40"@, "RTX 50"@,
        "TITAN RTX"@, "TESLA T4"@, "A100"@, "A10"@, "A30"@, "A40"@, "H100"@, "H200"@, "L4"@, "L40"@,
        "B100"@, "B200"@,
    ]
}

/// Name fragments of Maxwell, Pascal and Volta GPUs.
pub open spec fn legacy_markers() -> Seq<Seq<char>> {
    seq![
        " GM"@, " GP"@, " GV"@, "GTX 9"@, "GTX 10"@, "TITAN V"@, "TESLA M"@, "TESLA P"@, "TESLA V"@,
        "QUADRO M"@, "QUADRO P"@, "QUADRO GV"@,
    ]
}

/// The generation that a marketing or chip name reveals, compared without case.
pub open spec fn classify_name_spec(name: Seq<char>) -> Generation {
    if contains_any(upper(name), turing_markers()) {
        Generation::TuringOrNewer
    } else if contains_any(upper(name), legacy_markers()) {
        Generation::MaxwellPascalVolta
    } else {
        Generation::Unknown
    }
}

/// The generation that a PCI device id reveals.
pub open spec fn classify_id_spec(id: Option<u16>) -> Generation {
    match id {
        None => Generation::Unknown,
        Some(i) => if (0x1340 <= i <= 0x13ff) || (0x15f0 <= i <= 0x15ff) || (0x17c0 <= i <= 0x17ff) || (
        0x1b00 <= i <= 0x1dff) {
            Generation::MaxwellPascalVolta
        } else if (0x1e00 <= i <= 0x1fff) || (0x20b0 <= i <= 0x28ff) || (0x2b00 <= i <= 0x2fff) {
            Generation::TuringOrNewer
        } else {
            Generation::Unknown
        },
    }
}

/// The device id that follows `[10de:` in the lowered line: four hexadecimal
/// digits taken from the text up to the next `[10de:`.
pub open spec fn lspci_id(lowered: Seq<char>) -> Option<u16> {
    match split_once(lowered, "[10de:"@) {
        None => None,
        Some(p) => {
            let piece = before_first(p.1, "[10de:"@);
            if piece.len() >= 4 {
                parse_hex_u16(piece.take(4))
            } else {
                None
            }
        },
    }
}

/// The device description of an `lspci -Dnn` line, without its revision.
pub open spec fn lspci_name(line: Seq<char>) -> Seq<char> {
    let description = match split_once(line, ": "@) {
        Some(p) => p.1,
        None => line,
    };
    trim(before_first(description, " (rev "@))
}

/// An `lspci -Dnn` line names an NVIDIA display device.
pub open spec fn is_nvidia_display_line(line: Seq<char>) -> bool {
    let l = lower(line);
    contains(l, "[10de:"@) && (contains(l, "vga compatible controller"@) || contains(
        l,
        "3d controller"@,
    ) || contains(l, "display controller"@))
}

/// The generation by name, falling back on the device id.
pub open spec fn generation_spec(name: Seq<char>, id: Option<u16>) -> Generation {
    if classify_name_spec(name) == Generation::Unknown {
        classify_id_spec(id)
    } else {
        classify_name_spec(name)
    }
}

/// Whether one of `markers` occurs in `hay`.
fn contains_marker(hay: &Vec<char>, markers: &[&str]) -> (b: bool)
    ensures
        b == contains_any(hay@, strs_ref(markers@)),
{
    let mut i: usize = 0;
    while i < markers.len()
        invariant
            i <= markers.len(),
            forall|j: int| 0 <= j < i ==> !contains(hay@, #[trigger] strs_ref(markers@)[j]),
        decreases markers.len() - i,
    {
        let m = chars_of(markers[i]);
        if contains_chars(hay, &m) {
            assert(contains(hay@, strs_ref(markers@)[i as int]));
            return true;
        }
        i = i + 1;
    }
    false
}

/// The generation that a GPU name reveals.
pub fn classify_name(name: &str) -> (g: Generation)
    ensures
        g == classify_name_spec(name@),
{
    let u = upper_chars(name);
    let turing: [&str; 22] = [
        " TU", " GA", " GH", " AD", " GB", " GN", "RTX 20", "RTX 30", "RTX 40", "RTX 50", "TITAN RTX",
        "TESLA T4", "A100", "A10", "A30", "A40", "H100", "H200", "L4", "L40", "B100", "B200",
    ];
    let legacy: [&str; 12] = [
        " GM", " GP", " GV", "GTX 9", "GTX 10", "TITAN V", "TESLA M", "TESLA P", "TESLA V",
        "QUADRO M", "QUADRO P", "QUADRO GV",
    ];
    assert(strs_ref(turing@) =~= turing_markers());
    assert(strs_ref(legacy@) =~= legacy_markers());
    if contains_marker(&u, &turing) {
        Generation::TuringOrNewer
    } else if contains_marker(&u, &legacy) {
        Generation::MaxwellPascalVolta
    } else {
        Generation::Unknown
    }
}

/// The generation that a PCI device id reveals.
pub fn classify_device_id(id: Option<u16>) -> (g: Generation)
    ensures
        g == classify_id_spec(id),
{
    match id {
        None => Generation::Unknown,
        Some(i) => if (0x1340 <= i && i <= 0x13ff) || (0x15f0 <= i && i <= 0x15ff) || (0x17c0 <= i
            && i <= 0x17ff) || (0x1b00 <= i && i <= 0x1dff) {
            Generation::MaxwellPascalVolta
        } else if (0x1e00 <= i && i <= 0x1fff) || (0x20b0 <= i && i <= 0x28ff) || (0x2b00 <= i && i
            <= 0x2fff) {
            Generation::TuringOrNewer
        } else {
            Generation::Unknown
        },
    }
}

/// NVIDIA's PCI device ids by architecture: the Maxwell, Pascal and Volta
/// ids (0x1340–0x13ff, 0x15f0–0x15ff, 0x17c0–0x17ff, 0x1b00–0x1dff) classify
/// as that generation, exactly the Turing-and-newer ids (0x1e00–0x1fff,
/// 0x20b0–0x28ff, 0x2b00–0x2fff) classify as Turing or newer, and a name that
/// carries no marker leaves the choice to the id.
pub proof fn law_device_id_generation(id: u16, name: Seq<char>)
    ensures
        (0x1340 <= id <= 0x13ff) || (0x15f0 <= id <= 0x15ff) || (0x17c0 <= id <= 0x17ff) || (0x1b00 <= id
            <= 0x1dff) ==> classify_id_spec(Some(id)) == Generation::MaxwellPascalVolta,
        classify_id_spec(Some(id)) == Generation::TuringOrNewer <==> (0x1e00 <= id <= 0x1fff) || (0x20b0 <= id
            <= 0x28ff) || (0x2b00 <= id <= 0x2fff),
        classify_id_spec(None) == Generation::Unknown,
        classify_name_spec(name) == Generation::Unknown ==> generation_spec(name, Some(id)) == classify_id_spec(
            Some(id),
        ),
{
}

/// A copy of `v[from..to]`.
fn sub_chars(v: &Vec<char>, from: usize, to: usize) -> (r: Vec<char>)
    requires
        from <= to <= v.len(),
    ensures
        r@ == v@.subrange(from as int, to as int),
{
    let mut r: Vec<char> = Vec::new();
    let mut i: usize = from;
    while i < to
        invariant
            from <= i <= to <= v.len(),
            r@ == v@.subrange(from as int, i as int),
        decreases to - i,
    {
        r.push(v[i]);
        assert(r@ =~= v@.subrange(from as int, i + 1));
        i = i + 1;
    }
    r
}

proof fn lemma_first(s: Seq<char>, n: Seq<char>, k: int, i: int)
    requires
        0 <= k <= i,
        occurs_at(s, n, i),
        forall|j: int| 0 <= j < i ==> !occurs_at(s, n, j),
    ensures
        crate::text::find_from(s, n, k) == Some(i),
    decreases i - k,
{
    if k < i {
        lemma_first(s, n, k + 1, i);
    }
}

proof fn lemma_none(s: Seq<char>, n: Seq<char>, k: int)
    requires
        0 <= k,
        !contains(s, n),
    ensures
        crate::text::find_from(s, n, k) is None,
    decreases s.len() + 1 - k,
{
    if k <= s.len() {
        assert(!occurs_at(s, n, k));
        lemma_none(s, n, k + 1);
    }
}

/// The first occurrence of `needle` in `hay`, as `first_occ` states it.
fn first_in(hay: &Vec<char>, needle: &Vec<char>) -> (r: Option<usize>)
    ensures
        match r {
            Some(i) => first_occ(hay@, needle@) == Some(i as int) && i + needle@.len() <= hay@.len(),
            None => first_occ(hay@, needle@) is None,
        },
{
    let r = find_chars(hay, needle);
    proof {
        match r {
            Some(i) => lemma_first(hay@, needle@, 0, i as int),
            None => lemma_none(hay@, needle@, 0),
        }
    }
    r
}

/// The device id of an `lspci -Dnn` line, read from its lowered text.
fn read_lspci_id(lowered: &Vec<char>) -> (id: Option<u16>)
    ensures
        id == lspci_id(lowered@),
{
    proof {
        reveal_strlit("[10de:");
    }
    let marker = chars_of("[10de:");
    let found = first_in(lowered, &marker);
    if found.is_none() {
        return None;
    }
    let i = found.unwrap();
    let ml = marker.len();
    let total = lowered.len();
    assert(i + ml <= total);
    let start = i + ml;
    let after = sub_chars(lowered, start, total);
    let end = match first_in(&after, &marker) {
        Some(j) => j,
        None => after.len(),
    };
    assert(before_first(after@, "[10de:"@) =~= after@.subrange(0, end as int));
    if end >= 4 {
        assert(after@.subrange(0, end as int).take(4) =~= after@.subrange(0, 4));
        parse_hex_u16_range(&after, 0, 4)
    } else {
        None
    }
}

/// Reads one line of `lspci -Dnn`; `Some` exactly for NVIDIA display devices.
pub fn parse_nvidia_lspci_line(line: &str) -> (gpu: Option<NvidiaGpu>)
    ensures
        (gpu is Some <==> is_nvidia_display_line(line@)),
        (gpu matches Some(g) ==> {
            &&& g.name@ == lspci_name(line@)
            &&& g.pci_device_id == lspci_id(lower(line@))
            &&& g.generation == generation_spec(g.name@, g.pci_device_id)
        }),
{
    let lowered = lower_chars(line);
    let vga = chars_of("vga compatible controller");
    let three_d = chars_of("3d controller");
    let display = chars_of("display controller");
    let marker = chars_of("[10de:");
    if !contains_chars(&lowered, &marker) || !(contains_chars(&lowered, &vga) || contains_chars(
        &lowered,
        &three_d,
    ) || contains_chars(&lowered, &display)) {
        return None;
    }
    let id = read_lspci_id(&lowered);
    let name = match split_once_str(line, ": ") {
        Some(p) => {
            let head = before_first_str(p.1.as_str(), " (rev ");
            trim_str(head.as_str())
        },
        None => {
            let head = before_first_str(line, " (rev ");
            trim_str(head.as_str())
        },
    };
    let by_name = classify_name(name.as_str());
    let generation = if by_name == Generation::Unknown {
        classify_device_id(id)
    } else {
        by_name
    };
    Some(NvidiaGpu { name, pci_device_id: id, generation })
}

/// The PCI vendor id of NVIDIA.
pub const PCI_VENDOR_ID: u32 = 0x10de;

/// `s.trim_start_matches("0x")`.
pub open spec fn strip_hex_prefix(s: Seq<char>) -> Seq<char>
    decreases s.len(),
{
    if s.len() >= 2 && s[0] == '0' && s[1] == 'x' {
        strip_hex_prefix(s.subrange(2, s.len() as int))
    } else {
        s
    }
}

/// A sysfs attribute such as `0x10de` read as a hexadecimal number.
pub open spec fn sysfs_hex_spec(text: Seq<char>) -> Option<u32> {
    parse_hex_u32(strip_hex_prefix(trim(text)))
}

/// Reads a sysfs attribute such as `0x030000` as a number.
pub fn parse_sysfs_hex(text: &str) -> (r: Option<u32>)
    ensures
        r == sysfs_hex_spec(text@),
{
    let t = trim_str(text);
    let c = chars_of(t.as_str());
    let mut i: usize = 0;
    assert(c@.subrange(0, c@.len() as int) =~= c@);
    while i < c.len() && c.len() - i >= 2 && c[i] == '0' && c[i + 1] == 'x'
        invariant
            i <= c.len(),
            c@ == trim(text@),
            strip_hex_prefix(c@.subrange(i as int, c@.len() as int)) == strip_hex_prefix(trim(text@)),
        decreases c.len() - i,
    {
        let ghost rest = c@.subrange(i as int, c@.len() as int);
        assert(rest.subrange(2, rest.len() as int) =~= c@.subrange(i + 2, c@.len() as int));
        i = i + 2;
    }
    parse_hex_u32_range(&c, i, c.len())
}

/// The lowercase hexadecimal digits.
pub open spec fn hex_digit_strs() -> Seq<Seq<char>> {
    seq![
        "0"@, "1"@, "2"@, "3"@, "4"@, "5"@, "6"@, "7"@, "8"@, "9"@, "a"@, "b"@, "c"@, "d"@, "e"@,
        "f"@,
    ]
}

/// A device id in four lowercase hexadecimal digits, as `{:04x}` writes it.
pub open spec fn hex4(id: u16) -> Seq<char> {
    let n = id as int;
    hex_digit_strs()[(n / 4096) % 16] + hex_digit_strs()[(n / 256) % 16] + hex_digit_strs()[(n / 16)
        % 16] + hex_digit_strs()[n % 16]
}

/// The device id of a sysfs `device` attribute, cut to 16 bits.
pub open spec fn sysfs_id(device: Option<u32>) -> Option<u16> {
    match device {
        Some(v) => Some((v % 65536) as u16),
        None => None,
    }
}

/// `NVIDIA GPU [10de:XXXX]`, or `NVIDIA GPU` when the device id is unknown.
pub open spec fn sysfs_name(id: Option<u16>) -> Seq<char> {
    match id {
        Some(i) => "NVIDIA GPU [10de:"@ + hex4(i) + "]"@,
        None => "NVIDIA GPU"@,
    }
}

/// An NVIDIA display controller: the vendor is NVIDIA and the class is `0x03xxxx`
/// (a missing class counts as zero).
pub open spec fn is_sysfs_display(vendor: Option<u32>, class: Option<u32>) -> bool {
    vendor == Some(PCI_VENDOR_ID) && (match class {
        Some(c) => c,
        None => 0,
    }) / 65536 == 3
}

fn hex_digit_str(d: u16) -> (s: &'static str)
    requires
        d < 16,
    ensures
        s@ == hex_digit_strs()[d as int],
{
    match d {
        0 => "0",
        1 => "1",
        2 => "2",
        3 => "3",
        4 => "4",
        5 => "5",
        6 => "6",
        7 => "7",
        8 => "8",
        9 => "9",
        10 => "a",
        11 => "b",
        12 => "c",
        13 => "d",
        14 => "e",
        _ => "f",
    }
}

/// The GPU that a PCI device's sysfs `vendor`, `class` and `device` attributes
/// describe, for NVIDIA display controllers only.
pub fn sysfs_gpu(vendor: Option<u32>, class: Option<u32>, device: Option<u32>) -> (gpu: Option<NvidiaGpu>)
    ensures
        (gpu is Some <==> is_sysfs_display(vendor, class)),
        (gpu matches Some(g) ==> {
            &&& g.pci_device_id == sysfs_id(device)
            &&& g.name@ == sysfs_name(sysfs_id(device))
            &&& g.generation == classify_id_spec(sysfs_id(device))
        }),
{
    match vendor {
        Some(v) => if v != PCI_VENDOR_ID {
            return None;
        },
        None => return None,
    }
    let c = match class {
        Some(c) => c,
        None => 0,
    };
    if c / 65536 != 3 {
        return None;
    }
    let id: Option<u16> = match device {
        Some(v) => Some((v % 65536) as u16),
        None => None,
    };
    let name = match id {
        Some(i) => {
            let mut s = String::from_str("NVIDIA GPU [10de:");
            s.append(hex_digit_str((i / 4096) % 16));
            s.append(hex_digit_str((i / 256) % 16));
            s.append(hex_digit_str((i / 16) % 16));
            s.append(hex_digit_str(i % 16));
            s.append("]");
            s
        },
        None => String::from_str("NVIDIA GPU"),
    };
    Some(NvidiaGpu { name, pci_device_id: id, generation: classify_device_id(id) })
}

} // verus!
