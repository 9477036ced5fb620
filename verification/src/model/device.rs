//! GPU devices, independent of vendor.
use vstd::prelude::*;
use vstd::string::*;

verus! {

#[derive(Clone, Copy, Debug, PartialEq, Eq, Structural)]
pub enum GpuVendor {
    Nvidia,
    Amd,
    Intel,
}

pub open spec fn vendor_label(v: GpuVendor) -> Seq<char> {
    match v {
        GpuVendor::Nvidia => "NVIDIA"@,
        GpuVendor::Amd => "AMD"@,
        GpuVendor::Intel => "Intel"@,
    }
}

impl GpuVendor {
    /// The vendor's display name.
    pub fn label(self) -> (s: &'static str)
        ensures
            s@ == vendor_label(self),
    {
        match self {
            GpuVendor::Nvidia => "NVIDIA",
            GpuVendor::Amd => "AMD",
            GpuVendor::Intel => "Intel",
        }
    }
}

#[derive(Clone, Debug, PartialEq, Eq)]
pub struct GpuDevice {
    pub vendor: GpuVendor,
    pub name: String,
    pub pci_device_id: Option<u16>,
}

impl GpuDevice {
    /// A copy of this device.
    pub fn copy(&self) -> (d: GpuDevice)
        ensures
            d.vendor == self.vendor,
            d.name@ == self.name@,
            d.pci_device_id == self.pci_device_id,
    {
        GpuDevice { vendor: self.vendor, name: self.name.clone(), pci_device_id: self.pci_device_id }
    }
}

} // verus!
