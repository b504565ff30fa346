//! Read-only listing of the PCI display controllers.

use vstd::prelude::*;
use crate::hwmon::{list_or_empty, listed};
use crate::sysfs::{join, opt_view, path_join, SysFs};
use crate::text::{chars_of, has_prefix, sort_seq, sort_strings, starts_with, string_views};

verus! {

pub const PCI_BASE: &'static str = "/sys/bus/pci/devices";

#[derive(Debug)]
pub struct PciDevice {
    pub slot: String,
    pub class: Option<String>,
    pub vendor: Option<String>,
    pub device: Option<String>,
    pub vendor_name: Option<&'static str>,
    pub driver: Option<String>,
}

pub struct PciDeviceView {
    pub slot: Seq<char>,
    pub class: Option<Seq<char>>,
    pub vendor: Option<Seq<char>>,
    pub device: Option<Seq<char>>,
    pub vendor_name: Option<Seq<char>>,
    pub driver: Option<Seq<char>>,
}

pub open spec fn opt_str_view(o: Option<&'static str>) -> Option<Seq<char>> {
    match o {
        Some(s) => Some(s@),
        None => None,
    }
}

impl View for PciDevice {
    type V = PciDeviceView;

    open spec fn view(&self) -> PciDeviceView {
        PciDeviceView {
            slot: self.slot@,
            class: opt_view(self.class),
            vendor: opt_view(self.vendor),
            device: opt_view(self.device),
            vendor_name: opt_str_view(self.vendor_name),
            driver: opt_view(self.driver),
        }
    }
}

/// The vendor behind a PCI vendor id.
pub open spec fn spec_vendor_name(vendor: Option<Seq<char>>) -> Option<Seq<char>> {
    match vendor {
        Some(v) => if v == "0x10de"@ {
            Some("NVIDIA"@)
        } else if v == "0x8086"@ {
            Some("Intel"@)
        } else if v == "0x1002"@ {
            Some("AMD"@)
        } else {
            None
        },
        None => None,
    }
}

fn vendor_name(vendor: &Option<String>) -> (r: Option<&'static str>)
    ensures
        opt_str_view(r) == spec_vendor_name(opt_view(*vendor)),
{
    match vendor {
        Some(v) => {
            let cs = chars_of(v.as_str());
            if crate::text::eq_str(&cs, "0x10de") {
                Some("NVIDIA")
            } else if crate::text::eq_str(&cs, "0x8086") {
                Some("Intel")
            } else if crate::text::eq_str(&cs, "0x1002") {
                Some("AMD")
            } else {
                None
            }
        },
        None => None,
    }
}

/// PCI base class 0x03: a display controller (VGA / 3D / other display).
pub open spec fn is_display(class: Option<Seq<char>>) -> bool {
    class is Some && starts_with(class->0, "0x03"@)
}

pub open spec fn pci_of(fs: SysFs, slot: Seq<char>) -> PciDeviceView {
    let p = path_join(PCI_BASE@, slot);
    let vendor = fs.spec_read_trim(path_join(p, "vendor"@));
    PciDeviceView {
        slot,
        class: fs.spec_read_trim(path_join(p, "class"@)),
        vendor,
        device: fs.spec_read_trim(path_join(p, "device"@)),
        vendor_name: spec_vendor_name(vendor),
        driver: fs.spec_link(path_join(p, "driver"@)),
    }
}

/// The display controllers among the slots, in the given order.
pub open spec fn displays(fs: SysFs, slots: Seq<Seq<char>>) -> Seq<PciDeviceView>
    decreases slots.len(),
{
    if slots.len() == 0 {
        seq![]
    } else {
        let rest = displays(fs, slots.drop_last());
        if is_display(fs.spec_read_trim(path_join(path_join(PCI_BASE@, slots.last()), "class"@))) {
            rest.push(pci_of(fs, slots.last()))
        } else {
            rest
        }
    }
}

pub open spec fn pci_views(v: Seq<PciDevice>) -> Seq<PciDeviceView> {
    v.map_values(|d: PciDevice| d@)
}

/// `read_display`: the display controllers, in slot order.
pub open spec fn spec_read_display(fs: SysFs) -> Seq<PciDeviceView> {
    displays(fs, sort_seq(listed(fs, PCI_BASE@)))
}

/// Every PCI display controller.
pub fn read_display(fs: &SysFs) -> (v: Vec<PciDevice>)
    ensures
        pci_views(v@) == spec_read_display(*fs),
{
    let base = String::from_str(PCI_BASE);
    let names = sort_strings(list_or_empty(fs, &base));
    let ghost nv = string_views(names@);
    let mut v: Vec<PciDevice> = Vec::new();
    let mut i: usize = 0;
    let prefix = chars_of("0x03");
    while i < names.len()
        invariant
            i <= names@.len(),
            base@ == PCI_BASE@,
            prefix@ == "0x03"@,
            nv == string_views(names@),
            pci_views(v@) == displays(*fs, nv.take(i as int)),
        decreases names@.len() - i,
    {
        assert(nv.take(i + 1).drop_last() =~= nv.take(i as int));
        assert(nv.take(i + 1).last() == names@[i as int]@);
        let p = join(&base, names[i].as_str());
        let class = fs.read_trim(&join(&p, "class"));
        let display = match &class {
            Some(c) => has_prefix(&chars_of(c.as_str()), &prefix),
            None => false,
        };
        if display {
            let vendor = fs.read_trim(&join(&p, "vendor"));
            let vn = vendor_name(&vendor);
            let d = PciDevice {
                slot: names[i].clone(),
                class,
                vendor,
                device: fs.read_trim(&join(&p, "device")),
                vendor_name: vn,
                driver: fs.link_name(&join(&p, "driver")),
            };
            let ghost before = pci_views(v@);
            v.push(d);
            assert(pci_views(v@) =~= before.push(d@));
        }
        i = i + 1;
    }
    assert(nv.take(names@.len() as int) =~= nv);
    v
}

} // verus!
