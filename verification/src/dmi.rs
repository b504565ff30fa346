//! Read-only DMI identification of the machine.

use vstd::prelude::*;
use crate::sysfs::{join, opt_view, path_join, SysFs};

verus! {

pub const DMI: &'static str = "/sys/class/dmi/id";

#[derive(Debug)]
pub struct DmiInfo {
    pub sys_vendor: Option<String>,
    pub product_name: Option<String>,
    pub product_family: Option<String>,
    pub product_version: Option<String>,
    pub board_name: Option<String>,
    pub board_vendor: Option<String>,
    pub bios_vendor: Option<String>,
    pub bios_version: Option<String>,
    pub bios_date: Option<String>,
    pub chassis_type: Option<String>,
}

/// The trimmed contents of the DMI attribute `name`.
pub open spec fn dmi_attr(fs: SysFs, name: Seq<char>) -> Option<Seq<char>> {
    fs.spec_read_trim(path_join(DMI@, name))
}

fn attr(fs: &SysFs, base: &String, name: &str) -> (r: Option<String>)
    requires
        base@ == DMI@,
    ensures
        opt_view(r) == dmi_attr(*fs, name@),
{
    fs.read_trim(&join(base, name))
}

/// The DMI identification strings.
pub fn read(fs: &SysFs) -> (d: DmiInfo)
    ensures
        opt_view(d.sys_vendor) == dmi_attr(*fs, "sys_vendor"@),
        opt_view(d.product_name) == dmi_attr(*fs, "product_name"@),
        opt_view(d.product_family) == dmi_attr(*fs, "product_family"@),
        opt_view(d.product_version) == dmi_attr(*fs, "product_version"@),
        opt_view(d.board_name) == dmi_attr(*fs, "board_name"@),
        opt_view(d.board_vendor) == dmi_attr(*fs, "board_vendor"@),
        opt_view(d.bios_vendor) == dmi_attr(*fs, "bios_vendor"@),
        opt_view(d.bios_version) == dmi_attr(*fs, "bios_version"@),
        opt_view(d.bios_date) == dmi_attr(*fs, "bios_date"@),
        opt_view(d.chassis_type) == dmi_attr(*fs, "chassis_type"@),
{
    let base = String::from_str(DMI);
    DmiInfo {
        sys_vendor: attr(fs, &base, "sys_vendor"),
        product_name: attr(fs, &base, "product_name"),
        product_family: attr(fs, &base, "product_family"),
        product_version: attr(fs, &base, "product_version"),
        board_name: attr(fs, &base, "board_name"),
        board_vendor: attr(fs, &base, "board_vendor"),
        bios_vendor: attr(fs, &base, "bios_vendor"),
        bios_version: attr(fs, &base, "bios_version"),
        bios_date: attr(fs, &base, "bios_date"),
        chassis_type: attr(fs, &base, "chassis_type"),
    }
}

} // verus!
