//! Read-only listing of the power supplies under /sys/class/power_supply.

use vstd::prelude::*;
use crate::battery::{END, PS_BASE};
use crate::hwmon::listed;
use crate::sysfs::{join, opt_view, path_join, SysFs};
use crate::text::{chars_of, sort_seq, sort_strings, string_views};

verus! {

#[derive(Debug)]
pub struct PowerSupply {
    pub name: String,
    pub kind: Option<String>,
    pub online: Option<bool>,
    pub status: Option<String>,
    pub capacity: Option<u64>,
    pub charge_control_start_threshold: Option<u64>,
    pub charge_control_end_threshold: Option<u64>,
    pub charge_limit_supported: bool,
    pub health: Option<String>,
}

pub struct PowerSupplyView {
    pub name: Seq<char>,
    pub kind: Option<Seq<char>>,
    pub online: Option<bool>,
    pub status: Option<Seq<char>>,
    pub capacity: Option<u64>,
    pub charge_control_start_threshold: Option<u64>,
    pub charge_control_end_threshold: Option<u64>,
    pub charge_limit_supported: bool,
    pub health: Option<Seq<char>>,
}

impl View for PowerSupply {
    type V = PowerSupplyView;

    open spec fn view(&self) -> PowerSupplyView {
        PowerSupplyView {
            name: self.name@,
            kind: opt_view(self.kind),
            online: self.online,
            status: opt_view(self.status),
            capacity: self.capacity,
            charge_control_start_threshold: self.charge_control_start_threshold,
            charge_control_end_threshold: self.charge_control_end_threshold,
            charge_limit_supported: self.charge_limit_supported,
            health: opt_view(self.health),
        }
    }
}

/// A "1"/other flag file read as a boolean.
pub open spec fn flag(v: Option<Seq<char>>) -> Option<bool> {
    match v {
        Some(t) => Some(t == "1"@),
        None => None,
    }
}

pub fn read_flag(fs: &SysFs, p: &String) -> (r: Option<bool>)
    ensures
        r == flag(fs.spec_read_trim(p@)),
{
    match fs.read_trim(p) {
        Some(t) => {
            let cs = chars_of(t.as_str());
            Some(crate::text::eq_str(&cs, "1"))
        },
        None => None,
    }
}

/// The supply `name` as listed under the power-supply class.
pub open spec fn supply_of(fs: SysFs, name: Seq<char>) -> PowerSupplyView {
    let p = path_join(PS_BASE@, name);
    PowerSupplyView {
        name,
        kind: fs.spec_read_trim(path_join(p, "type"@)),
        online: flag(fs.spec_read_trim(path_join(p, "online"@))),
        status: fs.spec_read_trim(path_join(p, "status"@)),
        capacity: fs.spec_read_u64(path_join(p, "capacity"@)),
        charge_control_start_threshold: fs.spec_read_u64(path_join(p, "charge_control_start_threshold"@)),
        charge_control_end_threshold: fs.spec_read_u64(path_join(p, END@)),
        charge_limit_supported: fs.spec_exists(path_join(p, END@)),
        health: fs.spec_read_trim(path_join(p, "health"@)),
    }
}

pub open spec fn supply_views(v: Seq<PowerSupply>) -> Seq<PowerSupplyView> {
    v.map_values(|s: PowerSupply| s@)
}

/// `read`: every power supply, in name order.
pub open spec fn spec_read(fs: SysFs) -> Seq<PowerSupplyView> {
    sort_seq(listed(fs, PS_BASE@)).map_values(|n: Seq<char>| supply_of(fs, n))
}

fn read_one(fs: &SysFs, base: &String, name: &String) -> (s: PowerSupply)
    requires
        base@ == PS_BASE@,
    ensures
        s@ == supply_of(*fs, name@),
{
    let p = join(base, name.as_str());
    PowerSupply {
        name: name.clone(),
        kind: fs.read_trim(&join(&p, "type")),
        online: read_flag(fs, &join(&p, "online")),
        status: fs.read_trim(&join(&p, "status")),
        capacity: fs.read_u64(&join(&p, "capacity")),
        charge_control_start_threshold: fs.read_u64(&join(&p, "charge_control_start_threshold")),
        charge_control_end_threshold: fs.read_u64(&join(&p, END)),
        charge_limit_supported: fs.path_exists(&join(&p, END)),
        health: fs.read_trim(&join(&p, "health")),
    }
}

/// Every power supply with its state.
pub fn read(fs: &SysFs) -> (v: Vec<PowerSupply>)
    ensures
        supply_views(v@) == spec_read(*fs),
{
    let base = String::from_str(PS_BASE);
    let names = sort_strings(crate::hwmon::list_or_empty(fs, &base));
    let ghost nv = string_views(names@);
    let mut v: Vec<PowerSupply> = Vec::new();
    let mut i: usize = 0;
    while i < names.len()
        invariant
            i <= names@.len(),
            base@ == PS_BASE@,
            nv == string_views(names@),
            v@.len() == i,
            forall|k: int| 0 <= k < i ==> (#[trigger] v@[k])@ == supply_of(*fs, nv[k]),
        decreases names@.len() - i,
    {
        v.push(read_one(fs, &base, &names[i]));
        i = i + 1;
    }
    assert(supply_views(v@) =~= nv.map_values(|n: Seq<char>| supply_of(*fs, n)));
    v
}

} // verus!
