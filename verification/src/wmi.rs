//! Read-only discovery of the WMI devices and the acer-wmi platform device.

use vstd::prelude::*;
use crate::acer::PLATFORM_BASE;
use crate::hwmon::{list_or_empty, listed};
use crate::pci::opt_str_view;
use crate::power::{flag, read_flag};
use crate::sysfs::{join, opt_view, path_join, SysFs};
use crate::text::{
    chars_of, has_prefix, slice_vec, sort_seq, sort_strings, starts_with, string_of, string_views,
    upper_all, upper_seq,
};

verus! {

pub const WMI_BASE: &'static str = "/sys/bus/wmi/devices";

pub const GAMING_LABEL: &'static str = "Acer gaming WMI (fan/perf/RGB methods)";

pub const GAMING_GUID: &'static str = "7A4DDFE7-5B5D-40B4-8595-4408E0CC7F56";

pub const WMID_GUID: &'static str = "67C3371D-95A3-4C37-BB61-DD47B491DAAB";

pub const WMBB_GUID: &'static str = "431F16ED-0C2B-444C-B267-27DEB140CF9C";

#[derive(Debug)]
pub struct WmiDevice {
    pub device: String,
    pub guid: Option<String>,
    pub modalias: Option<String>,
    pub object_id: Option<String>,
    pub instance_count: Option<u64>,
    pub expensive: Option<bool>,
    pub driver: Option<String>,
    pub known: Option<&'static str>,
}

pub struct WmiDeviceView {
    pub device: Seq<char>,
    pub guid: Option<Seq<char>>,
    pub modalias: Option<Seq<char>>,
    pub object_id: Option<Seq<char>>,
    pub instance_count: Option<u64>,
    pub expensive: Option<bool>,
    pub driver: Option<Seq<char>>,
    pub known: Option<Seq<char>>,
}

impl View for WmiDevice {
    type V = WmiDeviceView;

    open spec fn view(&self) -> WmiDeviceView {
        WmiDeviceView {
            device: self.device@,
            guid: opt_view(self.guid),
            modalias: opt_view(self.modalias),
            object_id: opt_view(self.object_id),
            instance_count: self.instance_count,
            expensive: self.expensive,
            driver: opt_view(self.driver),
            known: opt_str_view(self.known),
        }
    }
}

/// The known Acer WMI interface a GUID names, compared case-insensitively.
pub open spec fn spec_known_label(guid: Seq<char>) -> Option<Seq<char>> {
    let up = upper_seq(guid);
    if up == GAMING_GUID@ {
        Some(GAMING_LABEL@)
    } else if up == WMID_GUID@ {
        Some("Acer WMID"@)
    } else if up == WMBB_GUID@ {
        Some("Acer WMBB"@)
    } else {
        None
    }
}

/// The label of a known Acer WMI GUID.
pub fn known_label(guid: &str) -> (r: Option<&'static str>)
    ensures
        opt_str_view(r) == spec_known_label(guid@),
{
    let up = upper_all(&chars_of(guid));
    if crate::text::eq_str(&up, GAMING_GUID) {
        Some(GAMING_LABEL)
    } else if crate::text::eq_str(&up, WMID_GUID) {
        Some("Acer WMID")
    } else if crate::text::eq_str(&up, WMBB_GUID) {
        Some("Acer WMBB")
    } else {
        None
    }
}

/// The GUID: the modalias after "wmi:", else the device name.
pub open spec fn spec_guid(device: Seq<char>, modalias: Option<Seq<char>>) -> Seq<char> {
    match modalias {
        Some(m) => if starts_with(m, "wmi:"@) {
            m.skip(4)
        } else {
            device
        },
        None => device,
    }
}

pub open spec fn wmi_of(fs: SysFs, device: Seq<char>) -> WmiDeviceView {
    let p = path_join(WMI_BASE@, device);
    let modalias = fs.spec_read_trim(path_join(p, "modalias"@));
    let guid = spec_guid(device, modalias);
    WmiDeviceView {
        device,
        guid: Some(guid),
        modalias,
        object_id: fs.spec_read_trim(path_join(p, "object_id"@)),
        instance_count: fs.spec_read_u64(path_join(p, "instance_count"@)),
        expensive: flag(fs.spec_read_trim(path_join(p, "expensive"@))),
        driver: fs.spec_link(path_join(p, "driver"@)),
        known: spec_known_label(guid),
    }
}

pub open spec fn wmi_views(v: Seq<WmiDevice>) -> Seq<WmiDeviceView> {
    v.map_values(|d: WmiDevice| d@)
}

/// `read`: every WMI device, in name order.
pub open spec fn spec_read(fs: SysFs) -> Seq<WmiDeviceView> {
    sort_seq(listed(fs, WMI_BASE@)).map_values(|n: Seq<char>| wmi_of(fs, n))
}

fn guid_of(device: &String, modalias: &Option<String>) -> (g: String)
    ensures
        g@ == spec_guid(device@, opt_view(*modalias)),
{
    proof {
        reveal_strlit("wmi:");
    }
    match modalias {
        Some(m) => {
            let cs = chars_of(m.as_str());
            let pre = chars_of("wmi:");
            if has_prefix(&cs, &pre) {
                let rest = slice_vec(&cs, 4, cs.len());
                assert(rest@ =~= cs@.skip(4));
                string_of(rest.as_slice())
            } else {
                device.clone()
            }
        },
        None => device.clone(),
    }
}

fn read_one(fs: &SysFs, base: &String, name: &String) -> (d: WmiDevice)
    requires
        base@ == WMI_BASE@,
    ensures
        d@ == wmi_of(*fs, name@),
{
    let p = join(base, name.as_str());
    let modalias = fs.read_trim(&join(&p, "modalias"));
    let guid = guid_of(name, &modalias);
    let known = known_label(guid.as_str());
    WmiDevice {
        device: name.clone(),
        guid: Some(guid),
        modalias,
        object_id: fs.read_trim(&join(&p, "object_id")),
        instance_count: fs.read_u64(&join(&p, "instance_count")),
        expensive: read_flag(fs, &join(&p, "expensive")),
        driver: fs.link_name(&join(&p, "driver")),
        known,
    }
}

/// Every WMI device with its GUID and, when known, what it is.
pub fn read(fs: &SysFs) -> (v: Vec<WmiDevice>)
    ensures
        wmi_views(v@) == spec_read(*fs),
{
    let base = String::from_str(WMI_BASE);
    let names = sort_strings(list_or_empty(fs, &base));
    let ghost nv = string_views(names@);
    let mut v: Vec<WmiDevice> = Vec::new();
    let mut i: usize = 0;
    while i < names.len()
        invariant
            i <= names@.len(),
            base@ == WMI_BASE@,
            nv == string_views(names@),
            v@.len() == i,
            forall|k: int| 0 <= k < i ==> (#[trigger] v@[k])@ == wmi_of(*fs, nv[k]),
        decreases names@.len() - i,
    {
        v.push(read_one(fs, &base, &names[i]));
        i = i + 1;
    }
    assert(wmi_views(v@) =~= nv.map_values(|n: Seq<char>| wmi_of(*fs, n)));
    v
}

// ---------------------------------------------------------------------------
// The acer-wmi platform device
// ---------------------------------------------------------------------------

#[derive(Debug)]
pub struct AcerPlatform {
    pub path: String,
    pub attributes: Vec<(String, String)>,
}

pub open spec fn attr_views(v: Seq<(String, String)>) -> Seq<(Seq<char>, Seq<char>)> {
    v.map_values(|a: (String, String)| (a.0@, a.1@))
}

/// The names that are regular files inside `dir`, in listing order.
pub open spec fn files_in(fs: SysFs, dir: Seq<char>, names: Seq<Seq<char>>) -> Seq<Seq<char>>
    decreases names.len(),
{
    if names.len() == 0 {
        seq![]
    } else {
        let rest = files_in(fs, dir, names.drop_last());
        if fs.spec_is_file(path_join(dir, names.last())) {
            rest.push(names.last())
        } else {
            rest
        }
    }
}

/// The readable, non-empty attributes among `names` (skipping uevent and
/// modalias), as (name, trimmed value).
pub open spec fn attributes(fs: SysFs, names: Seq<Seq<char>>) -> Seq<(Seq<char>, Seq<char>)>
    decreases names.len(),
{
    if names.len() == 0 {
        seq![]
    } else {
        let rest = attributes(fs, names.drop_last());
        let n = names.last();
        if n == "uevent"@ || n == "modalias"@ {
            rest
        } else {
            match fs.spec_read_trim(path_join(PLATFORM_BASE@, n)) {
                Some(v) => rest.push((n, v)),
                None => rest,
            }
        }
    }
}

/// `acer_platform`: present when the platform directory exists.
pub open spec fn spec_acer_platform(fs: SysFs) -> Option<(Seq<char>, Seq<(Seq<char>, Seq<char>)>)> {
    if !fs.spec_exists(PLATFORM_BASE@) {
        None
    } else {
        Some(
            (
                PLATFORM_BASE@,
                attributes(fs, sort_seq(files_in(fs, PLATFORM_BASE@, listed(fs, PLATFORM_BASE@)))),
            ),
        )
    }
}

fn file_names(fs: &SysFs, dir: &String, names: &Vec<String>) -> (v: Vec<String>)
    ensures
        string_views(v@) == files_in(*fs, dir@, string_views(names@)),
{
    let ghost nv = string_views(names@);
    let mut v: Vec<String> = Vec::new();
    let mut i: usize = 0;
    while i < names.len()
        invariant
            i <= names@.len(),
            nv == string_views(names@),
            string_views(v@) == files_in(*fs, dir@, nv.take(i as int)),
        decreases names@.len() - i,
    {
        assert(nv.take(i + 1).drop_last() =~= nv.take(i as int));
        assert(nv.take(i + 1).last() == names@[i as int]@);
        if fs.is_file(&join(dir, names[i].as_str())) {
            let ghost before = string_views(v@);
            v.push(names[i].clone());
            assert(string_views(v@) =~= before.push(names@[i as int]@));
        }
        i = i + 1;
    }
    assert(nv.take(names@.len() as int) =~= nv);
    v
}

/// The acer-wmi platform device and its readable attributes.
pub fn acer_platform(fs: &SysFs) -> (r: Option<AcerPlatform>)
    ensures
        match r {
            Some(a) => spec_acer_platform(*fs) == Some((a.path@, attr_views(a.attributes@))),
            None => spec_acer_platform(*fs) is None,
        },
{
    let base = String::from_str(PLATFORM_BASE);
    if !fs.path_exists(&base) {
        return None;
    }
    let all = list_or_empty(fs, &base);
    let names = sort_strings(file_names(fs, &base, &all));
    let ghost nv = string_views(names@);
    let mut attrs: Vec<(String, String)> = Vec::new();
    let mut i: usize = 0;
    while i < names.len()
        invariant
            i <= names@.len(),
            base@ == PLATFORM_BASE@,
            nv == string_views(names@),
            attr_views(attrs@) == attributes(*fs, nv.take(i as int)),
        decreases names@.len() - i,
    {
        assert(nv.take(i + 1).drop_last() =~= nv.take(i as int));
        assert(nv.take(i + 1).last() == names@[i as int]@);
        let n = &names[i];
        let cs = chars_of(n.as_str());
        if !(crate::text::eq_str(&cs, "uevent") || crate::text::eq_str(&cs, "modalias")) {
            match fs.read_trim(&join(&base, n.as_str())) {
                Some(v) => {
                    let ghost before = attr_views(attrs@);
                    attrs.push((n.clone(), v));
                    assert(attr_views(attrs@) =~= before.push((n@, v@)));
                },
                None => {},
            }
        }
        i = i + 1;
    }
    assert(nv.take(names@.len() as int) =~= nv);
    Some(AcerPlatform { path: base, attributes: attrs })
}

} // verus!
