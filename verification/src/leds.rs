//! Read-only listing of the LED class devices under /sys/class/leds.

use vstd::prelude::*;
use crate::hwmon::{list_or_empty, listed};
use crate::sysfs::{join, opt_view, path_join, SysFs};
use crate::text::{chars_of, contains, contains_str, lower_all, lower_seq, sort_seq, sort_strings, string_views};

verus! {

pub const LEDS_BASE: &'static str = "/sys/class/leds";

#[derive(Debug)]
pub struct LedDevice {
    pub name: String,
    pub brightness: Option<u64>,
    pub max_brightness: Option<u64>,
    pub multi_index: Option<String>,
    pub multi_intensity: Option<String>,
    pub is_keyboard_candidate: bool,
}

pub struct LedDeviceView {
    pub name: Seq<char>,
    pub brightness: Option<u64>,
    pub max_brightness: Option<u64>,
    pub multi_index: Option<Seq<char>>,
    pub multi_intensity: Option<Seq<char>>,
    pub is_keyboard_candidate: bool,
}

impl View for LedDevice {
    type V = LedDeviceView;

    open spec fn view(&self) -> LedDeviceView {
        LedDeviceView {
            name: self.name@,
            brightness: self.brightness,
            max_brightness: self.max_brightness,
            multi_index: opt_view(self.multi_index),
            multi_intensity: opt_view(self.multi_intensity),
            is_keyboard_candidate: self.is_keyboard_candidate,
        }
    }
}

/// A keyboard backlight candidate: the lower-cased name mentions kbd,
/// keyboard or rgb.
pub open spec fn is_keyboard_name(name: Seq<char>) -> bool {
    let l = lower_seq(name);
    contains(l, "kbd"@) || contains(l, "keyboard"@) || contains(l, "rgb"@)
}

pub open spec fn led_of(fs: SysFs, name: Seq<char>) -> LedDeviceView {
    let p = path_join(LEDS_BASE@, name);
    LedDeviceView {
        name,
        brightness: fs.spec_read_u64(path_join(p, "brightness"@)),
        max_brightness: fs.spec_read_u64(path_join(p, "max_brightness"@)),
        multi_index: fs.spec_read_trim(path_join(p, "multi_index"@)),
        multi_intensity: fs.spec_read_trim(path_join(p, "multi_intensity"@)),
        is_keyboard_candidate: is_keyboard_name(name),
    }
}

pub open spec fn led_views(v: Seq<LedDevice>) -> Seq<LedDeviceView> {
    v.map_values(|d: LedDevice| d@)
}

/// `read`: every LED device, in name order.
pub open spec fn spec_read(fs: SysFs) -> Seq<LedDeviceView> {
    sort_seq(listed(fs, LEDS_BASE@)).map_values(|n: Seq<char>| led_of(fs, n))
}

fn read_one(fs: &SysFs, base: &String, name: &String) -> (d: LedDevice)
    requires
        base@ == LEDS_BASE@,
    ensures
        d@ == led_of(*fs, name@),
{
    let p = join(base, name.as_str());
    let lname = lower_all(&chars_of(name.as_str()));
    let kbd = contains_str(&lname, "kbd") || contains_str(&lname, "keyboard") || contains_str(&lname, "rgb");
    LedDevice {
        brightness: fs.read_u64(&join(&p, "brightness")),
        max_brightness: fs.read_u64(&join(&p, "max_brightness")),
        multi_index: fs.read_trim(&join(&p, "multi_index")),
        multi_intensity: fs.read_trim(&join(&p, "multi_intensity")),
        is_keyboard_candidate: kbd,
        name: name.clone(),
    }
}

/// Every LED class device.
pub fn read(fs: &SysFs) -> (v: Vec<LedDevice>)
    ensures
        led_views(v@) == spec_read(*fs),
{
    let base = String::from_str(LEDS_BASE);
    let names = sort_strings(list_or_empty(fs, &base));
    let ghost nv = string_views(names@);
    let mut v: Vec<LedDevice> = Vec::new();
    let mut i: usize = 0;
    while i < names.len()
        invariant
            i <= names@.len(),
            base@ == LEDS_BASE@,
            nv == string_views(names@),
            v@.len() == i,
            forall|k: int| 0 <= k < i ==> (#[trigger] v@[k])@ == led_of(*fs, nv[k]),
        decreases names@.len() - i,
    {
        v.push(read_one(fs, &base, &names[i]));
        i = i + 1;
    }
    assert(led_views(v@) =~= nv.map_values(|n: Seq<char>| led_of(*fs, n)));
    v
}

} // verus!
