//! The NitroSense/hotkey button as an evdev device: locating its node and
//! decoding the kernel `input_event` records read from it.

use vstd::prelude::*;
use crate::input::{InputDevice, InputDeviceView};
use crate::sysfs::opt_view;
use crate::text::{append_str, chars_of, contains, contains_str, has_prefix, lower_all, lower_seq, starts_with, string_views};

verus! {

/// `struct input_event` on 64-bit Linux: two 64-bit timeval longs (16 bytes),
/// then u16 type, u16 code, i32 value.
pub const EVENT_SIZE: usize = 24;

pub const EV_KEY: u16 = 1;

pub const KEY_PRESS: i32 = 1;

#[derive(Debug, Clone, Copy)]
pub struct InputEvent {
    pub kind: u16,
    pub code: u16,
    pub value: i32,
}

/// `u16::from_ne_bytes`: the two bytes read in the machine's byte order,
/// which is one of little- or big-endian.
#[verifier::external_body]
fn u16_from_ne(b: [u8; 2]) -> (r: u16)
    ensures
        r == b[0] + 256 * b[1] || r == b[1] + 256 * b[0],
{
    u16::from_ne_bytes(b)
}

/// The two's complement reading of 32 bits.
pub open spec fn signed32(u: int) -> int {
    if u < 0x8000_0000 {
        u
    } else {
        u - 0x1_0000_0000
    }
}

/// Bytes `i`, `i + 1` as a little-endian (or, with `little` false, big-endian) number.
pub open spec fn word16(buf: Seq<u8>, i: int, little: bool) -> int {
    if little {
        buf[i] + 256 * buf[i + 1]
    } else {
        buf[i + 1] + 256 * buf[i]
    }
}

/// Bytes `i` .. `i + 3` as a little- or big-endian number.
pub open spec fn word32(buf: Seq<u8>, i: int, little: bool) -> int {
    if little {
        buf[i] + 256 * buf[i + 1] + 65536 * buf[i + 2] + 16777216 * buf[i + 3]
    } else {
        buf[i + 3] + 256 * buf[i + 2] + 65536 * buf[i + 1] + 16777216 * buf[i]
    }
}

/// An `input_event` decoded in one byte order: type, code and value follow
/// the 16-byte timestamp.
pub open spec fn spec_decode(buf: Seq<u8>, little: bool) -> (int, int, int) {
    (word16(buf, 16, little), word16(buf, 18, little), signed32(word32(buf, 20, little)))
}

fn decode16(a: u8, b: u8, little: bool) -> (r: u16)
    ensures
        r == (if little { a + 256 * b } else { b + 256 * a }),
{
    if little {
        (a as u16) + (b as u16) * 256
    } else {
        (b as u16) + (a as u16) * 256
    }
}

fn decode32(a: u8, b: u8, c: u8, d: u8, little: bool) -> (r: i32)
    ensures
        r == signed32(
            if little {
                a + 256 * b + 65536 * c + 16777216 * d
            } else {
                d + 256 * c + 65536 * b + 16777216 * a
            },
        ),
{
    let (w, x, y, z) = if little { (a, b, c, d) } else { (d, c, b, a) };
    let raw: u32 = (w as u32) + (x as u32) * 256 + (y as u32) * 65536 + (z as u32) * 16777216;
    if raw < 0x8000_0000 {
        raw as i32
    } else {
        let m: u32 = raw - 0x8000_0000;
        (m as i32) - 0x4000_0000 - 0x4000_0000
    }
}

/// Decode one `input_event` in the machine's byte order (probed once with
/// `u16::from_ne_bytes`), which is either little- or big-endian for every field.
pub fn parse(buf: &[u8; 24]) -> (ev: InputEvent)
    ensures
        spec_decode(buf@, true) == (ev.kind as int, ev.code as int, ev.value as int)
            || spec_decode(buf@, false) == (ev.kind as int, ev.code as int, ev.value as int),
{
    let little = u16_from_ne([1, 0]) == 1;
    let kind = decode16(buf[16], buf[17], little);
    let code = decode16(buf[18], buf[19], little);
    let value = decode32(buf[20], buf[21], buf[22], buf[23], little);
    InputEvent { kind, code, value }
}

/// A key press: an EV_KEY event with value 1 (not a release or repeat).
pub fn is_key_press(ev: &InputEvent) -> (b: bool)
    ensures
        b == (ev.kind == EV_KEY && ev.value == KEY_PRESS),
{
    ev.kind == EV_KEY && ev.value == KEY_PRESS
}

/// The first `eventN` handler of a device.
pub open spec fn first_event_handler(hs: Seq<Seq<char>>) -> Option<Seq<char>>
    decreases hs.len(),
{
    if hs.len() == 0 {
        None
    } else if starts_with(hs[0], "event"@) {
        Some(hs[0])
    } else {
        first_event_handler(hs.drop_first())
    }
}

/// `event_node`: "/dev/input/<first event handler>".
pub open spec fn spec_event_node(d: InputDeviceView) -> Option<Seq<char>> {
    match first_event_handler(d.handlers) {
        Some(h) => Some("/dev/input/"@ + h),
        None => None,
    }
}

pub fn event_node(dev: &InputDevice) -> (r: Option<String>)
    ensures
        opt_view(r) == spec_event_node(dev@),
{
    let ev = chars_of("event");
    let ghost hv = string_views(dev.handlers@);
    let mut i: usize = 0;
    assert(hv.skip(0) =~= hv);
    while i < dev.handlers.len()
        invariant
            i <= dev.handlers@.len(),
            ev@ == "event"@,
            hv == string_views(dev.handlers@),
            first_event_handler(hv) == first_event_handler(hv.skip(i as int)),
        decreases dev.handlers@.len() - i,
    {
        assert(hv.skip(i as int)[0] == dev.handlers@[i as int]@);
        let hc = chars_of(dev.handlers[i].as_str());
        if has_prefix(&hc, &ev) {
            let mut p = String::from_str("/dev/input/");
            append_str(&mut p, dev.handlers[i].as_str());
            return Some(p);
        }
        assert(hv.skip(i as int).drop_first() =~= hv.skip(i + 1));
        i = i + 1;
    }
    None
}

/// A device whose name mentions "wmi hotkeys" (ignoring case).
pub open spec fn is_wmi_hotkeys(d: InputDeviceView) -> bool {
    match d.name {
        Some(n) => contains(lower_seq(n), "wmi hotkeys"@),
        None => false,
    }
}

pub open spec fn first_wmi_hotkeys(ds: Seq<InputDeviceView>) -> Option<InputDeviceView>
    decreases ds.len(),
{
    if ds.len() == 0 {
        None
    } else if is_wmi_hotkeys(ds[0]) {
        Some(ds[0])
    } else {
        first_wmi_hotkeys(ds.drop_first())
    }
}

pub open spec fn first_candidate(ds: Seq<InputDeviceView>) -> Option<InputDeviceView>
    decreases ds.len(),
{
    if ds.len() == 0 {
        None
    } else if ds[0].hotkey_candidate && spec_event_node(ds[0]) is Some {
        Some(ds[0])
    } else {
        first_candidate(ds.drop_first())
    }
}

/// `find_hotkey_device`: prefer the "Acer WMI hotkeys" device, else the first
/// hotkey candidate with an event node; answer its event node.
pub open spec fn spec_find_hotkey_device(ds: Seq<InputDeviceView>) -> Option<Seq<char>> {
    match first_wmi_hotkeys(ds) {
        Some(d) => spec_event_node(d),
        None => match first_candidate(ds) {
            Some(d) => spec_event_node(d),
            None => None,
        },
    }
}

fn wmi_hotkeys(d: &InputDevice) -> (b: bool)
    ensures
        b == is_wmi_hotkeys(d@),
{
    match &d.name {
        Some(n) => {
            let l = lower_all(&chars_of(n.as_str()));
            contains_str(&l, "wmi hotkeys")
        },
        None => false,
    }
}

/// Best-effort resolution of the Acer hotkey evdev node from the parsed
/// /proc/bus/input/devices listing, preferring the "Acer WMI hotkeys" device.
pub fn find_hotkey_device(devices: &[InputDevice]) -> (r: Option<String>)
    ensures
        opt_view(r) == spec_find_hotkey_device(devices@.map_values(|d: InputDevice| d@)),
{
    let ghost dv = devices@.map_values(|d: InputDevice| d@);
    let mut i: usize = 0;
    assert(dv.skip(0) =~= dv);
    while i < devices.len()
        invariant
            i <= devices@.len(),
            dv == devices@.map_values(|d: InputDevice| d@),
            first_wmi_hotkeys(dv) == first_wmi_hotkeys(dv.skip(i as int)),
        decreases devices@.len() - i,
    {
        assert(dv.skip(i as int)[0] == devices@[i as int]@);
        if wmi_hotkeys(&devices[i]) {
            return event_node(&devices[i]);
        }
        assert(dv.skip(i as int).drop_first() =~= dv.skip(i + 1));
        i = i + 1;
    }
    let mut j: usize = 0;
    assert(dv.skip(0) =~= dv);
    while j < devices.len()
        invariant
            j <= devices@.len(),
            dv == devices@.map_values(|d: InputDevice| d@),
            first_wmi_hotkeys(dv) is None,
            first_candidate(dv) == first_candidate(dv.skip(j as int)),
        decreases devices@.len() - j,
    {
        assert(dv.skip(j as int)[0] == devices@[j as int]@);
        if devices[j].hotkey_candidate {
            match event_node(&devices[j]) {
                Some(n) => {
                    return Some(n);
                },
                None => {},
            }
        }
        assert(dv.skip(j as int).drop_first() =~= dv.skip(j + 1));
        j = j + 1;
    }
    None
}

} // verus!
