//! Input devices as listed in /proc/bus/input/devices.

use vstd::prelude::*;
use crate::sysfs::opt_view;
use crate::text::{
    chars_of, contains, contains_str, has_prefix, lines, lines_vec, lower_all, lower_seq, parse_hex_nat,
    parse_hex_u64_chars, slice_vec, split, split_vec, split_ws, split_ws_vec, starts_with, string_of,
    string_views, trim, trimmed, views,
};

verus! {

#[derive(Debug)]
pub struct InputDevice {
    pub name: Option<String>,
    pub phys: Option<String>,
    pub sysfs: Option<String>,
    pub handlers: Vec<String>,
    pub ev_keys: bool,
    pub hotkey_candidate: bool,
}

/// An input device with its strings as character sequences.
pub struct InputDeviceView {
    pub name: Option<Seq<char>>,
    pub phys: Option<Seq<char>>,
    pub sysfs: Option<Seq<char>>,
    pub handlers: Seq<Seq<char>>,
    pub ev_keys: bool,
    pub hotkey_candidate: bool,
}

impl View for InputDevice {
    type V = InputDeviceView;

    open spec fn view(&self) -> InputDeviceView {
        InputDeviceView {
            name: opt_view(self.name),
            phys: opt_view(self.phys),
            sysfs: opt_view(self.sysfs),
            handlers: string_views(self.handlers@),
            ev_keys: self.ev_keys,
            hotkey_candidate: self.hotkey_candidate,
        }
    }
}

/// Leading and trailing `"` removed (`trim_matches('"')`).
pub open spec fn strip_quotes(s: Seq<char>) -> Seq<char>
    decreases s.len(),
{
    if s.len() > 0 && s[0] == '"' {
        strip_quotes(s.drop_first())
    } else if s.len() > 0 && s.last() == '"' {
        strip_quotes(s.drop_last())
    } else {
        s
    }
}

/// What the lines of a block have set so far.
pub struct BlockFields {
    pub name: Option<Seq<char>>,
    pub phys: Option<Seq<char>>,
    pub sysfs: Option<Seq<char>>,
    pub handlers: Seq<Seq<char>>,
    pub ev_keys: bool,
}

pub open spec fn rest_after(line: Seq<char>, prefix: Seq<char>) -> Seq<char> {
    line.skip(prefix.len() as int)
}

/// One line of a device block: a later line overrides an earlier one.
pub open spec fn block_step(f: BlockFields, line: Seq<char>) -> BlockFields {
    if starts_with(line, "N: Name="@) {
        BlockFields { name: Some(strip_quotes(trim(rest_after(line, "N: Name="@)))), ..f }
    } else if starts_with(line, "P: Phys="@) {
        BlockFields { phys: Some(trim(rest_after(line, "P: Phys="@))), ..f }
    } else if starts_with(line, "S: Sysfs="@) {
        BlockFields { sysfs: Some(trim(rest_after(line, "S: Sysfs="@))), ..f }
    } else if starts_with(line, "H: Handlers="@) {
        BlockFields { handlers: split_ws(rest_after(line, "H: Handlers="@)), ..f }
    } else if starts_with(line, "B: EV="@) {
        // EV bitmask; bit 1 (EV_KEY) marks a device that emits key events.
        match parse_hex_nat(trim(rest_after(line, "B: EV="@))) {
            Some(bits) => if bits <= u64::MAX {
                BlockFields { ev_keys: (bits / 2) % 2 == 1, ..f }
            } else {
                f
            },
            None => f,
        }
    } else {
        f
    }
}

pub open spec fn block_fold(ls: Seq<Seq<char>>) -> BlockFields
    decreases ls.len(),
{
    if ls.len() == 0 {
        BlockFields { name: None, phys: None, sysfs: None, handlers: seq![], ev_keys: false }
    } else {
        block_step(block_fold(ls.drop_last()), ls.last())
    }
}

/// Names that mark a device as a possible source of the hotkey.
pub open spec fn is_hotkey_name(n: Seq<char>) -> bool {
    let l = lower_seq(n);
    contains(l, "wmi"@) || contains(l, "acer"@) || contains(l, "hotkey"@) || contains(l, "video bus"@)
        || contains(l, "at translated set 2 keyboard"@)
}

/// `parse_block`: one device block.
pub open spec fn spec_parse_block(block: Seq<char>) -> InputDeviceView {
    let f = block_fold(lines(block));
    InputDeviceView {
        name: f.name,
        phys: f.phys,
        sysfs: f.sysfs,
        handlers: f.handlers,
        ev_keys: f.ev_keys,
        hotkey_candidate: match f.name {
            Some(n) => is_hotkey_name(n),
            None => false,
        },
    }
}

fn strip_quotes_vec(s: &Vec<char>) -> (out: Vec<char>)
    ensures
        out@ == strip_quotes(s@),
{
    let mut a: usize = 0;
    let mut b: usize = s.len();
    assert(s@.subrange(0, s@.len() as int) =~= s@);
    while a < b && (s[a] == '"' || s[b - 1] == '"')
        invariant
            a <= b <= s@.len(),
            strip_quotes(s@) == strip_quotes(s@.subrange(a as int, b as int)),
        decreases b - a,
    {
        let ghost t = s@.subrange(a as int, b as int);
        if s[a] == '"' {
            assert(t.drop_first() =~= s@.subrange(a + 1, b as int));
            a = a + 1;
        } else {
            assert(t.drop_last() =~= s@.subrange(a as int, b - 1));
            b = b - 1;
        }
    }
    slice_vec(s, a, b)
}

fn prefix_rest(line: &Vec<char>, prefix: &str) -> (r: Option<Vec<char>>)
    ensures
        match r {
            Some(rest) => starts_with(line@, prefix@) && rest@ == rest_after(line@, prefix@),
            None => !starts_with(line@, prefix@),
        },
{
    let pc = chars_of(prefix);
    if has_prefix(line, &pc) {
        Some(slice_vec(line, pc.len(), line.len()))
    } else {
        None
    }
}

fn strings_of(parts: &Vec<Vec<char>>) -> (out: Vec<String>)
    ensures
        string_views(out@) == views(parts@),
{
    let mut out: Vec<String> = Vec::new();
    let mut i: usize = 0;
    while i < parts.len()
        invariant
            i <= parts@.len(),
            out@.len() == i,
            forall|k: int| 0 <= k < i ==> (#[trigger] out@[k])@ == parts@[k]@,
        decreases parts@.len() - i,
    {
        out.push(string_of(parts[i].as_slice()));
        i = i + 1;
    }
    assert(string_views(out@) =~= views(parts@));
    out
}

fn hotkey_name(n: &Vec<char>) -> (b: bool)
    ensures
        b == is_hotkey_name(n@),
{
    let l = lower_all(n);
    contains_str(&l, "wmi") || contains_str(&l, "acer") || contains_str(&l, "hotkey") || contains_str(
        &l,
        "video bus",
    ) || contains_str(&l, "at translated set 2 keyboard")
}

/// Parse one block of /proc/bus/input/devices.
pub fn parse_block(block: &str) -> (d: InputDevice)
    ensures
        d@ == spec_parse_block(block@),
{
    let cs = chars_of(block);
    let ls = lines_vec(&cs);
    let ghost lv = views(ls@);
    let mut name: Option<Vec<char>> = None;
    let mut phys: Option<Vec<char>> = None;
    let mut sysfs: Option<Vec<char>> = None;
    let mut handlers: Vec<Vec<char>> = Vec::new();
    let mut ev_keys = false;
    let mut i: usize = 0;
    while i < ls.len()
        invariant
            i <= ls@.len(),
            lv == views(ls@),
            lv == lines(block@),
            ({
                let f = block_fold(lv.take(i as int));
                &&& f.name == (match name {
                    Some(v) => Some(v@),
                    None => None::<Seq<char>>,
                })
                &&& f.phys == (match phys {
                    Some(v) => Some(v@),
                    None => None::<Seq<char>>,
                })
                &&& f.sysfs == (match sysfs {
                    Some(v) => Some(v@),
                    None => None::<Seq<char>>,
                })
                &&& f.handlers == views(handlers@)
                &&& f.ev_keys == ev_keys
            }),
        decreases ls@.len() - i,
    {
        let line = &ls[i];
        assert(lv.take(i + 1).drop_last() =~= lv.take(i as int));
        assert(lv.take(i + 1).last() == line@);
        if let Some(rest) = prefix_rest(line, "N: Name=") {
            name = Some(strip_quotes_vec(&trimmed(&rest)));
        } else if let Some(rest) = prefix_rest(line, "P: Phys=") {
            phys = Some(trimmed(&rest));
        } else if let Some(rest) = prefix_rest(line, "S: Sysfs=") {
            sysfs = Some(trimmed(&rest));
        } else if let Some(rest) = prefix_rest(line, "H: Handlers=") {
            handlers = split_ws_vec(&rest);
        } else if let Some(rest) = prefix_rest(line, "B: EV=") {
            match parse_hex_u64_chars(&trimmed(&rest)) {
                Some(bits) => {
                    ev_keys = (bits / 2) % 2 == 1;
                },
                None => {},
            }
        }
        i = i + 1;
    }
    assert(lv.take(ls@.len() as int) =~= lv);
    let hotkey_candidate = match &name {
        Some(n) => hotkey_name(n),
        None => false,
    };
    InputDevice {
        name: match name {
            Some(v) => Some(string_of(v.as_slice())),
            None => None,
        },
        phys: match phys {
            Some(v) => Some(string_of(v.as_slice())),
            None => None,
        },
        sysfs: match sysfs {
            Some(v) => Some(string_of(v.as_slice())),
            None => None,
        },
        handlers: strings_of(&handlers),
        ev_keys,
        hotkey_candidate,
    }
}

/// The device blocks of the listing: pieces between blank lines that hold
/// anything but white space.
pub open spec fn device_blocks(pieces: Seq<Seq<char>>) -> Seq<Seq<char>>
    decreases pieces.len(),
{
    if pieces.len() == 0 {
        seq![]
    } else {
        let r = device_blocks(pieces.drop_last());
        if trim(pieces.last()).len() > 0 {
            r.push(pieces.last())
        } else {
            r
        }
    }
}

pub open spec fn spec_read(content: Seq<char>) -> Seq<InputDeviceView> {
    device_blocks(split(content, seq!['\n', '\n'])).map_values(|b: Seq<char>| spec_parse_block(b))
}

pub open spec fn device_views(v: Seq<InputDevice>) -> Seq<InputDeviceView> {
    v.map_values(|d: InputDevice| d@)
}

/// Parse the whole /proc/bus/input/devices listing.
pub fn read(content: &str) -> (v: Vec<InputDevice>)
    ensures
        device_views(v@) == spec_read(content@),
{
    let cs = chars_of(content);
    let mut sep: Vec<char> = Vec::new();
    sep.push('\n');
    sep.push('\n');
    assert(sep@ =~= seq!['\n', '\n']);
    let pieces = split_vec(&cs, &sep);
    let ghost pv = views(pieces@);
    let mut out: Vec<InputDevice> = Vec::new();
    let mut i: usize = 0;
    while i < pieces.len()
        invariant
            i <= pieces@.len(),
            pv == views(pieces@),
            device_views(out@) == device_blocks(pv.take(i as int)).map_values(
                |b: Seq<char>| spec_parse_block(b),
            ),
        decreases pieces@.len() - i,
    {
        assert(pv.take(i + 1).drop_last() =~= pv.take(i as int));
        assert(pv.take(i + 1).last() == pieces@[i as int]@);
        let t = trimmed(&pieces[i]);
        let ghost before = device_views(out@);
        if t.len() > 0 {
            let s = string_of(pieces[i].as_slice());
            let d = parse_block(s.as_str());
            out.push(d);
            assert(device_views(out@) =~= before.push(d@));
        }
        assert(device_views(out@) =~= device_blocks(pv.take(i + 1)).map_values(|b: Seq<char>| spec_parse_block(b)));
        i = i + 1;
    }
    assert(pv.take(pieces@.len() as int) =~= pv);
    out
}

} // verus!
