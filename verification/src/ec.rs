//! Read-only view of the embedded controller through the ec_sys debugfs file.

use vstd::prelude::*;
use crate::power::flag;
use crate::rgb::{hex2, push_hex_byte};
use crate::sysfs::{opt_view, SysFs};
use crate::text::{append_str, chars_of, hex_string, pad_zeros, push_char, push_hex};

verus! {

pub const EC_IO: &'static str = "/sys/kernel/debug/ec/ec0/io";

pub const WRITE_SUPPORT: &'static str = "/sys/module/ec_sys/parameters/write_support";

pub const EC_ABSENT: &'static str = "EC debugfs absent. Load read-only with: sudo modprobe ec_sys";

#[derive(Debug)]
pub struct EcInfo {
    pub debugfs_present: bool,
    pub io_path: &'static str,
    pub readable: bool,
    pub size: Option<usize>,
    pub write_support: Option<bool>,
    pub dump_hex: Option<String>,
    pub dump: Option<Vec<u8>>,
    pub note: Option<String>,
}

// ---------------------------------------------------------------------------
// Hex dump
// ---------------------------------------------------------------------------

/// " xx" for each byte.
pub open spec fn bytes_hex(bs: Seq<u8>) -> Seq<char>
    decreases bs.len(),
{
    if bs.len() == 0 {
        seq![]
    } else {
        bytes_hex(bs.drop_last()) + seq![' '] + hex2(bs.last())
    }
}

/// One line: the offset as `{:03x}`, a colon and the bytes.
pub open spec fn dump_line(offset: nat, chunk: Seq<u8>) -> Seq<char> {
    pad_zeros(hex_string(offset), 3) + seq![':'] + bytes_hex(chunk) + seq!['\n']
}

/// The lines from byte `off` on, sixteen bytes each.
pub open spec fn dump_from(bs: Seq<u8>, off: nat) -> Seq<char>
    decreases bs.len() - off,
{
    if off >= bs.len() {
        seq![]
    } else {
        let end = if off + 16 <= bs.len() { (off + 16) as int } else { bs.len() as int };
        dump_line(off, bs.subrange(off as int, end)) + dump_from(bs, end as nat)
    }
}

/// `hexdump`: sixteen bytes a line, each line led by its offset.
pub open spec fn spec_hexdump(bs: Seq<u8>) -> Seq<char> {
    dump_from(bs, 0)
}

proof fn lemma_dump_step(bs: Seq<u8>, off: nat)
    requires
        off < bs.len(),
    ensures
        dump_from(bs, off) == dump_line(
            off,
            bs.subrange(off as int, if off + 16 <= bs.len() { (off + 16) as int } else { bs.len() as int }),
        ) + dump_from(bs, (if off + 16 <= bs.len() { (off + 16) as int } else { bs.len() as int }) as nat),
{
}

/// The bytes as rows of sixteen hex values, each row led by its offset.
pub fn hexdump(bytes: &[u8]) -> (s: String)
    ensures
        s@ == spec_hexdump(bytes@),
{
    let mut s = String::new();
    let mut off: usize = 0;
    let n = bytes.len();
    while off < n
        invariant
            n == bytes@.len(),
            off <= n,
            s@ + dump_from(bytes@, off as nat) == spec_hexdump(bytes@),
        decreases n - off,
    {
        proof {
            lemma_dump_step(bytes@, off as nat);
        }
        let end = if n - off >= 16 { off + 16 } else { n };
        let ghost before = s@;
        push_hex(&mut s, off as u64, 3);
        push_char(&mut s, ':');
        let mut k = off;
        while k < end
            invariant
                off <= k <= end,
                end <= n,
                n == bytes@.len(),
                s@ == before + pad_zeros(hex_string(off as nat), 3) + seq![':'] + bytes_hex(
                    bytes@.subrange(off as int, k as int),
                ),
            decreases end - k,
        {
            push_char(&mut s, ' ');
            push_hex_byte(&mut s, bytes[k]);
            assert(bytes@.subrange(off as int, k + 1).drop_last() =~= bytes@.subrange(off as int, k as int));
            k = k + 1;
        }
        push_char(&mut s, '\n');
        assert(s@ =~= before + dump_line(off as nat, bytes@.subrange(off as int, end as int)));
        off = end;
    }
    s
}

// ---------------------------------------------------------------------------
// Reading
// ---------------------------------------------------------------------------

pub struct EcInfoView {
    pub debugfs_present: bool,
    pub io_path: Seq<char>,
    pub readable: bool,
    pub size: Option<usize>,
    pub write_support: Option<bool>,
    pub dump_hex: Option<Seq<char>>,
    pub dump: Option<Seq<u8>>,
    pub note: Option<Seq<char>>,
}

impl View for EcInfo {
    type V = EcInfoView;

    open spec fn view(&self) -> EcInfoView {
        EcInfoView {
            debugfs_present: self.debugfs_present,
            io_path: self.io_path@,
            readable: self.readable,
            size: self.size,
            write_support: self.write_support,
            dump_hex: opt_view(self.dump_hex),
            dump: match self.dump {
                Some(b) => Some(b@),
                None => None,
            },
            note: opt_view(self.note),
        }
    }
}

/// The ec_sys `write_support` parameter: "Y" or "1" means enabled.
pub open spec fn write_flag(v: Option<Seq<char>>) -> Option<bool> {
    match v {
        Some(t) => Some(t == "Y"@ || t == "1"@),
        None => None,
    }
}

/// `read`, given what reading the EC file gave (its bytes, or the error
/// text); that is consulted only when the debugfs file exists.
pub open spec fn spec_read(fs: SysFs, contents: Result<Seq<u8>, Seq<char>>) -> EcInfoView {
    let present = fs.spec_exists(EC_IO@);
    let base = EcInfoView {
        debugfs_present: present,
        io_path: EC_IO@,
        readable: false,
        size: None,
        write_support: write_flag(fs.spec_read_trim(WRITE_SUPPORT@)),
        dump_hex: None,
        dump: None,
        note: None,
    };
    if !present {
        EcInfoView { note: Some(EC_ABSENT@), ..base }
    } else {
        match contents {
            Ok(bs) => EcInfoView {
                readable: true,
                size: Some(bs.len() as usize),
                dump_hex: Some(spec_hexdump(bs)),
                dump: Some(bs),
                ..base
            },
            Err(e) => EcInfoView { note: Some("EC present but unreadable ("@ + e + "); re-run as root"@), ..base },
        }
    }
}

pub open spec fn contents_view(c: Result<Vec<u8>, String>) -> Result<Seq<u8>, Seq<char>> {
    match c {
        Ok(b) => Ok(b@),
        Err(e) => Err(e@),
    }
}

/// The EC debugfs state and, when it was read, its dump.
pub fn read(fs: &SysFs, contents: Result<Vec<u8>, String>) -> (info: EcInfo)
    ensures
        info@ == spec_read(*fs, contents_view(contents)),
{
    let present = fs.path_exists(&String::from_str(EC_IO));
    let write_support = match fs.read_trim(&String::from_str(WRITE_SUPPORT)) {
        Some(v) => {
            let cs = chars_of(v.as_str());
            Some(crate::text::eq_str(&cs, "Y") || crate::text::eq_str(&cs, "1"))
        },
        None => None,
    };
    let mut info = EcInfo {
        debugfs_present: present,
        io_path: EC_IO,
        readable: false,
        size: None,
        write_support,
        dump_hex: None,
        dump: None,
        note: None,
    };
    if !present {
        info.note = Some(String::from_str(EC_ABSENT));
        return info;
    }
    match contents {
        Ok(bytes) => {
            info.readable = true;
            info.size = Some(bytes.len());
            info.dump_hex = Some(hexdump(bytes.as_slice()));
            info.dump = Some(bytes);
        },
        Err(e) => {
            let mut note = String::from_str("EC present but unreadable (");
            append_str(&mut note, e.as_str());
            append_str(&mut note, "); re-run as root");
            info.note = Some(note);
        },
    }
    info
}

} // verus!
