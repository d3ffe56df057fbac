//! Drive enumeration and byte-size units. The Win32 queries themselves are
//! made by the caller; this module turns a logical-drive bitmask into drive
//! roots, a query's outcome into a target description, text into the
//! NUL-terminated UTF-16 the wide Win32 calls take, and a byte count into
//! its display unit.

use crate::engine::config::WipeTargetInfo;
use crate::util::fixed::{f64_value, f64_value_of, one_decimal, push_one_decimal};
use vstd::prelude::*;

verus! {

/// The UTF-16 code units of one character.
pub open spec fn utf16_units(c: char) -> Seq<u16> {
    let v = c as int;
    if v < 0x10000 {
        seq![v as u16]
    } else {
        let u = v - 0x10000;
        seq![(0xD800 + u / 0x400) as u16, (0xDC00 + u % 0x400) as u16]
    }
}

/// UTF-16 encoding of a character sequence.
pub open spec fn utf16_encode(s: Seq<char>) -> Seq<u16>
    decreases s.len(),
{
    if s.len() == 0 {
        seq![]
    } else {
        utf16_encode(s.drop_last()) + utf16_units(s.last())
    }
}

/// Converts text to a NUL-terminated UTF-16 buffer, the form every wide
/// (W-suffixed) Win32 call expects.
pub fn to_wide_null(s: &str) -> (r: Vec<u16>)
    ensures
        r@ == utf16_encode(s@).push(0u16),
{
    let n = s.unicode_len();
    let mut out: Vec<u16> = Vec::new();
    let mut i: usize = 0;
    while i < n
        invariant
            n == s@.len(),
            i <= n,
            out@ == utf16_encode(s@.subrange(0, i as int)),
        decreases n - i,
    {
        let c = s.get_char(i);
        let v = c as u32;
        if v < 0x10000 {
            out.push(v as u16);
        } else {
            let u = v - 0x10000;
            out.push((0xD800 + u / 0x400) as u16);
            out.push((0xDC00 + u % 0x400) as u16);
        }
        proof {
            assert(s@.subrange(0, i + 1).drop_last() =~= s@.subrange(0, i as int));
            assert(s@.subrange(0, i + 1).last() == c);
        }
        i = i + 1;
    }
    assert(s@.subrange(0, n as int) =~= s@);
    out.push(0u16);
    out
}

/// Whether the logical-drive bitmask has drive number `i` (0 is `A:`).
pub open spec fn has_drive(mask: u32, i: nat) -> bool {
    i < 26 && mask & (1u32 << (i as u32)) != 0u32
}

/// Root of drive number `i`, e.g. `C:\` for 2.
pub open spec fn drive_root(i: nat) -> Seq<char> {
    seq![(65 + i) as char, ':', '\\']
}

/// Roots of the drives in `mask` among numbers `from..26`, in order.
pub open spec fn drive_roots_from(mask: u32, from: nat) -> Seq<Seq<char>>
    decreases 26 - from,
{
    if from >= 26 {
        seq![]
    } else if has_drive(mask, from) {
        seq![drive_root(from)] + drive_roots_from(mask, from + 1)
    } else {
        drive_roots_from(mask, from + 1)
    }
}

fn drive_letter_root(i: u32) -> (r: String)
    requires
        i < 26,
    ensures
        r@ == drive_root(i as nat),
{
    let letters = "ABCDEFGHIJKLMNOPQRSTUVWXYZ";
    proof {
        reveal_strlit("ABCDEFGHIJKLMNOPQRSTUVWXYZ");
        reveal_strlit(":\\");
    }
    let mut r = String::from_str(letters.substring_char(i as usize, i as usize + 1));
    r.append(":\\");
    proof {
        assert(r@ =~= drive_root(i as nat)) by {
            assert(letters@[i as int] == (65 + i) as char);
        }
    }
    r
}

/// Roots (`A:\` to `Z:\`) of the drives present in a `GetLogicalDrives`
/// bitmask, where bit 0 is `A:`.
pub fn drive_roots(mask: u32) -> (r: Vec<String>)
    ensures
        r@.len() == drive_roots_from(mask, 0).len(),
        forall|k: int| 0 <= k < r@.len() ==> #[trigger] r@[k]@ == drive_roots_from(mask, 0)[k],
{
    let mut out: Vec<String> = Vec::new();
    let mut i: u32 = 26;
    while i > 0
        invariant
            i <= 26,
            out@.len() == drive_roots_from(mask, i as nat).len(),
            forall|k: int| 0 <= k < out@.len() ==> #[trigger] out@[k]@ == drive_roots_from(mask, i as nat)[k],
        decreases i,
    {
        i = i - 1;
        let present = mask & (1u32 << i) != 0u32;
        if present {
            let root = drive_letter_root(i);
            let mut next: Vec<String> = Vec::new();
            next.push(root);
            let ghost old_out = out@;
            next.append(&mut out);
            out = next;
            proof {
                let want = drive_roots_from(mask, i as nat);
                assert(want == seq![drive_root(i as nat)] + drive_roots_from(mask, (i + 1) as nat));
                assert forall|k: int| 0 <= k < out@.len() implies #[trigger] out@[k]@ == want[k] by {
                    if k > 0 {
                        assert(out@[k] == old_out[k - 1]);
                    }
                }
            }
        }
    }
    out
}

pub open spec fn removable_kind() -> Seq<char> {
    "Removable Drive"@
}

pub open spec fn local_kind() -> Seq<char> {
    "Local Disk"@
}

/// `s` without any trailing backslashes.
pub open spec fn trim_backslashes(s: Seq<char>) -> Seq<char>
    decreases s.len(),
{
    if s.len() > 0 && s.last() == '\\' {
        trim_backslashes(s.drop_last())
    } else {
        s
    }
}

/// Label shown for a drive, e.g. "Local Disk (C:)".
pub open spec fn drive_label(root: Seq<char>, is_removable: bool) -> Seq<char> {
    (if is_removable { removable_kind() } else { local_kind() }) + " ("@ + trim_backslashes(root) + ")"@
}

fn trimmed_backslashes(s: &str) -> (r: &str)
    ensures
        r@ == trim_backslashes(s@),
{
    let n = s.unicode_len();
    let mut end = n;
    assert(s@.subrange(0, n as int) =~= s@);
    while end > 0 && s.get_char(end - 1) == '\\'
        invariant
            n == s@.len(),
            end <= n,
            trim_backslashes(s@.subrange(0, end as int)) == trim_backslashes(s@),
        decreases end,
    {
        assert(s@.subrange(0, end as int).drop_last() =~= s@.subrange(0, end - 1));
        end = end - 1;
    }
    assert(trim_backslashes(s@.subrange(0, end as int)) == s@.subrange(0, end as int));
    s.substring_char(0, end)
}

/// The target description for a queried drive root, or `None` when the
/// drive is mounted but not ready (its free-space query failed) or reports
/// no capacity.
pub fn drive_info(root: &str, is_removable: bool, query_ok: bool, total_bytes: u64, free_bytes_available: u64) -> (r: Option<WipeTargetInfo>)
    ensures
        (!query_ok || total_bytes == 0) ==> r is None,
        (query_ok && total_bytes != 0) ==> (r matches Some(info) && info.label@ == drive_label(root@, is_removable)
            && info.root_path@ == root@ && info.total_bytes == total_bytes
            && info.free_bytes == free_bytes_available && info.is_removable == is_removable),
{
    if !query_ok || total_bytes == 0 {
        return None;
    }
    proof {
        reveal_strlit("Removable Drive");
        reveal_strlit("Local Disk");
    }
    let mut label = if is_removable {
        String::from_str("Removable Drive")
    } else {
        String::from_str("Local Disk")
    };
    label.append(" (");
    label.append(trimmed_backslashes(root));
    label.append(")");
    Some(WipeTargetInfo {
        label,
        root_path: String::from_str(root),
        total_bytes,
        free_bytes: free_bytes_available,
        is_removable,
    })
}

/// Index of the unit a byte count is shown in: the
/// largest of B, KB, MB, GB, TB not exceeding it (1 KB = 1024 B).
pub open spec fn unit_index(bytes: u64) -> usize {
    if bytes >= 0x100_0000_0000 {
        4
    } else if bytes >= 0x4000_0000 {
        3
    } else if bytes >= 0x10_0000 {
        2
    } else if bytes >= 0x400 {
        1
    } else {
        0
    }
}

/// The unit a byte count is displayed in (0 for B up to 4 for TB):
/// the count is divided by 1024 while it is at least 1024 and a larger
/// unit remains.
pub fn byte_unit_index(bytes: u64) -> (r: usize)
    ensures
        r == unit_index(bytes),
        r < 5,
{
    let mut value = bytes;
    let mut index: usize = 0;
    while value >= 1024 && index < 4
        invariant
            index <= 4,
            index == 0 ==> value == bytes,
            index == 1 ==> value == bytes / 0x400 && bytes >= 0x400,
            index == 2 ==> value == bytes / 0x10_0000 && bytes >= 0x10_0000,
            index == 3 ==> value == bytes / 0x4000_0000 && bytes >= 0x4000_0000,
            index == 4 ==> value == bytes / 0x100_0000_0000 && bytes >= 0x100_0000_0000,
        decreases 4 - index,
    {
        value = value / 1024;
        index = index + 1;
    }
    index
}

/// Name of the byte unit with index `i`.
pub open spec fn unit_name(i: usize) -> Seq<char> {
    if i == 0 {
        "B"@
    } else if i == 1 {
        "KB"@
    } else if i == 2 {
        "MB"@
    } else if i == 3 {
        "GB"@
    } else {
        "TB"@
    }
}

/// Bytes in one unit of index `i`.
pub open spec fn unit_bytes(i: usize) -> nat {
    if i == 0 {
        1
    } else if i == 1 {
        0x400
    } else if i == 2 {
        0x10_0000
    } else if i == 3 {
        0x4000_0000
    } else {
        0x100_0000_0000
    }
}

/// The text `format_bytes` shows for a byte count: `0 B` for nothing,
/// otherwise the double-precision value of the count in its unit with one
/// decimal, e.g. `1.5 GB`.
pub open spec fn bytes_text(bytes: u64) -> Seq<char> {
    if bytes == 0 {
        "0 B"@
    } else {
        let i = unit_index(bytes);
        one_decimal(f64_value(bytes as nat), unit_bytes(i)) + " "@ + unit_name(i)
    }
}

fn unit_name_str(i: usize) -> (r: &'static str)
    ensures
        r@ == unit_name(i),
{
    if i == 0 {
        "B"
    } else if i == 1 {
        "KB"
    } else if i == 2 {
        "MB"
    } else if i == 3 {
        "GB"
    } else {
        "TB"
    }
}

fn unit_bytes_of(i: usize) -> (r: u128)
    ensures
        r == unit_bytes(i),
{
    if i == 0 {
        1
    } else if i == 1 {
        0x400
    } else if i == 2 {
        0x10_0000
    } else if i == 3 {
        0x4000_0000
    } else {
        0x100_0000_0000
    }
}

/// Formats a byte count for display, e.g. `1.5 GB`.
pub fn format_bytes(bytes: u64) -> (r: String)
    ensures
        r@ == bytes_text(bytes),
{
    if bytes == 0 {
        return String::from_str("0 B");
    }
    let i = byte_unit_index(bytes);
    let mut out = String::new();
    push_one_decimal(&mut out, f64_value_of(bytes), unit_bytes_of(i));
    out.append(" ");
    out.append(unit_name_str(i));
    out
}

} // verus!
