//! Recognising, sizing and tallying the dummy files a run leaves behind.
//!
//! The directory listing and the deletions themselves are file-system work
//! done by the caller; this module decides which listed entries are dummy
//! files, how many bytes they hold, and how a purge went.

use crate::engine::config::WipeConfig;
use crate::util::text::{decimal, push_decimal};
use vstd::prelude::*;

verus! {

#[derive(Debug, Clone, Copy, Default, PartialEq, Eq, Structural)]
pub struct CleanupResult {
    pub files_deleted: u32,
    pub files_failed_to_delete: u32,
}

pub open spec fn dummy_prefix() -> Seq<char> {
    WipeConfig::DUMMY_FILE_PREFIX@
}

pub open spec fn dummy_suffix() -> Seq<char> {
    WipeConfig::DUMMY_FILE_SUFFIX@
}

/// A file name is a dummy file's name when it starts with the dummy prefix
/// and ends with the dummy suffix.
pub open spec fn is_dummy_name(name: Seq<char>) -> bool {
    &&& name.len() >= dummy_prefix().len()
    &&& name.subrange(0, dummy_prefix().len() as int) == dummy_prefix()
    &&& name.len() >= dummy_suffix().len()
    &&& name.subrange(name.len() - dummy_suffix().len(), name.len() as int) == dummy_suffix()
}

/// Name of the dummy file with sequence number `index`, created at
/// `millis` milliseconds since the Unix epoch.
pub open spec fn dummy_name(index: nat, millis: nat) -> Seq<char> {
    dummy_prefix() + decimal(index) + seq!['_'] + decimal(millis) + dummy_suffix()
}

/// Whether `s` starts with `prefix`, compared character by character.
fn has_prefix(s: &str, prefix: &str) -> (b: bool)
    ensures
        b == (s@.len() >= prefix@.len() && s@.subrange(0, prefix@.len() as int) == prefix@),
{
    let n = s.unicode_len();
    let m = prefix.unicode_len();
    if n < m {
        return false;
    }
    let mut i: usize = 0;
    while i < m
        invariant
            n == s@.len(),
            m == prefix@.len(),
            m <= n,
            i <= m,
            forall|k: int| 0 <= k < i ==> s@[k] == prefix@[k],
        decreases m - i,
    {
        if s.get_char(i) != prefix.get_char(i) {
            assert(s@.subrange(0, m as int)[i as int] != prefix@[i as int]);
            return false;
        }
        i = i + 1;
    }
    assert(s@.subrange(0, m as int) =~= prefix@);
    true
}

/// Whether `s` ends with `suffix`, compared character by character.
fn has_suffix(s: &str, suffix: &str) -> (b: bool)
    ensures
        b == (s@.len() >= suffix@.len() && s@.subrange(s@.len() - suffix@.len(), s@.len() as int)
            == suffix@),
{
    let n = s.unicode_len();
    let m = suffix.unicode_len();
    if n < m {
        return false;
    }
    let start = n - m;
    let mut i: usize = 0;
    while i < m
        invariant
            n == s@.len(),
            m == suffix@.len(),
            start == n - m,
            i <= m,
            forall|k: int| 0 <= k < i ==> s@[start + k] == suffix@[k],
        decreases m - i,
    {
        if s.get_char(start + i) != suffix.get_char(i) {
            assert(s@.subrange(start as int, n as int)[i as int] != suffix@[i as int]);
            return false;
        }
        i = i + 1;
    }
    assert(s@.subrange(start as int, n as int) =~= suffix@);
    true
}

/// Whether `name` is the name of a dummy file this app writes.
pub fn is_dummy_file_name(name: &str) -> (b: bool)
    ensures
        b == is_dummy_name(name@),
{
    has_prefix(name, WipeConfig::DUMMY_FILE_PREFIX) && has_suffix(name, WipeConfig::DUMMY_FILE_SUFFIX)
}

/// The name of the dummy file with sequence number `index`, created at
/// `millis` milliseconds since the Unix epoch.
pub fn dummy_file_name(index: u32, millis: u128) -> (r: String)
    ensures
        r@ == dummy_name(index as nat, millis as nat),
{
    proof {
        reveal_strlit("_");
    }
    let mut name = String::from_str(WipeConfig::DUMMY_FILE_PREFIX);
    push_decimal(&mut name, index as u128);
    name.append("_");
    push_decimal(&mut name, millis);
    name.append(WipeConfig::DUMMY_FILE_SUFFIX);
    name
}

/// One entry of a non-recursive directory listing: its name when that
/// name is valid Unicode, whether it is a regular file, and its length in
/// bytes when its metadata could be read.
#[derive(Debug, Clone)]
pub struct DummyScanEntry {
    pub name: Option<String>,
    pub is_file: bool,
    pub len: Option<u64>,
}

pub open spec fn is_listed(e: DummyScanEntry) -> bool {
    e.is_file && (e.name matches Some(n) && is_dummy_name(n@))
}

/// Whether a directory entry is one of this app's dummy files.
pub fn is_listed_dummy_file(entry: &DummyScanEntry) -> (b: bool)
    ensures
        b == is_listed(*entry),
{
    if !entry.is_file {
        return false;
    }
    match &entry.name {
        Some(n) => is_dummy_file_name(n.as_str()),
        None => false,
    }
}

/// Positions of the dummy files among `entries`, in listing order.
pub open spec fn dummy_positions(entries: Seq<DummyScanEntry>) -> Seq<usize>
    decreases entries.len(),
{
    if entries.len() == 0 {
        seq![]
    } else {
        let rest = dummy_positions(entries.drop_last());
        if is_listed(entries.last()) {
            rest.push((entries.len() - 1) as usize)
        } else {
            rest
        }
    }
}

/// Picks this app's dummy files out of a directory listing: their
/// positions in `entries`, in listing order.
pub fn list_dummy_files(entries: &Vec<DummyScanEntry>) -> (r: Vec<usize>)
    ensures
        r@ == dummy_positions(entries@),
{
    let mut out: Vec<usize> = Vec::new();
    let mut i: usize = 0;
    while i < entries.len()
        invariant
            i <= entries@.len(),
            out@ == dummy_positions(entries@.subrange(0, i as int)),
        decreases entries@.len() - i,
    {
        proof {
            let next = entries@.subrange(0, i + 1);
            assert(next.drop_last() =~= entries@.subrange(0, i as int));
            assert(next.last() == entries@[i as int]);
        }
        if is_listed_dummy_file(&entries[i]) {
            out.push(i);
        }
        i = i + 1;
    }
    assert(entries@.subrange(0, entries@.len() as int) =~= entries@);
    out
}

/// Bytes held by the dummy files among `entries`; entries whose length
/// could not be read count as nothing.
pub open spec fn dummy_bytes(entries: Seq<DummyScanEntry>) -> nat
    decreases entries.len(),
{
    if entries.len() == 0 {
        0
    } else {
        let e = entries.last();
        let here: nat = if is_listed(e) && e.len is Some { e.len->0 as nat } else { 0 };
        dummy_bytes(entries.drop_last()) + here
    }
}

proof fn lemma_dummy_bytes_monotone(entries: Seq<DummyScanEntry>, i: int)
    requires
        0 <= i <= entries.len(),
    ensures
        dummy_bytes(entries.subrange(0, i)) <= dummy_bytes(entries),
    decreases entries.len() - i,
{
    if i < entries.len() {
        lemma_dummy_bytes_monotone(entries, i + 1);
        assert(entries.subrange(0, i + 1).drop_last() =~= entries.subrange(0, i));
    } else {
        assert(entries.subrange(0, i) =~= entries);
    }
}

/// The bytes of dummy files add up over listings: the bytes of two
/// listings put together are the bytes of each added, and a listing of a
/// single entry holds that entry's length when it is a dummy file whose
/// length was read, and nothing otherwise.
pub proof fn lemma_dummy_bytes_add_up(a: Seq<DummyScanEntry>, b: Seq<DummyScanEntry>, e: DummyScanEntry)
    ensures
        dummy_bytes(a + b) == dummy_bytes(a) + dummy_bytes(b),
        dummy_bytes(seq![e]) == if is_listed(e) && e.len is Some {
            e.len->0 as nat
        } else {
            0
        },
    decreases b.len(),
{
    let one = seq![e];
    assert(one.drop_last() =~= Seq::<DummyScanEntry>::empty());
    assert(one.last() == e);
    assert(dummy_bytes(Seq::<DummyScanEntry>::empty()) == 0);
    assert(dummy_bytes(one) == dummy_bytes(one.drop_last()) + if is_listed(e) && e.len is Some {
        e.len->0 as nat
    } else {
        0
    });
    if b.len() == 0 {
        assert(a + b =~= a);
    } else {
        lemma_dummy_bytes_add_up(a, b.drop_last(), e);
        assert((a + b).drop_last() =~= a + b.drop_last());
        assert((a + b).last() == b.last());
    }
}

/// Sum of bytes sitting in existing dummy files in a scanned directory, so
/// a run resumed after a restart keeps topping up towards the same target.
pub fn sum_existing_dummy_file_bytes(entries: &Vec<DummyScanEntry>) -> (r: u64)
    requires
        dummy_bytes(entries@) <= u64::MAX,
    ensures
        r == dummy_bytes(entries@),
{
    let mut sum: u64 = 0;
    let mut i: usize = 0;
    while i < entries.len()
        invariant
            i <= entries@.len(),
            sum == dummy_bytes(entries@.subrange(0, i as int)),
            dummy_bytes(entries@) <= u64::MAX,
        decreases entries@.len() - i,
    {
        proof {
            lemma_dummy_bytes_monotone(entries@, i + 1);
            assert(entries@.subrange(0, i + 1).drop_last() =~= entries@.subrange(0, i as int));
        }
        let e = &entries[i];
        if is_listed_dummy_file(e) {
            match e.len {
                Some(l) => {
                    sum = sum + l;
                },
                None => {},
            }
        }
        i = i + 1;
    }
    assert(entries@.subrange(0, entries@.len() as int) =~= entries@);
    sum
}

pub open spec fn count_outcomes(removals: Seq<bool>, deleted: bool) -> nat
    decreases removals.len(),
{
    if removals.len() == 0 {
        0
    } else {
        count_outcomes(removals.drop_last(), deleted) + if removals.last() == deleted { 1nat } else { 0nat }
    }
}

proof fn lemma_count_bounded(removals: Seq<bool>, deleted: bool)
    ensures
        count_outcomes(removals, deleted) <= removals.len(),
    decreases removals.len(),
{
    if removals.len() > 0 {
        lemma_count_bounded(removals.drop_last(), deleted);
    }
}

impl CleanupResult {
    /// Tallies the outcome of deleting each dummy file in turn: `true` for
    /// a deletion that succeeded, `false` for one that failed.
    pub fn tally(removals: &Vec<bool>) -> (r: CleanupResult)
        requires
            removals@.len() <= u32::MAX,
        ensures
            r.files_deleted == count_outcomes(removals@, true),
            r.files_failed_to_delete == count_outcomes(removals@, false),
    {
        let mut result = CleanupResult { files_deleted: 0, files_failed_to_delete: 0 };
        let mut i: usize = 0;
        while i < removals.len()
            invariant
                i <= removals@.len(),
                removals@.len() <= u32::MAX,
                result.files_deleted == count_outcomes(removals@.subrange(0, i as int), true),
                result.files_failed_to_delete == count_outcomes(removals@.subrange(0, i as int), false),
            decreases removals@.len() - i,
        {
            proof {
                let pre = removals@.subrange(0, i as int);
                assert(removals@.subrange(0, i + 1).drop_last() =~= pre);
                lemma_count_bounded(pre, true);
                lemma_count_bounded(pre, false);
            }
            if removals[i] {
                result.files_deleted = result.files_deleted + 1;
            } else {
                result.files_failed_to_delete = result.files_failed_to_delete + 1;
            }
            i = i + 1;
        }
        assert(removals@.subrange(0, removals@.len() as int) =~= removals@);
        result
    }
}

/// Every dummy file the engine names is recognised as a dummy file by the
/// cleaner, so a purge finds everything a run wrote.
pub proof fn lemma_created_names_are_recognised(index: nat, millis: nat)
    ensures
        is_dummy_name(dummy_name(index, millis)),
{
    reveal_strlit("yfp_dummy_");
    reveal_strlit(".bin");
    let n = dummy_name(index, millis);
    let middle = decimal(index) + seq!['_'] + decimal(millis);
    assert(n =~= dummy_prefix() + middle + dummy_suffix());
    assert(n.subrange(0, dummy_prefix().len() as int) =~= dummy_prefix());
    assert(n.subrange(n.len() - dummy_suffix().len(), n.len() as int) =~= dummy_suffix());
}

} // verus!
