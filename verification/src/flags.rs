//! The persistent boot-flags store: a magic-stamped record at one of two
//! candidate flash addresses, read at boot and rewritten after each manifest.
//!
//! The record is five 32-bit little-endian words in declaration order; a
//! boolean occupies a whole word, 0 or 1. A record is valid iff its first
//! word equals `BL_MAGIC`. Reads try the primary address first, the fallback
//! second. Writes erase the primary page and fall back to the low page when
//! the status bits show the primary page is not physically present, which is
//! how one binary serves both 64 KiB and 128 KiB parts.

use vstd::prelude::*;

use crate::config::{BL_FLAGS_HIGH, BL_FLAGS_LOW, BL_MAGIC};
use crate::flash::{fault_count, spec_erase_page, spec_write_word, FlashMem, FlashView};

verus! {

/// The persistent metadata record describing the installed user image.
#[derive(Clone, Copy, PartialEq, Eq, Structural, Debug)]
pub struct BlFlags {
    pub magic: u32,
    pub flash_count: u32,
    pub user_code_legit: bool,
    pub user_code_present: bool,
    pub user_code_length: u32,
}

/// Word a boolean serializes to.
pub open spec fn bool_word(b: bool) -> u32 {
    if b {
        1
    } else {
        0
    }
}

/// The five words of the serialized record, in declaration order.
pub open spec fn spec_flag_words(b: BlFlags) -> Seq<u32> {
    seq![
        b.magic,
        b.flash_count,
        bool_word(b.user_code_legit),
        bool_word(b.user_code_present),
        b.user_code_length,
    ]
}

/// The record decoded from the five words at `addr`.
pub open spec fn spec_decode_flags(f: FlashView, addr: int) -> BlFlags {
    BlFlags {
        magic: f.word_at(addr),
        flash_count: f.word_at(addr + 4),
        user_code_legit: f.word_at(addr + 8) != 0,
        user_code_present: f.word_at(addr + 12) != 0,
        user_code_length: f.word_at(addr + 16),
    }
}

/// What a read of the store returns: the record at the primary address when
/// its magic matches, else the one at the fallback, else nothing.
pub open spec fn spec_read_bl_flags(f: FlashView) -> Option<BlFlags> {
    if f.word_at(BL_FLAGS_HIGH as int) == BL_MAGIC {
        Some(spec_decode_flags(f, BL_FLAGS_HIGH as int))
    } else if f.word_at(BL_FLAGS_LOW as int) == BL_MAGIC {
        Some(spec_decode_flags(f, BL_FLAGS_LOW as int))
    } else {
        None
    }
}

/// State after the five record words are programmed at `addr`, word by word
/// at increasing offsets; individual failures are not propagated.
pub open spec fn spec_program_record(f: FlashView, addr: int, ws: Seq<u32>) -> FlashView {
    let f0 = spec_write_word(f, addr, ws[0]).0;
    let f1 = spec_write_word(f0, addr + 4, ws[1]).0;
    let f2 = spec_write_word(f1, addr + 8, ws[2]).0;
    let f3 = spec_write_word(f2, addr + 12, ws[3]).0;
    spec_write_word(f3, addr + 16, ws[4]).0
}

/// State after a write of the store: the primary page is erased; when the
/// status bits then show a write-protect error, a programming error, or a
/// missing end-of-operation, the part lacks the primary page and the record
/// goes to the fallback page instead.
pub open spec fn spec_write_bl_flags(f: FlashView, b: BlFlags) -> FlashView {
    let e = spec_erase_page(f, BL_FLAGS_HIGH as int);
    if e.wrprterr || e.pgerr || !e.eop {
        spec_program_record(
            spec_erase_page(e, BL_FLAGS_LOW as int),
            BL_FLAGS_LOW as int,
            spec_flag_words(b),
        )
    } else {
        spec_program_record(e, BL_FLAGS_HIGH as int, spec_flag_words(b))
    }
}

impl BlFlags {
    /// The serialized record: five 32-bit words in declaration order.
    pub fn to_words(&self) -> (r: Vec<u32>)
        ensures
            r@ == spec_flag_words(*self),
    {
        let r: Vec<u32> = vec![
            self.magic,
            self.flash_count,
            if self.user_code_legit {
                1
            } else {
                0
            },
            if self.user_code_present {
                1
            } else {
                0
            },
            self.user_code_length,
        ];
        proof {
            assert(r@ =~= spec_flag_words(*self));
        }
        r
    }
}

/// The record decoded from the five words at `addr`.
fn read_flags_at(f: &FlashMem, addr: u32) -> (r: BlFlags)
    requires
        f@.wf(),
        f@.in_store(addr as int + 16),
        addr as int >= crate::config::FLASH_BASE,
        addr % 4 == 0,
    ensures
        r == spec_decode_flags(f@, addr as int),
{
    BlFlags {
        magic: f.read_word(addr),
        flash_count: f.read_word(addr + 4),
        user_code_legit: f.read_word(addr + 8) != 0,
        user_code_present: f.read_word(addr + 12) != 0,
        user_code_length: f.read_word(addr + 16),
    }
}

/// Read the boot-flags record: the primary address first, the fallback
/// second, the first valid record winning; absent when neither magic
/// matches.
pub fn read_bl_flags(f: &FlashMem) -> (r: Option<BlFlags>)
    requires
        f@.wf(),
    ensures
        r == spec_read_bl_flags(f@),
{
    if f.read_word(BL_FLAGS_HIGH) == BL_MAGIC {
        Some(read_flags_at(f, BL_FLAGS_HIGH))
    } else if f.read_word(BL_FLAGS_LOW) == BL_MAGIC {
        Some(read_flags_at(f, BL_FLAGS_LOW))
    } else {
        None
    }
}

/// Program the serialized record at `addr`, word by word; a failed word is
/// left behind, as the record is best-effort.
fn write_record(f: &mut FlashMem, addr: u32, b: &BlFlags)
    requires
        old(f)@.wf(),
        old(f)@.in_store(addr as int + 16),
        addr as int >= crate::config::FLASH_BASE,
        addr % 4 == 0,
    ensures
        final(f)@ == spec_program_record(old(f)@, addr as int, spec_flag_words(*b)),
        final(f)@.wf(),
{
    let ws = b.to_words();
    let _ = f.write_word(addr, ws[0]);
    let _ = f.write_word(addr + 4, ws[1]);
    let _ = f.write_word(addr + 8, ws[2]);
    let _ = f.write_word(addr + 12, ws[3]);
    let _ = f.write_word(addr + 16, ws[4]);
}

/// Write the boot-flags record: erase the primary page; when the status bits
/// show the primary page is not physically present, erase the fallback page
/// and program the record there, else program it at the primary address.
pub fn write_bl_flags(f: &mut FlashMem, b: &BlFlags)
    requires
        old(f)@.wf(),
    ensures
        final(f)@ == spec_write_bl_flags(old(f)@, *b),
        final(f)@.wf(),
{
    f.erase_page(BL_FLAGS_HIGH);
    if f.wrprterr || f.pgerr || !f.eop {
        f.erase_page(BL_FLAGS_LOW);
        write_record(f, BL_FLAGS_LOW, b);
    } else {
        write_record(f, BL_FLAGS_HIGH, b);
    }
}

/// Address the record lands at: the primary page on parts of at least
/// 128 KiB, the fallback page on smaller parts.
pub open spec fn flags_target(f: FlashView) -> int {
    if f.size_kib >= 128 {
        BL_FLAGS_HIGH as int
    } else {
        BL_FLAGS_LOW as int
    }
}

/// No scripted disturbance is pending on any of the five words at `addr`.
pub open spec fn record_fault_free(f: FlashView, addr: int) -> bool {
    &&& fault_count(f.faults, addr) == 0
    &&& fault_count(f.faults, addr + 4) == 0
    &&& fault_count(f.faults, addr + 8) == 0
    &&& fault_count(f.faults, addr + 12) == 0
    &&& fault_count(f.faults, addr + 16) == 0
}

/// Round trip of the store: on an unlocked part of at least 64 KiB whose
/// record words are free of scripted disturbances, writing a record with a
/// valid magic and then reading gives back a structurally equal record —
/// whether the record lands at the primary or at the fallback address.
pub proof fn lemma_bl_flags_round_trip(f: FlashView, b: BlFlags)
    requires
        f.wf(),
        !f.locked,
        64 <= f.size_kib,
        b.magic == BL_MAGIC,
        record_fault_free(f, flags_target(f)),
        f.size_kib < 128 ==> f.word_at(BL_FLAGS_HIGH as int) != BL_MAGIC,
    ensures
        spec_read_bl_flags(spec_write_bl_flags(f, b)) == Some(b),
{
}

/// Fall-back placement: on an unlocked part too small to hold the primary
/// page, the write lands the record at the fallback address, leaves the
/// primary word untouched, and a read finds the record there.
pub proof fn lemma_bl_flags_fallback(f: FlashView, b: BlFlags)
    requires
        f.wf(),
        !f.locked,
        64 <= f.size_kib < 128,
        b.magic == BL_MAGIC,
        record_fault_free(f, BL_FLAGS_LOW as int),
        f.word_at(BL_FLAGS_HIGH as int) != BL_MAGIC,
    ensures
        spec_decode_flags(spec_write_bl_flags(f, b), BL_FLAGS_LOW as int) == b,
        spec_write_bl_flags(f, b).word_at(BL_FLAGS_HIGH as int) == f.word_at(
            BL_FLAGS_HIGH as int,
        ),
        spec_read_bl_flags(spec_write_bl_flags(f, b)) == Some(b),
{
}

/// Without a valid magic at either candidate address, a read returns absent.
pub proof fn lemma_bl_flags_absent(f: FlashView)
    requires
        f.word_at(BL_FLAGS_HIGH as int) != BL_MAGIC,
        f.word_at(BL_FLAGS_LOW as int) != BL_MAGIC,
    ensures
        spec_read_bl_flags(f) is None,
{
}

} // verus!
