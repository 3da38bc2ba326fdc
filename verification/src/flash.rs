//! Model of the on-chip flash controller, and the programming engine over it.
//!
//! The controller is modeled as a value: the word array, the size descriptor,
//! the lock bit, the three status bits the bootloader reads, and a script of
//! programming disturbances that lets a harness exercise the verify-and-retry
//! path. The engine — page erase, word programming with up to three verified
//! attempts, unlock and lock — is ordinary verified code over this model; the
//! machine-specific register accesses live outside the library and mirror it.

use vstd::prelude::*;

use crate::config::{ERASED_WORD, FLASH_BASE};

verus! {

/// One scripted disturbance of the programming circuit: the next `count`
/// programming attempts at `addr` each leave a word that does not read back
/// as what was written.
#[derive(Clone, Copy, PartialEq, Eq, Structural, Debug)]
pub struct FaultEntry {
    pub addr: u32,
    pub count: u32,
}

/// Mathematical state of the flash controller.
#[verifier::ext_equal]
pub ghost struct FlashView {
    /// One entry per 32-bit word, from `FLASH_BASE` upward.
    pub words: Seq<u32>,
    /// Flash size in KiB, as the read-only size descriptor register reports it.
    pub size_kib: u16,
    /// Lock bit of the control register.
    pub locked: bool,
    /// Programming-error status bit.
    pub pgerr: bool,
    /// Write-protect-error status bit.
    pub wrprterr: bool,
    /// End-of-operation status bit.
    pub eop: bool,
    /// Scripted programming disturbances still pending.
    pub faults: Seq<FaultEntry>,
}

/// The flash controller: addressable words, size descriptor, lock and status
/// bits, and the pending disturbance script.
pub struct FlashMem {
    pub words: Vec<u32>,
    pub size_kib: u16,
    pub locked: bool,
    pub pgerr: bool,
    pub wrprterr: bool,
    pub eop: bool,
    pub faults: Vec<FaultEntry>,
}

impl View for FlashMem {
    type V = FlashView;

    open spec fn view(&self) -> FlashView {
        FlashView {
            words: self.words@,
            size_kib: self.size_kib,
            locked: self.locked,
            pgerr: self.pgerr,
            wrprterr: self.wrprterr,
            eop: self.eop,
            faults: self.faults@,
        }
    }
}

/// Page size in bytes decided by the size descriptor: 2048 B above 128 KiB,
/// 1024 B otherwise.
pub open spec fn spec_page_size(size_kib: u16) -> u16 {
    if size_kib > 128 {
        0x800
    } else {
        0x400
    }
}

/// Index into `words` of the word holding address `addr`.
pub open spec fn word_index(addr: int) -> int {
    (addr - FLASH_BASE) / 4
}

/// Pending disturbance count at `addr`: the sum over the script.
pub open spec fn fault_count(faults: Seq<FaultEntry>, addr: int) -> nat
    decreases faults.len(),
{
    if faults.len() == 0 {
        0
    } else {
        (if faults[0].addr == addr && faults[0].count > 0 {
            faults[0].count as nat
        } else {
            0
        }) + fault_count(faults.drop_first(), addr)
    }
}

/// The script after one disturbance at `addr` fires: the first entry at
/// `addr` with a positive count is decremented.
pub open spec fn spec_consume_fault(faults: Seq<FaultEntry>, addr: int) -> Seq<FaultEntry>
    decreases faults.len(),
{
    if faults.len() == 0 {
        faults
    } else if faults[0].addr == addr && faults[0].count > 0 {
        faults.update(0, FaultEntry { addr: faults[0].addr, count: (faults[0].count - 1) as u32 })
    } else {
        seq![faults[0]] + spec_consume_fault(faults.drop_first(), addr)
    }
}

/// A value that never reads back as `data`: what a disturbed programming
/// attempt leaves in the word. Any value other than `data` would serve.
pub open spec fn spec_disturbed(data: u32) -> u32 {
    if data == 0 {
        1
    } else {
        0
    }
}

impl FlashView {
    /// Number of words the model addresses: all of a part of up to 128 KiB
    /// (the boot-flags candidates always lie below 128 KiB), or the whole
    /// part when it is larger.
    pub open spec fn store_words(self) -> int {
        if self.size_kib <= 128 {
            0x8000
        } else {
            self.size_kib as int * 0x100
        }
    }

    /// One past the last address the model holds a word for.
    pub open spec fn store_end(self) -> int {
        FLASH_BASE + self.store_words() * 4
    }

    /// One past the last address of flash physically present on the part.
    pub open spec fn device_end(self) -> int {
        FLASH_BASE + self.size_kib as int * 1024
    }

    /// Well-formed: the word array covers exactly the modeled range.
    pub open spec fn wf(self) -> bool {
        self.words.len() == self.store_words()
    }

    /// `addr` lies in flash physically present on the part.
    pub open spec fn in_device(self, addr: int) -> bool {
        FLASH_BASE <= addr < self.device_end()
    }

    /// `addr` lies in the range the model holds words for.
    pub open spec fn in_store(self, addr: int) -> bool {
        FLASH_BASE <= addr < self.store_end()
    }

    /// Word stored at address `addr`.
    pub open spec fn word_at(self, addr: int) -> u32 {
        self.words[word_index(addr)]
    }

    /// Page size in bytes of this part.
    pub open spec fn page_size(self) -> u16 {
        spec_page_size(self.size_kib)
    }

    /// First address of the page holding `addr`.
    pub open spec fn page_base(self, addr: int) -> int {
        addr - addr % (self.page_size() as int)
    }

    /// A programming attempt at `addr` reaches the array: the controller is
    /// unlocked and the address is backed by real flash.
    pub open spec fn programmable(self, addr: int) -> bool {
        !self.locked && self.in_device(addr)
    }
}

/// State after one programming attempt of `data` at `addr`: no effect while
/// locked or outside the part; a disturbed word while the script holds a
/// pending disturbance at `addr`; the written word otherwise.
pub open spec fn spec_program_attempt(f: FlashView, addr: int, data: u32) -> FlashView {
    if !f.programmable(addr) {
        f
    } else if fault_count(f.faults, addr) > 0 {
        FlashView {
            words: f.words.update(word_index(addr), spec_disturbed(data)),
            faults: spec_consume_fault(f.faults, addr),
            ..f
        }
    } else {
        FlashView { words: f.words.update(word_index(addr), data), ..f }
    }
}

/// State and outcome of programming one word: up to three attempts, each
/// followed by a read-back; success as soon as the word reads back as `data`.
pub open spec fn spec_write_word(f: FlashView, addr: int, data: u32) -> (FlashView, bool) {
    let f1 = spec_program_attempt(f, addr, data);
    if f1.word_at(addr) == data {
        (f1, true)
    } else {
        let f2 = spec_program_attempt(f1, addr, data);
        if f2.word_at(addr) == data {
            (f2, true)
        } else {
            let f3 = spec_program_attempt(f2, addr, data);
            (f3, f3.word_at(addr) == data)
        }
    }
}

/// State after a page erase at `addr`: while locked, only a write-protect
/// error; at an address without real flash behind it, only a programming
/// error with end-of-operation clear; otherwise every word of the page
/// holding `addr` reads erased and end-of-operation is set.
pub open spec fn spec_erase_page(f: FlashView, addr: int) -> FlashView {
    if f.locked {
        FlashView { wrprterr: true, eop: false, ..f }
    } else if !f.in_device(addr) {
        FlashView { pgerr: true, wrprterr: false, eop: false, ..f }
    } else {
        FlashView {
            words: spec_erased_page(f, addr),
            pgerr: false,
            wrprterr: false,
            eop: true,
            ..f
        }
    }
}

/// The word array with the page holding `addr` erased.
pub open spec fn spec_erased_page(f: FlashView, addr: int) -> Seq<u32> {
    Seq::new(
        f.words.len(),
        |i: int|
            if word_index(f.page_base(addr)) <= i
                < word_index(f.page_base(addr)) + f.page_size() as int / 4 {
                ERASED_WORD
            } else {
                f.words[i]
            },
    )
}

impl FlashMem {
    /// A controller for a part of `size_kib` KiB, fully erased, locked, with
    /// clear status bits and no scripted disturbances.
    pub fn new(size_kib: u16) -> (r: FlashMem)
        ensures
            r@.wf(),
            r@.size_kib == size_kib,
            r@.locked,
            !r@.pgerr,
            !r@.wrprterr,
            !r@.eop,
            r@.faults.len() == 0,
            forall|i: int| 0 <= i < r@.words.len() ==> r@.words[i] == ERASED_WORD,
    {
        let count: usize = if size_kib <= 128 {
            0x8000
        } else {
            size_kib as usize * 0x100
        };
        let mut words: Vec<u32> = Vec::new();
        let mut i: usize = 0;
        while i < count
            invariant
                i <= count,
                words@.len() == i,
                forall|j: int| 0 <= j < i ==> words@[j] == ERASED_WORD,
            decreases count - i,
        {
            words.push(ERASED_WORD);
            i = i + 1;
        }
        FlashMem {
            words,
            size_kib,
            locked: true,
            pgerr: false,
            wrprterr: false,
            eop: false,
            faults: Vec::new(),
        }
    }

    /// Append one scripted programming disturbance; a harness uses this to
    /// exercise the verify-and-retry path.
    pub fn inject_fault(&mut self, addr: u32, count: u32)
        ensures
            (final(self)@ == FlashView {
                faults: old(self)@.faults.push(FaultEntry { addr, count }),
                ..old(self)@
            }),
    {
        self.faults.push(FaultEntry { addr, count });
    }

    /// Overwrite one stored word directly, bypassing the programming engine;
    /// a harness uses this to lay down pre-existing flash content.
    pub fn preload_word(&mut self, addr: u32, data: u32)
        requires
            old(self)@.wf(),
            old(self)@.in_store(addr as int),
            addr % 4 == 0,
        ensures
            (final(self)@ == FlashView {
                words: old(self)@.words.update(word_index(addr as int), data),
                ..old(self)@
            }),
    {
        let i: usize = ((addr - FLASH_BASE) / 4) as usize;
        self.words.set(i, data);
    }

    /// Page size in bytes, decided from the size descriptor: 2048 B above
    /// 128 KiB, 1024 B otherwise.
    pub fn get_flash_pg_size(&self) -> (r: u16)
        ensures
            r == spec_page_size(self@.size_kib),
    {
        if self.size_kib > 128 {
            0x800
        } else {
            0x400
        }
    }

    /// Write the two-word key sequence to the unlock register, leaving the
    /// controller ready for program and erase.
    pub fn unlock_flash(&mut self)
        ensures
            (final(self)@ == FlashView { locked: false, ..old(self)@ }),
    {
        self.locked = false;
    }

    /// Set the lock bit in the control register. Idempotent.
    pub fn lock_flash(&mut self)
        ensures
            (final(self)@ == FlashView { locked: true, ..old(self)@ }),
    {
        self.locked = true;
    }

    /// Read one 32-bit word.
    pub fn read_word(&self, addr: u32) -> (r: u32)
        requires
            self@.wf(),
            self@.in_store(addr as int),
            addr % 4 == 0,
        ensures
            r == self@.word_at(addr as int),
    {
        let i: usize = ((addr - FLASH_BASE) / 4) as usize;
        self.words[i]
    }

    /// One programming attempt of `data` at `addr`, as the half-word writes
    /// and busy-waits of the real controller leave it: no effect while locked
    /// or outside the part, a disturbed word while the script holds a pending
    /// disturbance at `addr`, the written word otherwise.
    fn program_attempt(&mut self, addr: u32, data: u32)
        requires
            old(self)@.wf(),
            old(self)@.in_store(addr as int),
            addr % 4 == 0,
        ensures
            final(self)@ == spec_program_attempt(old(self)@, addr as int, data),
            final(self)@.wf(),
    {
        if self.locked {
            return ;
        }
        let limit: u32 = FLASH_BASE + self.size_kib as u32 * 1024;
        if addr >= limit {
            return ;
        }
        let i: usize = ((addr - FLASH_BASE) / 4) as usize;
        let mut k: usize = 0;
        let n: usize = self.faults.len();
        while k < n
            invariant
                self@ == old(self)@,
                self@.wf(),
                old(self)@.in_store(addr as int),
                addr % 4 == 0,
                !self.locked,
                old(self)@.in_device(addr as int),
                i as int == word_index(addr as int),
                i < self.words@.len(),
                n == self.faults.len(),
                k <= n,
                forall|j: int|
                    0 <= j < k ==> !(self.faults@[j].addr == addr && self.faults@[j].count > 0),
            decreases n - k,
        {
            let e = self.faults[k];
            if e.addr == addr && e.count > 0 {
                self.faults.set(k, FaultEntry { addr: e.addr, count: e.count - 1 });
                self.words.set(i, if data == 0 { 1 } else { 0 });
                proof {
                    lemma_consume_fault_at(old(self)@.faults, addr as int, k as int);
                    lemma_fault_count_positive_at(old(self)@.faults, addr as int, k as int);
                    assert(final(self)@ =~= spec_program_attempt(old(self)@, addr as int, data));
                }
                return ;
            }
            k = k + 1;
        }
        self.words.set(i, data);
        proof {
            lemma_consume_fault_no_match(old(self)@.faults, addr as int);
            assert(final(self)@ =~= spec_program_attempt(old(self)@, addr as int, data));
        }
    }

    /// Program one 32-bit word: an attempt followed by a read-back, retried
    /// up to three times in all; `Err` when the word never read back as
    /// `data`.
    pub fn write_word(&mut self, addr: u32, data: u32) -> (r: Result<(), ()>)
        requires
            old(self)@.wf(),
            old(self)@.in_store(addr as int),
            addr % 4 == 0,
        ensures
            final(self)@ == spec_write_word(old(self)@, addr as int, data).0,
            r is Ok <==> spec_write_word(old(self)@, addr as int, data).1,
            final(self)@.wf(),
    {
        self.program_attempt(addr, data);
        if self.read_word(addr) == data {
            return Ok(());
        }
        self.program_attempt(addr, data);
        if self.read_word(addr) == data {
            return Ok(());
        }
        self.program_attempt(addr, data);
        if self.read_word(addr) == data {
            Ok(())
        } else {
            Err(())
        }
    }

    /// Erase the page holding `addr`. No error is returned; callers that
    /// care inspect the status bits afterward.
    pub fn erase_page(&mut self, addr: u32)
        requires
            old(self)@.wf(),
        ensures
            final(self)@ == spec_erase_page(old(self)@, addr as int),
            final(self)@.wf(),
    {
        if self.locked {
            self.wrprterr = true;
            self.eop = false;
            return ;
        }
        let limit: u32 = FLASH_BASE + self.size_kib as u32 * 1024;
        if addr < FLASH_BASE || addr >= limit {
            self.pgerr = true;
            self.wrprterr = false;
            self.eop = false;
            return ;
        }
        let ps: u32 = self.get_flash_pg_size() as u32;
        proof {
            if ps == 0x400 {
                assert(addr % 0x400u32 <= addr - 0x0800_0000u32) by (bit_vector)
                    requires
                        addr >= 0x0800_0000u32,
                ;
            } else {
                assert(addr % 0x800u32 <= addr - 0x0800_0000u32) by (bit_vector)
                    requires
                        addr >= 0x0800_0000u32,
                ;
            }
        }
        let base: u32 = addr - addr % ps;
        let first: usize = ((base - FLASH_BASE) / 4) as usize;
        let count: usize = (ps / 4) as usize;
        let ghost pre = self@;
        let mut k: usize = 0;
        while k < count
            invariant
                pre.wf(),
                k <= count,
                count <= 0x200,
                first < 0x4000_0000,
                self.words@.len() == pre.words.len(),
                self.size_kib == pre.size_kib,
                self.locked == pre.locked,
                self.pgerr == pre.pgerr,
                self.wrprterr == pre.wrprterr,
                self.eop == pre.eop,
                self.faults@ == pre.faults,
                forall|j: int|
                    0 <= j < self.words@.len() ==> self.words@[j] == (if first <= j < first + k {
                        ERASED_WORD
                    } else {
                        pre.words[j]
                    }),
            decreases count - k,
        {
            if first + k < self.words.len() {
                self.words.set(first + k, ERASED_WORD);
            }
            proof {
                assert forall|j: int| 0 <= j < self.words@.len() implies self.words@[j] == (
                if first <= j < first + k + 1 {
                    ERASED_WORD
                } else {
                    pre.words[j]
                }) by {
                    if j == first + k {
                        assert(self.words@[j] == ERASED_WORD);
                    }
                }
            }
            k = k + 1;
        }
        self.pgerr = false;
        self.wrprterr = false;
        self.eop = true;
        proof {
            assert(final(self)@.words =~= spec_erased_page(pre, addr as int));
            assert(final(self)@ =~= spec_erase_page(pre, addr as int));
        }
    }
}

/// When no script entry at `addr` has a positive count, nothing fires: the
/// script is unchanged and the pending count is zero.
proof fn lemma_consume_fault_no_match(s: Seq<FaultEntry>, addr: int)
    requires
        forall|j: int| 0 <= j < s.len() ==> !(s[j].addr == addr && s[j].count > 0),
    ensures
        spec_consume_fault(s, addr) =~= s,
        fault_count(s, addr) == 0,
    decreases s.len(),
{
    if s.len() > 0 {
        assert(forall|j: int|
            0 <= j < s.drop_first().len() ==> !(s.drop_first()[j].addr == addr
                && s.drop_first()[j].count > 0));
        lemma_consume_fault_no_match(s.drop_first(), addr);
        assert(spec_consume_fault(s, addr) =~= seq![s[0]] + s.drop_first());
    }
}

/// When the first live script entry at `addr` stands at position `i`, firing
/// one disturbance decrements exactly that entry.
proof fn lemma_consume_fault_at(s: Seq<FaultEntry>, addr: int, i: int)
    requires
        0 <= i < s.len(),
        s[i].addr == addr,
        s[i].count > 0,
        forall|j: int| 0 <= j < i ==> !(s[j].addr == addr && s[j].count > 0),
    ensures
        spec_consume_fault(s, addr) =~= s.update(
            i,
            FaultEntry { addr: s[i].addr, count: (s[i].count - 1) as u32 },
        ),
    decreases i,
{
    if i > 0 {
        lemma_consume_fault_at(s.drop_first(), addr, i - 1);
        assert(spec_consume_fault(s, addr) =~= seq![s[0]] + spec_consume_fault(
            s.drop_first(),
            addr,
        ));
    }
}

/// Firing one disturbance decrements the pending count at `addr` when any
/// is pending, and leaves the counts at every other address alone.
pub proof fn lemma_fault_count_consume(s: Seq<FaultEntry>, addr: int)
    ensures
        fault_count(spec_consume_fault(s, addr), addr) == (if fault_count(s, addr) == 0 {
            0int
        } else {
            fault_count(s, addr) - 1
        }),
        forall|b: int| b != addr ==> #[trigger] fault_count(spec_consume_fault(s, addr), b)
            == fault_count(s, b),
    decreases s.len(),
{
    if s.len() > 0 {
        if s[0].addr == addr && s[0].count > 0 {
            let t = s.update(
                0,
                FaultEntry { addr: s[0].addr, count: (s[0].count - 1) as u32 },
            );
            assert(t.drop_first() =~= s.drop_first());
            assert forall|b: int| b != addr implies #[trigger] fault_count(
                spec_consume_fault(s, addr),
                b,
            ) == fault_count(s, b) by {
                assert(fault_count(t, b) == fault_count(t.drop_first(), b));
                assert(fault_count(s, b) == fault_count(s.drop_first(), b));
            }
        } else {
            lemma_fault_count_consume(s.drop_first(), addr);
            let t = seq![s[0]] + spec_consume_fault(s.drop_first(), addr);
            assert(t.drop_first() =~= spec_consume_fault(s.drop_first(), addr));
            assert(t[0] == s[0]);
            assert forall|b: int| b != addr implies #[trigger] fault_count(
                spec_consume_fault(s, addr),
                b,
            ) == fault_count(s, b) by {
                assert(fault_count(t, b) == (if t[0].addr == b && t[0].count > 0 {
                    t[0].count as int
                } else {
                    0
                }) + fault_count(t.drop_first(), b));
                assert(fault_count(s, b) == (if s[0].addr == b && s[0].count > 0 {
                    s[0].count as int
                } else {
                    0
                }) + fault_count(s.drop_first(), b));
            }
        }
    }
}

/// With a live script entry at `addr` in position `i`, the pending count at
/// `addr` is positive.
proof fn lemma_fault_count_positive_at(s: Seq<FaultEntry>, addr: int, i: int)
    requires
        0 <= i < s.len(),
        s[i].addr == addr,
        s[i].count > 0,
    ensures
        fault_count(s, addr) > 0,
    decreases i,
{
    if i > 0 {
        lemma_fault_count_positive_at(s.drop_first(), addr, i - 1);
    }
}

} // verus!
