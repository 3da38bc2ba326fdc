//! Session-level laws of the bootloader: what holds across whole request
//! sequences, stated over the transition functions and proved once for all
//! inputs they admit.

use vstd::prelude::*;

use crate::config::{APP_REGION_SIZE, BL_FLAGS_HIGH, BL_MAGIC, FLASH_BASE, PAGE_START};
use crate::dfu::{
    spec_addressed, spec_control_in, spec_control_out, spec_process_flash, spec_program_span,
    spec_word_le, ControlRequest, DfuDeviceStatus, DfuState, DfuView, InReply, Recipient,
    RequestType, DFU_CLRSTATUS, DFU_DNLOAD, DFU_GETSTATUS,
};
use crate::flags::{flags_target, record_fault_free, BlFlags};
use crate::flash::{fault_count, spec_erase_page, FlashView};

verus! {

/// The download request carrying a chunk of `len` bytes, addressed to
/// interface `comm_if`.
pub open spec fn spec_dnload_req(comm_if: u8, len: u16) -> ControlRequest {
    ControlRequest {
        request_type: RequestType::Class,
        recipient: Recipient::Interface,
        request: DFU_DNLOAD,
        value: 0,
        index: comm_if as u16,
        length: len,
    }
}

/// The status request, addressed to interface `comm_if`.
pub open spec fn spec_get_status_req(comm_if: u8) -> ControlRequest {
    ControlRequest {
        request_type: RequestType::Class,
        recipient: Recipient::Interface,
        request: DFU_GETSTATUS,
        value: 0,
        index: comm_if as u16,
        length: 6,
    }
}

/// Total byte count of a sequence of download chunks.
pub open spec fn spec_total_len(chunks: Seq<Seq<u8>>) -> int
    decreases chunks.len(),
{
    if chunks.len() == 0 {
        0
    } else {
        chunks[0].len() + spec_total_len(chunks.drop_first())
    }
}

/// The session after a sequence of download chunks, polled as a host does:
/// each chunk goes down in one transfer, and after a chunk that leaves the
/// buffer short of a page a status request returns the state to idle.
pub open spec fn spec_apply_chunks(d: DfuView, f: FlashView, chunks: Seq<Seq<u8>>) -> (
    DfuView,
    FlashView,
)
    decreases chunks.len(),
{
    if chunks.len() == 0 {
        (d, f)
    } else {
        let c = chunks[0];
        let r = spec_control_out(d, f, spec_dnload_req(d.comm_if, c.len() as u16), c);
        let d2 = if r.0.awaits_flash {
            r.0
        } else {
            spec_control_in(r.0, spec_get_status_req(d.comm_if)).0
        };
        spec_apply_chunks(d2, r.1, chunks.drop_first())
    }
}

/// The bytes of a sequence of download chunks, in order.
pub open spec fn spec_concat(chunks: Seq<Seq<u8>>) -> Seq<u8>
    decreases chunks.len(),
{
    if chunks.len() == 0 {
        Seq::empty()
    } else {
        chunks[0] + spec_concat(chunks.drop_first())
    }
}

/// The total length of a sequence of chunks is never negative.
proof fn lemma_total_len_nonneg(chunks: Seq<Seq<u8>>)
    ensures
        spec_total_len(chunks) >= 0,
    decreases chunks.len(),
{
    if chunks.len() > 0 {
        lemma_total_len_nonneg(chunks.drop_first());
    }
}

/// The concatenated chunks hold exactly the total byte count.
proof fn lemma_concat_len(chunks: Seq<Seq<u8>>)
    ensures
        spec_concat(chunks).len() == spec_total_len(chunks),
    decreases chunks.len(),
{
    if chunks.len() > 0 {
        lemma_concat_len(chunks.drop_first());
    }
}

/// Page accumulation: from an idle session with an empty staging buffer,
/// any run of download transfers of positive word-multiple lengths summing
/// to exactly one page leaves the flush latched, the state in download-sync,
/// the buffer index at the page size, and the committed size untouched; the
/// flash is merely unlocked.
pub proof fn lemma_page_accumulation(d: DfuView, f: FlashView, chunks: Seq<Seq<u8>>)
    requires
        d.wf(),
        d.state is DfuIdle || d.state is DfuDnloadIdle,
        d.status is StatusOk,
        !d.awaits_flash,
        d.download_capable,
        chunks.len() > 0,
        forall|k: int|
            0 <= k < chunks.len() ==> 0 < (#[trigger] chunks[k].len()) && chunks[k].len() % 4 == 0,
        d.page_buffer_index + spec_total_len(chunks) == f.page_size(),
        d.firmware_size + f.page_size() <= APP_REGION_SIZE,
    ensures
        ({
            let r = spec_apply_chunks(d, f, chunks);
            &&& r.0.awaits_flash
            &&& r.0.state is DfuDnloadSync
            &&& r.0.page_buffer_index == f.page_size()
            &&& r.0.firmware_size == d.firmware_size
            &&& r.0.status is StatusOk
            &&& r.0.manifesting == d.manifesting
            &&& r.0.comm_if == d.comm_if
            &&& r.0.download_capable == d.download_capable
            &&& r.0.flags == d.flags
            &&& r.0.wf()
            &&& r.0.page_buffer == crate::dfu::spec_overwrite(
                d.page_buffer,
                d.page_buffer_index as int,
                spec_concat(chunks),
            )
            &&& r.1 == (FlashView { locked: false, ..f })
        }),
    decreases chunks.len(),
{
    let c = chunks[0];
    lemma_total_len_nonneg(chunks.drop_first());
    assert(c.len() <= f.page_size());
    let req = spec_dnload_req(d.comm_if, c.len() as u16);
    let r = spec_control_out(d, f, req, c);
    assert(r.2 is Accepted);
    let at = d.page_buffer_index as int;
    if chunks.len() == 1 {
        assert(spec_apply_chunks(r.0, r.1, chunks.drop_first()) == (r.0, r.1));
        assert(r.0.page_buffer_index == f.page_size());
        assert(r.0.awaits_flash);
        assert(spec_concat(chunks.drop_first()) =~= Seq::empty());
        assert(c + spec_concat(chunks.drop_first()) =~= c);
        assert(r.0.page_buffer =~= crate::dfu::spec_overwrite(
            d.page_buffer,
            at,
            spec_concat(chunks),
        ));
    } else {
        assert(chunks.drop_first().len() > 0);
        assert(chunks.drop_first()[0].len() > 0) by {
            assert(chunks.drop_first()[0] == chunks[1]);
        }
        lemma_total_len_nonneg(chunks.drop_first().drop_first());
        assert(spec_total_len(chunks.drop_first()) > 0);
        assert(r.0.page_buffer_index < f.page_size());
        assert(!r.0.awaits_flash);
        let d2 = spec_control_in(r.0, spec_get_status_req(d.comm_if)).0;
        assert(d2.state is DfuDnloadIdle);
        assert(forall|k: int|
            0 <= k < chunks.drop_first().len() ==> 0 < (#[trigger] chunks.drop_first()[k].len())
                && chunks.drop_first()[k].len() % 4 == 0) by {
            assert(forall|k: int|
                0 <= k < chunks.drop_first().len() ==> chunks.drop_first()[k] == chunks[k + 1]);
        }
        lemma_page_accumulation(d2, r.1, chunks.drop_first());
        let rest = spec_concat(chunks.drop_first());
        assert(crate::dfu::spec_overwrite(
            crate::dfu::spec_overwrite(d.page_buffer, at, c),
            at + c.len(),
            rest,
        ) =~= crate::dfu::spec_overwrite(d.page_buffer, at, c + rest));
    }
}

/// Programming a span of staged words succeeds outright on an unlocked part
/// when the span lies in real flash and no disturbance is scripted on it;
/// the script, the lock and the size are untouched.
proof fn lemma_span_succeeds(f: FlashView, base: int, buf: Seq<u8>, i: int, n: int)
    requires
        f.wf(),
        !f.locked,
        0 <= i <= n,
        FLASH_BASE <= base,
        base % 4 == 0,
        base + 4 * n <= f.device_end(),
        forall|a: int| base + 4 * i <= a < base + 4 * n ==> #[trigger] fault_count(f.faults, a)
            == 0,
    ensures
        ({
            let r = spec_program_span(f, base, buf, i, n);
            &&& r.1 == n
            &&& r.0.locked == f.locked
            &&& r.0.size_kib == f.size_kib
            &&& r.0.faults == f.faults
            &&& r.0.words.len() == f.words.len()
            &&& r.0.pgerr == f.pgerr
            &&& r.0.wrprterr == f.wrprterr
            &&& r.0.eop == f.eop
            &&& forall|a: int|
                FLASH_BASE <= a && a < FLASH_BASE + 4 * f.words.len() && a % 4 == 0 && (a < base
                    + 4 * i || base + 4 * n <= a) ==> #[trigger] r.0.word_at(a) == f.word_at(a)
            &&& forall|a: int|
                base + 4 * i <= a < base + 4 * n && a % 4 == 0 ==> #[trigger] r.0.word_at(a)
                    == spec_word_le(buf, a - base)
        }),
    decreases n - i,
{
    assert(f.device_end() <= f.store_end());
    if i < n {
        let addr = base + 4 * i;
        assert(fault_count(f.faults, addr) == 0);
        let w = spec_word_le(buf, 4 * i);
        let f1 = crate::flash::spec_program_attempt(f, addr, w);
        assert(f1.word_at(addr) == w);
        lemma_span_succeeds(f1, base, buf, i + 1, n);
        let r = spec_program_span(f, base, buf, i, n);
        assert forall|a: int|
            FLASH_BASE <= a && a < FLASH_BASE + 4 * f.words.len() && a % 4 == 0 && (a < base + 4
                * i || base + 4 * n <= a) implies #[trigger] r.0.word_at(a) == f.word_at(a) by {
            assert(a != addr);
            assert(crate::flash::word_index(a) != crate::flash::word_index(addr)) by {
                assert(a - FLASH_BASE == 4 * crate::flash::word_index(a) + (a - FLASH_BASE) % 4);
                assert((a - FLASH_BASE) % 4 == 0);
                assert(addr - FLASH_BASE == 4 * crate::flash::word_index(addr) + (addr
                    - FLASH_BASE) % 4);
                assert((addr - FLASH_BASE) % 4 == 0);
            }
            assert(f1.word_at(a) == f.word_at(a));
        }
        assert forall|a: int|
            base + 4 * i <= a < base + 4 * n && a % 4 == 0 implies #[trigger] r.0.word_at(a)
                == spec_word_le(buf, a - base) by {
            if a == addr {
                assert(r.0.word_at(a) == f1.word_at(a));
            }
        }
    }
}

/// A latched page flush commits: on an unlocked part with the next page of
/// the application region in real flash and no disturbance scripted on it,
/// the deferred work advances the committed size by exactly the staged byte
/// count, empties the staging buffer, clears the latch and reports no
/// error.
pub proof fn lemma_flush_advances(d: DfuView, f: FlashView)
    requires
        d.wf(),
        f.wf(),
        d.awaits_flash,
        !f.locked,
        d.page_buffer_index > 0,
        d.page_buffer_index <= f.page_size(),
        PAGE_START + d.firmware_size as int + d.page_buffer_index as int <= f.device_end(),
        forall|a: int|
            PAGE_START + d.firmware_size as int <= a < PAGE_START + d.firmware_size as int
                + d.page_buffer_index as int ==> #[trigger] fault_count(f.faults, a) == 0,
    ensures
        ({
            let r = spec_process_flash(d, f);
            &&& r.0.firmware_size == d.firmware_size + d.page_buffer_index
            &&& r.0.page_buffer_index == 0
            &&& !r.0.awaits_flash
            &&& !r.0.flashing
            &&& r.0.status is StatusOk
            &&& r.0.manifesting == d.manifesting
            &&& r.0.flags == d.flags
            &&& r.0.state == d.state
            &&& r.0.comm_if == d.comm_if
            &&& r.0.wf()
            &&& !r.1.locked
            &&& r.1.wf()
            &&& r.1.size_kib == f.size_kib
            &&& r.1.faults == f.faults
            &&& forall|a: int|
                FLASH_BASE <= a && a < f.store_end() && a % 4 == 0 && PAGE_START
                    + d.firmware_size as int + f.page_size() <= a ==> #[trigger] r.1.word_at(a)
                    == f.word_at(a)
            &&& forall|a: int|
                PAGE_START + d.firmware_size as int <= a < PAGE_START + d.firmware_size as int
                    + d.page_buffer_index as int && a % 4 == 0 ==> #[trigger] r.1.word_at(a)
                    == spec_word_le(d.page_buffer, a - (PAGE_START + d.firmware_size as int))
        }),
{
    let base = PAGE_START + d.firmware_size as int;
    let f1 = spec_erase_page(f, base);
    assert(f.in_device(base));
    let n = d.page_buffer_index as int / 4;
    assert(4 * n == d.page_buffer_index as int);
    lemma_span_succeeds(f1, base, d.page_buffer, 0, n);
    assert(n > 0);
    let r = spec_process_flash(d, f);
    let ps = f.page_size() as int;
    let pb = f.page_base(base);
    assert forall|a: int|
        FLASH_BASE <= a && a < f.store_end() && a % 4 == 0 && base + ps <= a implies #[trigger] r.1.word_at(a) == f.word_at(a) by {
        assert(f1.word_at(a) == f.word_at(a)) by {
            assert(pb <= base);
            assert(pb + ps <= base + ps);
            assert(crate::flash::word_index(a) >= crate::flash::word_index(pb) + ps / 4) by {
                assert(crate::flash::word_index(pb + ps) == crate::flash::word_index(pb) + ps
                    / 4) by {
                    assert(ps == 0x400 || ps == 0x800);
                }
            }
        }
        assert(base + 4 * n <= base + ps);
        assert(r.1.word_at(a) == f1.word_at(a));
    }
}

/// The manifest phase commits the metadata: with the flush already drained,
/// one round of deferred work writes a fresh record — count one past the
/// previous record or one, both presence booleans set, the committed size
/// as the image length — re-reads it successfully, and locks the flash.
pub proof fn lemma_manifest_commits(d: DfuView, f: FlashView)
    requires
        d.wf(),
        f.wf(),
        d.manifesting,
        !d.awaits_flash,
        !f.locked,
        64 <= f.size_kib,
        record_fault_free(f, flags_target(f)),
        f.size_kib < 128 ==> f.word_at(BL_FLAGS_HIGH as int) != BL_MAGIC,
        match d.flags {
            Some(fl) => fl.flash_count < 0xffff_ffffu32,
            None => true,
        },
    ensures
        ({
            let r = spec_process_flash(d, f);
            &&& r.0.flags == Some(
                BlFlags {
                    magic: BL_MAGIC,
                    flash_count: match d.flags {
                        Some(fl) => (fl.flash_count + 1) as u32,
                        None => 1u32,
                    },
                    user_code_legit: true,
                    user_code_present: true,
                    user_code_length: d.firmware_size,
                },
            )
            &&& !r.0.manifesting
            &&& !r.0.flashing
            &&& r.0.firmware_size == d.firmware_size
            &&& r.1.locked
            &&& forall|a: int|
                FLASH_BASE <= a && a < f.store_end() && a % 4 == 0 && a
                    < crate::config::BL_FLAGS_LOW ==> #[trigger] r.1.word_at(a) == f.word_at(a)
        }),
{
    let b = BlFlags {
        magic: BL_MAGIC,
        flash_count: match d.flags {
            Some(fl) => (fl.flash_count + 1) as u32,
            None => 1u32,
        },
        user_code_legit: true,
        user_code_present: true,
        user_code_length: d.firmware_size,
    };
    crate::flags::lemma_bl_flags_round_trip(f, b);
    let r = spec_process_flash(d, f);
    let low = crate::config::BL_FLAGS_LOW as int;
    let e = spec_erase_page(f, BL_FLAGS_HIGH as int);
    assert forall|a: int|
        FLASH_BASE <= a && a < f.store_end() && a % 4 == 0 && a < low implies #[trigger] r.1.word_at(a) == f.word_at(a) by {
        assert(f.page_size() == 0x400 || f.page_size() == 0x800);
        lemma_word_index_below(a, low);
        if f.size_kib >= 128 {
            assert(crate::flash::word_index(a) < crate::flash::word_index(
                f.page_base(BL_FLAGS_HIGH as int),
            ));
            assert(e.word_at(a) == f.word_at(a));
            lemma_record_frame(e, BL_FLAGS_HIGH as int, crate::flags::spec_flag_words(b), a);
        } else {
            assert(e.word_at(a) == f.word_at(a));
            let e2 = spec_erase_page(e, low);
            assert(e.page_size() == 0x400);
            assert(low % 0x400 == 0);
            assert(e.page_base(low) == low);
            assert(e2.word_at(a) == e.word_at(a));
            lemma_record_frame(e2, low, crate::flags::spec_flag_words(b), a);
        }
    }
}

/// An aligned address below `bound` (also aligned, above the flash base)
/// occupies a strictly lower word index.
proof fn lemma_word_index_below(a: int, bound: int)
    requires
        FLASH_BASE <= a < bound,
        a % 4 == 0,
        bound % 4 == 0,
    ensures
        crate::flash::word_index(a) < crate::flash::word_index(bound),
{
    assert(a - FLASH_BASE == 4 * crate::flash::word_index(a) + (a - FLASH_BASE) % 4);
    assert((a - FLASH_BASE) % 4 == 0);
    assert(bound - FLASH_BASE == 4 * crate::flash::word_index(bound) + (bound - FLASH_BASE) % 4);
    assert((bound - FLASH_BASE) % 4 == 0);
}

/// Programming one word at `addr` leaves the aligned word at `a` alone.
proof fn lemma_word_frame(f: FlashView, addr: int, data: u32, a: int)
    requires
        f.wf(),
        FLASH_BASE <= a < f.store_end(),
        FLASH_BASE <= addr,
        a % 4 == 0,
        addr % 4 == 0,
        a != addr,
    ensures
        ({
            let f1 = crate::flash::spec_write_word(f, addr, data).0;
            &&& f1.word_at(a) == f.word_at(a)
            &&& f1.size_kib == f.size_kib
            &&& f1.words.len() == f.words.len()
            &&& f1.wf()
        }),
{
    assert(crate::flash::word_index(a) != crate::flash::word_index(addr)) by {
        assert(a - FLASH_BASE == 4 * crate::flash::word_index(a) + (a - FLASH_BASE) % 4);
        assert((a - FLASH_BASE) % 4 == 0);
        assert(addr - FLASH_BASE == 4 * crate::flash::word_index(addr) + (addr - FLASH_BASE)
            % 4);
        assert((addr - FLASH_BASE) % 4 == 0);
    }
}

/// Programming a five-word record at `addr` leaves the aligned word at `a`
/// alone when `a` lies outside the record.
proof fn lemma_record_frame(f: FlashView, addr: int, ws: Seq<u32>, a: int)
    requires
        f.wf(),
        FLASH_BASE <= a < f.store_end(),
        FLASH_BASE <= addr,
        a % 4 == 0,
        addr % 4 == 0,
        a < addr || addr + 16 < a,
    ensures
        crate::flags::spec_program_record(f, addr, ws).word_at(a) == f.word_at(a),
{
    let f0 = crate::flash::spec_write_word(f, addr, ws[0]).0;
    let f1 = crate::flash::spec_write_word(f0, addr + 4, ws[1]).0;
    let f2 = crate::flash::spec_write_word(f1, addr + 8, ws[2]).0;
    let f3 = crate::flash::spec_write_word(f2, addr + 12, ws[3]).0;
    lemma_word_frame(f, addr, ws[0], a);
    lemma_word_frame(f0, addr + 4, ws[1], a);
    lemma_word_frame(f1, addr + 8, ws[2], a);
    lemma_word_frame(f2, addr + 12, ws[3], a);
    lemma_word_frame(f3, addr + 16, ws[4], a);
}

/// Clear-status gating: addressed and well-formed, the request is accepted
/// exactly in the error state, where it returns the session to idle with a
/// clear status; in every other state it is rejected and changes nothing.
/// The flash is untouched either way.
pub proof fn lemma_clrstatus_gating(d: DfuView, f: FlashView, req: ControlRequest, data: Seq<u8>)
    requires
        spec_addressed(d, req),
        req.request == DFU_CLRSTATUS,
        req.value == 0,
        req.length == 0,
    ensures
        spec_control_out(d, f, req, data).2 is Accepted <==> d.state is DfuError,
        d.state is DfuError ==> spec_control_out(d, f, req, data).0 == (DfuView {
            state: DfuState::DfuIdle,
            status: DfuDeviceStatus::StatusOk,
            ..d
        }),
        !(d.state is DfuError) ==> spec_control_out(d, f, req, data).0 == d && spec_control_out(
            d,
            f,
            req,
            data,
        ).2 is Rejected,
        spec_control_out(d, f, req, data).1 == f,
{
}

/// Out-of-state downloads reject: a download carrying data while the
/// session is mid-flush, busy, manifesting or in error is not accepted, and
/// neither the staging buffer, its index, the committed size nor the flash
/// change.
pub proof fn lemma_dnload_out_of_state_rejects(
    d: DfuView,
    f: FlashView,
    req: ControlRequest,
    data: Seq<u8>,
)
    requires
        spec_addressed(d, req),
        req.request == DFU_DNLOAD,
        req.length > 0,
        d.state is DfuManifest || d.state is DfuDnloadSync || d.state is DfuDnloadBusy
            || d.state is DfuError,
    ensures
        spec_control_out(d, f, req, data).2 is Rejected,
        spec_control_out(d, f, req, data).0.page_buffer == d.page_buffer,
        spec_control_out(d, f, req, data).0.page_buffer_index == d.page_buffer_index,
        spec_control_out(d, f, req, data).0.firmware_size == d.firmware_size,
        spec_control_out(d, f, req, data).1 == f,
{
}

/// The status-request handshake of a pending flush: polled from
/// download-sync with the flush latched, the replies walk busy, then sync
/// with the 500 ms back-off; once the deferred work has drained the page,
/// the next poll answers idle. Status stays clear throughout.
pub proof fn lemma_get_status_handshake(d: DfuView, f: FlashView)
    requires
        d.wf(),
        f.wf(),
        d.state is DfuDnloadSync,
        d.awaits_flash,
        d.status is StatusOk,
        !f.locked,
        d.page_buffer_index > 0,
        d.page_buffer_index <= f.page_size(),
        PAGE_START + d.firmware_size as int + d.page_buffer_index as int <= f.device_end(),
        forall|a: int|
            PAGE_START + d.firmware_size as int <= a < PAGE_START + d.firmware_size as int
                + d.page_buffer_index as int ==> #[trigger] fault_count(f.faults, a) == 0,
    ensures
        ({
            let req = spec_get_status_req(d.comm_if);
            let s1 = spec_control_in(d, req);
            let s2 = spec_control_in(s1.0, req);
            let p = spec_process_flash(s2.0, f);
            let s3 = spec_control_in(p.0, req);
            &&& s1.0.state is DfuDnloadBusy
            &&& s1.1 == InReply::Accepted(seq![0u8, 0u8, 0u8, 0u8, 4u8, 0u8])
            &&& s2.0.state is DfuDnloadSync
            &&& s2.1 == InReply::Accepted(seq![0u8, 0xf4u8, 0x01u8, 0u8, 3u8, 0u8])
            &&& !p.0.awaits_flash
            &&& p.0.status is StatusOk
            &&& s3.0.state is DfuDnloadIdle
            &&& s3.1 == InReply::Accepted(seq![0u8, 0u8, 0u8, 0u8, 5u8, 0u8])
        }),
{
    let req = spec_get_status_req(d.comm_if);
    let s1 = spec_control_in(d, req);
    assert(s1.1 == InReply::Accepted(seq![0u8, 0u8, 0u8, 0u8, 4u8, 0u8])) by {
        assert(crate::dfu::spec_status_reply(s1.0, 0) =~= seq![0u8, 0u8, 0u8, 0u8, 4u8, 0u8]);
    }
    let s2 = spec_control_in(s1.0, req);
    assert(s2.1 == InReply::Accepted(seq![0u8, 0xf4u8, 0x01u8, 0u8, 3u8, 0u8])) by {
        assert(crate::dfu::spec_status_reply(s2.0, 500) =~= seq![
            0u8,
            0xf4u8,
            0x01u8,
            0u8,
            3u8,
            0u8,
        ]);
    }
    assert(s2.0.wf());
    lemma_flush_advances(s2.0, f);
    let p = spec_process_flash(s2.0, f);
    let s3 = spec_control_in(p.0, req);
    assert(s3.1 == InReply::Accepted(seq![0u8, 0u8, 0u8, 0u8, 5u8, 0u8])) by {
        assert(crate::dfu::spec_status_reply(s3.0, 0) =~= seq![0u8, 0u8, 0u8, 0u8, 5u8, 0u8]);
    }
}

/// Verify-and-retry of the word programmer: on an unlocked part at an
/// address backed by real flash, programming a word succeeds exactly when
/// fewer than three disturbances are scripted there — each attempt burns
/// one — and on success the word holds the data written.
pub proof fn lemma_write_word_retry(f: FlashView, addr: int, data: u32)
    requires
        f.wf(),
        !f.locked,
        f.in_device(addr),
        addr % 4 == 0,
    ensures
        crate::flash::spec_write_word(f, addr, data).1 <==> fault_count(f.faults, addr) < 3,
        crate::flash::spec_write_word(f, addr, data).1 ==> crate::flash::spec_write_word(
            f,
            addr,
            data,
        ).0.word_at(addr) == data,
{
    let f1 = crate::flash::spec_program_attempt(f, addr, data);
    crate::flash::lemma_fault_count_consume(f.faults, addr);
    let f2 = crate::flash::spec_program_attempt(f1, addr, data);
    crate::flash::lemma_fault_count_consume(f1.faults, addr);
    let f3 = crate::flash::spec_program_attempt(f2, addr, data);
    crate::flash::lemma_fault_count_consume(f2.faults, addr);
}

/// A whole programming session commits: from an idle download-capable
/// session on an unscripted, large-enough part, downloading chunks that sum
/// to one page, sending the zero-length download, and draining the deferred
/// work twice leaves the downloaded bytes programmed at the next free page
/// of the application region, the session holding a fresh record — count
/// one past the previous record or one, the page's bytes counted into the
/// image length — the same record readable from flash, and the flash locked
/// again.
pub proof fn lemma_session_commits(d: DfuView, f: FlashView, chunks: Seq<Seq<u8>>)
    requires
        d.wf(),
        f.wf(),
        d.state is DfuIdle || d.state is DfuDnloadIdle,
        d.status is StatusOk,
        !d.awaits_flash,
        !d.manifesting,
        d.download_capable,
        d.page_buffer_index == 0,
        chunks.len() > 0,
        forall|k: int|
            0 <= k < chunks.len() ==> 0 < (#[trigger] chunks[k].len()) && chunks[k].len() % 4 == 0,
        d.page_buffer_index + spec_total_len(chunks) == f.page_size(),
        d.firmware_size + f.page_size() <= APP_REGION_SIZE,
        64 <= f.size_kib,
        f.faults.len() == 0,
        PAGE_START + d.firmware_size as int + f.page_size() <= crate::config::BL_FLAGS_LOW,
        f.size_kib < 128 ==> f.word_at(BL_FLAGS_HIGH as int) != BL_MAGIC,
        match d.flags {
            Some(fl) => fl.flash_count < 0xffff_ffffu32,
            None => true,
        },
    ensures
        ({
            let s = spec_apply_chunks(d, f, chunks);
            let m = spec_control_out(s.0, s.1, spec_dnload_req(d.comm_if, 0), Seq::empty());
            let p1 = spec_process_flash(m.0, m.1);
            let p2 = spec_process_flash(p1.0, p1.1);
            let record = BlFlags {
                magic: BL_MAGIC,
                flash_count: match d.flags {
                    Some(fl) => (fl.flash_count + 1) as u32,
                    None => 1u32,
                },
                user_code_legit: true,
                user_code_present: true,
                user_code_length: (d.firmware_size + f.page_size()) as u32,
            };
            &&& m.2 is Accepted
            &&& p2.0.flags == Some(record)
            &&& p2.0.firmware_size == d.firmware_size + f.page_size()
            &&& !p2.0.manifesting
            &&& !p2.0.awaits_flash
            &&& p2.1.locked
            &&& crate::flags::spec_read_bl_flags(p2.1) == Some(record)
            &&& forall|a: int|
                PAGE_START + d.firmware_size as int <= a < PAGE_START + d.firmware_size as int
                    + f.page_size() && a % 4 == 0 ==> #[trigger] p2.1.word_at(a) == spec_word_le(
                    spec_concat(chunks),
                    a - (PAGE_START + d.firmware_size as int),
                )
        }),
{
    lemma_page_accumulation(d, f, chunks);
    lemma_concat_len(chunks);
    let s = spec_apply_chunks(d, f, chunks);
    let m = spec_control_out(s.0, s.1, spec_dnload_req(d.comm_if, 0), Seq::empty());
    assert(m.1 == s.1);
    lemma_flush_advances(m.0, m.1);
    let p1 = spec_process_flash(m.0, m.1);
    assert(p1.1.word_at(BL_FLAGS_HIGH as int) == f.word_at(BL_FLAGS_HIGH as int)) by {
        assert(m.1.word_at(BL_FLAGS_HIGH as int) == f.word_at(BL_FLAGS_HIGH as int));
        assert(m.1.store_end() >= 0x0802_0000);
    }
    assert(record_fault_free(p1.1, flags_target(p1.1))) by {
        assert(p1.1.faults.len() == 0);
    }
    lemma_manifest_commits(p1.0, p1.1);
    let p2 = spec_process_flash(p1.0, p1.1);
    let record = BlFlags {
        magic: BL_MAGIC,
        flash_count: match d.flags {
            Some(fl) => (fl.flash_count + 1) as u32,
            None => 1u32,
        },
        user_code_legit: true,
        user_code_present: true,
        user_code_length: p1.0.firmware_size,
    };
    let f1 = crate::flags::spec_write_bl_flags(p1.1, record);
    assert(p2.1.words == f1.words);
    assert(crate::flags::spec_read_bl_flags(p2.1) == crate::flags::spec_read_bl_flags(f1));
    let base = PAGE_START + d.firmware_size as int;
    let cat = spec_concat(chunks);
    assert forall|a: int|
        base <= a < base + f.page_size() && a % 4 == 0 implies #[trigger] p2.1.word_at(a)
            == spec_word_le(cat, a - base) by {
        assert(p1.1.word_at(a) == spec_word_le(s.0.page_buffer, a - base));
        let off = a - base;
        assert(spec_word_le(s.0.page_buffer, off) == spec_word_le(cat, off)) by {
            assert(off + 3 < f.page_size());
            assert(s.0.page_buffer[off] == cat[off]);
            assert(s.0.page_buffer[off + 1] == cat[off + 1]);
            assert(s.0.page_buffer[off + 2] == cat[off + 2]);
            assert(s.0.page_buffer[off + 3] == cat[off + 3]);
        }
        assert(p2.1.word_at(a) == p1.1.word_at(a));
    }
}

/// A zero-length download begins the manifest phase from any state of a
/// download-capable session: the state moves to manifest and both the
/// manifest and flush latches are set.
pub proof fn lemma_manifest_request(d: DfuView, f: FlashView, req: ControlRequest, data: Seq<u8>)
    requires
        spec_addressed(d, req),
        req.request == DFU_DNLOAD,
        req.length == 0,
        d.download_capable,
        data.len() == 0,
    ensures
        spec_control_out(d, f, req, data).0 == (DfuView {
            state: DfuState::DfuManifest,
            manifesting: true,
            awaits_flash: true,
            ..d
        }),
        spec_control_out(d, f, req, data).2 is Accepted,
        spec_control_out(d, f, req, data).1 == f,
{
}

} // verus!
