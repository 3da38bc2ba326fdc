//! The DFU class: protocol state machine, page staging buffer, and the
//! deferred flash work driven after each USB poll.
//!
//! Control transfers are handed in as plain request records and payload
//! bytes; the USB stack that carries them lives outside the library. The
//! handler never erases or programs flash itself — it only sets the
//! `awaits_flash` and `manifesting` latches, which `process_flash` drains
//! between polls.

use vstd::prelude::*;

use crate::config::{ALT_SETTINGS, APP_REGION_SIZE, BIGGEST_PAGE, BL_MAGIC, PAGE_START};
use crate::flags::{
    spec_read_bl_flags, spec_write_bl_flags, read_bl_flags, write_bl_flags, BlFlags,
};
use crate::flash::{spec_erase_page, spec_write_word, FlashMem, FlashView};

verus! {

/// DFU class request: detach.
pub const DFU_DETACH: u8 = 0;

/// DFU class request: download one chunk, or begin the manifest phase.
pub const DFU_DNLOAD: u8 = 1;

/// DFU class request: upload (disabled by policy in this core).
pub const DFU_UPLOAD: u8 = 2;

/// DFU class request: read status and advance the poll handshake.
pub const DFU_GETSTATUS: u8 = 3;

/// DFU class request: leave the error state.
pub const DFU_CLRSTATUS: u8 = 4;

/// DFU class request: read the bare state byte.
pub const DFU_GETSTATE: u8 = 5;

/// DFU class request: abort, a no-op outside an active download.
pub const DFU_ABORT: u8 = 6;

/// Protocol state of the DFU session.
#[derive(Clone, Copy, PartialEq, Eq, Structural, Debug)]
pub enum DfuState {
    AppIdle,
    AppDetach,
    DfuIdle,
    DfuDnloadSync,
    DfuDnloadBusy,
    DfuDnloadIdle,
    DfuManifestSync,
    DfuManifest,
    DfuManifestWaitReset,
    DfuUploadIdle,
    DfuError,
}

/// Status byte of the DFU session, in wire order.
#[derive(Clone, Copy, PartialEq, Eq, Structural, Debug)]
pub enum DfuDeviceStatus {
    StatusOk,
    ErrTarget,
    ErrFile,
    ErrWrite,
    ErrErase,
    ErrCheckErased,
    ErrProg,
    ErrVerify,
    ErrAddress,
    ErrNotDone,
    ErrFirmware,
    ErrVendor,
    ErrUsbR,
    ErrPoR,
    ErrUnknown,
    ErrStaledPkt,
}

/// Type field of a control request.
#[derive(Clone, Copy, PartialEq, Eq, Structural, Debug)]
pub enum RequestType {
    Standard,
    Class,
    Vendor,
    Reserved,
}

/// Recipient field of a control request.
#[derive(Clone, Copy, PartialEq, Eq, Structural, Debug)]
pub enum Recipient {
    Device,
    Interface,
    Endpoint,
    Other,
}

/// The setup packet of a control transfer, as plain values.
#[derive(Clone, Copy, PartialEq, Eq, Structural, Debug)]
pub struct ControlRequest {
    pub request_type: RequestType,
    pub recipient: Recipient,
    pub request: u8,
    pub value: u16,
    pub index: u16,
    pub length: u16,
}

/// Outcome of an IN control transfer: not for this interface, accepted with
/// reply bytes, or stalled.
pub enum InResponse {
    Ignored,
    Accepted(Vec<u8>),
    Rejected,
}

/// Mathematical outcome of an IN control transfer.
pub ghost enum InReply {
    Ignored,
    Accepted(Seq<u8>),
    Rejected,
}

/// Outcome of an OUT control transfer.
#[derive(Clone, Copy, PartialEq, Eq, Structural, Debug)]
pub enum OutResponse {
    Ignored,
    Accepted,
    Rejected,
}

/// Mathematical view of an IN outcome.
pub open spec fn spec_in_reply(r: InResponse) -> InReply {
    match r {
        InResponse::Ignored => InReply::Ignored,
        InResponse::Accepted(v) => InReply::Accepted(v@),
        InResponse::Rejected => InReply::Rejected,
    }
}

/// State byte on the wire.
pub open spec fn spec_state_code(s: DfuState) -> u8 {
    match s {
        DfuState::AppIdle => 0,
        DfuState::AppDetach => 1,
        DfuState::DfuIdle => 2,
        DfuState::DfuDnloadSync => 3,
        DfuState::DfuDnloadBusy => 4,
        DfuState::DfuDnloadIdle => 5,
        DfuState::DfuManifestSync => 6,
        DfuState::DfuManifest => 7,
        DfuState::DfuManifestWaitReset => 8,
        DfuState::DfuUploadIdle => 9,
        DfuState::DfuError => 10,
    }
}

/// State byte on the wire.
pub fn state_code(s: DfuState) -> (r: u8)
    ensures
        r == spec_state_code(s),
{
    match s {
        DfuState::AppIdle => 0,
        DfuState::AppDetach => 1,
        DfuState::DfuIdle => 2,
        DfuState::DfuDnloadSync => 3,
        DfuState::DfuDnloadBusy => 4,
        DfuState::DfuDnloadIdle => 5,
        DfuState::DfuManifestSync => 6,
        DfuState::DfuManifest => 7,
        DfuState::DfuManifestWaitReset => 8,
        DfuState::DfuUploadIdle => 9,
        DfuState::DfuError => 10,
    }
}

/// Status byte on the wire.
pub open spec fn spec_status_code(s: DfuDeviceStatus) -> u8 {
    match s {
        DfuDeviceStatus::StatusOk => 0,
        DfuDeviceStatus::ErrTarget => 1,
        DfuDeviceStatus::ErrFile => 2,
        DfuDeviceStatus::ErrWrite => 3,
        DfuDeviceStatus::ErrErase => 4,
        DfuDeviceStatus::ErrCheckErased => 5,
        DfuDeviceStatus::ErrProg => 6,
        DfuDeviceStatus::ErrVerify => 7,
        DfuDeviceStatus::ErrAddress => 8,
        DfuDeviceStatus::ErrNotDone => 9,
        DfuDeviceStatus::ErrFirmware => 10,
        DfuDeviceStatus::ErrVendor => 11,
        DfuDeviceStatus::ErrUsbR => 12,
        DfuDeviceStatus::ErrPoR => 13,
        DfuDeviceStatus::ErrUnknown => 14,
        DfuDeviceStatus::ErrStaledPkt => 15,
    }
}

/// Status byte on the wire.
pub fn status_code(s: DfuDeviceStatus) -> (r: u8)
    ensures
        r == spec_status_code(s),
{
    match s {
        DfuDeviceStatus::StatusOk => 0,
        DfuDeviceStatus::ErrTarget => 1,
        DfuDeviceStatus::ErrFile => 2,
        DfuDeviceStatus::ErrWrite => 3,
        DfuDeviceStatus::ErrErase => 4,
        DfuDeviceStatus::ErrCheckErased => 5,
        DfuDeviceStatus::ErrProg => 6,
        DfuDeviceStatus::ErrVerify => 7,
        DfuDeviceStatus::ErrAddress => 8,
        DfuDeviceStatus::ErrNotDone => 9,
        DfuDeviceStatus::ErrFirmware => 10,
        DfuDeviceStatus::ErrVendor => 11,
        DfuDeviceStatus::ErrUsbR => 12,
        DfuDeviceStatus::ErrPoR => 13,
        DfuDeviceStatus::ErrUnknown => 14,
        DfuDeviceStatus::ErrStaledPkt => 15,
    }
}

/// Mathematical state of the DFU session.
#[verifier::ext_equal]
pub ghost struct DfuView {
    pub comm_if: u8,
    pub strs: Seq<u8>,
    pub curr_alt: u8,
    pub upload_capable: bool,
    pub download_capable: bool,
    pub state: DfuState,
    pub status: DfuDeviceStatus,
    pub firmware_size: u32,
    pub awaits_flash: bool,
    pub flashing: bool,
    pub manifesting: bool,
    pub page_buffer: Seq<u8>,
    pub page_buffer_index: usize,
    pub flags: Option<BlFlags>,
}

/// The DFU session: protocol state, staging buffer, latches, and the boot
/// flags read at construction and refreshed after each manifest.
pub struct Dfu {
    pub comm_if: u8,
    pub strs: Vec<u8>,
    pub curr_alt: u8,
    pub upload_capable: bool,
    pub download_capable: bool,
    pub state: DfuState,
    pub status: DfuDeviceStatus,
    pub firmware_size: u32,
    pub awaits_flash: bool,
    pub flashing: bool,
    pub manifesting: bool,
    pub page_buffer: Vec<u8>,
    pub page_buffer_index: usize,
    pub flags: Option<BlFlags>,
}

impl View for Dfu {
    type V = DfuView;

    open spec fn view(&self) -> DfuView {
        DfuView {
            comm_if: self.comm_if,
            strs: self.strs@,
            curr_alt: self.curr_alt,
            upload_capable: self.upload_capable,
            download_capable: self.download_capable,
            state: self.state,
            status: self.status,
            firmware_size: self.firmware_size,
            awaits_flash: self.awaits_flash,
            flashing: self.flashing,
            manifesting: self.manifesting,
            page_buffer: self.page_buffer@,
            page_buffer_index: self.page_buffer_index,
            flags: self.flags,
        }
    }
}

impl DfuView {
    /// Session invariant: the staging buffer holds one largest page, its
    /// index stays within it on a word boundary, the committed size stays a
    /// multiple of four within the application region, and no deferred flash
    /// work is mid-flight between calls.
    pub open spec fn wf(self) -> bool {
        &&& self.strs.len() == ALT_SETTINGS
        &&& self.page_buffer.len() == BIGGEST_PAGE
        &&& self.page_buffer_index <= BIGGEST_PAGE
        &&& self.page_buffer_index % 4 == 0
        &&& self.firmware_size % 4 == 0
        &&& self.firmware_size + self.page_buffer_index <= APP_REGION_SIZE
        &&& !self.flashing
    }
}

impl Dfu {
    /// A fresh session: idle, without error, with an empty staging buffer
    /// and the boot flags read from `flash`. `comm_if` and `strs` are the
    /// interface and string-descriptor handles the USB stack allotted;
    /// upload stays disabled by policy.
    pub fn new(flash: &FlashMem, comm_if: u8, strs: Vec<u8>, download_capable: bool) -> (r: Dfu)
        requires
            flash@.wf(),
            strs@.len() == ALT_SETTINGS,
        ensures
            r@.wf(),
            (r@ == DfuView {
                comm_if,
                strs: strs@,
                curr_alt: 0,
                upload_capable: false,
                download_capable,
                state: DfuState::DfuIdle,
                status: DfuDeviceStatus::StatusOk,
                firmware_size: 0,
                awaits_flash: false,
                flashing: false,
                manifesting: false,
                page_buffer: Seq::new(BIGGEST_PAGE as nat, |i: int| 0u8),
                page_buffer_index: 0,
                flags: spec_read_bl_flags(flash@),
            }),
    {
        let flags = read_bl_flags(flash);
        let mut page_buffer: Vec<u8> = Vec::new();
        let mut i: usize = 0;
        while i < BIGGEST_PAGE
            invariant
                i <= BIGGEST_PAGE,
                page_buffer@.len() == i,
                forall|j: int| 0 <= j < i ==> page_buffer@[j] == 0u8,
            decreases BIGGEST_PAGE - i,
        {
            page_buffer.push(0);
            i = i + 1;
        }
        let r = Dfu {
            comm_if,
            strs,
            curr_alt: 0,
            upload_capable: false,
            download_capable,
            state: DfuState::DfuIdle,
            status: DfuDeviceStatus::StatusOk,
            firmware_size: 0,
            awaits_flash: false,
            flashing: false,
            manifesting: false,
            page_buffer,
            page_buffer_index: 0,
            flags,
        };
        proof {
            assert(r@.page_buffer =~= Seq::new(BIGGEST_PAGE as nat, |i: int| 0u8));
        }
        r
    }

    /// The boot flags as last read from flash.
    pub fn flags(&self) -> (r: Option<BlFlags>)
        ensures
            r == self@.flags,
    {
        self.flags
    }

    /// Data of the BOS platform capability carrying the OS descriptor
    /// identity: reserved byte, platform UUID, supported OS version, total
    /// descriptor length and vendor code.
    pub fn get_bos_capability(&self) -> (r: Vec<u8>)
        ensures
            r@ == spec_bos_capability(),
    {
        let r: Vec<u8> = vec![
            0x00u8,
            0xDF, 0x60, 0xDD, 0xD8,
            0x89, 0x45, 0xC7, 0x4C,
            0x9C, 0xD2, 0x65, 0x9D,
            0x9E, 0x64, 0x8A, 0x9F,
            0x00, 0x00, 0x03, 0x06,
            0xB2, 0x00, 0x21, 0x00,
        ];
        proof {
            assert(r@ =~= spec_bos_capability());
        }
        r
    }

    /// Data of the DFU functional descriptor: attributes, detach timeout,
    /// transfer size of 256 bytes, and DFU version.
    pub fn get_functional_descriptor(&self) -> (r: Vec<u8>)
        ensures
            r@ == spec_functional_descriptor(self@.upload_capable, self@.download_capable),
    {
        let attrs: u8 = 0x4 + (if self.upload_capable {
            0x2u8
        } else {
            0x0u8
        }) + (if self.download_capable {
            0x1u8
        } else {
            0x0u8
        });
        let r: Vec<u8> = vec![attrs, 255u8, 0u8, 0x00u8, 0x01u8, 0x10u8, 0x01u8];
        proof {
            assert(r@ =~= spec_functional_descriptor(
                self@.upload_capable,
                self@.download_capable,
            ));
        }
        r
    }

    /// Current alternate setting of the interface, when asked for ours.
    pub fn get_alt_setting(&self, interface: u8) -> (r: Option<u8>)
        ensures
            r == (if interface == self@.comm_if {
                Some(self@.curr_alt)
            } else {
                None::<u8>
            }),
    {
        if interface == self.comm_if {
            Some(self.curr_alt)
        } else {
            None
        }
    }

    /// Select an alternate setting of the interface, when asked for ours.
    pub fn set_alt_setting(&mut self, interface: u8, alt: u8) -> (r: bool)
        ensures
            r == (interface == old(self)@.comm_if),
            (final(self)@ == (if interface == old(self)@.comm_if {
                DfuView { curr_alt: alt, ..old(self)@ }
            } else {
                old(self)@
            })),
    {
        if interface == self.comm_if {
            self.curr_alt = alt;
            true
        } else {
            false
        }
    }

    /// The string descriptor owned by this class for handle `index`, when
    /// any alternate setting holds it: each handle answers with its own
    /// alternate's string, the first winning when both share a handle.
    pub fn get_string(&self, index: u8) -> (r: Option<&'static str>)
        requires
            self@.wf(),
        ensures
            r is Some <==> (index == self@.strs[0] || index == self@.strs[1]),
            index == self@.strs[0] ==> (r matches Some(s) && s@ == "DFU Bootloader 0.2.0"@),
            index == self@.strs[1] && index != self@.strs[0] ==> (r matches Some(s) && s@
                == "TEST"@),
    {
        if self.strs[0] == index {
            Some(crate::config::alt_str(0))
        } else if self.strs[1] == index {
            Some(crate::config::alt_str(1))
        } else {
            None
        }
    }
}

/// Bytes of the BOS platform capability.
pub open spec fn spec_bos_capability() -> Seq<u8> {
    seq![
        0x00u8,
        0xDF, 0x60, 0xDD, 0xD8,
        0x89, 0x45, 0xC7, 0x4C,
        0x9C, 0xD2, 0x65, 0x9D,
        0x9E, 0x64, 0x8A, 0x9F,
        0x00, 0x00, 0x03, 0x06,
        0xB2, 0x00, 0x21, 0x00,
    ]
}

/// Attribute byte of the functional descriptor: manifestation-tolerant,
/// plus the upload and download capability bits.
pub open spec fn spec_dfu_attributes(upload: bool, download: bool) -> u8 {
    (0x4int + (if upload {
        0x2int
    } else {
        0x0int
    }) + (if download {
        0x1int
    } else {
        0x0int
    })) as u8
}

/// Bytes of the DFU functional descriptor.
pub open spec fn spec_functional_descriptor(upload: bool, download: bool) -> Seq<u8> {
    seq![spec_dfu_attributes(upload, download), 255u8, 0u8, 0x00u8, 0x01u8, 0x10u8, 0x01u8]
}

/// A class request on the interface recipient addressed to this interface.
pub open spec fn spec_addressed(d: DfuView, req: ControlRequest) -> bool {
    &&& req.request_type is Class
    &&& req.recipient is Interface
    &&& req.index == d.comm_if as u16
}

/// Normalization before an IN request is dispatched: a standing error forces
/// the error state, and a completed deferred flash advances the busy state
/// back to sync.
pub open spec fn spec_normalize_in(d: DfuView) -> DfuView {
    let d1 = if !(d.status is StatusOk) {
        DfuView { state: DfuState::DfuError, ..d }
    } else {
        d
    };
    if d1.state is DfuDnloadBusy && !d1.awaits_flash {
        DfuView { state: DfuState::DfuDnloadSync, ..d1 }
    } else {
        d1
    }
}

/// The six reply bytes of a status request: status, poll timeout as three
/// little-endian bytes, state, and a zero string index.
pub open spec fn spec_status_reply(d: DfuView, wait_ms: u32) -> Seq<u8> {
    seq![
        spec_status_code(d.status),
        (wait_ms % 0x100) as u8,
        ((wait_ms / 0x100) % 0x100) as u8,
        ((wait_ms / 0x10000) % 0x100) as u8,
        spec_state_code(d.state),
        0u8,
    ]
}

/// State change and reply of a status request, from the normalized state:
/// the download handshake advances sync to busy or idle, busy back to sync
/// with a 500 ms poll timeout, and the manifest phase to manifest-sync and
/// on to idle once the commit is done.
pub open spec fn spec_get_status(n: DfuView) -> (DfuView, InReply) {
    match n.state {
        DfuState::DfuDnloadSync => {
            let n2 = if n.awaits_flash {
                DfuView { state: DfuState::DfuDnloadBusy, status: DfuDeviceStatus::StatusOk, ..n }
            } else {
                DfuView { state: DfuState::DfuDnloadIdle, status: DfuDeviceStatus::StatusOk, ..n }
            };
            (n2, InReply::Accepted(spec_status_reply(n2, 0)))
        },
        DfuState::DfuDnloadBusy => {
            let n2 = DfuView { state: DfuState::DfuDnloadSync, ..n };
            (n2, InReply::Accepted(spec_status_reply(n2, 500)))
        },
        DfuState::DfuManifest => {
            if n.manifesting {
                (n, InReply::Accepted(spec_status_reply(n, 500)))
            } else {
                let n2 = DfuView { state: DfuState::DfuManifestSync, ..n };
                (n2, InReply::Accepted(spec_status_reply(n2, 0)))
            }
        },
        DfuState::DfuManifestSync => {
            let n2 = DfuView { state: DfuState::DfuIdle, ..n };
            (n2, InReply::Accepted(spec_status_reply(n2, 0)))
        },
        _ => (n, InReply::Accepted(spec_status_reply(n, 0))),
    }
}

/// State change and reply of an IN control transfer: requests not addressed
/// to this interface pass by untouched; a status or state request replies as
/// the tables of the protocol say; anything else stalls and raises the
/// stale-packet error.
pub open spec fn spec_control_in(d: DfuView, req: ControlRequest) -> (DfuView, InReply) {
    if !spec_addressed(d, req) {
        (d, InReply::Ignored)
    } else {
        let n = spec_normalize_in(d);
        if req.request == DFU_UPLOAD && req.value == 0 && req.length > 0 && n.upload_capable {
            (n, InReply::Ignored)
        } else if req.request == DFU_GETSTATUS && req.value == 0 && req.length == 6 {
            spec_get_status(n)
        } else if req.request == DFU_GETSTATE && req.value == 0 && req.length == 1 {
            (n, InReply::Accepted(seq![spec_state_code(n.state)]))
        } else {
            (
                DfuView { state: DfuState::DfuError, status: DfuDeviceStatus::ErrStaledPkt, ..n },
                InReply::Rejected,
            )
        }
    }
}

/// The buffer with `data` laid over it starting at `at`.
pub open spec fn spec_overwrite(buf: Seq<u8>, at: int, data: Seq<u8>) -> Seq<u8> {
    Seq::new(
        buf.len(),
        |i: int|
            if at <= i < at + data.len() {
                data[i - at]
            } else {
                buf[i]
            },
    )
}

/// The download request that appends payload bytes is about to be accepted:
/// addressed, download-capable, a positive length, and an idle state.
pub open spec fn spec_dnload_appends(d: DfuView, req: ControlRequest) -> bool {
    &&& spec_addressed(d, req)
    &&& req.request == DFU_DNLOAD
    &&& d.download_capable
    &&& req.length > 0
    &&& (d.state is DfuIdle || d.state is DfuDnloadIdle)
}

/// State change and outcome of an OUT control transfer: a download chunk is
/// appended to the staging buffer after unlocking the flash, latching a
/// flush when the buffer reaches the page size; a zero-length download
/// begins the manifest phase; clear-status and abort are gated on their
/// states; anything else stalls and raises the stale-packet error.
pub open spec fn spec_control_out(d: DfuView, f: FlashView, req: ControlRequest, data: Seq<u8>)
    -> (DfuView, FlashView, OutResponse) {
    if !spec_addressed(d, req) {
        (d, f, OutResponse::Ignored)
    } else if req.request == DFU_DNLOAD && d.download_capable {
        if req.length > 0 {
            if d.state is DfuIdle || d.state is DfuDnloadIdle {
                let f2 = FlashView { locked: false, ..f };
                let idx2 = d.page_buffer_index + data.len();
                let d2 = DfuView {
                    state: DfuState::DfuDnloadSync,
                    page_buffer: spec_overwrite(d.page_buffer, d.page_buffer_index as int, data),
                    page_buffer_index: idx2 as usize,
                    awaits_flash: if idx2 == f.page_size() {
                        true
                    } else {
                        d.awaits_flash
                    },
                    ..d
                };
                (d2, f2, OutResponse::Accepted)
            } else {
                (d, f, OutResponse::Rejected)
            }
        } else {
            (
                DfuView { state: DfuState::DfuManifest, manifesting: true, awaits_flash: true, ..d },
                f,
                OutResponse::Accepted,
            )
        }
    } else if req.request == DFU_CLRSTATUS && req.value == 0 && req.length == 0 {
        if d.state is DfuError {
            (
                DfuView { state: DfuState::DfuIdle, status: DfuDeviceStatus::StatusOk, ..d },
                f,
                OutResponse::Accepted,
            )
        } else {
            (d, f, OutResponse::Rejected)
        }
    } else if req.request == DFU_ABORT && req.value == 0 && req.length == 0 {
        if d.state is DfuIdle {
            (DfuView { status: DfuDeviceStatus::StatusOk, ..d }, f, OutResponse::Accepted)
        } else {
            (d, f, OutResponse::Rejected)
        }
    } else {
        (
            DfuView { state: DfuState::DfuError, status: DfuDeviceStatus::ErrStaledPkt, ..d },
            f,
            OutResponse::Rejected,
        )
    }
}

/// The 32-bit word packed little-endian from four successive buffer bytes.
pub open spec fn spec_word_le(buf: Seq<u8>, j: int) -> u32 {
    (buf[j] + buf[j + 1] * 0x100 + buf[j + 2] * 0x10000 + buf[j + 3] * 0x1000000) as u32
}

/// State of the flash and number of words committed after words `i` up to
/// `n` of the staging buffer are programmed from `base`, word by word,
/// stopping at the first failed write.
pub open spec fn spec_program_span(f: FlashView, base: int, buf: Seq<u8>, i: int, n: int) -> (
    FlashView,
    int,
)
    decreases n - i,
{
    if i >= n {
        (f, i)
    } else {
        let r = spec_write_word(f, base + 4 * i, spec_word_le(buf, 4 * i));
        if r.1 {
            spec_program_span(r.0, base, buf, i + 1, n)
        } else {
            (r.0, i)
        }
    }
}

/// State after a latched page flush: the page at the next free address of
/// the application region is erased and the staged words are programmed.
/// On success the committed size advances by the staged byte count; on a
/// failed word the write error is raised and the page abandoned. Either way
/// the staging buffer index returns to zero and the latches clear.
pub open spec fn spec_flush_page(d: DfuView, f: FlashView) -> (DfuView, FlashView) {
    let base = PAGE_START + d.firmware_size as int;
    let f1 = spec_erase_page(f, base);
    let n = d.page_buffer_index as int / 4;
    let r = spec_program_span(f1, base, d.page_buffer, 0, n);
    if r.1 == n {
        (
            DfuView {
                status: if n > 0 {
                    DfuDeviceStatus::StatusOk
                } else {
                    d.status
                },
                firmware_size: (d.firmware_size + d.page_buffer_index) as u32,
                page_buffer_index: 0,
                awaits_flash: false,
                flashing: false,
                ..d
            },
            r.0,
        )
    } else {
        (
            DfuView {
                status: DfuDeviceStatus::ErrWrite,
                page_buffer_index: 0,
                awaits_flash: false,
                flashing: false,
                ..d
            },
            r.0,
        )
    }
}

/// State after a latched manifest commit: a fresh boot-flags record — count
/// one past the previous record, or one, the committed size as the image
/// length, both presence booleans set — is written through the store, the
/// flags are re-read, and the flash is locked.
pub open spec fn spec_manifest(d: DfuView, f: FlashView) -> (DfuView, FlashView) {
    let fc = match d.flags {
        Some(fl) => (fl.flash_count + 1) as u32,
        None => 1u32,
    };
    let b = BlFlags {
        magic: BL_MAGIC,
        flash_count: fc,
        user_code_legit: true,
        user_code_present: true,
        user_code_length: d.firmware_size,
    };
    let f1 = spec_write_bl_flags(f, b);
    (
        DfuView { flags: spec_read_bl_flags(f1), manifesting: false, flashing: false, ..d },
        FlashView { locked: true, ..f1 },
    )
}

/// State after one round of deferred flash work: a latched page flush runs
/// first; once no flush is pending, a latched manifest commits the
/// metadata; with nothing latched, nothing changes.
pub open spec fn spec_process_flash(d: DfuView, f: FlashView) -> (DfuView, FlashView) {
    if d.awaits_flash && !d.flashing {
        spec_flush_page(d, f)
    } else if d.manifesting && !d.flashing {
        spec_manifest(d, f)
    } else {
        (d, f)
    }
}

/// Lay `data` over `buf` starting at `at`.
fn overwrite_into(buf: &mut Vec<u8>, at: usize, data: &[u8])
    requires
        at + data@.len() <= old(buf)@.len(),
    ensures
        final(buf)@ == spec_overwrite(old(buf)@, at as int, data@),
{
    let n: usize = data.len();
    let cap: usize = buf.len();
    let mut i: usize = 0;
    while i < n
        invariant
            n == data@.len(),
            at + n <= cap,
            cap == buf@.len(),
            buf@.len() == old(buf)@.len(),
            i <= n,
            forall|j: int|
                0 <= j < buf@.len() ==> buf@[j] == (if at <= j < at + i {
                    data@[j - at]
                } else {
                    old(buf)@[j]
                }),
        decreases n - i,
    {
        buf.set(at + i, data[i]);
        i = i + 1;
    }
    proof {
        assert(final(buf)@ =~= spec_overwrite(old(buf)@, at as int, data@));
    }
}

impl Dfu {
    /// Six reply bytes of a status request from the current session state.
    fn status_reply(&self, wait_ms: u32) -> (r: Vec<u8>)
        ensures
            r@ == spec_status_reply(self@, wait_ms),
    {
        let r: Vec<u8> = vec![
            status_code(self.status),
            (wait_ms % 0x100) as u8,
            ((wait_ms / 0x100) % 0x100) as u8,
            ((wait_ms / 0x10000) % 0x100) as u8,
            state_code(self.state),
            0u8,
        ];
        proof {
            assert(r@ =~= spec_status_reply(self@, wait_ms));
        }
        r
    }

    /// Handle an IN control transfer: reply with status or state, advance
    /// the poll handshake, or stall an unrecognized request.
    pub fn control_in(&mut self, req: &ControlRequest) -> (r: InResponse)
        ensures
            final(self)@ == spec_control_in(old(self)@, *req).0,
            spec_in_reply(r) == spec_control_in(old(self)@, *req).1,
    {
        if !(matches!(req.request_type, RequestType::Class)
            && matches!(req.recipient, Recipient::Interface)
            && req.index == self.comm_if as u16) {
            return InResponse::Ignored;
        }
        match self.status {
            DfuDeviceStatus::StatusOk => {},
            _ => {
                self.state = DfuState::DfuError;
            },
        }
        match self.state {
            DfuState::DfuDnloadBusy => {
                if !self.awaits_flash {
                    self.state = DfuState::DfuDnloadSync;
                }
            },
            _ => {},
        }
        if req.request == DFU_UPLOAD && req.value == 0 && req.length > 0 && self.upload_capable {
            InResponse::Ignored
        } else if req.request == DFU_GETSTATUS && req.value == 0 && req.length == 6 {
            match self.state {
                DfuState::DfuDnloadSync => {
                    if self.awaits_flash {
                        self.state = DfuState::DfuDnloadBusy;
                    } else {
                        self.state = DfuState::DfuDnloadIdle;
                    }
                    self.status = DfuDeviceStatus::StatusOk;
                    InResponse::Accepted(self.status_reply(0))
                },
                DfuState::DfuDnloadBusy => {
                    self.state = DfuState::DfuDnloadSync;
                    InResponse::Accepted(self.status_reply(500))
                },
                DfuState::DfuManifest => {
                    if self.manifesting {
                        InResponse::Accepted(self.status_reply(500))
                    } else {
                        self.state = DfuState::DfuManifestSync;
                        InResponse::Accepted(self.status_reply(0))
                    }
                },
                DfuState::DfuManifestSync => {
                    self.state = DfuState::DfuIdle;
                    InResponse::Accepted(self.status_reply(0))
                },
                _ => InResponse::Accepted(self.status_reply(0)),
            }
        } else if req.request == DFU_GETSTATE && req.value == 0 && req.length == 1 {
            let r: Vec<u8> = vec![state_code(self.state)];
            proof {
                assert(r@ =~= seq![spec_state_code(self@.state)]);
            }
            InResponse::Accepted(r)
        } else {
            self.state = DfuState::DfuError;
            self.status = DfuDeviceStatus::ErrStaledPkt;
            InResponse::Rejected
        }
    }

    /// Handle an OUT control transfer: append a download chunk to the
    /// staging buffer, begin the manifest phase on a zero-length download,
    /// clear a standing error, take an abort, or stall anything else. The
    /// handler performs no flash work itself beyond unlocking; it latches
    /// flushing for `process_flash`.
    pub fn control_out(&mut self, flash: &mut FlashMem, req: &ControlRequest, data: &[u8]) -> (r:
        OutResponse)
        requires
            old(self)@.wf(),
            spec_dnload_appends(old(self)@, *req) ==> {
                &&& old(self)@.page_buffer_index + data@.len() <= BIGGEST_PAGE
                &&& data@.len() % 4 == 0
                &&& old(self)@.firmware_size + old(self)@.page_buffer_index + data@.len()
                    <= APP_REGION_SIZE
            },
        ensures
            final(self)@ == spec_control_out(old(self)@, old(flash)@, *req, data@).0,
            final(flash)@ == spec_control_out(old(self)@, old(flash)@, *req, data@).1,
            r == spec_control_out(old(self)@, old(flash)@, *req, data@).2,
            final(self)@.wf(),
    {
        if !(matches!(req.request_type, RequestType::Class)
            && matches!(req.recipient, Recipient::Interface)
            && req.index == self.comm_if as u16) {
            return OutResponse::Ignored;
        }
        if req.request == DFU_DNLOAD && self.download_capable {
            if req.length > 0 {
                match self.state {
                    DfuState::DfuIdle | DfuState::DfuDnloadIdle => {
                        flash.unlock_flash();
                        let start = self.page_buffer_index;
                        let len = data.len();
                        let page_size = flash.get_flash_pg_size();
                        overwrite_into(&mut self.page_buffer, start, data);
                        self.page_buffer_index = start + len;
                        if self.page_buffer_index == page_size as usize {
                            self.awaits_flash = true;
                        }
                        self.state = DfuState::DfuDnloadSync;
                        OutResponse::Accepted
                    },
                    _ => OutResponse::Rejected,
                }
            } else {
                self.state = DfuState::DfuManifest;
                self.manifesting = true;
                self.awaits_flash = true;
                OutResponse::Accepted
            }
        } else if req.request == DFU_CLRSTATUS && req.value == 0 && req.length == 0 {
            match self.state {
                DfuState::DfuError => {
                    self.state = DfuState::DfuIdle;
                    self.status = DfuDeviceStatus::StatusOk;
                    OutResponse::Accepted
                },
                _ => OutResponse::Rejected,
            }
        } else if req.request == DFU_ABORT && req.value == 0 && req.length == 0 {
            match self.state {
                DfuState::DfuIdle => {
                    self.status = DfuDeviceStatus::StatusOk;
                    OutResponse::Accepted
                },
                _ => OutResponse::Rejected,
            }
        } else {
            self.state = DfuState::DfuError;
            self.status = DfuDeviceStatus::ErrStaledPkt;
            OutResponse::Rejected
        }
    }

    /// A USB bus reset reverts the class to idle and discards the staging
    /// buffer: the index and both work latches clear; the committed size
    /// and the boot flags stay as they are.
    pub fn reset(&mut self)
        requires
            old(self)@.wf(),
        ensures
            (final(self)@ == DfuView {
                state: DfuState::DfuIdle,
                page_buffer_index: 0,
                awaits_flash: false,
                manifesting: false,
                ..old(self)@
            }),
            final(self)@.wf(),
    {
        self.state = DfuState::DfuIdle;
        self.page_buffer_index = 0;
        self.awaits_flash = false;
        self.manifesting = false;
    }

    /// Drain the deferred flash work, invoked after each USB poll: flush a
    /// full or final staging page to flash, or commit the manifest
    /// metadata. On real hardware this runs in a critical section with
    /// interrupts disabled; here the exclusive borrows stand for it.
    pub fn process_flash(&mut self, flash: &mut FlashMem)
        requires
            old(self)@.wf(),
            old(flash)@.wf(),
            (old(self)@.manifesting && !old(self)@.awaits_flash) ==> match old(self)@.flags {
                Some(fl) => fl.flash_count < 0xffff_ffffu32,
                None => true,
            },
        ensures
            final(self)@ == spec_process_flash(old(self)@, old(flash)@).0,
            final(flash)@ == spec_process_flash(old(self)@, old(flash)@).1,
            final(self)@.wf(),
            final(flash)@.wf(),
    {
        if self.awaits_flash && !self.flashing {
            self.flashing = true;
            let addr0: u32 = PAGE_START + self.firmware_size;
            flash.erase_page(addr0);
            let ghost f1 = flash@;
            let ghost base = addr0 as int;
            let ghost buf = self.page_buffer@;
            let n: usize = self.page_buffer_index / 4;
            let mut i: usize = 0;
            let mut failed: bool = false;
            while i < n && !failed
                invariant
                    old(self)@.wf(),
                    self@ == (DfuView { flashing: true, ..old(self)@ }),
                    flash@.wf(),
                    flash@.size_kib == f1.size_kib,
                    flash@.words.len() == f1.words.len(),
                    f1.wf(),
                    buf == old(self)@.page_buffer,
                    base == PAGE_START + old(self)@.firmware_size as int,
                    addr0 as int == base,
                    addr0 % 4 == 0,
                    n == old(self)@.page_buffer_index as int / 4,
                    4 * n <= old(self)@.page_buffer_index,
                    i <= n,
                    !failed ==> spec_program_span(f1, base, buf, 0, n as int)
                        == spec_program_span(flash@, base, buf, i as int, n as int),
                    failed ==> spec_program_span(f1, base, buf, 0, n as int) == (
                        flash@,
                        i as int,
                    ) && i < n,
                decreases n - i + (if failed {
                    0int
                } else {
                    1int
                }),
            {
                let b0 = self.page_buffer[4 * i];
                let b1 = self.page_buffer[4 * i + 1];
                let b2 = self.page_buffer[4 * i + 2];
                let b3 = self.page_buffer[4 * i + 3];
                let w: u32 = b0 as u32 + b1 as u32 * 0x100 + b2 as u32 * 0x10000 + b3 as u32
                    * 0x1000000;
                proof {
                    assert(addr0 as int + 4 * (i as int) < 0x0802_0000);
                    assert(flash@.store_end() >= 0x0802_0000);
                }
                let addr: u32 = addr0 + (4 * i) as u32;
                let ghost fpre = flash@;
                match flash.write_word(addr, w) {
                    Result::Ok(_) => {
                        proof {
                            assert(spec_program_span(fpre, base, buf, i as int, n as int)
                                == spec_program_span(flash@, base, buf, i as int + 1, n as int));
                        }
                        i = i + 1;
                    },
                    Result::Err(_) => {
                        proof {
                            assert(spec_program_span(fpre, base, buf, i as int, n as int) == (
                            flash@,
                            i as int,
                            ));
                        }
                        failed = true;
                    },
                }
            }
            if failed {
                self.status = DfuDeviceStatus::ErrWrite;
                self.page_buffer_index = 0;
                self.awaits_flash = false;
                self.flashing = false;
                proof {
                    assert(final(self)@ =~= spec_process_flash(old(self)@, old(flash)@).0);
                }
            } else {
                if n > 0 {
                    self.status = DfuDeviceStatus::StatusOk;
                }
                self.firmware_size = self.firmware_size + self.page_buffer_index as u32;
                self.page_buffer_index = 0;
                self.awaits_flash = false;
                self.flashing = false;
                proof {
                    assert(final(self)@ =~= spec_process_flash(old(self)@, old(flash)@).0);
                }
            }
        } else if self.manifesting && !self.flashing {
            self.flashing = true;
            let flash_count: u32 = match self.flags {
                Some(fl) => fl.flash_count + 1,
                None => 1,
            };
            let b = BlFlags {
                magic: BL_MAGIC,
                flash_count,
                user_code_legit: true,
                user_code_present: true,
                user_code_length: self.firmware_size,
            };
            write_bl_flags(flash, &b);
            self.flags = read_bl_flags(flash);
            flash.lock_flash();
            self.manifesting = false;
            self.flashing = false;
        }
    }
}

} // verus!
