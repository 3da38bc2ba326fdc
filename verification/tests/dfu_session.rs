//! Tests of the DFU state machine, the deferred flash work, and the
//! end-to-end programming sessions a host would drive.

use dfu_boot::boot::{boot_blink_count, should_enter_dfu, user_code_ready};
use dfu_boot::config::{BL_FLAGS_HIGH, BL_FLAGS_LOW, BL_MAGIC, ERASED_WORD, PAGE_START};
use dfu_boot::dfu::{
    state_code, status_code, ControlRequest, Dfu, DfuDeviceStatus, DfuState, InResponse,
    OutResponse, Recipient, RequestType, DFU_ABORT, DFU_CLRSTATUS, DFU_DNLOAD, DFU_GETSTATE,
    DFU_GETSTATUS,
};
use dfu_boot::flash::FlashMem;

const IFACE: u8 = 0;

fn class_req(request: u8, value: u16, length: u16) -> ControlRequest {
    ControlRequest {
        request_type: RequestType::Class,
        recipient: Recipient::Interface,
        request,
        value,
        index: IFACE as u16,
        length,
    }
}

fn fresh_session(flash: &FlashMem) -> Dfu {
    Dfu::new(flash, IFACE, vec![4, 5], true)
}

fn get_status(dfu: &mut Dfu) -> Vec<u8> {
    match dfu.control_in(&class_req(DFU_GETSTATUS, 0, 6)) {
        InResponse::Accepted(bytes) => bytes,
        _ => panic!("status request not accepted"),
    }
}

fn dnload(dfu: &mut Dfu, flash: &mut FlashMem, data: &[u8]) -> OutResponse {
    dfu.control_out(flash, &class_req(DFU_DNLOAD, 0, data.len() as u16), data)
}

#[test]
fn page_accumulation_latches_flush() {
    let mut flash = FlashMem::new(128);
    let mut dfu = fresh_session(&flash);
    // Four transfers of 256 bytes sum to exactly one 1024-byte page; the
    // host polls status between the chunks.
    for chunk in 0..4u32 {
        let data: Vec<u8> = (0..256).map(|i| ((chunk * 256 + i) % 256) as u8).collect();
        assert_eq!(dnload(&mut dfu, &mut flash, &data), OutResponse::Accepted);
        assert_eq!(dfu.state, DfuState::DfuDnloadSync);
        if chunk < 3 {
            assert!(!dfu.awaits_flash);
            get_status(&mut dfu);
            assert_eq!(dfu.state, DfuState::DfuDnloadIdle);
        }
    }
    assert!(dfu.awaits_flash);
    assert_eq!(dfu.state, DfuState::DfuDnloadSync);
    assert_eq!(dfu.page_buffer_index, 1024);
    dfu.process_flash(&mut flash);
    assert_eq!(dfu.firmware_size, 1024);
    assert_eq!(dfu.page_buffer_index, 0);
    assert!(!dfu.awaits_flash);
}

#[test]
fn get_status_handshake_sequence() {
    let mut flash = FlashMem::new(128);
    let mut dfu = fresh_session(&flash);
    let data: Vec<u8> = (0..1024).map(|i| (i % 256) as u8).collect();
    assert_eq!(dnload(&mut dfu, &mut flash, &data), OutResponse::Accepted);
    assert!(dfu.awaits_flash);
    // Before the deferred work runs, the replies walk busy then sync with
    // the 500 ms back-off; afterward the next poll answers idle.
    assert_eq!(get_status(&mut dfu), vec![0, 0, 0, 0, 4, 0]);
    assert_eq!(get_status(&mut dfu), vec![0, 0xF4, 0x01, 0, 3, 0]);
    dfu.process_flash(&mut flash);
    assert_eq!(get_status(&mut dfu), vec![0, 0, 0, 0, 5, 0]);
    assert_eq!(dfu.state, DfuState::DfuDnloadIdle);
}

#[test]
fn manifest_commits_metadata() {
    let mut flash = FlashMem::new(128);
    let mut dfu = fresh_session(&flash);
    let data: Vec<u8> = (0..1024).map(|i| (i % 256) as u8).collect();
    dnload(&mut dfu, &mut flash, &data);
    dfu.process_flash(&mut flash);
    assert_eq!(dnload(&mut dfu, &mut flash, &[]), OutResponse::Accepted);
    assert_eq!(dfu.state, DfuState::DfuManifest);
    assert!(dfu.manifesting);
    // One round drains the (empty) staging page, the next commits the
    // metadata.
    dfu.process_flash(&mut flash);
    dfu.process_flash(&mut flash);
    let flags = dfu.flags().expect("flags written");
    assert_eq!(flags.magic, BL_MAGIC);
    assert_eq!(flags.flash_count, 1);
    assert!(flags.user_code_legit);
    assert!(flags.user_code_present);
    assert_eq!(flags.user_code_length, 1024);
    assert!(!dfu.manifesting);
    assert!(flash.locked);
}

#[test]
fn manifest_increments_flash_count() {
    let mut flash = FlashMem::new(128);
    flash.unlock_flash();
    dfu_boot::flags::write_bl_flags(
        &mut flash,
        &dfu_boot::flags::BlFlags {
            magic: BL_MAGIC,
            flash_count: 41,
            user_code_legit: true,
            user_code_present: true,
            user_code_length: 512,
        },
    );
    let mut dfu = fresh_session(&flash);
    let data: Vec<u8> = (0..1024).map(|i| (i % 256) as u8).collect();
    dnload(&mut dfu, &mut flash, &data);
    dfu.process_flash(&mut flash);
    dnload(&mut dfu, &mut flash, &[]);
    dfu.process_flash(&mut flash);
    dfu.process_flash(&mut flash);
    assert_eq!(dfu.flags().unwrap().flash_count, 42);
}

#[test]
fn scenario_fresh_128k_part() {
    // Fresh device: no record, blink count two, one full page downloaded
    // and manifested.
    let mut flash = FlashMem::new(128);
    let mut dfu = fresh_session(&flash);
    assert_eq!(dfu.flags(), None);
    assert_eq!(boot_blink_count(dfu.flags().is_some()), 2);
    let data: Vec<u8> = (0..0x400).map(|i| (i % 256) as u8).collect();
    assert_eq!(dnload(&mut dfu, &mut flash, &data), OutResponse::Accepted);
    dfu.process_flash(&mut flash);
    assert_eq!(dfu.firmware_size, 1024);
    assert_eq!(dnload(&mut dfu, &mut flash, &[]), OutResponse::Accepted);
    dfu.process_flash(&mut flash);
    dfu.process_flash(&mut flash);
    let flags = dfu.flags().unwrap();
    assert_eq!(flags.flash_count, 1);
    assert_eq!(flags.user_code_length, 1024);
    assert!(flags.user_code_legit);
    assert!(flags.user_code_present);
    // The record sits at the primary address, the image in the application
    // region, packed little-endian.
    assert_eq!(flash.read_word(BL_FLAGS_HIGH), BL_MAGIC);
    assert_eq!(flash.read_word(PAGE_START), 0x0302_0100);
    assert_eq!(flash.read_word(PAGE_START + 4), 0x0706_0504);
    assert_eq!(boot_blink_count(dfu.flags().is_some()), 4);
}

#[test]
fn scenario_64k_part_falls_back() {
    let mut flash = FlashMem::new(64);
    let mut dfu = fresh_session(&flash);
    let data: Vec<u8> = (0..0x400).map(|i| (i % 256) as u8).collect();
    assert_eq!(dnload(&mut dfu, &mut flash, &data), OutResponse::Accepted);
    dfu.process_flash(&mut flash);
    dnload(&mut dfu, &mut flash, &[]);
    dfu.process_flash(&mut flash);
    dfu.process_flash(&mut flash);
    // The primary erase raised the programming error: the record fell back.
    assert_eq!(flash.read_word(BL_FLAGS_LOW), BL_MAGIC);
    assert_eq!(flash.read_word(BL_FLAGS_LOW + 16), 1024);
    assert_eq!(flash.read_word(BL_FLAGS_HIGH), ERASED_WORD);
    assert_eq!(dfu.flags().unwrap().user_code_length, 1024);
}

#[test]
fn scenario_unknown_request_stalls() {
    let mut flash = FlashMem::new(128);
    let mut dfu = fresh_session(&flash);
    assert_eq!(dfu.state, DfuState::DfuIdle);
    let r = dfu.control_out(&mut flash, &class_req(7, 0, 0), &[]);
    assert_eq!(r, OutResponse::Rejected);
    assert_eq!(dfu.state, DfuState::DfuError);
    assert_eq!(dfu.status, DfuDeviceStatus::ErrStaledPkt);
    let r = dfu.control_out(&mut flash, &class_req(DFU_CLRSTATUS, 0, 0), &[]);
    assert_eq!(r, OutResponse::Accepted);
    assert_eq!(dfu.state, DfuState::DfuIdle);
    assert_eq!(dfu.status, DfuDeviceStatus::StatusOk);
}

#[test]
fn scenario_verify_failure_mid_page() {
    let mut flash = FlashMem::new(128);
    // One word in the middle of the first page never reads back.
    flash.inject_fault(PAGE_START + 512, 3);
    let mut dfu = fresh_session(&flash);
    let data: Vec<u8> = (0..1024).map(|i| (i % 256) as u8).collect();
    assert_eq!(dnload(&mut dfu, &mut flash, &data), OutResponse::Accepted);
    dfu.process_flash(&mut flash);
    assert_eq!(dfu.status, DfuDeviceStatus::ErrWrite);
    assert_eq!(dfu.page_buffer_index, 0);
    assert!(!dfu.awaits_flash);
    assert!(!dfu.flashing);
    assert_eq!(dfu.firmware_size, 0);
    // The next status poll reports the write error from the error state.
    assert_eq!(get_status(&mut dfu), vec![3, 0, 0, 0, 10, 0]);
    assert_eq!(dfu.state, DfuState::DfuError);
}

#[test]
fn clrstatus_accepted_only_in_error_state() {
    let out_of_error = [
        DfuState::AppIdle,
        DfuState::AppDetach,
        DfuState::DfuIdle,
        DfuState::DfuDnloadSync,
        DfuState::DfuDnloadBusy,
        DfuState::DfuDnloadIdle,
        DfuState::DfuManifestSync,
        DfuState::DfuManifest,
        DfuState::DfuManifestWaitReset,
        DfuState::DfuUploadIdle,
    ];
    let mut flash = FlashMem::new(128);
    for state in out_of_error {
        let mut dfu = fresh_session(&flash);
        dfu.state = state;
        let r = dfu.control_out(&mut flash, &class_req(DFU_CLRSTATUS, 0, 0), &[]);
        assert_eq!(r, OutResponse::Rejected);
        assert_eq!(dfu.state, state);
    }
    let mut dfu = fresh_session(&flash);
    dfu.state = DfuState::DfuError;
    dfu.status = DfuDeviceStatus::ErrStaledPkt;
    let r = dfu.control_out(&mut flash, &class_req(DFU_CLRSTATUS, 0, 0), &[]);
    assert_eq!(r, OutResponse::Accepted);
    assert_eq!(dfu.state, DfuState::DfuIdle);
    assert_eq!(dfu.status, DfuDeviceStatus::StatusOk);
}

#[test]
fn dnload_rejected_out_of_state() {
    let blocked = [
        DfuState::DfuManifest,
        DfuState::DfuDnloadSync,
        DfuState::DfuDnloadBusy,
        DfuState::DfuError,
    ];
    for state in blocked {
        let mut flash = FlashMem::new(128);
        let mut dfu = fresh_session(&flash);
        dfu.state = state;
        let before_index = dfu.page_buffer_index;
        let before_byte = dfu.page_buffer[0];
        let r = dnload(&mut dfu, &mut flash, &[1, 2, 3, 4]);
        assert_eq!(r, OutResponse::Rejected);
        assert_eq!(dfu.page_buffer_index, before_index);
        assert_eq!(dfu.page_buffer[0], before_byte);
    }
}

#[test]
fn abort_accepted_only_when_idle() {
    let mut flash = FlashMem::new(128);
    let mut dfu = fresh_session(&flash);
    assert_eq!(
        dfu.control_out(&mut flash, &class_req(DFU_ABORT, 0, 0), &[]),
        OutResponse::Accepted
    );
    assert_eq!(dfu.state, DfuState::DfuIdle);
    let mut dfu = fresh_session(&flash);
    dfu.state = DfuState::DfuDnloadIdle;
    assert_eq!(
        dfu.control_out(&mut flash, &class_req(DFU_ABORT, 0, 0), &[]),
        OutResponse::Rejected
    );
}

#[test]
fn get_state_reports_state_byte() {
    let mut flash = FlashMem::new(128);
    let mut dfu = fresh_session(&flash);
    match dfu.control_in(&class_req(DFU_GETSTATE, 0, 1)) {
        InResponse::Accepted(bytes) => assert_eq!(bytes, vec![2]),
        _ => panic!("state request not accepted"),
    }
    dfu.state = DfuState::DfuManifest;
    match dfu.control_in(&class_req(DFU_GETSTATE, 0, 1)) {
        InResponse::Accepted(bytes) => assert_eq!(bytes, vec![7]),
        _ => panic!("state request not accepted"),
    }
}

#[test]
fn requests_for_other_recipients_pass_by() {
    let mut flash = FlashMem::new(128);
    let mut dfu = fresh_session(&flash);
    let req = ControlRequest {
        request_type: RequestType::Standard,
        recipient: Recipient::Interface,
        request: DFU_GETSTATUS,
        value: 0,
        index: IFACE as u16,
        length: 6,
    };
    assert!(matches!(dfu.control_in(&req), InResponse::Ignored));
    let req = ControlRequest {
        request_type: RequestType::Class,
        recipient: Recipient::Interface,
        request: DFU_DNLOAD,
        value: 0,
        index: 9,
        length: 4,
    };
    assert_eq!(
        dfu.control_out(&mut flash, &req, &[1, 2, 3, 4]),
        OutResponse::Ignored
    );
    assert_eq!(dfu.state, DfuState::DfuIdle);
}

#[test]
fn descriptors_match_wire_format() {
    let flash = FlashMem::new(128);
    let dfu = fresh_session(&flash);
    assert_eq!(
        dfu.get_bos_capability(),
        vec![
            0x00, 0xDF, 0x60, 0xDD, 0xD8, 0x89, 0x45, 0xC7, 0x4C, 0x9C, 0xD2, 0x65, 0x9D, 0x9E,
            0x64, 0x8A, 0x9F, 0x00, 0x00, 0x03, 0x06, 0xB2, 0x00, 0x21, 0x00,
        ]
    );
    // Download-capable, upload disabled: manifestation-tolerant plus the
    // download bit; 255 ms detach timeout; 256-byte transfers; DFU 1.10.
    assert_eq!(
        dfu.get_functional_descriptor(),
        vec![0x05, 255, 0, 0x00, 0x01, 0x10, 0x01]
    );
    let no_dl = Dfu::new(&flash, IFACE, vec![4, 5], false);
    assert_eq!(no_dl.get_functional_descriptor()[0], 0x04);
}

#[test]
fn alt_settings_and_strings() {
    let flash = FlashMem::new(128);
    let mut dfu = fresh_session(&flash);
    assert_eq!(dfu.get_alt_setting(IFACE), Some(0));
    assert_eq!(dfu.get_alt_setting(3), None);
    assert!(dfu.set_alt_setting(IFACE, 1));
    assert_eq!(dfu.get_alt_setting(IFACE), Some(1));
    assert!(!dfu.set_alt_setting(3, 0));
    assert_eq!(dfu.get_string(4), Some("DFU Bootloader 0.2.0"));
    assert_eq!(dfu.get_string(5), Some("TEST"));
    assert_eq!(dfu.get_string(6), None);
}

#[test]
fn boot_entry_decisions() {
    assert!(should_enter_dfu(true, false));
    assert!(should_enter_dfu(false, true));
    assert!(should_enter_dfu(true, true));
    assert!(!should_enter_dfu(false, false));
    assert!(!user_code_ready(&None));
    let present = dfu_boot::flags::BlFlags {
        magic: BL_MAGIC,
        flash_count: 1,
        user_code_legit: true,
        user_code_present: true,
        user_code_length: 4,
    };
    assert!(user_code_ready(&Some(present)));
    let absent = dfu_boot::flags::BlFlags {
        user_code_present: false,
        ..present
    };
    assert!(!user_code_ready(&Some(absent)));
}

#[test]
fn session_on_2048_byte_pages() {
    // Above 128 KiB the page is 2048 bytes and the staging buffer fills
    // completely.
    let mut flash = FlashMem::new(256);
    let mut dfu = fresh_session(&flash);
    let data: Vec<u8> = (0..2048).map(|i| (i % 256) as u8).collect();
    assert_eq!(dnload(&mut dfu, &mut flash, &data), OutResponse::Accepted);
    assert!(dfu.awaits_flash);
    assert_eq!(dfu.page_buffer_index, 2048);
    dfu.process_flash(&mut flash);
    assert_eq!(dfu.firmware_size, 2048);
    dnload(&mut dfu, &mut flash, &[]);
    dfu.process_flash(&mut flash);
    dfu.process_flash(&mut flash);
    assert_eq!(dfu.flags().unwrap().user_code_length, 2048);
    assert_eq!(flash.read_word(BL_FLAGS_HIGH), BL_MAGIC);
}

#[test]
fn reflash_on_64k_part_increments_at_fallback() {
    let mut flash = FlashMem::new(64);
    flash.unlock_flash();
    dfu_boot::flags::write_bl_flags(
        &mut flash,
        &dfu_boot::flags::BlFlags {
            magic: BL_MAGIC,
            flash_count: 5,
            user_code_legit: true,
            user_code_present: true,
            user_code_length: 1024,
        },
    );
    flash.lock_flash();
    let mut dfu = fresh_session(&flash);
    assert_eq!(dfu.flags().unwrap().flash_count, 5);
    let data: Vec<u8> = (0..1024).map(|i| (i % 256) as u8).collect();
    dnload(&mut dfu, &mut flash, &data);
    dfu.process_flash(&mut flash);
    dnload(&mut dfu, &mut flash, &[]);
    dfu.process_flash(&mut flash);
    dfu.process_flash(&mut flash);
    let flags = dfu.flags().unwrap();
    assert_eq!(flags.flash_count, 6);
    assert_eq!(flash.read_word(BL_FLAGS_LOW + 4), 6);
    assert!(flash.locked);
}

#[test]
fn bus_reset_discards_staging() {
    let mut flash = FlashMem::new(128);
    let mut dfu = fresh_session(&flash);
    let data: Vec<u8> = (0..1024).map(|i| (i % 256) as u8).collect();
    dnload(&mut dfu, &mut flash, &data);
    assert!(dfu.awaits_flash);
    dfu.reset();
    assert_eq!(dfu.state, DfuState::DfuIdle);
    assert_eq!(dfu.page_buffer_index, 0);
    assert!(!dfu.awaits_flash);
    assert!(!dfu.manifesting);
    assert_eq!(dfu.firmware_size, 0);
}

#[test]
fn status_codes_match_wire_order() {
    assert_eq!(status_code(DfuDeviceStatus::StatusOk), 0);
    assert_eq!(status_code(DfuDeviceStatus::ErrWrite), 3);
    assert_eq!(status_code(DfuDeviceStatus::ErrStaledPkt), 15);
    assert_eq!(state_code(DfuState::DfuIdle), 2);
    assert_eq!(state_code(DfuState::DfuDnloadBusy), 4);
    assert_eq!(state_code(DfuState::DfuError), 10);
}
