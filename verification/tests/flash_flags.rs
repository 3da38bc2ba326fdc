//! Tests of the flash programming engine and the boot-flags store.

use dfu_boot::config::{BL_FLAGS_HIGH, BL_FLAGS_LOW, BL_MAGIC, ERASED_WORD, PAGE_START};
use dfu_boot::flags::{read_bl_flags, write_bl_flags, BlFlags};
use dfu_boot::flash::FlashMem;

fn sample_flags(count: u32, len: u32) -> BlFlags {
    BlFlags {
        magic: BL_MAGIC,
        flash_count: count,
        user_code_legit: true,
        user_code_present: true,
        user_code_length: len,
    }
}

#[test]
fn flags_round_trip_128k() {
    let mut flash = FlashMem::new(128);
    flash.unlock_flash();
    let flags = sample_flags(7, 4096);
    write_bl_flags(&mut flash, &flags);
    assert_eq!(read_bl_flags(&flash), Some(flags));
    // On a 128 KiB part the record lands at the primary address.
    assert_eq!(flash.read_word(BL_FLAGS_HIGH), BL_MAGIC);
    assert_eq!(flash.read_word(BL_FLAGS_HIGH + 4), 7);
    assert_eq!(flash.read_word(BL_FLAGS_HIGH + 8), 1);
    assert_eq!(flash.read_word(BL_FLAGS_HIGH + 12), 1);
    assert_eq!(flash.read_word(BL_FLAGS_HIGH + 16), 4096);
}

#[test]
fn flags_round_trip_booleans() {
    let mut flash = FlashMem::new(128);
    flash.unlock_flash();
    let flags = BlFlags {
        magic: BL_MAGIC,
        flash_count: 1,
        user_code_legit: false,
        user_code_present: false,
        user_code_length: 0,
    };
    write_bl_flags(&mut flash, &flags);
    assert_eq!(read_bl_flags(&flash), Some(flags));
    assert_eq!(flash.read_word(BL_FLAGS_HIGH + 8), 0);
    assert_eq!(flash.read_word(BL_FLAGS_HIGH + 12), 0);
}

#[test]
fn flags_absent_without_magic() {
    let flash = FlashMem::new(128);
    assert_eq!(read_bl_flags(&flash), None);
    // A record-shaped value whose first word is not the magic stays invisible.
    let mut flash = FlashMem::new(128);
    flash.preload_word(BL_FLAGS_HIGH, 0x1234_5678);
    flash.preload_word(BL_FLAGS_HIGH + 4, 3);
    assert_eq!(read_bl_flags(&flash), None);
}

#[test]
fn flags_fallback_on_64k() {
    let mut flash = FlashMem::new(64);
    flash.unlock_flash();
    let flags = sample_flags(1, 1024);
    write_bl_flags(&mut flash, &flags);
    // The primary page is not physically present: the record lands at the
    // fallback address and a read finds it there.
    assert_eq!(read_bl_flags(&flash), Some(flags));
    assert_eq!(flash.read_word(BL_FLAGS_LOW), BL_MAGIC);
    assert_eq!(flash.read_word(BL_FLAGS_LOW + 16), 1024);
    assert_eq!(flash.read_word(BL_FLAGS_HIGH), ERASED_WORD);
}

#[test]
fn flags_primary_wins_over_fallback() {
    let mut flash = FlashMem::new(128);
    flash.preload_word(BL_FLAGS_LOW, BL_MAGIC);
    flash.preload_word(BL_FLAGS_LOW + 4, 2);
    flash.preload_word(BL_FLAGS_HIGH, BL_MAGIC);
    flash.preload_word(BL_FLAGS_HIGH + 4, 9);
    let got = read_bl_flags(&flash).unwrap();
    assert_eq!(got.flash_count, 9);
}

#[test]
fn flags_encoding_order() {
    let flags = BlFlags {
        magic: BL_MAGIC,
        flash_count: 12,
        user_code_legit: true,
        user_code_present: false,
        user_code_length: 2048,
    };
    let words = flags.to_words();
    assert_eq!(words, vec![BL_MAGIC, 12, 1, 0, 2048]);
}

#[test]
fn write_word_retry_succeeds_on_third_attempt() {
    let mut flash = FlashMem::new(128);
    flash.unlock_flash();
    let addr = PAGE_START + 64;
    flash.inject_fault(addr, 2);
    assert_eq!(flash.write_word(addr, 0xCAFE_BABE), Ok(()));
    assert_eq!(flash.read_word(addr), 0xCAFE_BABE);
}

#[test]
fn write_word_fails_after_three_attempts() {
    let mut flash = FlashMem::new(128);
    flash.unlock_flash();
    let addr = PAGE_START + 64;
    flash.inject_fault(addr, 3);
    assert_eq!(flash.write_word(addr, 0xCAFE_BABE), Err(()));
    assert_ne!(flash.read_word(addr), 0xCAFE_BABE);
}

#[test]
fn write_word_plain_success() {
    let mut flash = FlashMem::new(128);
    flash.unlock_flash();
    assert_eq!(flash.write_word(PAGE_START, 0x0102_0304), Ok(()));
    assert_eq!(flash.read_word(PAGE_START), 0x0102_0304);
}

#[test]
fn erase_page_clears_words() {
    let mut flash = FlashMem::new(128);
    flash.unlock_flash();
    flash.write_word(PAGE_START + 8, 0x5555_AAAA).unwrap();
    flash.erase_page(PAGE_START + 8);
    assert_eq!(flash.read_word(PAGE_START + 8), ERASED_WORD);
    assert!(flash.eop);
    assert!(!flash.pgerr);
}

#[test]
fn erase_outside_part_raises_pgerr() {
    let mut flash = FlashMem::new(64);
    flash.unlock_flash();
    flash.erase_page(BL_FLAGS_HIGH);
    assert!(flash.pgerr);
    assert!(!flash.eop);
}

#[test]
fn page_size_follows_size_descriptor() {
    assert_eq!(FlashMem::new(64).get_flash_pg_size(), 0x400);
    assert_eq!(FlashMem::new(128).get_flash_pg_size(), 0x400);
    assert_eq!(FlashMem::new(256).get_flash_pg_size(), 0x800);
}
