//! Memory-map and USB identity constants of the bootloader.

use vstd::prelude::*;

verus! {

/// Sentinel word at the start of a valid boot-flags record.
pub const BL_MAGIC: u32 = 0xdead_cafe;

/// First address of on-chip flash.
pub const FLASH_BASE: u32 = 0x0800_0000;

/// Read-only size descriptor register; its low 16 bits hold the flash size
/// in KiB.
pub const FLASH_SIZE_REG: u32 = 0x1fff_f7e0;

/// Value programmed into the vector-table offset register before the jump
/// to the user image.
pub const VTOR_OFFSET: u32 = 0x0000_4800;

/// Base address of the user-application region; its word 0 is the initial
/// stack pointer, word 1 the reset vector.
pub const PAGE_START: u32 = 0x0800_4800;

/// Primary boot-flags address: the last page of a 128 KiB part.
pub const BL_FLAGS_HIGH: u32 = 0x0801_fc00;

/// Fallback boot-flags address: the last page of a 64 KiB part.
pub const BL_FLAGS_LOW: u32 = 0x0800_fc00;

/// End of the address range the bootloader ever touches on parts of up to
/// 128 KiB; the user-application region ends here.
pub const FLASH_TOP: u32 = 0x0802_0000;

/// Size in bytes of the user-application region, `FLASH_TOP - PAGE_START`.
pub const APP_REGION_SIZE: u32 = 0x1_b800;

/// Largest page size of the supported parts; the staging buffer holds one page.
pub const BIGGEST_PAGE: usize = 2048;

/// Value of every word of an erased page.
pub const ERASED_WORD: u32 = 0xffff_ffff;

/// First word of the flash write-unlock key sequence.
pub const FLASH_KEY1: u32 = 0x4567_0123;

/// Second word of the flash write-unlock key sequence.
pub const FLASH_KEY2: u32 = 0xcdef_89ab;

/// Number of alternate settings the DFU interface exposes.
pub const ALT_SETTINGS: usize = 2;

/// USB vendor id of the bootloader device.
pub const USB_VID: u16 = 0x41ca;

/// USB product id of the bootloader device.
pub const USB_PID: u16 = 0x2137;

/// Interface class: application-specific.
pub const CLASS_APPLICATION_SPECIFIC: u8 = 0xfe;

/// Interface subclass: device firmware upgrade.
pub const SUBCLASS_DFU: u8 = 0x01;

/// Interface protocol: DFU mode.
pub const PROTOCOL_DFU_MODE: u8 = 0x02;

/// Descriptor type of the DFU functional descriptor.
pub const DESC_DFU_FUNCTIONAL: u8 = 0x21;

/// Descriptor type of a BOS platform capability.
pub const CAPABILITY_PLATFORM: u8 = 0x05;

/// USB manufacturer string.
pub fn usb_manufacturer() -> (r: &'static str)
    ensures
        r@ == "aika"@,
{
    "aika"
}

/// USB product string.
pub fn usb_product() -> (r: &'static str)
    ensures
        r@ == "DFU Bootloader 0.2.0"@,
{
    "DFU Bootloader 0.2.0"
}

/// USB serial-number string.
pub fn usb_serial_no() -> (r: &'static str)
    ensures
        r@ == "8971842209015648"@,
{
    "8971842209015648"
}

/// URL offered to the host when the device is plugged in.
pub fn webusb_url() -> (r: &'static str)
    ensures
        r@ == "devanlai.github.io/webdfu/dfu-util"@,
{
    "devanlai.github.io/webdfu/dfu-util"
}

/// String descriptor of alternate setting `alt`: the product string for the
/// first setting, the test string for the second.
pub fn alt_str(alt: usize) -> (r: &'static str)
    requires
        alt < ALT_SETTINGS,
    ensures
        alt == 0 ==> r@ == "DFU Bootloader 0.2.0"@,
        alt == 1 ==> r@ == "TEST"@,
{
    if alt == 0 {
        "DFU Bootloader 0.2.0"
    } else {
        "TEST"
    }
}

} // verus!
