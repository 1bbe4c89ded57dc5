//! EtherCAT ESC register offsets and address helpers.
//!
//! EtherCAT datagrams carry a 16-bit address word followed by a 16-bit
//! register offset. Keeping the packing in one place prevents accidental
//! mixing of fixed-station and auto-increment addressing.
use vstd::prelude::*;

verus! {

pub const ESC_TYPE: u16 = 0x0000;
pub const ESC_REVISION: u16 = 0x0001;
pub const ESC_BUILD: u16 = 0x0002;
pub const ESC_FMMU_COUNT: u16 = 0x0004;
pub const ESC_SYNC_MANAGER_COUNT: u16 = 0x0005;
pub const ESC_RAM_SIZE: u16 = 0x0006;
pub const ESC_PORT_DESCRIPTOR: u16 = 0x0007;

pub const ESC_DL_STATUS: u16 = 0x0110;
pub const ESC_STATION_ADDRESS: u16 = 0x0010;
pub const ESC_AL_STATUS: u16 = 0x0130;
pub const ESC_AL_STATUS_CODE: u16 = 0x0134;
pub const ESC_AL_CONTROL: u16 = 0x0120;
pub const ESC_EEPROM_CONTROL: u16 = 0x0502;
pub const ESC_EEPROM_ADDRESS: u16 = 0x0504;
pub const ESC_EEPROM_DATA: u16 = 0x0508;

pub const ESC_DC_TIME0: u16 = 0x0900;
pub const ESC_DC_TIME1: u16 = 0x0904;
pub const ESC_DC_TIME2: u16 = 0x0908;
pub const ESC_DC_TIME3: u16 = 0x090C;
pub const ESC_DC_SYSTEM_TIME: u16 = 0x0910;
pub const ESC_DC_SYSTEM_OFFSET: u16 = 0x0920;
pub const ESC_DC_SYSTEM_DELAY: u16 = 0x0928;
pub const ESC_DC_SYSTEM_DIFF: u16 = 0x092C;
pub const ESC_DC_CUC: u16 = 0x0980;
pub const ESC_DC_SYNC_ACTIVATION: u16 = 0x0981;
pub const ESC_DC_START0: u16 = 0x0990;
pub const ESC_DC_CYCLE0: u16 = 0x09A0;
pub const ESC_DC_CYCLE1: u16 = 0x09A4;

pub const BASIC_ESC_INFO_LEN: u16 = 9;
pub const AL_STATUS_WITH_CODE_LEN: u16 = 6;

/// The 32-bit datagram address made of an address word (high half) and a
/// register offset (low half).
pub open spec fn pack_address(word: int, register: int) -> int {
    word * 0x10000 + register
}

/// The auto-increment word that addresses `position`: 0, -1, -2, ... as u16.
pub open spec fn auto_increment_word(position: int) -> int {
    if position == 0 { 0 } else { 0x10000 - position }
}

/// Pack a fixed station address (FPRD/FPWR/FPRW) and ESC offset.
pub fn fixed_address(station_address: u16, register: u16) -> (address: u32)
    ensures
        address == pack_address(station_address as int, register as int),
{
    (station_address as u32) * 0x10000 + register as u32
}

/// Pack an auto-increment position (APRD/APWR/APRW) and ESC offset.
///
/// Position zero addresses the first slave. Each subsequent position uses a
/// signed, decrementing auto-increment address: 0, -1, -2, ...
pub fn auto_increment_address(position: u16, register: u16) -> (address: u32)
    ensures
        address == pack_address(auto_increment_word(position as int), register as int),
{
    let word: u32 = if position == 0 { 0 } else { 0x10000 - position as u32 };
    word * 0x10000 + register as u32
}

/// The address word (station address or auto-increment word) of an address.
pub fn station_from_address(address: u32) -> (station: u16)
    ensures
        station == address / 0x10000,
{
    (address / 0x10000) as u16
}

/// The ESC register offset of an address.
pub fn register_from_address(address: u32) -> (register: u16)
    ensures
        register == address % 0x10000,
{
    (address % 0x10000) as u16
}

/// Unpacking a packed address gives back both halves.
pub proof fn lemma_address_round_trip(word: u16, register: u16)
    ensures
        pack_address(word as int, register as int) / 0x10000 == word,
        pack_address(word as int, register as int) % 0x10000 == register,
{
}

} // verus!
