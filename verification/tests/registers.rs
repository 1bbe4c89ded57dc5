use lib::registers::{
    auto_increment_address, fixed_address, register_from_address, station_from_address,
    ESC_AL_STATUS, ESC_TYPE,
};

#[test]
fn address_helpers_pack_fixed_and_auto_increment_words() {
    assert_eq!(fixed_address(0x1000, ESC_AL_STATUS), 0x1000_0130);
    assert_eq!(auto_increment_address(0, ESC_TYPE), 0x0000_0000);
    assert_eq!(auto_increment_address(1, ESC_TYPE), 0xFFFF_0000);
    assert_eq!(auto_increment_address(2, ESC_TYPE), 0xFFFE_0000);
    assert_eq!(station_from_address(0x1234_0130), 0x1234);
    assert_eq!(register_from_address(0x1234_0130), ESC_AL_STATUS);
}

#[test]
fn address_round_trip_recovers_station_and_register() {
    let address = fixed_address(0xBEEF, 0x0910);
    assert_eq!(station_from_address(address), 0xBEEF);
    assert_eq!(register_from_address(address), 0x0910);
    assert_eq!(station_from_address(auto_increment_address(0xFFFF, 0)), 1);
}
