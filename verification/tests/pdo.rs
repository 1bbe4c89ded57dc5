use lib::pdo::{PdoDirection, PdoEntry, PdoError, PdoLayout};

fn entry(bit_offset: usize, bit_length: u8, signed: bool) -> PdoEntry {
    PdoEntry { index: 0x6040, subindex: 0, bit_offset, bit_length, signed, direction: PdoDirection::Rx }
}

#[test]
fn bit_fields_cross_bytes_and_preserve_neighbours() {
    let field = entry(3, 12, false);
    let mut image = [0xA5, 0x5A, 0xC3];
    field.write_unsigned(&mut image, 0xABC).unwrap();
    assert_eq!(field.read_unsigned(&image), Ok(0xABC));
    assert_eq!(image[0] & 0x07, 0x05);
    assert_eq!(image[2] & 0xE0, 0xC0);
}

#[test]
fn signed_fields_are_sign_extended_and_range_checked() {
    let field = entry(0, 8, true);
    let mut image = [0; 1];
    field.write_signed(&mut image, -2).unwrap();
    assert_eq!(field.read_signed(&image), Ok(-2));
    assert_eq!(field.write_signed(&mut image, 128), Err(PdoError::ValueOutOfRange));
    assert_eq!(field.write_signed(&mut image, -129), Err(PdoError::ValueOutOfRange));
}

#[test]
fn layout_rejects_same_direction_overlap_but_allows_rx_tx_at_same_bits() {
    let mut layout = PdoLayout::<3>::new();
    layout.add(entry(0, 16, false)).unwrap();
    let mut overlap = entry(8, 8, false);
    overlap.index = 0x6041;
    assert_eq!(layout.add(overlap), Err(PdoError::BitOverlap));
    let mut tx = entry(8, 8, false);
    tx.direction = PdoDirection::Tx;
    layout.add(tx).unwrap();
    assert_eq!(layout.total_bits(), 16);
    assert_eq!(layout.total_bytes(), 2);
}

#[test]
fn invalid_image_and_entry_indices_fail_closed() {
    let field = entry(7, 2, false);
    assert_eq!(field.read_unsigned(&[0]), Err(PdoError::ImageBounds));
    let layout = PdoLayout::<1>::new();
    assert_eq!(layout.entry(0), Err(PdoError::UnknownEntry));
}

#[test]
fn write_then_read_round_trips_full_width_and_rejects_kind_mismatch() {
    let wide = entry(4, 64, false);
    let mut image = [0u8; 9];
    wide.write_unsigned(&mut image, 0xDEAD_BEEF_0123_4567).unwrap();
    assert_eq!(wide.read_unsigned(&image), Ok(0xDEAD_BEEF_0123_4567));
    assert_eq!(image[0] & 0x0F, 0);
    let signed = entry(0, 4, true);
    let mut small = [0xF0u8];
    signed.write_signed(&mut small, -8).unwrap();
    assert_eq!(signed.read_signed(&small), Ok(-8));
    assert_eq!(small[0], 0xF8);
    assert_eq!(signed.write_unsigned(&mut small, 1), Err(PdoError::SignedEntryRequiresSignedValue));
    assert_eq!(wide.write_signed(&mut image, 1), Err(PdoError::UnsignedEntryRequiresUnsignedValue));
    assert_eq!(entry(0, 4, false).write_unsigned(&mut small, 16), Err(PdoError::ValueOutOfRange));
    assert_eq!(entry(0, 0, false).read_unsigned(&small), Err(PdoError::InvalidBitLength));
}

#[test]
fn layout_rejects_duplicates_capacity_and_filters_directions() {
    let mut layout = PdoLayout::<2>::new();
    assert_eq!(layout.add(entry(0, 8, false)), Ok(0));
    assert_eq!(layout.add(entry(8, 8, false)), Err(PdoError::DuplicateEntry));
    let mut tx = entry(16, 8, false);
    tx.direction = PdoDirection::Tx;
    assert_eq!(layout.add(tx), Ok(1));
    let mut more = entry(32, 8, false);
    more.index = 1;
    assert_eq!(layout.add(more), Err(PdoError::CapacityExceeded));
    assert_eq!(layout.input_entries(), vec![tx]);
    assert_eq!(layout.output_entries().len(), 1);
    assert_eq!(layout.total_bits(), 24);
    assert_eq!(layout.total_bytes(), 3);
}
