use lib::coe::{
    CoeEmergency, CoeHeader, CoeService, SdoError, SdoPhase, SdoProgress, SdoResponse, SdoTransfer,
    COE_EMERGENCY_LEN, SDO_ABORT, SDO_DOWNLOAD_RESPONSE, SDO_DOWNLOAD_SEGMENT_RESPONSE,
    SDO_UPLOAD_REQUEST,
};

fn response_header(dst: &mut [u8]) {
    CoeHeader { number: 0, service: CoeService::SdoResponse }.encode(dst).unwrap();
}

#[test]
fn expedited_download_encodes_command_and_fixed_data_area() {
    let mut transfer = SdoTransfer::new();
    transfer.start_download(0x6040, 0, &[0x06, 0x00], false).unwrap();
    let request = transfer.request().unwrap();
    assert_eq!(request.len(), 10);
    assert_eq!(request[0..2], [0, 0x20]);
    assert_eq!(request[2], 0x2B);
    assert_eq!(&request[3..6], &[0x40, 0x60, 0]);
    assert_eq!(&request[6..10], &[0x06, 0x00, 0, 0]);
}

#[test]
fn expedited_upload_completes_and_validates_object() {
    let mut transfer = SdoTransfer::new();
    transfer.start_upload(0x6064, 0, false).unwrap();
    assert_eq!(transfer.request().unwrap()[2], SDO_UPLOAD_REQUEST);

    let mut response = [0; 10];
    response_header(&mut response);
    response[2] = 0x4B;
    response[3..5].copy_from_slice(&0x6064u16.to_le_bytes());
    response[5] = 0;
    response[6..8].copy_from_slice(&[0x34, 0x12]);
    assert_eq!(transfer.accept_response(&response), Ok(SdoProgress::Complete));
    assert_eq!(transfer.data(), &[0x34, 0x12]);
    assert_eq!(transfer.phase(), SdoPhase::Complete);
}

#[test]
fn segmented_download_tracks_toggle_and_last_segment() {
    let data = [1, 2, 3, 4, 5, 6, 7, 8, 9];
    let mut transfer = SdoTransfer::new();
    transfer.start_download(0x2000, 1, &data, false).unwrap();

    let mut initiate_response = [0; 6];
    response_header(&mut initiate_response);
    initiate_response[2] = SDO_DOWNLOAD_RESPONSE;
    initiate_response[3..5].copy_from_slice(&0x2000u16.to_le_bytes());
    initiate_response[5] = 1;
    assert_eq!(transfer.accept_response(&initiate_response), Ok(SdoProgress::Advanced));
    assert_eq!(&transfer.request().unwrap()[2..], &[0, 1, 2, 3, 4, 5, 6, 7]);

    let mut ack = [0; 3];
    response_header(&mut ack);
    ack[2] = SDO_DOWNLOAD_SEGMENT_RESPONSE;
    assert_eq!(transfer.accept_response(&ack), Ok(SdoProgress::Advanced));
    assert_eq!(&transfer.request().unwrap()[2..], &[0x1B, 8, 9]);

    ack[2] = SDO_DOWNLOAD_SEGMENT_RESPONSE | 0x10;
    assert_eq!(transfer.accept_response(&ack), Ok(SdoProgress::Complete));
    assert_eq!(transfer.phase(), SdoPhase::Complete);
}

#[test]
fn segmented_upload_rejects_wrong_toggle_without_publishing_partial_data() {
    let mut transfer = SdoTransfer::new();
    transfer.start_upload(0x2000, 1, false).unwrap();

    let mut initiate_response = [0; 10];
    response_header(&mut initiate_response);
    initiate_response[2] = 0x41;
    initiate_response[3..5].copy_from_slice(&0x2000u16.to_le_bytes());
    initiate_response[5] = 1;
    initiate_response[6..10].copy_from_slice(&8u32.to_le_bytes());
    transfer.accept_response(&initiate_response).unwrap();

    let mut segment = [0; 10];
    response_header(&mut segment);
    segment[2] = 0x11;
    segment[3..10].copy_from_slice(&[1, 2, 3, 4, 5, 6, 7]);
    assert_eq!(transfer.accept_response(&segment), Err(SdoError::ToggleMismatch));
    assert_eq!(transfer.data_len(), 0);
    assert_eq!(transfer.phase(), SdoPhase::Faulted);
}

#[test]
fn normal_upload_without_size_indication_completes_on_last_segment() {
    let mut transfer = SdoTransfer::new();
    transfer.start_upload(0x2000, 1, false).unwrap();

    let mut initiate_response = [0; 6];
    response_header(&mut initiate_response);
    initiate_response[2] = 0x40;
    initiate_response[3..5].copy_from_slice(&0x2000u16.to_le_bytes());
    initiate_response[5] = 1;
    assert_eq!(transfer.accept_response(&initiate_response), Ok(SdoProgress::Advanced));

    let mut segment = [0; 8];
    response_header(&mut segment);
    segment[2] = 0x01;
    segment[3..8].copy_from_slice(&[1, 2, 3, 4, 5]);
    assert_eq!(transfer.accept_response(&segment), Ok(SdoProgress::Complete));
    assert_eq!(transfer.data(), &[1, 2, 3, 4, 5]);
    assert_eq!(transfer.expected_size(), None);
}

#[test]
fn abort_response_is_preserved_as_a_terminal_protocol_result() {
    let mut transfer = SdoTransfer::new();
    transfer.start_upload(0x6041, 0, false).unwrap();

    let mut abort = [0; 10];
    response_header(&mut abort);
    abort[2] = SDO_ABORT;
    abort[3..5].copy_from_slice(&0x6041u16.to_le_bytes());
    abort[5] = 0;
    abort[6..10].copy_from_slice(&0x0602_0000u32.to_le_bytes());
    assert_eq!(transfer.accept_response(&abort), Err(SdoError::Abort(0x0602_0000)));
    assert_eq!(transfer.phase(), SdoPhase::Aborted);
    assert_eq!(transfer.abort_code(), Some(0x0602_0000));
    assert!(transfer.request().is_none());
}

#[test]
fn emergency_payload_is_decoded_without_allocation() {
    let mut payload = [0; COE_EMERGENCY_LEN];
    CoeHeader { number: 0, service: CoeService::Emergency }.encode(&mut payload).unwrap();
    payload[2..4].copy_from_slice(&0x2310u16.to_le_bytes());
    payload[4] = 0x81;
    payload[5..10].copy_from_slice(&[9, 8, 7, 6, 5]);
    assert_eq!(
        CoeEmergency::parse(&payload),
        Ok(CoeEmergency { error_code: 0x2310, error_register: 0x81, manufacturer_data: [9, 8, 7, 6, 5] })
    );
}

#[test]
fn coe_header_round_trip_and_rejections() {
    let mut bytes = [0u8; 2];
    let header = CoeHeader { number: 7, service: CoeService::SdoInformation };
    header.encode(&mut bytes).unwrap();
    assert_eq!(bytes, [7, 0x80]);
    assert_eq!(CoeHeader::decode(&bytes), Ok(header));
    assert_eq!(CoeHeader { number: 16, service: CoeService::TxPdo }.encode(&mut bytes), Err(SdoError::HeaderOutOfBounds));
    assert_eq!(CoeHeader { number: 1, service: CoeService::TxPdo }.encode(&mut [0u8; 1]), Err(SdoError::BufferTooSmall));
    assert_eq!(CoeHeader::decode(&[0]), Err(SdoError::Truncated));
    assert_eq!(CoeHeader::decode(&[0, 0x90]), Err(SdoError::UnknownService));
    assert_eq!(CoeEmergency::parse(&[0, 0x30, 0, 0]), Err(SdoError::WrongService));
    assert_eq!(CoeEmergency::parse(&[0, 0x10, 0, 0]), Err(SdoError::Truncated));
}

#[test]
fn sdo_response_parse_covers_every_command_class() {
    let abort = [0, 0x30, 0x80, 0x00, 0x20, 0x01, 0x11, 0x00, 0x02, 0x06];
    let parsed = SdoResponse::parse(&abort).unwrap();
    assert_eq!(parsed.abort_code, Some(0x0602_0011));
    assert_eq!(parsed.index, Some(0x2000));
    assert_eq!(parsed.subindex, Some(1));
    assert_eq!(SdoResponse::parse(&abort[..9]), Err(SdoError::Truncated));

    let sized = [0, 0x30, 0x41, 0x00, 0x20, 0x01, 0x40, 0x00, 0x00, 0x00];
    let parsed = SdoResponse::parse(&sized).unwrap();
    assert_eq!(parsed.total_size, Some(64));
    assert!(!parsed.last);

    let segment = [0, 0x30, 0x05, 1, 2, 3, 4, 5];
    let parsed = SdoResponse::parse(&segment).unwrap();
    assert_eq!(parsed.data, &[1, 2, 3]);
    assert!(parsed.last);
    assert_eq!(SdoResponse::parse(&[0, 0x30, 0x02, 1]), Err(SdoError::SegmentMalformed));
    assert_eq!(SdoResponse::parse(&[0, 0x30, 0xA0]), Err(SdoError::UnexpectedCommand));
    assert_eq!(SdoResponse::parse(&[0, 0x20, 0x60]), Err(SdoError::WrongService));
    assert_eq!(SdoResponse::parse(&[0, 0x30]), Err(SdoError::Truncated));
}

#[test]
fn sdo_transfer_rejects_busy_oversized_and_wrong_object() {
    let mut transfer = SdoTransfer::new();
    assert_eq!(transfer.accept_response(&[0, 0x30, 0x60, 0, 0, 0]), Err(SdoError::InvalidState));
    let mut transfer = SdoTransfer::new();
    assert_eq!(transfer.start_download(0x2000, 0, &[0u8; 123], false), Err(SdoError::PayloadTooLarge));
    transfer.start_upload(0x2000, 0, true).unwrap();
    assert_eq!(transfer.request().unwrap()[2], 0xC0);
    assert_eq!(transfer.start_upload(0x2000, 0, false), Err(SdoError::Busy));
    assert_eq!(
        transfer.accept_response(&[0, 0x30, 0x4B, 0x01, 0x20, 0x00, 1, 2, 0, 0]),
        Err(SdoError::IndexMismatch)
    );
    assert_eq!(transfer.last_error(), Some(SdoError::IndexMismatch));
}
