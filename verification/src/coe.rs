//! CoE SDO codec and transfer state machine.
//!
//! The transfer only deals with CoE payloads: mailbox headers, register
//! access, retries and cycle budgeting belong to the mailbox controller and
//! the caller.
use vstd::prelude::*;
use crate::bytes::{copy_range, get_le16, get_le32, le16, le32, read_u16_le, read_u32_le, zeros};
use crate::mailbox::MAX_MAILBOX_BYTES;

verus! {

pub const COE_HEADER_LEN: usize = 2;
pub const SDO_DATA_OFFSET: usize = 6;
pub const MAX_SDO_DATA: usize = MAX_MAILBOX_BYTES - SDO_DATA_OFFSET;
pub const MAX_SDO_SEGMENT_BYTES: usize = 7;
pub const COE_EMERGENCY_LEN: usize = 10;

pub const SDO_UPLOAD_REQUEST: u8 = 0x40;
pub const SDO_DOWNLOAD_EXPEDITED: u8 = 0x23;
pub const SDO_DOWNLOAD_NORMAL: u8 = 0x21;
pub const SDO_ABORT: u8 = 0x80;
pub const SDO_DOWNLOAD_RESPONSE: u8 = 0x60;
pub const SDO_UPLOAD_SEGMENT_REQUEST: u8 = 0x60;
pub const SDO_DOWNLOAD_SEGMENT_RESPONSE: u8 = 0x20;

#[derive(Clone, Copy, Debug, PartialEq, Eq, Structural)]
pub enum CoeService {
    Emergency,
    SdoRequest,
    SdoResponse,
    TxPdo,
    RxPdo,
    TxPdoRemote,
    RxPdoRemote,
    SdoInformation,
}

impl CoeService {
    pub open spec fn spec_code(self) -> u8 {
        match self {
            CoeService::Emergency => 1,
            CoeService::SdoRequest => 2,
            CoeService::SdoResponse => 3,
            CoeService::TxPdo => 4,
            CoeService::RxPdo => 5,
            CoeService::TxPdoRemote => 6,
            CoeService::RxPdoRemote => 7,
            CoeService::SdoInformation => 8,
        }
    }

    pub open spec fn spec_from_u8(value: u8) -> Option<CoeService> {
        if value == 1 {
            Some(CoeService::Emergency)
        } else if value == 2 {
            Some(CoeService::SdoRequest)
        } else if value == 3 {
            Some(CoeService::SdoResponse)
        } else if value == 4 {
            Some(CoeService::TxPdo)
        } else if value == 5 {
            Some(CoeService::RxPdo)
        } else if value == 6 {
            Some(CoeService::TxPdoRemote)
        } else if value == 7 {
            Some(CoeService::RxPdoRemote)
        } else if value == 8 {
            Some(CoeService::SdoInformation)
        } else {
            None
        }
    }

    /// The service number carried in the high nibble of the header.
    pub fn code(self) -> (code: u8)
        ensures
            code == self.spec_code(),
    {
        match self {
            CoeService::Emergency => 1,
            CoeService::SdoRequest => 2,
            CoeService::SdoResponse => 3,
            CoeService::TxPdo => 4,
            CoeService::RxPdo => 5,
            CoeService::TxPdoRemote => 6,
            CoeService::RxPdoRemote => 7,
            CoeService::SdoInformation => 8,
        }
    }

    pub fn from_u8(value: u8) -> (service: Option<Self>)
        ensures
            service == Self::spec_from_u8(value),
    {
        match value {
            1 => Some(CoeService::Emergency),
            2 => Some(CoeService::SdoRequest),
            3 => Some(CoeService::SdoResponse),
            4 => Some(CoeService::TxPdo),
            5 => Some(CoeService::RxPdo),
            6 => Some(CoeService::TxPdoRemote),
            7 => Some(CoeService::RxPdoRemote),
            8 => Some(CoeService::SdoInformation),
            _ => None,
        }
    }
}

#[derive(Clone, Copy, Debug, PartialEq, Eq, Structural)]
pub enum SdoError {
    Busy,
    InvalidState,
    BufferTooSmall,
    PayloadTooLarge,
    Truncated,
    HeaderOutOfBounds,
    UnknownService,
    WrongService,
    UnexpectedCommand,
    IndexMismatch,
    SubindexMismatch,
    ToggleMismatch,
    SizeMismatch,
    SegmentMalformed,
    Abort(u32),
}

#[derive(Clone, Copy, Debug, PartialEq, Eq, Structural)]
pub struct CoeHeader {
    pub number: u8,
    pub service: CoeService,
}

/// The two header bytes of a CoE header.
pub open spec fn coe_header_bytes(number: u8, service: CoeService) -> Seq<u8> {
    seq![number, (service.spec_code() * 16) as u8]
}

/// The header at the front of `src`, or why there is none.
pub open spec fn spec_decode_coe_header(src: Seq<u8>) -> Result<CoeHeader, SdoError> {
    if src.len() < COE_HEADER_LEN {
        Err(SdoError::Truncated)
    } else {
        match CoeService::spec_from_u8(src[1] / 16) {
            None => Err(SdoError::UnknownService),
            Some(service) => Ok(CoeHeader { number: src[0] % 16, service }),
        }
    }
}

impl CoeHeader {
    /// Write the header into the first two bytes of `dst`.
    pub fn encode(&self, dst: &mut [u8]) -> (result: Result<(), SdoError>)
        ensures
            old(dst)@.len() < COE_HEADER_LEN ==> result == Err::<(), SdoError>(
                SdoError::BufferTooSmall,
            ),
            old(dst)@.len() >= COE_HEADER_LEN && self.number > 0x0F ==> result == Err::<
                (),
                SdoError,
            >(SdoError::HeaderOutOfBounds),
            result is Err ==> final(dst)@ == old(dst)@,
            result is Ok ==> final(dst)@ == coe_header_bytes(self.number, self.service) + old(
                dst,
            )@.subrange(2, old(dst)@.len() as int),
            old(dst)@.len() >= COE_HEADER_LEN && self.number <= 0x0F ==> result is Ok,
    {
        if dst.len() < COE_HEADER_LEN {
            return Err(SdoError::BufferTooSmall);
        }
        if self.number > 0x0F {
            return Err(SdoError::HeaderOutOfBounds);
        }
        let ghost initial = dst@;
        dst[0] = self.number;
        dst[1] = self.service.code() * 16;
        assert(dst@ =~= coe_header_bytes(self.number, self.service) + initial.subrange(
            2,
            initial.len() as int,
        ));
        Ok(())
    }

    pub fn decode(src: &[u8]) -> (result: Result<Self, SdoError>)
        ensures
            result == spec_decode_coe_header(src@),
    {
        if src.len() < COE_HEADER_LEN {
            return Err(SdoError::Truncated);
        }
        match CoeService::from_u8(src[1] / 16) {
            None => Err(SdoError::UnknownService),
            Some(service) => Ok(CoeHeader { number: src[0] % 16, service }),
        }
    }
}

/// Decoding an encoded header gives the header back.
pub proof fn lemma_coe_header_round_trip(header: CoeHeader, rest: Seq<u8>)
    requires
        header.number <= 0x0F,
    ensures
        spec_decode_coe_header(coe_header_bytes(header.number, header.service) + rest) == Ok::<
            CoeHeader,
            SdoError,
        >(header),
{
    let bytes = coe_header_bytes(header.number, header.service) + rest;
    assert(bytes[0] == header.number);
    assert(bytes[1] == (header.service.spec_code() * 16) as u8);
}

#[derive(Clone, Copy, Debug, PartialEq, Eq)]
pub struct CoeEmergency {
    pub error_code: u16,
    pub error_register: u8,
    pub manufacturer_data: [u8; 5],
}

/// The Emergency message in a CoE payload, or why there is none.
pub open spec fn spec_emergency_ok(payload: Seq<u8>) -> Result<(), SdoError> {
    match spec_decode_coe_header(payload) {
        Err(e) => Err(e),
        Ok(header) => if header.service != CoeService::Emergency {
            Err(SdoError::WrongService)
        } else if payload.len() < COE_EMERGENCY_LEN {
            Err(SdoError::Truncated)
        } else {
            Ok(())
        },
    }
}

impl CoeEmergency {
    pub fn parse(payload: &[u8]) -> (result: Result<Self, SdoError>)
        ensures
            spec_emergency_ok(payload@) matches Err(e) ==> result == Err::<Self, SdoError>(e),
            spec_emergency_ok(payload@) is Ok ==> (result matches Ok(emergency) && emergency.error_code
                == get_le16(payload@, 2) && emergency.error_register == payload@[4]
                && emergency.manufacturer_data@ == payload@.subrange(5, 10)),
    {
        let header = match CoeHeader::decode(payload) {
            Ok(header) => header,
            Err(error) => return Err(error),
        };
        if header.service != CoeService::Emergency {
            return Err(SdoError::WrongService);
        }
        if payload.len() < COE_EMERGENCY_LEN {
            return Err(SdoError::Truncated);
        }
        let manufacturer_data = [payload[5], payload[6], payload[7], payload[8], payload[9]];
        assert(manufacturer_data@ =~= payload@.subrange(5, 10));
        Ok(CoeEmergency {
            error_code: read_u16_le(payload, 2),
            error_register: payload[4],
            manufacturer_data,
        })
    }
}

#[derive(Clone, Copy, Debug, PartialEq, Eq, Structural)]
pub enum SdoDirection {
    Upload,
    Download,
}

#[derive(Clone, Copy, Debug, PartialEq, Eq, Structural)]
pub enum SdoPhase {
    Idle,
    AwaitInitiate,
    AwaitSegment,
    Complete,
    Aborted,
    Faulted,
}

#[derive(Clone, Copy, Debug, PartialEq, Eq, Structural)]
pub enum SdoProgress {
    Advanced,
    Complete,
}

/// A decoded SDO response, with its data as a byte sequence.
pub struct SdoResponseModel {
    pub index: Option<u16>,
    pub subindex: Option<u8>,
    pub data: Seq<u8>,
    pub total_size: Option<usize>,
    pub toggle: bool,
    pub last: bool,
    pub abort_code: Option<u32>,
    pub command: u8,
}

/// A response that names the object at bytes 3..6 and carries no data.
pub open spec fn object_response(p: Seq<u8>, total_size: Option<usize>, last: bool) -> SdoResponseModel {
    SdoResponseModel {
        index: Some(get_le16(p, 3) as u16),
        subindex: Some(p[5]),
        data: Seq::empty(),
        total_size,
        toggle: false,
        last,
        abort_code: None,
        command: p[2],
    }
}

/// The SDO response in a CoE payload, by its command byte: abort (0x80),
/// upload initiate (0x40..0x5F; expedited with bit 1, size indicated with
/// bit 0), download initiate (0x60), upload segment (0x00..0x1F; toggle bit
/// 4, unused byte count in bits 1..3, last segment bit 0) and download
/// segment acknowledge (0x20..0x3F).
pub open spec fn spec_parse_sdo_response(p: Seq<u8>) -> Result<SdoResponseModel, SdoError> {
    match spec_decode_coe_header(p) {
        Err(e) => Err(e),
        Ok(header) => if header.service != CoeService::SdoResponse {
            Err(SdoError::WrongService)
        } else if p.len() < 3 {
            Err(SdoError::Truncated)
        } else {
            let c = p[2];
            if c == SDO_ABORT {
                if p.len() < SDO_DATA_OFFSET + 4 {
                    Err(SdoError::Truncated)
                } else {
                    Ok(
                        SdoResponseModel {
                            last: true,
                            abort_code: Some(get_le32(p, 6) as u32),
                            ..object_response(p, None, true)
                        },
                    )
                }
            } else if 0x40 <= c < 0x60 {
                if p.len() < SDO_DATA_OFFSET {
                    Err(SdoError::Truncated)
                } else if (c / 2) % 2 == 1 {
                    let data_len = 4 - (c / 4) % 4;
                    if p.len() < SDO_DATA_OFFSET + data_len {
                        Err(SdoError::Truncated)
                    } else {
                        Ok(
                            SdoResponseModel {
                                data: p.subrange(6, 6 + data_len),
                                ..object_response(p, None, true)
                            },
                        )
                    }
                } else if c % 2 == 1 {
                    if p.len() < SDO_DATA_OFFSET + 4 {
                        Err(SdoError::Truncated)
                    } else {
                        Ok(object_response(p, Some(get_le32(p, 6) as usize), false))
                    }
                } else {
                    Ok(object_response(p, None, false))
                }
            } else if c == SDO_DOWNLOAD_RESPONSE {
                if p.len() < SDO_DATA_OFFSET {
                    Err(SdoError::Truncated)
                } else {
                    Ok(object_response(p, None, true))
                }
            } else if c < 0x20 {
                let unused = (c / 2) % 8;
                let segment_len = p.len() - 3;
                if unused > segment_len || (c % 2 == 0 && unused != 0) {
                    Err(SdoError::SegmentMalformed)
                } else {
                    let data_len = if c % 2 == 1 {
                        segment_len - unused
                    } else {
                        segment_len
                    };
                    Ok(
                        SdoResponseModel {
                            index: None,
                            subindex: None,
                            data: p.subrange(3, 3 + data_len),
                            total_size: None,
                            toggle: (c / 16) % 2 == 1,
                            last: c % 2 == 1,
                            abort_code: None,
                            command: c,
                        },
                    )
                }
            } else if c < 0x40 {
                Ok(
                    SdoResponseModel {
                        index: None,
                        subindex: None,
                        data: Seq::empty(),
                        total_size: None,
                        toggle: (c / 16) % 2 == 1,
                        last: true,
                        abort_code: None,
                        command: c,
                    },
                )
            } else {
                Err(SdoError::UnexpectedCommand)
            }
        },
    }
}

#[derive(Clone, Copy, Debug, PartialEq, Eq)]
pub struct SdoResponse<'a> {
    pub index: Option<u16>,
    pub subindex: Option<u8>,
    pub data: &'a [u8],
    pub total_size: Option<usize>,
    pub toggle: bool,
    pub last: bool,
    pub abort_code: Option<u32>,
    pub command: u8,
}

impl<'a> SdoResponse<'a> {
    pub open spec fn model(&self) -> SdoResponseModel {
        SdoResponseModel {
            index: self.index,
            subindex: self.subindex,
            data: self.data@,
            total_size: self.total_size,
            toggle: self.toggle,
            last: self.last,
            abort_code: self.abort_code,
            command: self.command,
        }
    }

    pub fn parse(payload: &'a [u8]) -> (result: Result<Self, SdoError>)
        ensures
            spec_parse_sdo_response(payload@) matches Err(e) ==> result == Err::<Self, SdoError>(
                e,
            ),
            spec_parse_sdo_response(payload@) matches Ok(m) ==> (result matches Ok(r) && r.model()
                == m),
    {
        let header = match CoeHeader::decode(payload) {
            Ok(header) => header,
            Err(error) => return Err(error),
        };
        if header.service != CoeService::SdoResponse {
            return Err(SdoError::WrongService);
        }
        let len = payload.len();
        if len < 3 {
            return Err(SdoError::Truncated);
        }
        let command = payload[2];
        if command == SDO_ABORT {
            if len < SDO_DATA_OFFSET + 4 {
                return Err(SdoError::Truncated);
            }
            let r = SdoResponse {
                index: Some(read_u16_le(payload, 3)),
                subindex: Some(payload[5]),
                data: &payload[0..0],
                total_size: None,
                toggle: false,
                last: true,
                abort_code: Some(read_u32_le(payload, 6)),
                command,
            };
            assert(r.model().data =~= Seq::<u8>::empty());
            return Ok(r);
        }
        if 0x40 <= command && command < 0x60 {
            if len < SDO_DATA_OFFSET {
                return Err(SdoError::Truncated);
            }
            let index = read_u16_le(payload, 3);
            let subindex = payload[5];
            if (command / 2) % 2 == 1 {
                let data_len = 4 - ((command / 4) % 4) as usize;
                if len < SDO_DATA_OFFSET + data_len {
                    return Err(SdoError::Truncated);
                }
                return Ok(SdoResponse {
                    index: Some(index),
                    subindex: Some(subindex),
                    data: &payload[SDO_DATA_OFFSET..SDO_DATA_OFFSET + data_len],
                    total_size: None,
                    toggle: false,
                    last: true,
                    abort_code: None,
                    command,
                });
            }
            let total_size = if command % 2 == 1 {
                if len < SDO_DATA_OFFSET + 4 {
                    return Err(SdoError::Truncated);
                }
                Some(read_u32_le(payload, 6) as usize)
            } else {
                None
            };
            let r = SdoResponse {
                index: Some(index),
                subindex: Some(subindex),
                data: &payload[0..0],
                total_size,
                toggle: false,
                last: false,
                abort_code: None,
                command,
            };
            assert(r.model().data =~= Seq::<u8>::empty());
            return Ok(r);
        }
        if command == SDO_DOWNLOAD_RESPONSE {
            if len < SDO_DATA_OFFSET {
                return Err(SdoError::Truncated);
            }
            let r = SdoResponse {
                index: Some(read_u16_le(payload, 3)),
                subindex: Some(payload[5]),
                data: &payload[0..0],
                total_size: None,
                toggle: false,
                last: true,
                abort_code: None,
                command,
            };
            assert(r.model().data =~= Seq::<u8>::empty());
            return Ok(r);
        }
        if command < 0x20 {
            let unused = ((command / 2) % 8) as usize;
            let segment_len = len - 3;
            if unused > segment_len || (command % 2 == 0 && unused != 0) {
                return Err(SdoError::SegmentMalformed);
            }
            let data_len = if command % 2 == 1 {
                segment_len - unused
            } else {
                segment_len
            };
            return Ok(SdoResponse {
                index: None,
                subindex: None,
                data: &payload[3..3 + data_len],
                total_size: None,
                toggle: (command / 16) % 2 == 1,
                last: command % 2 == 1,
                abort_code: None,
                command,
            });
        }
        if command < 0x40 {
            let r = SdoResponse {
                index: None,
                subindex: None,
                data: &payload[0..0],
                total_size: None,
                toggle: (command / 16) % 2 == 1,
                last: true,
                abort_code: None,
                command,
            };
            assert(r.model().data =~= Seq::<u8>::empty());
            return Ok(r);
        }
        Err(SdoError::UnexpectedCommand)
    }
}


/// The state of an SDO transfer as seen by its contracts.
#[verifier::ext_equal]
pub struct SdoTransferView {
    pub phase: SdoPhase,
    pub direction: SdoDirection,
    pub index: u16,
    pub subindex: u8,
    pub complete_access: bool,
    pub data: Seq<u8>,
    pub expected_size: Option<usize>,
    pub offset: int,
    pub toggle: bool,
    pub request: Seq<u8>,
    pub abort_code: Option<u32>,
    pub last_error: Option<SdoError>,
}

/// An SDO request with the given command byte: CoE header (number 0,
/// service SdoRequest) and the command.
pub open spec fn sdo_request_prefix(command: int) -> Seq<u8> {
    seq![0u8, 0x20u8, command as u8]
}

/// The object address of an initiate request.
pub open spec fn object_bytes(index: u16, subindex: u8) -> Seq<u8> {
    le16(index as int) + seq![subindex]
}

pub open spec fn access_bit(complete_access: bool) -> int {
    if complete_access {
        0x80
    } else {
        0
    }
}

pub open spec fn toggle_bit(toggle: bool) -> int {
    if toggle {
        0x10
    } else {
        0
    }
}

/// The initiate request of a transfer that was just begun.
pub open spec fn initiate_request(v: SdoTransferView) -> Seq<u8> {
    let object = object_bytes(v.index, v.subindex);
    if v.direction == SdoDirection::Upload {
        sdo_request_prefix(SDO_UPLOAD_REQUEST + access_bit(v.complete_access)) + object
    } else if v.data.len() <= 4 {
        sdo_request_prefix(
            SDO_DOWNLOAD_EXPEDITED + (4 - v.data.len()) * 4 + access_bit(v.complete_access),
        ) + object + v.data + zeros((4 - v.data.len()) as nat)
    } else {
        sdo_request_prefix(SDO_DOWNLOAD_NORMAL + access_bit(v.complete_access)) + object + le32(
            v.data.len() as int,
        )
    }
}

/// The transfer latched as faulted with `error`.
pub open spec fn view_fault(v: SdoTransferView, error: SdoError) -> SdoTransferView {
    SdoTransferView { phase: SdoPhase::Faulted, request: Seq::empty(), last_error: Some(error), ..v }
}

/// The transfer finished.
pub open spec fn view_complete(v: SdoTransferView) -> SdoTransferView {
    SdoTransferView { phase: SdoPhase::Complete, request: Seq::empty(), ..v }
}

/// The transfer waiting for the upload segment requested with its toggle.
pub open spec fn view_upload_segment_request(v: SdoTransferView) -> SdoTransferView {
    SdoTransferView {
        phase: SdoPhase::AwaitSegment,
        request: sdo_request_prefix(SDO_UPLOAD_SEGMENT_REQUEST + toggle_bit(v.toggle)),
        ..v
    }
}

/// The transfer after sending its next download segment: at most seven
/// bytes from the offset; the last segment carries its unused byte count.
pub open spec fn view_download_segment(v: SdoTransferView) -> SdoTransferView {
    let remaining = v.data.len() - v.offset;
    let segment = if remaining < MAX_SDO_SEGMENT_BYTES {
        remaining
    } else {
        MAX_SDO_SEGMENT_BYTES as int
    };
    let last = segment == remaining;
    let unused = if last {
        MAX_SDO_SEGMENT_BYTES - segment
    } else {
        0
    };
    let command = toggle_bit(v.toggle) + unused * 2 + if last {
        1int
    } else {
        0
    };
    SdoTransferView {
        phase: SdoPhase::AwaitSegment,
        request: sdo_request_prefix(command) + v.data.subrange(v.offset, v.offset + segment),
        offset: v.offset + segment,
        ..v
    }
}

/// Whether the response names the transfer's object; the error if not.
pub open spec fn object_check(v: SdoTransferView, r: SdoResponseModel) -> Option<SdoError> {
    if r.index != Some(v.index) {
        Some(SdoError::IndexMismatch)
    } else if r.subindex != Some(v.subindex) {
        Some(SdoError::SubindexMismatch)
    } else {
        None
    }
}

/// The transfer and the result after the response `payload`.
pub open spec fn spec_accept(v: SdoTransferView, payload: Seq<u8>) -> (SdoTransferView, Result<
    SdoProgress,
    SdoError,
>) {
    if !(v.phase == SdoPhase::AwaitInitiate || v.phase == SdoPhase::AwaitSegment) {
        (view_fault(v, SdoError::InvalidState), Err(SdoError::InvalidState))
    } else {
        match spec_parse_sdo_response(payload) {
            Err(e) => (view_fault(v, e), Err(e)),
            Ok(r) => if r.abort_code is Some {
                let code = r.abort_code->Some_0;
                (
                    SdoTransferView {
                        phase: SdoPhase::Aborted,
                        request: Seq::empty(),
                        abort_code: Some(code),
                        last_error: Some(SdoError::Abort(code)),
                        ..v
                    },
                    Err(SdoError::Abort(code)),
                )
            } else if v.direction == SdoDirection::Upload && v.phase == SdoPhase::AwaitInitiate {
                if object_check(v, r) is Some {
                    let e = object_check(v, r)->Some_0;
                    (view_fault(v, e), Err(e))
                } else if (r.command / 2) % 2 == 1 {
                    if v.data.len() + r.data.len() > MAX_SDO_DATA {
                        (view_fault(v, SdoError::BufferTooSmall), Err(SdoError::BufferTooSmall))
                    } else {
                        (
                            view_complete(
                                SdoTransferView {
                                    data: v.data + r.data,
                                    expected_size: Some(r.data.len() as usize),
                                    ..v
                                },
                            ),
                            Ok(SdoProgress::Complete),
                        )
                    }
                } else if r.total_size is Some && r.total_size->Some_0 > MAX_SDO_DATA {
                    (view_fault(v, SdoError::PayloadTooLarge), Err(SdoError::PayloadTooLarge))
                } else {
                    (
                        view_upload_segment_request(
                            SdoTransferView {
                                expected_size: r.total_size,
                                offset: 0,
                                toggle: false,
                                ..v
                            },
                        ),
                        Ok(SdoProgress::Advanced),
                    )
                }
            } else if v.direction == SdoDirection::Download && v.phase == SdoPhase::AwaitInitiate {
                if object_check(v, r) is Some {
                    let e = object_check(v, r)->Some_0;
                    (view_fault(v, e), Err(e))
                } else if r.command != SDO_DOWNLOAD_RESPONSE {
                    (view_fault(v, SdoError::UnexpectedCommand), Err(SdoError::UnexpectedCommand))
                } else if v.data.len() <= 4 {
                    (view_complete(v), Ok(SdoProgress::Complete))
                } else {
                    (
                        view_download_segment(SdoTransferView { offset: 0, toggle: false, ..v }),
                        Ok(SdoProgress::Advanced),
                    )
                }
            } else if v.direction == SdoDirection::Upload {
                if r.index is Some || r.subindex is Some {
                    (view_fault(v, SdoError::UnexpectedCommand), Err(SdoError::UnexpectedCommand))
                } else if r.toggle != v.toggle {
                    (view_fault(v, SdoError::ToggleMismatch), Err(SdoError::ToggleMismatch))
                } else if v.data.len() + r.data.len() > MAX_SDO_DATA {
                    (view_fault(v, SdoError::BufferTooSmall), Err(SdoError::BufferTooSmall))
                } else {
                    let stored = SdoTransferView { data: v.data + r.data, ..v };
                    if r.last {
                        if v.expected_size is Some && v.expected_size->Some_0 != stored.data.len() {
                            (view_fault(stored, SdoError::SizeMismatch), Err(SdoError::SizeMismatch))
                        } else {
                            (view_complete(stored), Ok(SdoProgress::Complete))
                        }
                    } else {
                        (
                            view_upload_segment_request(
                                SdoTransferView { toggle: !v.toggle, ..stored },
                            ),
                            Ok(SdoProgress::Advanced),
                        )
                    }
                }
            } else {
                if r.index is Some || r.subindex is Some {
                    (view_fault(v, SdoError::UnexpectedCommand), Err(SdoError::UnexpectedCommand))
                } else if !(0x20 <= r.command < 0x40) || r.toggle != v.toggle {
                    (view_fault(v, SdoError::ToggleMismatch), Err(SdoError::ToggleMismatch))
                } else if v.offset >= v.data.len() {
                    (view_complete(v), Ok(SdoProgress::Complete))
                } else {
                    (
                        view_download_segment(SdoTransferView { toggle: !v.toggle, ..v }),
                        Ok(SdoProgress::Advanced),
                    )
                }
            },
        }
    }
}

pub open spec fn idle_view() -> SdoTransferView {
    SdoTransferView {
        phase: SdoPhase::Idle,
        direction: SdoDirection::Upload,
        index: 0,
        subindex: 0,
        complete_access: false,
        data: Seq::empty(),
        expected_size: None,
        offset: 0,
        toggle: false,
        request: Seq::empty(),
        abort_code: None,
        last_error: None,
    }
}

/// Whether a transfer may be begun: none is in progress.
pub open spec fn may_begin(phase: SdoPhase) -> bool {
    !(phase == SdoPhase::AwaitInitiate || phase == SdoPhase::AwaitSegment)
}

/// The transfer just begun, before its initiate request is built.
pub open spec fn begun_view(
    direction: SdoDirection,
    index: u16,
    subindex: u8,
    complete_access: bool,
    data: Seq<u8>,
) -> SdoTransferView {
    SdoTransferView {
        phase: SdoPhase::AwaitInitiate,
        direction,
        index,
        subindex,
        complete_access,
        data,
        expected_size: None,
        offset: 0,
        toggle: false,
        request: Seq::empty(),
        abort_code: None,
        last_error: None,
    }
}

/// One CoE SDO upload or download, expedited or segmented.
pub struct SdoTransfer {
    phase: SdoPhase,
    direction: SdoDirection,
    index: u16,
    subindex: u8,
    complete_access: bool,
    data: Vec<u8>,
    expected_size: Option<usize>,
    offset: usize,
    toggle: bool,
    pending: Vec<u8>,
    abort_code: Option<u32>,
    last_error: Option<SdoError>,
}

impl View for SdoTransfer {
    type V = SdoTransferView;

    closed spec fn view(&self) -> SdoTransferView {
        SdoTransferView {
            phase: self.phase,
            direction: self.direction,
            index: self.index,
            subindex: self.subindex,
            complete_access: self.complete_access,
            data: self.data@,
            expected_size: self.expected_size,
            offset: self.offset as int,
            toggle: self.toggle,
            request: self.pending@,
            abort_code: self.abort_code,
            last_error: self.last_error,
        }
    }
}

impl SdoTransfer {
    /// Data fits the transfer buffer and the download offset lies in it.
    pub closed spec fn wf(&self) -> bool {
        &&& self.data@.len() <= MAX_SDO_DATA
        &&& self.offset <= self.data@.len()
    }

    pub fn new() -> (transfer: Self)
        ensures
            transfer@ == idle_view(),
            transfer.wf(),
    {
        let transfer = SdoTransfer {
            phase: SdoPhase::Idle,
            direction: SdoDirection::Upload,
            index: 0,
            subindex: 0,
            complete_access: false,
            data: Vec::new(),
            expected_size: None,
            offset: 0,
            toggle: false,
            pending: Vec::new(),
            abort_code: None,
            last_error: None,
        };
        assert(transfer@.data =~= Seq::<u8>::empty());
        assert(transfer@.request =~= Seq::<u8>::empty());
        transfer
    }

    pub fn phase(&self) -> (phase: SdoPhase)
        ensures
            phase == self@.phase,
    {
        self.phase
    }

    pub fn direction(&self) -> (direction: SdoDirection)
        ensures
            direction == self@.direction,
    {
        self.direction
    }

    pub fn index(&self) -> (index: u16)
        ensures
            index == self@.index,
    {
        self.index
    }

    pub fn subindex(&self) -> (subindex: u8)
        ensures
            subindex == self@.subindex,
    {
        self.subindex
    }

    pub fn data_len(&self) -> (len: usize)
        ensures
            len == self@.data.len(),
    {
        self.data.len()
    }

    /// The data sent by a download, or received so far by an upload.
    pub fn data(&self) -> (data: &[u8])
        ensures
            data@ == self@.data,
    {
        self.data.as_slice()
    }

    /// The request waiting to be sent, if any.
    pub fn request(&self) -> (request: Option<&[u8]>)
        ensures
            self@.request.len() == 0 ==> request is None,
            self@.request.len() > 0 ==> (request matches Some(bytes) && bytes@ == self@.request),
    {
        if self.pending.len() == 0 {
            None
        } else {
            Some(self.pending.as_slice())
        }
    }

    pub fn expected_size(&self) -> (size: Option<usize>)
        ensures
            size == self@.expected_size,
    {
        self.expected_size
    }

    pub fn abort_code(&self) -> (code: Option<u32>)
        ensures
            code == self@.abort_code,
    {
        self.abort_code
    }

    pub fn last_error(&self) -> (error: Option<SdoError>)
        ensures
            error == self@.last_error,
    {
        self.last_error
    }

    /// Begin an upload of `index:subindex` and build its initiate request.
    pub fn start_upload(&mut self, index: u16, subindex: u8, complete_access: bool) -> (result:
        Result<(), SdoError>)
        requires
            old(self).wf(),
        ensures
            final(self).wf(),
            !may_begin(old(self)@.phase) ==> result == Err::<(), SdoError>(SdoError::Busy)
                && final(self)@ == old(self)@,
            may_begin(old(self)@.phase) ==> {
                let begun = begun_view(
                    SdoDirection::Upload,
                    index,
                    subindex,
                    complete_access,
                    Seq::empty(),
                );
                &&& result is Ok
                &&& final(self)@ == (SdoTransferView { request: initiate_request(begun), ..begun })
            },
    {
        let empty: [u8; 0] = [];
        assert(empty@ =~= Seq::<u8>::empty());
        match self.begin(SdoDirection::Upload, index, subindex, complete_access, &empty) {
            Ok(()) => {},
            Err(error) => return Err(error),
        }
        self.build_upload_initiate();
        Ok(())
    }

    /// Begin a download of `data` to `index:subindex`: expedited up to four
    /// bytes, segmented above.
    pub fn start_download(&mut self, index: u16, subindex: u8, data: &[u8], complete_access: bool) -> (result:
        Result<(), SdoError>)
        requires
            old(self).wf(),
        ensures
            final(self).wf(),
            !may_begin(old(self)@.phase) ==> result == Err::<(), SdoError>(SdoError::Busy)
                && final(self)@ == old(self)@,
            may_begin(old(self)@.phase) && data@.len() > MAX_SDO_DATA ==> result == Err::<
                (),
                SdoError,
            >(SdoError::PayloadTooLarge) && final(self)@ == old(self)@,
            may_begin(old(self)@.phase) && data@.len() <= MAX_SDO_DATA ==> {
                let begun = begun_view(
                    SdoDirection::Download,
                    index,
                    subindex,
                    complete_access,
                    data@,
                );
                &&& result is Ok
                &&& final(self)@ == (SdoTransferView { request: initiate_request(begun), ..begun })
            },
    {
        match self.begin(SdoDirection::Download, index, subindex, complete_access, data) {
            Ok(()) => {},
            Err(error) => return Err(error),
        }
        if data.len() <= 4 {
            self.build_download_expedited();
        } else {
            self.build_download_initiate();
        }
        Ok(())
    }

    /// Offer the CoE payload of a mailbox response; see `spec_accept`.
    pub fn accept_response(&mut self, payload: &[u8]) -> (result: Result<SdoProgress, SdoError>)
        requires
            old(self).wf(),
        ensures
            final(self).wf(),
            (final(self)@, result) == spec_accept(old(self)@, payload@),
    {
        if !(self.phase == SdoPhase::AwaitInitiate || self.phase == SdoPhase::AwaitSegment) {
            return self.fail(SdoError::InvalidState);
        }
        let response = match SdoResponse::parse(payload) {
            Ok(response) => response,
            Err(error) => return self.fail(error),
        };
        if let Some(code) = response.abort_code {
            self.phase = SdoPhase::Aborted;
            self.pending = Vec::new();
            self.abort_code = Some(code);
            self.last_error = Some(SdoError::Abort(code));
            assert(self@.request =~= Seq::<u8>::empty());
            return Err(SdoError::Abort(code));
        }
        if self.direction == SdoDirection::Upload && self.phase == SdoPhase::AwaitInitiate {
            if let Some(error) = self.check_object(response.index, response.subindex) {
                return self.fail(error);
            }
            if (response.command / 2) % 2 == 1 {
                if let Err(error) = self.store_upload_data(response.data) {
                    return self.fail(error);
                }
                self.expected_size = Some(response.data.len());
                self.complete();
                return Ok(SdoProgress::Complete);
            }
            match response.total_size {
                Some(expected_size) => {
                    if expected_size > MAX_SDO_DATA {
                        return self.fail(SdoError::PayloadTooLarge);
                    }
                    self.expected_size = Some(expected_size);
                },
                None => {
                    self.expected_size = None;
                },
            }
            self.offset = 0;
            self.toggle = false;
            self.build_upload_segment_request();
            Ok(SdoProgress::Advanced)
        } else if self.direction == SdoDirection::Download && self.phase == SdoPhase::AwaitInitiate {
            if let Some(error) = self.check_object(response.index, response.subindex) {
                return self.fail(error);
            }
            if response.command != SDO_DOWNLOAD_RESPONSE {
                return self.fail(SdoError::UnexpectedCommand);
            }
            if self.data.len() <= 4 {
                self.complete();
                Ok(SdoProgress::Complete)
            } else {
                self.offset = 0;
                self.toggle = false;
                self.build_download_segment();
                Ok(SdoProgress::Advanced)
            }
        } else if self.direction == SdoDirection::Upload {
            if response.index.is_some() || response.subindex.is_some() {
                return self.fail(SdoError::UnexpectedCommand);
            }
            if response.toggle != self.toggle {
                return self.fail(SdoError::ToggleMismatch);
            }
            if let Err(error) = self.store_upload_data(response.data) {
                return self.fail(error);
            }
            if response.last {
                let mismatch = match self.expected_size {
                    Some(expected_size) => expected_size != self.data.len(),
                    None => false,
                };
                if mismatch {
                    return self.fail(SdoError::SizeMismatch);
                }
                self.complete();
                Ok(SdoProgress::Complete)
            } else {
                self.toggle = !self.toggle;
                self.build_upload_segment_request();
                Ok(SdoProgress::Advanced)
            }
        } else {
            if response.index.is_some() || response.subindex.is_some() {
                return self.fail(SdoError::UnexpectedCommand);
            }
            if !(SDO_DOWNLOAD_SEGMENT_RESPONSE <= response.command && response.command < 0x40)
                || response.toggle != self.toggle {
                return self.fail(SdoError::ToggleMismatch);
            }
            if self.offset >= self.data.len() {
                self.complete();
                Ok(SdoProgress::Complete)
            } else {
                self.toggle = !self.toggle;
                self.build_download_segment();
                Ok(SdoProgress::Advanced)
            }
        }
    }

    fn begin(
        &mut self,
        direction: SdoDirection,
        index: u16,
        subindex: u8,
        complete_access: bool,
        data: &[u8],
    ) -> (result: Result<(), SdoError>)
        requires
            old(self).wf(),
        ensures
            final(self).wf(),
            !may_begin(old(self)@.phase) ==> result == Err::<(), SdoError>(SdoError::Busy)
                && final(self)@ == old(self)@,
            may_begin(old(self)@.phase) && data@.len() > MAX_SDO_DATA ==> result == Err::<
                (),
                SdoError,
            >(SdoError::PayloadTooLarge) && final(self)@ == old(self)@,
            may_begin(old(self)@.phase) && data@.len() <= MAX_SDO_DATA ==> result is Ok
                && final(self)@ == begun_view(direction, index, subindex, complete_access, data@),
    {
        if !may_begin_exec(self.phase) {
            return Err(SdoError::Busy);
        }
        if data.len() > MAX_SDO_DATA {
            return Err(SdoError::PayloadTooLarge);
        }
        self.phase = SdoPhase::AwaitInitiate;
        self.direction = direction;
        self.index = index;
        self.subindex = subindex;
        self.complete_access = complete_access;
        self.data = copy_range(data, 0, data.len());
        assert(self.data@ =~= data@);
        self.expected_size = None;
        self.offset = 0;
        self.toggle = false;
        self.pending = Vec::new();
        self.abort_code = None;
        self.last_error = None;
        assert(self@.request =~= Seq::<u8>::empty());
        Ok(())
    }

    fn check_object(&self, index: Option<u16>, subindex: Option<u8>) -> (error: Option<SdoError>)
        ensures
            error == (if index != Some(self@.index) {
                Some(SdoError::IndexMismatch)
            } else if subindex != Some(self@.subindex) {
                Some(SdoError::SubindexMismatch)
            } else {
                None::<SdoError>
            }),
    {
        let index_matches = match index {
            Some(value) => value == self.index,
            None => false,
        };
        if !index_matches {
            return Some(SdoError::IndexMismatch);
        }
        let subindex_matches = match subindex {
            Some(value) => value == self.subindex,
            None => false,
        };
        if !subindex_matches {
            return Some(SdoError::SubindexMismatch);
        }
        None
    }

    fn build_request(command: u8, index: u16, subindex: u8) -> (request: Vec<u8>)
        ensures
            request@ == sdo_request_prefix(command as int) + object_bytes(index, subindex),
    {
        let mut request: Vec<u8> = Vec::new();
        request.push(0);
        request.push(0x20);
        request.push(command);
        request.push((index % 0x100) as u8);
        request.push((index / 0x100) as u8);
        request.push(subindex);
        assert(request@ =~= sdo_request_prefix(command as int) + object_bytes(index, subindex));
        request
    }

    fn build_upload_initiate(&mut self)
        requires
            old(self).wf(),
            old(self)@.direction == SdoDirection::Upload,
        ensures
            final(self).wf(),
            final(self)@ == (SdoTransferView { request: initiate_request(old(self)@), ..old(self)@ }),
    {
        let command = SDO_UPLOAD_REQUEST + if self.complete_access {
            0x80u8
        } else {
            0
        };
        self.pending = Self::build_request(command, self.index, self.subindex);
    }

    #[verifier::loop_isolation(false)]
    fn build_download_expedited(&mut self)
        requires
            old(self).wf(),
            old(self)@.direction == SdoDirection::Download,
            old(self)@.data.len() <= 4,
        ensures
            final(self).wf(),
            final(self)@ == (SdoTransferView { request: initiate_request(old(self)@), ..old(self)@ }),
    {
        let len = self.data.len();
        let unused = (4 - len) as u8;
        let command = SDO_DOWNLOAD_EXPEDITED + unused * 4 + if self.complete_access {
            0x80u8
        } else {
            0
        };
        let mut request = Self::build_request(command, self.index, self.subindex);
        let ghost head = request@;
        let mut i: usize = 0;
        while i < 4
            invariant
                i <= 4,
                len == self.data@.len(),
                len <= 4,
                request@ == head + (if i <= len {
                    self.data@.subrange(0, i as int)
                } else {
                    self.data@ + zeros((i - len) as nat)
                }),
            decreases 4 - i,
        {
            if i < len {
                request.push(self.data[i]);
            } else {
                request.push(0);
            }
            i = i + 1;
            assert(request@ =~= head + (if i <= len {
                self.data@.subrange(0, i as int)
            } else {
                self.data@ + zeros((i - len) as nat)
            }));
        }
        proof {
            if len == 4 {
                assert(self.data@.subrange(0, 4) =~= self.data@ + zeros(0));
            }
        }
        self.pending = request;
        assert(self@.request =~= initiate_request(old(self)@));
    }

    fn build_download_initiate(&mut self)
        requires
            old(self).wf(),
            old(self)@.direction == SdoDirection::Download,
            old(self)@.data.len() > 4,
        ensures
            final(self).wf(),
            final(self)@ == (SdoTransferView { request: initiate_request(old(self)@), ..old(self)@ }),
    {
        let command = SDO_DOWNLOAD_NORMAL + if self.complete_access {
            0x80u8
        } else {
            0
        };
        let mut request = Self::build_request(command, self.index, self.subindex);
        let len = self.data.len() as u32;
        request.push((len % 0x100) as u8);
        request.push(((len / 0x100) % 0x100) as u8);
        request.push(((len / 0x10000) % 0x100) as u8);
        request.push((len / 0x1000000) as u8);
        self.pending = request;
        assert(self@.request =~= initiate_request(old(self)@));
    }

    fn build_upload_segment_request(&mut self)
        requires
            old(self).wf(),
        ensures
            final(self).wf(),
            final(self)@ == view_upload_segment_request(old(self)@),
    {
        let command = SDO_UPLOAD_SEGMENT_REQUEST + if self.toggle {
            0x10u8
        } else {
            0
        };
        let mut request: Vec<u8> = Vec::new();
        request.push(0);
        request.push(0x20);
        request.push(command);
        self.pending = request;
        self.phase = SdoPhase::AwaitSegment;
        assert(self@.request =~= view_upload_segment_request(old(self)@).request);
    }

    #[verifier::loop_isolation(false)]
    fn build_download_segment(&mut self)
        requires
            old(self).wf(),
        ensures
            final(self).wf(),
            final(self)@ == view_download_segment(old(self)@),
    {
        let remaining = self.data.len() - self.offset;
        let segment_len = if remaining < MAX_SDO_SEGMENT_BYTES {
            remaining
        } else {
            MAX_SDO_SEGMENT_BYTES
        };
        let last = segment_len == remaining;
        let unused = if last {
            MAX_SDO_SEGMENT_BYTES - segment_len
        } else {
            0
        };
        let command = (if self.toggle {
            0x10u8
        } else {
            0
        }) + (unused as u8) * 2 + if last {
            1u8
        } else {
            0
        };
        let mut request: Vec<u8> = Vec::new();
        request.push(0);
        request.push(0x20);
        request.push(command);
        let ghost head = request@;
        let mut i: usize = 0;
        while i < segment_len
            invariant
                i <= segment_len,
                self.offset + segment_len <= self.data@.len(),
                request@ == head + self.data@.subrange(self.offset as int, self.offset + i),
            decreases segment_len - i,
        {
            request.push(self.data[self.offset + i]);
            i = i + 1;
            assert(request@ =~= head + self.data@.subrange(self.offset as int, self.offset + i));
        }
        self.pending = request;
        self.offset = self.offset + segment_len;
        self.phase = SdoPhase::AwaitSegment;
        assert(self@.request =~= view_download_segment(old(self)@).request);
    }

    #[verifier::loop_isolation(false)]
    fn store_upload_data(&mut self, data: &[u8]) -> (result: Result<(), SdoError>)
        requires
            old(self).wf(),
        ensures
            final(self).wf(),
            old(self)@.data.len() + data@.len() > MAX_SDO_DATA ==> result == Err::<(), SdoError>(
                SdoError::BufferTooSmall,
            ) && final(self)@ == old(self)@,
            old(self)@.data.len() + data@.len() <= MAX_SDO_DATA ==> result is Ok && final(self)@
                == (SdoTransferView { data: old(self)@.data + data@, ..old(self)@ }),
    {
        if data.len() > MAX_SDO_DATA - self.data.len() {
            return Err(SdoError::BufferTooSmall);
        }
        let mut combined = copy_range(self.data.as_slice(), 0, self.data.len());
        let ghost start = self.data@;
        assert(combined@ =~= start);
        let mut i: usize = 0;
        while i < data.len()
            invariant
                i <= data@.len(),
                start.len() + data@.len() <= MAX_SDO_DATA,
                combined@ == start + data@.subrange(0, i as int),
            decreases data@.len() - i,
        {
            combined.push(data[i]);
            i = i + 1;
            assert(combined@ =~= start + data@.subrange(0, i as int));
        }
        assert(combined@ =~= start + data@);
        self.data = combined;
        assert(self@ =~= (SdoTransferView { data: old(self)@.data + data@, ..old(self)@ }));
        Ok(())
    }

    fn complete(&mut self)
        requires
            old(self).wf(),
        ensures
            final(self).wf(),
            final(self)@ == view_complete(old(self)@),
    {
        self.phase = SdoPhase::Complete;
        self.pending = Vec::new();
        assert(self@.request =~= Seq::<u8>::empty());
    }

    fn fail(&mut self, error: SdoError) -> (result: Result<SdoProgress, SdoError>)
        requires
            old(self).wf(),
        ensures
            final(self).wf(),
            final(self)@ == view_fault(old(self)@, error),
            result == Err::<SdoProgress, SdoError>(error),
    {
        self.phase = SdoPhase::Faulted;
        self.pending = Vec::new();
        self.last_error = Some(error);
        assert(self@.request =~= Seq::<u8>::empty());
        Err(error)
    }
}

fn may_begin_exec(phase: SdoPhase) -> (may: bool)
    ensures
        may == may_begin(phase),
{
    !(phase == SdoPhase::AwaitInitiate || phase == SdoPhase::AwaitSegment)
}

impl Default for SdoTransfer {
    fn default() -> (transfer: Self)
        ensures
            transfer@ == idle_view(),
    {
        SdoTransfer::new()
    }
}


/// In a segmented upload, a segment that is accepted and is not the last
/// flips the toggle: the transfer appends the segment's bytes and asks for
/// the next segment with an upload-segment request (command 0x60 or 0x70)
/// whose toggle bit is the opposite of the segment just accepted.
pub proof fn lemma_upload_segment_toggle_alternates(v: SdoTransferView, payload: Seq<u8>)
    requires
        v.direction == SdoDirection::Upload,
        v.phase == SdoPhase::AwaitSegment,
        spec_accept(v, payload).1 == Ok::<SdoProgress, SdoError>(SdoProgress::Advanced),
    ensures
        ({
            let after = spec_accept(v, payload).0;
            &&& payload.len() >= 3
            &&& payload[2] < 0x20 && payload[2] % 2 == 0
            &&& after.phase == SdoPhase::AwaitSegment
            &&& after.data == v.data + payload.subrange(3, payload.len() as int)
            &&& after.request.len() == 3
            &&& after.request[2] == 0x60 || after.request[2] == 0x70
            &&& (after.request[2] == 0x70) == ((payload[2] / 16) % 2 == 0)
        }),
{
    let r = spec_parse_sdo_response(payload)->Ok_0;
    assert(spec_parse_sdo_response(payload) is Ok);
    let after = spec_accept(v, payload).0;
    assert(after.request =~= sdo_request_prefix(SDO_UPLOAD_SEGMENT_REQUEST + toggle_bit(!v.toggle)));
}

/// After a non-last upload segment is accepted, a next segment with the
/// same toggle bit is refused as a toggle mismatch, and one with the
/// opposite toggle bit is not.
pub proof fn lemma_upload_next_segment_toggle(v: SdoTransferView, payload: Seq<u8>, next: Seq<u8>)
    requires
        v.direction == SdoDirection::Upload,
        v.phase == SdoPhase::AwaitSegment,
        spec_accept(v, payload).1 == Ok::<SdoProgress, SdoError>(SdoProgress::Advanced),
        spec_parse_sdo_response(next) is Ok,
        next[2] < 0x20,
    ensures
        (next[2] / 16) % 2 == (payload[2] / 16) % 2 ==> spec_accept(spec_accept(v, payload).0, next).1
            == Err::<SdoProgress, SdoError>(SdoError::ToggleMismatch),
        (next[2] / 16) % 2 != (payload[2] / 16) % 2 ==> spec_accept(spec_accept(v, payload).0, next).1
            != Err::<SdoProgress, SdoError>(SdoError::ToggleMismatch),
{
    lemma_upload_segment_toggle_alternates(v, payload);
    assert(spec_parse_sdo_response(payload) is Ok);
}


/// In a segmented upload, the last segment is accepted only with the toggle
/// the transfer asked for, and completing appends exactly its bytes less
/// the unused ones it declares (a segment acknowledge, 0x20..0x3F, is taken
/// as an empty last segment).
pub proof fn lemma_upload_last_segment(v: SdoTransferView, payload: Seq<u8>)
    requires
        v.direction == SdoDirection::Upload,
        v.phase == SdoPhase::AwaitSegment,
        spec_accept(v, payload).1 == Ok::<SdoProgress, SdoError>(SdoProgress::Complete),
    ensures
        ({
            let after = spec_accept(v, payload).0;
            let unused = (payload[2] / 2) % 8;
            &&& payload.len() >= 3
            &&& payload[2] < 0x40
            &&& ((payload[2] / 16) % 2 == 1) == v.toggle
            &&& after.phase == SdoPhase::Complete
            &&& payload[2] < 0x20 ==> payload[2] % 2 == 1 && after.data == v.data + payload.subrange(3, payload.len()
                - unused)
            &&& payload[2] >= 0x20 ==> after.data == v.data
        }),
{
    assert(spec_parse_sdo_response(payload) is Ok);
}

/// An upload that the slave answers as segmented asks for its first
/// segment with toggle 0 (command 0x60), holding no data yet.
pub proof fn lemma_upload_first_segment_request(v: SdoTransferView, payload: Seq<u8>)
    requires
        v.direction == SdoDirection::Upload,
        v.phase == SdoPhase::AwaitInitiate,
        spec_accept(v, payload).1 == Ok::<SdoProgress, SdoError>(SdoProgress::Advanced),
    ensures
        ({
            let after = spec_accept(v, payload).0;
            &&& after.phase == SdoPhase::AwaitSegment
            &&& after.data == v.data
            &&& after.request.len() == 3
            &&& after.request[2] == 0x60
        }),
{
    assert(spec_parse_sdo_response(payload) is Ok);
    let after = spec_accept(v, payload).0;
    assert(after.request =~= sdo_request_prefix(SDO_UPLOAD_SEGMENT_REQUEST + toggle_bit(false)));
}

} // verus!
