use nrf_dfu::buf::ReadBuf;
use nrf_dfu::codec::{
    DfuRequest, DfuResponse, DfuResponseBody, DfuResult, FirmwareType, ObjectType,
};

fn encoded(response: &DfuResponse) -> Vec<u8> {
    let mut buf = [0u8; 32];
    let len = response.encode(&mut buf).unwrap();
    buf[..len].to_vec()
}

fn answer(request: DfuRequest<'static>, body: Option<DfuResponseBody>) -> DfuResponse<'static> {
    DfuResponse {
        request,
        result: DfuResult::Success,
        body,
    }
}

#[test]
fn decode_requests_without_fields() {
    let empty: &[u8] = &[];
    assert_eq!(DfuRequest::decode(&[0x00]), Ok((DfuRequest::ProtocolVersion, empty)));
    assert_eq!(DfuRequest::decode(&[0x03]), Ok((DfuRequest::Crc, empty)));
    assert_eq!(DfuRequest::decode(&[0x04]), Ok((DfuRequest::Execute, empty)));
    assert_eq!(DfuRequest::decode(&[0x07]), Ok((DfuRequest::MtuGet, empty)));
    assert_eq!(DfuRequest::decode(&[0x0A]), Ok((DfuRequest::HwVersion, empty)));
    assert_eq!(DfuRequest::decode(&[0x0C]), Ok((DfuRequest::Abort, empty)));
}

#[test]
fn decode_create() {
    let empty: &[u8] = &[];
    assert_eq!(
        DfuRequest::decode(&[0x01, 0x02, 0x00, 0x04, 0x00, 0x00]),
        Ok((
            DfuRequest::Create {
                obj_type: ObjectType::Data,
                obj_size: 1024
            },
            empty
        ))
    );
    assert_eq!(
        DfuRequest::decode(&[0x01, 0x01, 0x01, 0x02, 0x03, 0x04]),
        Ok((
            DfuRequest::Create {
                obj_type: ObjectType::Command,
                obj_size: 0x0403_0201
            },
            empty
        ))
    );
    assert_eq!(
        DfuRequest::decode(&[0x01, 0x00, 0xFF, 0xFF, 0xFF, 0xFF]),
        Ok((
            DfuRequest::Create {
                obj_type: ObjectType::Invalid,
                obj_size: u32::MAX
            },
            empty
        ))
    );
}

#[test]
fn decode_set_receipt_notification() {
    let empty: &[u8] = &[];
    assert_eq!(
        DfuRequest::decode(&[0x02, 0x34, 0x12]),
        Ok((DfuRequest::SetReceiptNotification { target: 0x1234 }, empty))
    );
    assert_eq!(
        DfuRequest::decode(&[0x02, 0x00, 0x00]),
        Ok((DfuRequest::SetReceiptNotification { target: 0 }, empty))
    );
    assert_eq!(
        DfuRequest::decode(&[0x02, 0xFF, 0xFF]),
        Ok((DfuRequest::SetReceiptNotification { target: 0xFFFF }, empty))
    );
}

#[test]
fn decode_select() {
    let empty: &[u8] = &[];
    assert_eq!(
        DfuRequest::decode(&[0x06, 0x01]),
        Ok((
            DfuRequest::Select {
                obj_type: ObjectType::Command
            },
            empty
        ))
    );
    assert_eq!(
        DfuRequest::decode(&[0x06, 0x02]),
        Ok((
            DfuRequest::Select {
                obj_type: ObjectType::Data
            },
            empty
        ))
    );
    assert_eq!(
        DfuRequest::decode(&[0x06, 0x00]),
        Ok((
            DfuRequest::Select {
                obj_type: ObjectType::Invalid
            },
            empty
        ))
    );
}

#[test]
fn decode_ping_and_fw_version() {
    let empty: &[u8] = &[];
    assert_eq!(
        DfuRequest::decode(&[0x09, 0x7B]),
        Ok((DfuRequest::Ping { id: 0x7B }, empty))
    );
    assert_eq!(
        DfuRequest::decode(&[0x0B, 0x02]),
        Ok((DfuRequest::FwVersion { image_id: 2 }, empty))
    );
}

#[test]
fn decode_write_takes_all_that_follows() {
    let empty: &[u8] = &[];
    let payload: &[u8] = &[1, 2, 3, 4, 5];
    assert_eq!(
        DfuRequest::decode(&[0x08, 1, 2, 3, 4, 5]),
        Ok((DfuRequest::Write { data: payload }, empty))
    );
    assert_eq!(
        DfuRequest::decode(&[0x08]),
        Ok((DfuRequest::Write { data: empty }, empty))
    );
}

#[test]
fn decode_hands_back_what_follows_the_request() {
    let rest: &[u8] = &[0xAA, 0xBB];
    assert_eq!(
        DfuRequest::decode(&[0x00, 0xAA, 0xBB]),
        Ok((DfuRequest::ProtocolVersion, rest))
    );
    assert_eq!(
        DfuRequest::decode(&[0x09, 0x01, 0xAA, 0xBB]),
        Ok((DfuRequest::Ping { id: 1 }, rest))
    );
    assert_eq!(
        DfuRequest::decode(&[0x01, 0x02, 0x10, 0x00, 0x00, 0x00, 0xAA, 0xBB]),
        Ok((
            DfuRequest::Create {
                obj_type: ObjectType::Data,
                obj_size: 16
            },
            rest
        ))
    );
    assert_eq!(
        DfuRequest::decode(&[0x02, 0x05, 0x00, 0xAA, 0xBB]),
        Ok((DfuRequest::SetReceiptNotification { target: 5 }, rest))
    );
}

#[test]
fn decode_refuses_an_empty_buffer() {
    assert_eq!(DfuRequest::decode(&[]), Err(()));
}

#[test]
fn decode_refuses_unknown_codes() {
    assert_eq!(DfuRequest::decode(&[0x05]), Err(()));
    assert_eq!(DfuRequest::decode(&[0x0D]), Err(()));
    assert_eq!(DfuRequest::decode(&[0x60, 0x00]), Err(()));
    assert_eq!(DfuRequest::decode(&[0xFF, 1, 2, 3, 4, 5, 6]), Err(()));
    for op in 0x0Du8..=0xFF {
        assert_eq!(DfuRequest::decode(&[op, 0, 0, 0, 0, 0]), Err(()));
    }
}

#[test]
fn decode_refuses_fields_cut_short() {
    assert_eq!(DfuRequest::decode(&[0x01]), Err(()));
    assert_eq!(DfuRequest::decode(&[0x01, 0x02]), Err(()));
    assert_eq!(DfuRequest::decode(&[0x01, 0x02, 0x00, 0x04, 0x00]), Err(()));
    assert_eq!(DfuRequest::decode(&[0x02]), Err(()));
    assert_eq!(DfuRequest::decode(&[0x02, 0x01]), Err(()));
    assert_eq!(DfuRequest::decode(&[0x06]), Err(()));
    assert_eq!(DfuRequest::decode(&[0x09]), Err(()));
    assert_eq!(DfuRequest::decode(&[0x0B]), Err(()));
}

#[test]
fn decode_refuses_unknown_object_kinds() {
    assert_eq!(DfuRequest::decode(&[0x06, 0x03]), Err(()));
    assert_eq!(DfuRequest::decode(&[0x06, 0xFF]), Err(()));
    assert_eq!(
        DfuRequest::decode(&[0x01, 0x03, 0x00, 0x04, 0x00, 0x00]),
        Err(())
    );
}

#[test]
fn request_codes() {
    assert_eq!(DfuRequest::ProtocolVersion.code(), 0x00);
    assert_eq!(
        DfuRequest::Create {
            obj_type: ObjectType::Data,
            obj_size: 1
        }
        .code(),
        0x01
    );
    assert_eq!(DfuRequest::SetReceiptNotification { target: 1 }.code(), 0x02);
    assert_eq!(DfuRequest::Crc.code(), 0x03);
    assert_eq!(DfuRequest::Execute.code(), 0x04);
    assert_eq!(
        DfuRequest::Select {
            obj_type: ObjectType::Data
        }
        .code(),
        0x06
    );
    assert_eq!(DfuRequest::MtuGet.code(), 0x07);
    assert_eq!(DfuRequest::Write { data: &[1] }.code(), 0x08);
    assert_eq!(DfuRequest::Ping { id: 1 }.code(), 0x09);
    assert_eq!(DfuRequest::HwVersion.code(), 0x0A);
    assert_eq!(DfuRequest::FwVersion { image_id: 1 }.code(), 0x0B);
    assert_eq!(DfuRequest::Abort.code(), 0x0C);
}

#[test]
fn decoded_request_has_the_code_it_was_decoded_from() {
    let inputs: [&[u8]; 12] = [
        &[0x00],
        &[0x01, 0x01, 0, 0, 0, 0],
        &[0x02, 0, 0],
        &[0x03],
        &[0x04],
        &[0x06, 0x01],
        &[0x07],
        &[0x08, 9, 9],
        &[0x09, 0],
        &[0x0A],
        &[0x0B, 0],
        &[0x0C],
    ];
    for input in inputs {
        let (request, _) = DfuRequest::decode(input).unwrap();
        assert_eq!(request.code(), input[0]);
    }
}

#[test]
fn object_type_codes() {
    assert_eq!(ObjectType::try_from(0u8), Ok(ObjectType::Invalid));
    assert_eq!(ObjectType::try_from(1u8), Ok(ObjectType::Command));
    assert_eq!(ObjectType::try_from(2u8), Ok(ObjectType::Data));
    assert_eq!(ObjectType::try_from(3u8), Err(()));
    assert_eq!(ObjectType::try_from(255u8), Err(()));
    assert_eq!(u8::from(ObjectType::Invalid), 0);
    assert_eq!(u8::from(ObjectType::Command), 1);
    assert_eq!(u8::from(ObjectType::Data), 2);
    let code: u8 = ObjectType::Data.into();
    assert_eq!(code, 2);
}

#[test]
fn firmware_type_codes() {
    assert_eq!(u8::from(FirmwareType::Softdevice), 0x00);
    assert_eq!(u8::from(FirmwareType::Application), 0x01);
    assert_eq!(u8::from(FirmwareType::Bootloader), 0x02);
    assert_eq!(u8::from(FirmwareType::Unknown), 0xFF);
    let code: u8 = FirmwareType::Unknown.into();
    assert_eq!(code, 0xFF);
}

#[test]
fn read_buf_reads_little_endian() {
    let data = [0x11u8, 0x22, 0x33, 0x44, 0x55, 0x66, 0x77, 0x88, 0x99];
    let mut buf = ReadBuf::new(&data);
    assert_eq!(buf.len(), 9);
    assert_eq!(buf.decode_u8(), Ok(0x11));
    assert_eq!(buf.decode_u16(), Ok(0x3322));
    assert_eq!(buf.decode_u32(), Ok(0x7766_5544));
    assert_eq!(buf.len(), 2);
    assert_eq!(buf.decode_u32(), Err(()));
    assert_eq!(buf.len(), 2);
    assert_eq!(buf.release(), &[0x88, 0x99]);
}

#[test]
fn read_buf_fails_without_reading() {
    let data = [0xABu8];
    let mut buf = ReadBuf::new(&data);
    assert_eq!(buf.decode_u16(), Err(()));
    assert_eq!(buf.decode_u32(), Err(()));
    assert_eq!(buf.decode_u8(), Ok(0xAB));
    assert_eq!(buf.decode_u8(), Err(()));
    assert_eq!(buf.len(), 0);
    let empty: &[u8] = &[];
    assert_eq!(buf.release(), empty);
}

#[test]
fn read_buf_slice_takes_the_rest() {
    let data = [1u8, 2, 3, 4];
    let mut buf = ReadBuf::new(&data);
    assert_eq!(buf.decode_u8(), Ok(1));
    assert_eq!(buf.slice(), &[2, 3, 4]);
    assert_eq!(buf.len(), 0);
    let empty: &[u8] = &[];
    assert_eq!(buf.slice(), empty);
    assert_eq!(buf.release(), empty);
}

#[test]
fn encode_result_codes() {
    let cases = [
        (DfuResult::Invalid, 0x00u8),
        (DfuResult::Success, 0x01),
        (DfuResult::OpNotSupported, 0x02),
        (DfuResult::InvalidParameter, 0x03),
        (DfuResult::InsufficientResources, 0x04),
        (DfuResult::InvalidObject, 0x05),
        (DfuResult::UnsupportedType, 0x07),
        (DfuResult::OpNotPermitted, 0x08),
        (DfuResult::OpFailed, 0x0A),
    ];
    for (result, code) in cases {
        let mut buf = [0xEEu8; 4];
        assert_eq!(result.encode(&mut buf), Ok(1));
        assert_eq!(buf, [code, 0xEE, 0xEE, 0xEE]);
    }
}

#[test]
fn encode_extended_error_carries_its_sub_code() {
    let mut buf = [0xEEu8; 4];
    assert_eq!(DfuResult::ExtError(0x42).encode(&mut buf), Ok(2));
    assert_eq!(buf, [0x0B, 0x42, 0xEE, 0xEE]);
}

#[test]
fn encode_result_into_short_buffers() {
    let mut none: [u8; 0] = [];
    assert_eq!(DfuResult::Success.encode(&mut none), Err(()));
    assert_eq!(DfuResult::ExtError(1).encode(&mut none), Err(()));
    let mut one = [0xEEu8; 1];
    assert_eq!(DfuResult::ExtError(1).encode(&mut one), Err(()));
    assert_eq!(one, [0x0B]);
    assert_eq!(DfuResult::Success.encode(&mut one), Ok(1));
    assert_eq!(one, [0x01]);
}

#[test]
fn encode_bodies() {
    let mut buf = [0xEEu8; 24];

    let body = DfuResponseBody::ProtocolVersion { version: 1 };
    assert_eq!(body.encode(&mut buf), Ok(1));
    assert_eq!(buf[..2], [0x01, 0xEE]);

    let body = DfuResponseBody::Crc {
        offset: 0x0102_0304,
        crc: 0xA1B2_C3D4,
    };
    assert_eq!(body.encode(&mut buf), Ok(8));
    assert_eq!(buf[..9], [0x04, 0x03, 0x02, 0x01, 0xD4, 0xC3, 0xB2, 0xA1, 0xEE]);

    let body = DfuResponseBody::Select {
        offset: 0x0102_0304,
        crc: 0xA1B2_C3D4,
        max_size: 0x0000_1000,
    };
    assert_eq!(body.encode(&mut buf), Ok(12));
    assert_eq!(
        buf[..13],
        [0x00, 0x10, 0x00, 0x00, 0x04, 0x03, 0x02, 0x01, 0xD4, 0xC3, 0xB2, 0xA1, 0xEE]
    );

    let mut buf = [0xEEu8; 24];
    let body = DfuResponseBody::Mtu { mtu: 0x0120 };
    assert_eq!(body.encode(&mut buf), Ok(2));
    assert_eq!(buf[..3], [0x20, 0x01, 0xEE]);

    let body = DfuResponseBody::Write { crc: 0xDEAD_BEEF };
    assert_eq!(body.encode(&mut buf), Ok(4));
    assert_eq!(buf[..5], [0xEF, 0xBE, 0xAD, 0xDE, 0xEE]);

    let body = DfuResponseBody::Ping { id: 0x99 };
    assert_eq!(body.encode(&mut buf), Ok(1));
    assert_eq!(buf[..2], [0x99, 0xBE]);

    let mut buf = [0xEEu8; 24];
    let body = DfuResponseBody::HwVersion {
        part: 0x0005_2832,
        variant: 0x4141_4230,
        rom_size: 0x0008_0000,
        ram_size: 0x0001_0000,
        rom_page_size: 0x0000_1000,
    };
    assert_eq!(body.encode(&mut buf), Ok(20));
    assert_eq!(
        buf[..21],
        [
            0x32, 0x28, 0x05, 0x00, 0x30, 0x42, 0x41, 0x41, 0x00, 0x00, 0x08, 0x00, 0x00, 0x00,
            0x01, 0x00, 0x00, 0x10, 0x00, 0x00, 0xEE
        ]
    );

    let mut buf = [0xEEu8; 24];
    let body = DfuResponseBody::FwVersion {
        ftype: FirmwareType::Application,
        version: 7,
        addr: 0x0002_6000,
        len: 0x0003_0000,
    };
    assert_eq!(body.encode(&mut buf), Ok(13));
    assert_eq!(
        buf[..14],
        [0x01, 0x07, 0x00, 0x00, 0x00, 0x00, 0x60, 0x02, 0x00, 0x00, 0x00, 0x03, 0x00, 0xEE]
    );
}

#[test]
fn encode_firmware_kinds_in_body() {
    let kinds = [
        (FirmwareType::Softdevice, 0x00u8),
        (FirmwareType::Application, 0x01),
        (FirmwareType::Bootloader, 0x02),
        (FirmwareType::Unknown, 0xFF),
    ];
    for (ftype, code) in kinds {
        let body = DfuResponseBody::FwVersion {
            ftype,
            version: 0,
            addr: 0,
            len: 0,
        };
        let mut buf = [0xEEu8; 13];
        assert_eq!(body.encode(&mut buf), Ok(13));
        assert_eq!(buf[0], code);
        assert_eq!(buf[1..], [0u8; 12]);
    }
}

#[test]
fn encode_body_into_short_buffer_writes_the_fields_that_fit() {
    let body = DfuResponseBody::Select {
        offset: 0x0102_0304,
        crc: 0xA1B2_C3D4,
        max_size: 0x0000_1000,
    };
    let mut buf = [0xEEu8; 11];
    assert_eq!(body.encode(&mut buf), Err(()));
    assert_eq!(
        buf,
        [0x00, 0x10, 0x00, 0x00, 0x04, 0x03, 0x02, 0x01, 0xEE, 0xEE, 0xEE]
    );

    let mut buf = [0xEEu8; 3];
    assert_eq!(body.encode(&mut buf), Err(()));
    assert_eq!(buf, [0xEE, 0xEE, 0xEE]);

    let mut buf = [0xEEu8; 12];
    assert_eq!(body.encode(&mut buf), Ok(12));

    let body = DfuResponseBody::Mtu { mtu: 32 };
    let mut buf = [0xEEu8; 1];
    assert_eq!(body.encode(&mut buf), Err(()));
    assert_eq!(buf, [0xEE]);
}

#[test]
fn encode_response_without_body() {
    for request in [
        DfuRequest::Create {
            obj_type: ObjectType::Data,
            obj_size: 1024,
        },
        DfuRequest::SetReceiptNotification { target: 3 },
        DfuRequest::Execute,
        DfuRequest::Abort,
    ] {
        assert_eq!(
            encoded(&answer(request, None)),
            vec![0x60, request.code(), 0x01]
        );
    }
}

#[test]
fn encode_response_with_body() {
    assert_eq!(
        encoded(&answer(
            DfuRequest::ProtocolVersion,
            Some(DfuResponseBody::ProtocolVersion { version: 1 })
        )),
        vec![0x60, 0x00, 0x01, 0x01]
    );
    assert_eq!(
        encoded(&answer(
            DfuRequest::Crc,
            Some(DfuResponseBody::Crc {
                offset: 64,
                crc: 0x9015_2601
            })
        )),
        vec![0x60, 0x03, 0x01, 0x40, 0x00, 0x00, 0x00, 0x01, 0x26, 0x15, 0x90]
    );
    assert_eq!(
        encoded(&answer(
            DfuRequest::Select {
                obj_type: ObjectType::Data
            },
            Some(DfuResponseBody::Select {
                offset: 64,
                crc: 0x9015_2601,
                max_size: 1024
            })
        )),
        vec![
            0x60, 0x06, 0x01, 0x00, 0x04, 0x00, 0x00, 0x40, 0x00, 0x00, 0x00, 0x01, 0x26, 0x15,
            0x90
        ]
    );
    assert_eq!(
        encoded(&answer(
            DfuRequest::MtuGet,
            Some(DfuResponseBody::Mtu { mtu: 32 })
        )),
        vec![0x60, 0x07, 0x01, 0x20, 0x00]
    );
    assert_eq!(
        encoded(&answer(
            DfuRequest::Ping { id: 5 },
            Some(DfuResponseBody::Ping { id: 5 })
        )),
        vec![0x60, 0x09, 0x01, 0x05]
    );
    assert_eq!(
        encoded(&answer(
            DfuRequest::Write { data: &[1, 2, 3] },
            Some(DfuResponseBody::Write { crc: 0x55BC_801D })
        )),
        vec![0x60, 0x08, 0x01, 0x1D, 0x80, 0xBC, 0x55]
    );
}

#[test]
fn encode_response_with_extended_error() {
    let response = DfuResponse {
        request: DfuRequest::Execute,
        result: DfuResult::ExtError(0x07),
        body: None,
    };
    assert_eq!(encoded(&response), vec![0x60, 0x04, 0x0B, 0x07]);

    let response = DfuResponse {
        request: DfuRequest::Ping { id: 9 },
        result: DfuResult::ExtError(0x07),
        body: Some(DfuResponseBody::Ping { id: 9 }),
    };
    assert_eq!(encoded(&response), vec![0x60, 0x09, 0x0B, 0x07, 0x09]);
}

#[test]
fn encode_response_with_other_results() {
    let response = DfuResponse {
        request: DfuRequest::Execute,
        result: DfuResult::OpFailed,
        body: None,
    };
    assert_eq!(encoded(&response), vec![0x60, 0x04, 0x0A]);
    let response = DfuResponse {
        request: DfuRequest::Create {
            obj_type: ObjectType::Invalid,
            obj_size: 0,
        },
        result: DfuResult::InvalidObject,
        body: None,
    };
    assert_eq!(encoded(&response), vec![0x60, 0x01, 0x05]);
}

#[test]
fn encode_longest_response_takes_24_bytes() {
    let response = DfuResponse {
        request: DfuRequest::HwVersion,
        result: DfuResult::ExtError(1),
        body: Some(DfuResponseBody::HwVersion {
            part: 1,
            variant: 2,
            rom_size: 3,
            ram_size: 4,
            rom_page_size: 5,
        }),
    };
    let mut buf = [0xEEu8; 24];
    assert_eq!(response.encode(&mut buf), Ok(24));
    assert_eq!(
        buf,
        [
            0x60, 0x0A, 0x0B, 0x01, 1, 0, 0, 0, 2, 0, 0, 0, 3, 0, 0, 0, 4, 0, 0, 0, 5, 0, 0, 0
        ]
    );
    let mut short = [0xEEu8; 23];
    assert_eq!(response.encode(&mut short), Err(()));
}

#[test]
fn encode_response_leaves_the_rest_of_the_buffer() {
    let response = answer(
        DfuRequest::Ping { id: 5 },
        Some(DfuResponseBody::Ping { id: 5 }),
    );
    let mut buf = [0xEEu8; 8];
    assert_eq!(response.encode(&mut buf), Ok(4));
    assert_eq!(buf, [0x60, 0x09, 0x01, 0x05, 0xEE, 0xEE, 0xEE, 0xEE]);
}

#[test]
fn encode_response_into_exactly_fitting_buffer() {
    let response = answer(
        DfuRequest::Crc,
        Some(DfuResponseBody::Crc { offset: 1, crc: 2 }),
    );
    let mut buf = [0xEEu8; 11];
    assert_eq!(response.encode(&mut buf), Ok(11));
    assert_eq!(buf, [0x60, 0x03, 0x01, 1, 0, 0, 0, 2, 0, 0, 0]);
}

#[test]
fn encode_response_into_short_buffer_fails() {
    let response = answer(
        DfuRequest::Crc,
        Some(DfuResponseBody::Crc { offset: 1, crc: 2 }),
    );
    for len in 0..11usize {
        let mut buf = vec![0xEEu8; len];
        assert_eq!(response.encode(&mut buf), Err(()), "length {}", len);
    }
}

#[test]
fn encode_response_into_short_buffer_writes_the_fields_that_fit() {
    let response = answer(
        DfuRequest::Crc,
        Some(DfuResponseBody::Crc { offset: 1, crc: 2 }),
    );
    let mut buf = [0xEEu8; 0];
    assert_eq!(response.encode(&mut buf), Err(()));

    let mut buf = [0xEEu8; 1];
    assert_eq!(response.encode(&mut buf), Err(()));
    assert_eq!(buf, [0x60]);

    let mut buf = [0xEEu8; 2];
    assert_eq!(response.encode(&mut buf), Err(()));
    assert_eq!(buf, [0x60, 0x03]);

    let mut buf = [0xEEu8; 5];
    assert_eq!(response.encode(&mut buf), Err(()));
    assert_eq!(buf, [0x60, 0x03, 0x01, 0xEE, 0xEE]);

    let mut buf = [0xEEu8; 10];
    assert_eq!(response.encode(&mut buf), Err(()));
    assert_eq!(buf, [0x60, 0x03, 0x01, 1, 0, 0, 0, 0xEE, 0xEE, 0xEE]);

    let response = DfuResponse {
        request: DfuRequest::Execute,
        result: DfuResult::ExtError(7),
        body: None,
    };
    let mut buf = [0xEEu8; 3];
    assert_eq!(response.encode(&mut buf), Err(()));
    assert_eq!(buf, [0x60, 0x04, 0x0B]);
}

#[test]
fn encode_is_deterministic() {
    let response = answer(
        DfuRequest::Select {
            obj_type: ObjectType::Command,
        },
        Some(DfuResponseBody::Select {
            offset: 0x1234_5678,
            crc: 0x9ABC_DEF0,
            max_size: 512,
        }),
    );
    let mut first = [0x00u8; 21];
    let mut second = [0xFFu8; 40];
    let n1 = response.encode(&mut first).unwrap();
    let n2 = response.encode(&mut second).unwrap();
    assert_eq!(n1, 15);
    assert_eq!(n2, 15);
    assert_eq!(first[..n1], second[..n2]);
    let n3 = response.encode(&mut first).unwrap();
    assert_eq!(first[..n3], second[..n2]);
    assert_eq!(second[15..], [0xFFu8; 25]);
}

#[test]
fn twenty_one_bytes_hold_every_body() {
    let bodies = [
        DfuResponseBody::ProtocolVersion { version: 0xFF },
        DfuResponseBody::Crc {
            offset: u32::MAX,
            crc: u32::MAX,
        },
        DfuResponseBody::Select {
            offset: u32::MAX,
            crc: u32::MAX,
            max_size: u32::MAX,
        },
        DfuResponseBody::Mtu { mtu: u16::MAX },
        DfuResponseBody::Write { crc: u32::MAX },
        DfuResponseBody::Ping { id: 0xFF },
        DfuResponseBody::HwVersion {
            part: u32::MAX,
            variant: u32::MAX,
            rom_size: u32::MAX,
            ram_size: u32::MAX,
            rom_page_size: u32::MAX,
        },
        DfuResponseBody::FwVersion {
            ftype: FirmwareType::Unknown,
            version: u32::MAX,
            addr: u32::MAX,
            len: u32::MAX,
        },
    ];
    let lengths = [1usize, 8, 12, 2, 4, 1, 20, 13];
    for (body, len) in bodies.iter().zip(lengths) {
        let mut buf = [0u8; 21];
        assert_eq!(body.encode(&mut buf), Ok(len));
        assert!(buf[..len].iter().all(|b| *b == 0xFF));
        assert!(buf[len..].iter().all(|b| *b == 0));
    }
}
