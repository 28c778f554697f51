//! Wire formats of requests and responses.
//!
//! A request is one operation code followed by the fields of that operation;
//! a response is a fixed code, the code of the request it answers, a result
//! and an optional body.  Integers wider than a byte travel low byte first.

use crate::buf::{
    fill, le_u16, le_u32, lemma_bytes_of_le_u16, lemma_bytes_of_le_u32, lemma_fill_concat,
    lemma_fill_fits, lemma_fill_len, lemma_le_u16_of_bytes, lemma_le_u32_of_bytes,
    lemma_wrote_all, lemma_wrote_next, lemma_wrote_none, u16_le_bytes, u32_le_bytes, ReadBuf,
    WriteBuf,
};
use vstd::prelude::*;
use vstd::std_specs::convert::TryFromSpecImpl;
use vstd::std_specs::convert::FromSpecImpl;

verus! {

/// Code that opens every response.
pub const DFU_RESPONSE_OP_CODE: u8 = 0x60;

/// Which of the two transfer objects a request speaks of.
#[derive(Debug, Copy, Clone, PartialEq, Eq)]
pub enum ObjectType {
    Invalid,
    Command,
    Data,
}

impl ObjectType {
    /// The byte that stands for this kind on the wire.
    pub open spec fn code(self) -> u8 {
        match self {
            ObjectType::Invalid => 0x00,
            ObjectType::Command => 0x01,
            ObjectType::Data => 0x02,
        }
    }

    /// The kind that a wire byte stands for, if any.
    pub open spec fn of_code(code: u8) -> Option<ObjectType> {
        if code == 0 {
            Some(ObjectType::Invalid)
        } else if code == 1 {
            Some(ObjectType::Command)
        } else if code == 2 {
            Some(ObjectType::Data)
        } else {
            None
        }
    }
}

impl TryFrom<u8> for ObjectType {
    type Error = ();

    fn try_from(t: u8) -> (r: Result<Self, ()>) {
        match t {
            0 => Ok(ObjectType::Invalid),
            1 => Ok(ObjectType::Command),
            2 => Ok(ObjectType::Data),
            _ => Err(()),
        }
    }
}

impl TryFromSpecImpl<u8> for ObjectType {
    open spec fn obeys_try_from_spec() -> bool {
        true
    }

    open spec fn try_from_spec(t: u8) -> Result<Self, ()> {
        match ObjectType::of_code(t) {
            Some(kind) => Ok(kind),
            None => Err(()),
        }
    }
}

impl From<ObjectType> for u8 {
    fn from(kind: ObjectType) -> (code: u8) {
        match kind {
            ObjectType::Invalid => 0x00,
            ObjectType::Command => 0x01,
            ObjectType::Data => 0x02,
        }
    }
}

impl FromSpecImpl<ObjectType> for u8 {
    open spec fn obeys_from_spec() -> bool {
        true
    }

    open spec fn from_spec(kind: ObjectType) -> u8 {
        kind.code()
    }
}

/// The code of a kind stands for that kind again.
pub proof fn lemma_object_type_code_round_trip(kind: ObjectType)
    ensures
        ObjectType::of_code(kind.code()) == Some(kind),
{
}

/// What kind of image a firmware description speaks of.
#[derive(Debug, Copy, Clone, PartialEq, Eq)]
pub enum FirmwareType {
    Softdevice,
    Application,
    Bootloader,
    Unknown,
}

impl FirmwareType {
    /// The byte that stands for this kind on the wire.
    pub open spec fn code(self) -> u8 {
        match self {
            FirmwareType::Softdevice => 0x00,
            FirmwareType::Application => 0x01,
            FirmwareType::Bootloader => 0x02,
            FirmwareType::Unknown => 0xFF,
        }
    }
}

impl From<FirmwareType> for u8 {
    fn from(kind: FirmwareType) -> (code: u8) {
        match kind {
            FirmwareType::Softdevice => 0x00,
            FirmwareType::Application => 0x01,
            FirmwareType::Bootloader => 0x02,
            FirmwareType::Unknown => 0xFF,
        }
    }
}

impl FromSpecImpl<FirmwareType> for u8 {
    open spec fn obeys_from_spec() -> bool {
        true
    }

    open spec fn from_spec(kind: FirmwareType) -> u8 {
        kind.code()
    }
}

/// A request, as it came off the wire.
#[derive(Debug, Copy, Clone, PartialEq, Eq)]
pub enum DfuRequest<'m> {
    ProtocolVersion,
    Create { obj_type: ObjectType, obj_size: u32 },
    SetReceiptNotification { target: u16 },
    Crc,
    Execute,
    Select { obj_type: ObjectType },
    MtuGet,
    Write { data: &'m [u8] },
    Ping { id: u8 },
    HwVersion,
    FwVersion { image_id: u8 },
    Abort,
}

/// A request with its payload as a sequence of bytes.
pub enum DfuRequestView {
    ProtocolVersion,
    Create { obj_type: ObjectType, obj_size: u32 },
    SetReceiptNotification { target: u16 },
    Crc,
    Execute,
    Select { obj_type: ObjectType },
    MtuGet,
    Write { data: Seq<u8> },
    Ping { id: u8 },
    HwVersion,
    FwVersion { image_id: u8 },
    Abort,
}

impl DfuRequestView {
    /// The operation code of the request.
    pub open spec fn code(self) -> u8 {
        match self {
            DfuRequestView::ProtocolVersion => 0x00,
            DfuRequestView::Create { .. } => 0x01,
            DfuRequestView::SetReceiptNotification { .. } => 0x02,
            DfuRequestView::Crc => 0x03,
            DfuRequestView::Execute => 0x04,
            DfuRequestView::Select { .. } => 0x06,
            DfuRequestView::MtuGet => 0x07,
            DfuRequestView::Write { .. } => 0x08,
            DfuRequestView::Ping { .. } => 0x09,
            DfuRequestView::HwVersion => 0x0A,
            DfuRequestView::FwVersion { .. } => 0x0B,
            DfuRequestView::Abort => 0x0C,
        }
    }
}

impl DfuRequestView {
    /// The bytes of the request on the wire: its code, then its fields.
    pub open spec fn wire(self) -> Seq<u8> {
        match self {
            DfuRequestView::ProtocolVersion => seq![self.code()],
            DfuRequestView::Create { obj_type, obj_size } => seq![self.code(), obj_type.code()]
                + u32_le_bytes(obj_size),
            DfuRequestView::SetReceiptNotification { target } => seq![self.code()] + u16_le_bytes(
                target,
            ),
            DfuRequestView::Crc => seq![self.code()],
            DfuRequestView::Execute => seq![self.code()],
            DfuRequestView::Select { obj_type } => seq![self.code(), obj_type.code()],
            DfuRequestView::MtuGet => seq![self.code()],
            DfuRequestView::Write { data } => seq![self.code()] + data,
            DfuRequestView::Ping { id } => seq![self.code(), id],
            DfuRequestView::HwVersion => seq![self.code()],
            DfuRequestView::FwVersion { image_id } => seq![self.code(), image_id],
            DfuRequestView::Abort => seq![self.code()],
        }
    }
}

impl<'m> View for DfuRequest<'m> {
    type V = DfuRequestView;

    open spec fn view(&self) -> DfuRequestView {
        match *self {
            DfuRequest::ProtocolVersion => DfuRequestView::ProtocolVersion,
            DfuRequest::Create { obj_type, obj_size } => DfuRequestView::Create {
                obj_type,
                obj_size,
            },
            DfuRequest::SetReceiptNotification { target } => DfuRequestView::SetReceiptNotification {
                target,
            },
            DfuRequest::Crc => DfuRequestView::Crc,
            DfuRequest::Execute => DfuRequestView::Execute,
            DfuRequest::Select { obj_type } => DfuRequestView::Select { obj_type },
            DfuRequest::MtuGet => DfuRequestView::MtuGet,
            DfuRequest::Write { data } => DfuRequestView::Write { data: data@ },
            DfuRequest::Ping { id } => DfuRequestView::Ping { id },
            DfuRequest::HwVersion => DfuRequestView::HwVersion,
            DfuRequest::FwVersion { image_id } => DfuRequestView::FwVersion { image_id },
            DfuRequest::Abort => DfuRequestView::Abort,
        }
    }
}

/// The request that opens `bytes`, with the bytes that follow it; `None`
/// where the operation code is unknown, a field is cut short or the byte for
/// an object kind stands for none.
///
/// A write takes every byte after its code as payload.
pub open spec fn parse_request(bytes: Seq<u8>) -> Option<(DfuRequestView, Seq<u8>)> {
    if bytes.len() == 0 {
        None
    } else {
        let op = bytes[0];
        let args = bytes.skip(1);
        if op == 0x00 {
            Some((DfuRequestView::ProtocolVersion, args))
        } else if op == 0x01 {
            if args.len() >= 5 && ObjectType::of_code(args[0]) is Some {
                Some(
                    (
                        DfuRequestView::Create {
                            obj_type: ObjectType::of_code(args[0])->0,
                            obj_size: le_u32(args[1], args[2], args[3], args[4]),
                        },
                        args.skip(5),
                    ),
                )
            } else {
                None
            }
        } else if op == 0x02 {
            if args.len() >= 2 {
                Some(
                    (
                        DfuRequestView::SetReceiptNotification { target: le_u16(args[0], args[1]) },
                        args.skip(2),
                    ),
                )
            } else {
                None
            }
        } else if op == 0x03 {
            Some((DfuRequestView::Crc, args))
        } else if op == 0x04 {
            Some((DfuRequestView::Execute, args))
        } else if op == 0x06 {
            if args.len() >= 1 && ObjectType::of_code(args[0]) is Some {
                Some(
                    (
                        DfuRequestView::Select { obj_type: ObjectType::of_code(args[0])->0 },
                        args.skip(1),
                    ),
                )
            } else {
                None
            }
        } else if op == 0x07 {
            Some((DfuRequestView::MtuGet, args))
        } else if op == 0x08 {
            Some((DfuRequestView::Write { data: args }, Seq::empty()))
        } else if op == 0x09 {
            if args.len() >= 1 {
                Some((DfuRequestView::Ping { id: args[0] }, args.skip(1)))
            } else {
                None
            }
        } else if op == 0x0A {
            Some((DfuRequestView::HwVersion, args))
        } else if op == 0x0B {
            if args.len() >= 1 {
                Some((DfuRequestView::FwVersion { image_id: args[0] }, args.skip(1)))
            } else {
                None
            }
        } else if op == 0x0C {
            Some((DfuRequestView::Abort, args))
        } else {
            None
        }
    }
}

/// What a request puts on the wire is read back as that request, and what
/// follows it is handed back.  After a write nothing can follow: all of it is
/// payload.
pub proof fn lemma_parse_request_of_wire(request: DfuRequestView, rest: Seq<u8>)
    ensures
        !(request is Write) ==> parse_request(request.wire() + rest) == Some((request, rest)),
        request is Write ==> parse_request(request.wire()) == Some(
            (request, Seq::<u8>::empty()),
        ),
{
    let bytes = request.wire() + rest;
    match request {
        DfuRequestView::Create { obj_type, obj_size } => {
            lemma_le_u32_of_bytes(obj_size);
            assert(bytes.skip(1).skip(5) =~= rest);
        },
        DfuRequestView::SetReceiptNotification { target } => {
            lemma_le_u16_of_bytes(target);
            assert(bytes.skip(1).skip(2) =~= rest);
        },
        DfuRequestView::Select { .. } => {
            assert(bytes.skip(1).skip(1) =~= rest);
        },
        DfuRequestView::Ping { .. } => {
            assert(bytes.skip(1).skip(1) =~= rest);
        },
        DfuRequestView::FwVersion { .. } => {
            assert(bytes.skip(1).skip(1) =~= rest);
        },
        DfuRequestView::Write { data } => {
            assert(request.wire().skip(1) =~= data);
        },
        _ => {
            assert(bytes.skip(1) =~= rest);
        },
    }
}

/// Whatever is read as a request is what that request puts on the wire,
/// followed by what is handed back.
pub proof fn lemma_parse_request_is_wire(bytes: Seq<u8>)
    ensures
        parse_request(bytes) matches Some((request, rest)) ==> bytes == request.wire() + rest,
{
    if let Some((request, rest)) = parse_request(bytes) {
        let args = bytes.skip(1);
        match request {
            DfuRequestView::Create { obj_type, obj_size } => {
                lemma_bytes_of_le_u32(args[1], args[2], args[3], args[4]);
            },
            DfuRequestView::SetReceiptNotification { target } => {
                lemma_bytes_of_le_u16(args[0], args[1]);
            },
            _ => {},
        }
        assert(bytes =~= request.wire() + rest);
    }
}

impl<'m> DfuRequest<'m> {
    /// The operation code of the request.
    pub fn code(&self) -> (code: u8)
        ensures
            code == self@.code(),
    {
        match self {
            DfuRequest::ProtocolVersion => 0x00,
            DfuRequest::Create { obj_type: _, obj_size: _ } => 0x01,
            DfuRequest::SetReceiptNotification { target: _ } => 0x02,
            DfuRequest::Crc => 0x03,
            DfuRequest::Execute => 0x04,
            DfuRequest::Select { obj_type: _ } => 0x06,
            DfuRequest::MtuGet => 0x07,
            DfuRequest::Write { data: _ } => 0x08,
            DfuRequest::Ping { id: _ } => 0x09,
            DfuRequest::HwVersion => 0x0A,
            DfuRequest::FwVersion { image_id: _ } => 0x0B,
            DfuRequest::Abort => 0x0C,
        }
    }

    /// Reads one request from the front of `data` and hands back the bytes
    /// that follow it.  Fails, with nothing accepted, exactly where
    /// [`parse_request`] finds no request.
    pub fn decode(data: &'m [u8]) -> (r: Result<(DfuRequest<'m>, &'m [u8]), ()>)
        ensures
            match r {
                Ok((request, rest)) => parse_request(data@) == Some((request@, rest@)),
                Err(_) => parse_request(data@) is None,
            },
    {
        let mut data = ReadBuf::new(data);
        let op = data.decode_u8()?;
        let req = match op {
            0x00 => Ok(DfuRequest::ProtocolVersion),
            0x01 => {
                let obj_type = ObjectType::try_from(data.decode_u8()?)?;
                let obj_size = data.decode_u32()?;

                Ok(DfuRequest::Create { obj_type, obj_size })
            },
            0x02 => {
                let target = data.decode_u16()?;
                Ok(DfuRequest::SetReceiptNotification { target })
            },
            0x03 => Ok(DfuRequest::Crc),
            0x04 => Ok(DfuRequest::Execute),
            0x06 => {
                let obj_type = ObjectType::try_from(data.decode_u8()?)?;
                Ok(DfuRequest::Select { obj_type })
            },
            0x07 => Ok(DfuRequest::MtuGet),
            0x08 => Ok(DfuRequest::Write { data: data.slice() }),
            0x09 => {
                let id = data.decode_u8()?;
                Ok(DfuRequest::Ping { id })
            },
            0x0A => Ok(DfuRequest::HwVersion),
            0x0B => {
                let image_id = data.decode_u8()?;
                Ok(DfuRequest::FwVersion { image_id })
            },
            0x0C => Ok(DfuRequest::Abort),
            _ => Err(()),
        }?;

        Ok((req, data.release()))
    }
}

/// Outcome that a response reports.
#[derive(Debug, Copy, Clone, PartialEq, Eq)]
pub enum DfuResult {
    Invalid,
    Success,
    OpNotSupported,
    InvalidParameter,
    InsufficientResources,
    InvalidObject,
    UnsupportedType,
    OpNotPermitted,
    OpFailed,
    ExtError(u8),
}

impl DfuResult {
    /// The byte that stands for this outcome on the wire.
    pub open spec fn code(self) -> u8 {
        match self {
            DfuResult::Invalid => 0x00,
            DfuResult::Success => 0x01,
            DfuResult::OpNotSupported => 0x02,
            DfuResult::InvalidParameter => 0x03,
            DfuResult::InsufficientResources => 0x04,
            DfuResult::InvalidObject => 0x05,
            DfuResult::UnsupportedType => 0x07,
            DfuResult::OpNotPermitted => 0x08,
            DfuResult::OpFailed => 0x0A,
            DfuResult::ExtError(_) => 0x0B,
        }
    }

    /// The fields of this outcome on the wire: its code, and for an extended
    /// error the sub-code after it.
    pub open spec fn fields(self) -> Seq<Seq<u8>> {
        match self {
            DfuResult::ExtError(ext) => seq![seq![self.code()], seq![ext]],
            _ => seq![seq![self.code()]],
        }
    }

    /// The bytes of this outcome on the wire, which are its fields end to end.
    pub open spec fn wire(self) -> Seq<u8> {
        match self {
            DfuResult::ExtError(ext) => seq![self.code(), ext],
            _ => seq![self.code()],
        }
    }

    /// The wire bytes are the fields laid end to end, at most two bytes.
    pub proof fn lemma_wire(self)
        ensures
            self.fields().flatten() == self.wire(),
            1 <= self.wire().len() <= 2,
    {
        reveal_with_fuel(Seq::flatten, 3);
        assert(self.fields().flatten() =~= self.wire());
    }

    /// Writes the outcome to the front of `buf` and returns how many bytes
    /// that took.  Fails where `buf` is too short for all of it; the fields
    /// that did fit have then been written.
    pub fn encode(&self, buf: &mut [u8]) -> (r: Result<usize, ()>)
        ensures
            final(buf)@.len() == old(buf)@.len(),
            final(buf)@ == fill(old(buf)@, self.fields()),
            r is Ok <==> self.wire().len() <= old(buf)@.len(),
            r matches Ok(n) ==> n == self.wire().len() && final(buf)@ == self.wire() + old(buf)@.skip(
                n as int,
            ),
    {
        let ghost before = buf@;
        let ghost fields = self.fields();
        let mut buf = WriteBuf::new(buf);
        let code = match self {
            DfuResult::Invalid => 0x00,
            DfuResult::Success => 0x01,
            DfuResult::OpNotSupported => 0x02,
            DfuResult::InvalidParameter => 0x03,
            DfuResult::InsufficientResources => 0x04,
            DfuResult::InvalidObject => 0x05,
            DfuResult::UnsupportedType => 0x07,
            DfuResult::OpNotPermitted => 0x08,
            DfuResult::OpFailed => 0x0A,
            DfuResult::ExtError(_) => 0x0B,
        };

        proof {
            self.lemma_wire();
            lemma_wrote_none(before, fields);
            lemma_wrote_next(buf.data@, 0, before, fields, 0);
        }
        buf.encode_u8(code)?;
        if let DfuResult::ExtError(code) = self {
            proof {
                lemma_wrote_next(buf.data@, 1, before, fields, 1);
            }
            buf.encode_u8(*code)?;
        }
        proof {
            lemma_wrote_all(buf.data@, buf.pos as int, before, fields);
        }

        Ok(buf.pos)
    }
}

/// What a response carries after its result.
#[allow(inconsistent_fields)]
#[derive(Debug, Copy, Clone, PartialEq, Eq)]
pub enum DfuResponseBody {
    ProtocolVersion { version: u8 },
    Crc { offset: u32, crc: u32 },
    Select { offset: u32, crc: u32, max_size: u32 },
    Mtu { mtu: u16 },
    Write { crc: u32 },
    Ping { id: u8 },
    HwVersion { part: u32, variant: u32, rom_size: u32, ram_size: u32, rom_page_size: u32 },
    FwVersion { ftype: FirmwareType, version: u32, addr: u32, len: u32 },
}

impl DfuResponseBody {
    /// The fields of this body on the wire, in the order in which they are
    /// sent.
    pub open spec fn fields(self) -> Seq<Seq<u8>> {
        match self {
            DfuResponseBody::ProtocolVersion { version } => seq![seq![version]],
            DfuResponseBody::Crc { offset, crc } => seq![u32_le_bytes(offset), u32_le_bytes(crc)],
            DfuResponseBody::Select { offset, crc, max_size } => seq![
                u32_le_bytes(max_size),
                u32_le_bytes(offset),
                u32_le_bytes(crc),
            ],
            DfuResponseBody::Mtu { mtu } => seq![u16_le_bytes(mtu)],
            DfuResponseBody::Write { crc } => seq![u32_le_bytes(crc)],
            DfuResponseBody::Ping { id } => seq![seq![id]],
            DfuResponseBody::HwVersion { part, variant, rom_size, ram_size, rom_page_size } => seq![
                u32_le_bytes(part),
                u32_le_bytes(variant),
                u32_le_bytes(rom_size),
                u32_le_bytes(ram_size),
                u32_le_bytes(rom_page_size),
            ],
            DfuResponseBody::FwVersion { ftype, version, addr, len } => seq![
                seq![ftype.code()],
                u32_le_bytes(version),
                u32_le_bytes(addr),
                u32_le_bytes(len),
            ],
        }
    }

    /// The bytes of this body on the wire, which are its fields end to end.
    pub open spec fn wire(self) -> Seq<u8> {
        match self {
            DfuResponseBody::ProtocolVersion { version } => seq![version],
            DfuResponseBody::Crc { offset, crc } => u32_le_bytes(offset) + u32_le_bytes(crc),
            DfuResponseBody::Select { offset, crc, max_size } => u32_le_bytes(max_size)
                + u32_le_bytes(offset) + u32_le_bytes(crc),
            DfuResponseBody::Mtu { mtu } => u16_le_bytes(mtu),
            DfuResponseBody::Write { crc } => u32_le_bytes(crc),
            DfuResponseBody::Ping { id } => seq![id],
            DfuResponseBody::HwVersion { part, variant, rom_size, ram_size, rom_page_size } =>
                u32_le_bytes(part) + u32_le_bytes(variant) + u32_le_bytes(rom_size) + u32_le_bytes(
                    ram_size,
                ) + u32_le_bytes(rom_page_size),
            DfuResponseBody::FwVersion { ftype, version, addr, len } => seq![ftype.code()]
                + u32_le_bytes(version) + u32_le_bytes(addr) + u32_le_bytes(len),
        }
    }

    /// The wire bytes are the fields laid end to end, at most twenty bytes.
    pub proof fn lemma_wire(self)
        ensures
            self.fields().flatten() == self.wire(),
            1 <= self.wire().len() <= 20,
    {
        reveal_with_fuel(Seq::flatten, 6);
        assert(self.fields().flatten() =~= self.wire());
    }

    /// Writes the body to the front of `buf` and returns how many bytes that
    /// took.  Fails where `buf` is too short for all of it; the fields that
    /// did fit have then been written.
    pub fn encode(&self, buf: &mut [u8]) -> (r: Result<usize, ()>)
        ensures
            final(buf)@.len() == old(buf)@.len(),
            final(buf)@ == fill(old(buf)@, self.fields()),
            r is Ok <==> self.wire().len() <= old(buf)@.len(),
            r matches Ok(n) ==> n == self.wire().len() && final(buf)@ == self.wire() + old(buf)@.skip(
                n as int,
            ),
    {
        let ghost before = buf@;
        let ghost fields = self.fields();
        let mut buf = WriteBuf::new(buf);
        proof {
            self.lemma_wire();
            lemma_wrote_none(before, fields);
            lemma_wrote_next(buf.data@, 0, before, fields, 0);
        }
        match &self {
            DfuResponseBody::ProtocolVersion { version } => buf.encode_u8(*version)?,
            DfuResponseBody::Crc { offset, crc } => {
                buf.encode_u32(*offset)?;
                proof {
                    lemma_wrote_next(buf.data@, 4, before, fields, 1);
                }
                buf.encode_u32(*crc)?;
            },
            DfuResponseBody::Select { offset, crc, max_size } => {
                buf.encode_u32(*max_size)?;
                proof {
                    lemma_wrote_next(buf.data@, 4, before, fields, 1);
                }
                buf.encode_u32(*offset)?;
                proof {
                    lemma_wrote_next(buf.data@, 8, before, fields, 2);
                }
                buf.encode_u32(*crc)?;
            },
            DfuResponseBody::Mtu { mtu } => {
                buf.encode_u16(*mtu)?;
            },
            DfuResponseBody::Write { crc } => {
                buf.encode_u32(*crc)?;
            },
            DfuResponseBody::Ping { id } => {
                buf.encode_u8(*id)?;
            },
            DfuResponseBody::HwVersion { part, variant, rom_size, ram_size, rom_page_size } => {
                buf.encode_u32(*part)?;
                proof {
                    lemma_wrote_next(buf.data@, 4, before, fields, 1);
                }
                buf.encode_u32(*variant)?;
                proof {
                    lemma_wrote_next(buf.data@, 8, before, fields, 2);
                }
                buf.encode_u32(*rom_size)?;
                proof {
                    lemma_wrote_next(buf.data@, 12, before, fields, 3);
                }
                buf.encode_u32(*ram_size)?;
                proof {
                    lemma_wrote_next(buf.data@, 16, before, fields, 4);
                }
                buf.encode_u32(*rom_page_size)?;
            },
            DfuResponseBody::FwVersion { ftype, version, addr, len } => {
                buf.encode_u8((*ftype).into())?;
                proof {
                    lemma_wrote_next(buf.data@, 1, before, fields, 1);
                }
                buf.encode_u32(*version)?;
                proof {
                    lemma_wrote_next(buf.data@, 5, before, fields, 2);
                }
                buf.encode_u32(*addr)?;
                proof {
                    lemma_wrote_next(buf.data@, 9, before, fields, 3);
                }
                buf.encode_u32(*len)?;
            },
        }
        proof {
            lemma_wrote_all(buf.data@, buf.pos as int, before, fields);
        }
        Ok(buf.release())
    }
}

/// The answer to one request.
#[derive(Debug, Copy, Clone, PartialEq, Eq)]
pub struct DfuResponse<'m> {
    pub request: DfuRequest<'m>,
    pub result: DfuResult,
    pub body: Option<DfuResponseBody>,
}

/// A response with the request it answers taken by its view.
pub struct DfuResponseView {
    pub request: DfuRequestView,
    pub result: DfuResult,
    pub body: Option<DfuResponseBody>,
}

impl<'m> View for DfuResponse<'m> {
    type V = DfuResponseView;

    open spec fn view(&self) -> DfuResponseView {
        DfuResponseView { request: self.request@, result: self.result, body: self.body }
    }
}

impl DfuResponseView {
    /// The two bytes that open the response, each a field of its own.
    pub open spec fn head_fields(self) -> Seq<Seq<u8>> {
        seq![seq![DFU_RESPONSE_OP_CODE], seq![self.request.code()]]
    }

    /// The fields of the body, none where there is no body.
    pub open spec fn body_fields(self) -> Seq<Seq<u8>> {
        match self.body {
            Some(body) => body.fields(),
            None => Seq::empty(),
        }
    }

    /// The bytes of the body, none where there is no body.
    pub open spec fn body_wire(self) -> Seq<u8> {
        match self.body {
            Some(body) => body.wire(),
            None => Seq::empty(),
        }
    }

    /// The fields of the response on the wire: the response code, the code
    /// of the request, the result, the body.
    pub open spec fn fields(self) -> Seq<Seq<u8>> {
        self.head_fields() + self.result.fields() + self.body_fields()
    }

    /// The bytes of the response on the wire, which are its fields end to
    /// end.
    pub open spec fn wire(self) -> Seq<u8> {
        seq![DFU_RESPONSE_OP_CODE, self.request.code()] + self.result.wire() + self.body_wire()
    }

    /// The wire bytes are the fields laid end to end, at most 24 bytes, and
    /// at most 23 where the result is not an extended error.
    pub proof fn lemma_wire(self)
        ensures
            self.fields().flatten() == self.wire(),
            3 <= self.wire().len() <= 24,
            !(self.result is ExtError) ==> self.wire().len() <= 23,
    {
        let head = self.head_fields();
        self.result.lemma_wire();
        if let Some(body) = self.body {
            body.lemma_wire();
        }
        assert(head.flatten() =~= seq![DFU_RESPONSE_OP_CODE, self.request.code()]) by {
            reveal_with_fuel(Seq::flatten, 3);
        }
        vstd::seq_lib::lemma_flatten_concat(head, self.result.fields());
        vstd::seq_lib::lemma_flatten_concat(head + self.result.fields(), self.body_fields());
    }
}

/// What a response puts on the wire depends on the response alone: into
/// any two buffers that are long enough for it, encoding writes the same
/// bytes, and it leaves what lies behind them.
pub proof fn lemma_encode_deterministic(response: DfuResponseView, one: Seq<u8>, other: Seq<u8>)
    requires
        response.wire().len() <= one.len(),
        response.wire().len() <= other.len(),
    ensures
        fill(one, response.fields()).take(response.wire().len() as int) == response.wire(),
        fill(other, response.fields()).take(response.wire().len() as int) == response.wire(),
        fill(one, response.fields()).skip(response.wire().len() as int) == one.skip(
            response.wire().len() as int,
        ),
{
    let n = response.wire().len() as int;
    response.lemma_wire();
    lemma_fill_fits(one, response.fields());
    lemma_fill_fits(other, response.fields());
    assert((response.wire() + one.skip(n)).take(n) =~= response.wire());
    assert((response.wire() + other.skip(n)).take(n) =~= response.wire());
    assert((response.wire() + one.skip(n)).skip(n) =~= one.skip(n));
}

impl<'m> DfuResponse<'m> {
    /// Writes the response to the front of `buf` and returns how many bytes
    /// that took.  Fails where `buf` is too short for all of it; the fields
    /// that did fit have then been written.  Any buffer of 24 bytes is long
    /// enough.
    pub fn encode(&self, buf: &mut [u8]) -> (r: Result<usize, ()>)
        ensures
            final(buf)@.len() == old(buf)@.len(),
            final(buf)@ == fill(old(buf)@, self@.fields()),
            r is Ok <==> self@.wire().len() <= old(buf)@.len(),
            r matches Ok(n) ==> n == self@.wire().len() && final(buf)@ == self@.wire() + old(
                buf,
            )@.skip(n as int),
    {
        let ghost before = buf@;
        let ghost head = self@.head_fields();
        let ghost result_fields = self.result.fields();
        let ghost body_fields = self@.body_fields();
        let ghost fields = self@.fields();
        let mut buf = WriteBuf::new(buf);
        proof {
            self@.lemma_wire();
            self.result.lemma_wire();
            lemma_wrote_none(before, fields);
            lemma_wrote_next(buf.data@, 0, before, fields, 0);
        }
        buf.encode_u8(DFU_RESPONSE_OP_CODE)?;
        proof {
            lemma_wrote_next(buf.data@, 1, before, fields, 1);
        }
        buf.encode_u8(self.request.code())?;
        proof {
            assert(fields.take(2) =~= head);
            assert(fields =~= head + (result_fields + body_fields));
            lemma_fill_concat(before, head, result_fields + body_fields);
            lemma_fill_concat(before.skip(2), result_fields, body_fields);
            lemma_fill_len(before.skip(2), result_fields);
        }
        let ghost front = buf.data@.take(2);

        let len = self.result.encode(buf.slice())?;
        buf.advance(len)?;
        let ghost at = 2 + len as int;
        proof {
            assert(before.skip(2).skip(len as int) =~= before.skip(at));
            assert(buf.data@.take(at) =~= front + self.result.wire());
            assert(buf.data@.skip(at) =~= before.skip(at));
        }

        if let Some(body) = self.body {
            proof {
                body.lemma_wire();
                lemma_fill_len(before.skip(at), body_fields);
            }
            let len = body.encode(buf.slice())?;
            buf.advance(len)?;
            proof {
                assert(buf.data@ =~= self@.wire() + before.skip(at + len));
            }
        } else {
            proof {
                assert(buf.data@ =~= self@.wire() + before.skip(at));
            }
        }
        Ok(buf.release())
    }
}

} // verus!
