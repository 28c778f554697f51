//! The protocol engine: what each request does to the transfer state and
//! what is answered.
//!
//! The engine does no flash I/O of its own.  For each request it first says
//! which flash operation the request needs ([`DfuTarget::flash_op`]); the
//! caller performs it and hands the outcome to [`DfuTarget::process`], which
//! only then commits the request.  A request needs at most one operation.
//!
//! The engine does not hold a client to the size that it declared for an
//! object: writes may take the offset past it.  Whether a write still lies
//! inside the device is for the flash to say; the engine itself refuses only
//! a write that would take the offset out of the 32-bit range.

use crate::codec::{
    DfuRequest, DfuRequestView, DfuResponse, DfuResponseBody, DfuResponseView, DfuResult,
    FirmwareType, ObjectType,
};
use crate::error::Error;
use crate::object::{ObjectStore, ObjectsView, Slot};
use embedded_storage::nor_flash::NorFlashErrorKind;
use vstd::prelude::*;

verus! {

/// Protocol version that the engine reports.
pub const DFU_PROTOCOL_VERSION: u8 = 0x01;

/// Transfer unit that the engine reports.
pub const DFU_MTU: u16 = 32;

/// Description of the firmware image that is installed.
#[derive(Debug, Copy, Clone, PartialEq, Eq)]
pub struct FirmwareInfo {
    pub ftype: FirmwareType,
    pub version: u32,
    pub addr: u32,
    pub len: u32,
}

/// Description of the hardware that the engine runs on.
#[derive(Debug, Copy, Clone, PartialEq, Eq)]
pub struct HardwareInfo {
    pub part: u32,
    pub variant: u32,
    pub rom_size: u32,
    pub ram_size: u32,
    pub rom_page_size: u32,
}

/// A flash operation that a request needs before it can be committed.
#[derive(Debug, Copy, Clone, PartialEq, Eq)]
pub enum FlashOp<'m> {
    /// Erase the range from `from` up to, not including, `to`.
    Erase { from: u32, to: u32 },
    /// Write `data` at `offset`.
    Write { offset: u32, data: &'m [u8] },
}

/// A flash operation with its payload as a sequence of bytes.
pub enum FlashOpView {
    Erase { from: u32, to: u32 },
    Write { offset: u32, data: Seq<u8> },
}

impl<'m> View for FlashOp<'m> {
    type V = FlashOpView;

    open spec fn view(&self) -> FlashOpView {
        match *self {
            FlashOp::Erase { from, to } => FlashOpView::Erase { from, to },
            FlashOp::Write { offset, data } => FlashOpView::Write { offset, data: data@ },
        }
    }
}

/// State of one update session.
pub struct DfuTarget {
    crc_receipt_interval: u16,
    receipt_count: u16,
    objects: ObjectStore,
    fw_info: FirmwareInfo,
    hw_info: HardwareInfo,
}

/// State of one update session, by the views of its parts.
pub struct DfuTargetView {
    pub crc_receipt_interval: u16,
    pub receipt_count: u16,
    pub objects: ObjectsView,
    pub fw_info: FirmwareInfo,
    pub hw_info: HardwareInfo,
}

impl DfuTargetView {
    /// The state at the start of a session: no throttling, nothing counted,
    /// nothing received, `size` declared for the data object.
    pub open spec fn fresh(size: u32, fw_info: FirmwareInfo, hw_info: HardwareInfo) -> DfuTargetView {
        DfuTargetView {
            crc_receipt_interval: 0,
            receipt_count: 0,
            objects: ObjectsView::fresh(size),
            fw_info,
            hw_info,
        }
    }

    /// The object table is valid, as it is in every [`DfuTarget`].
    pub open spec fn valid(self) -> bool {
        self.objects.valid()
    }

    /// Whether the request is a write that would take the offset of the
    /// active object out of the 32-bit range.  Such a write is refused.
    pub open spec fn out_of_bounds(self, request: DfuRequestView) -> bool {
        request matches DfuRequestView::Write { data } && !self.objects.active().takes(data)
    }

    /// The flash operation that the request needs: creating a data object
    /// erases as much as is declared, writing to the data object writes the
    /// payload at its offset; nothing else touches the flash.
    pub open spec fn flash_op(self, request: DfuRequestView) -> Option<FlashOpView> {
        match request {
            DfuRequestView::Create { obj_type: ObjectType::Data, obj_size } => Some(
                FlashOpView::Erase { from: 0, to: obj_size },
            ),
            DfuRequestView::Write { data } => if self.objects.current == Slot::Data
                && self.objects.active().takes(data) {
                Some(FlashOpView::Write { offset: self.objects.active().offset() as u32, data })
            } else {
                None
            },
            _ => None,
        }
    }

    /// The receipt counter after one more write was counted.  It is sixteen
    /// bits wide and starts again at zero after 65535.
    pub open spec fn counted(self) -> u16 {
        if self.receipt_count == u16::MAX {
            0
        } else {
            (self.receipt_count + 1) as u16
        }
    }

    /// Whether the next write is answered with a checksum: always without
    /// throttling, else when the counter reaches the interval.
    pub open spec fn emits(self) -> bool {
        self.crc_receipt_interval == 0 || self.counted() == self.crc_receipt_interval
    }

    /// The receipt counter after the next write: untouched without
    /// throttling, back at zero when a checksum is sent, one more otherwise.
    pub open spec fn next_count(self) -> u16 {
        if self.crc_receipt_interval == 0 {
            self.receipt_count
        } else if self.emits() {
            0
        } else {
            self.counted()
        }
    }

    /// The state after the request was carried out.
    pub open spec fn next(self, request: DfuRequestView) -> DfuTargetView {
        match request {
            DfuRequestView::Create { obj_type, obj_size } => DfuTargetView {
                objects: self.objects.reset(obj_type, obj_size),
                receipt_count: 0,
                ..self
            },
            DfuRequestView::SetReceiptNotification { target } => DfuTargetView {
                crc_receipt_interval: target,
                ..self
            },
            DfuRequestView::Write { data } => DfuTargetView {
                objects: self.objects.append(data),
                receipt_count: self.next_count(),
                ..self
            },
            DfuRequestView::Abort => DfuTargetView {
                objects: self.objects.clear_all(),
                receipt_count: 0,
                ..self
            },
            _ => self,
        }
    }

    /// Offset and checksum of the active object.
    pub open spec fn progress(self) -> DfuResponseBody {
        DfuResponseBody::Crc {
            offset: self.objects.active().offset() as u32,
            crc: self.objects.active().checksum(),
        }
    }

    /// The body of the answer to the request.
    pub open spec fn body(self, request: DfuRequestView) -> Option<DfuResponseBody> {
        match request {
            DfuRequestView::ProtocolVersion => Some(
                DfuResponseBody::ProtocolVersion { version: DFU_PROTOCOL_VERSION },
            ),
            DfuRequestView::Crc => Some(self.progress()),
            DfuRequestView::Select { obj_type } => match obj_type.slot() {
                Some(slot) => Some(
                    DfuResponseBody::Select {
                        offset: self.objects.object(slot).offset() as u32,
                        crc: self.objects.object(slot).checksum(),
                        max_size: self.objects.object(slot).size,
                    },
                ),
                None => None,
            },
            DfuRequestView::MtuGet => Some(DfuResponseBody::Mtu { mtu: DFU_MTU }),
            DfuRequestView::Write { .. } => if self.emits() {
                Some(self.next(request).progress())
            } else {
                None
            },
            DfuRequestView::Ping { id } => Some(DfuResponseBody::Ping { id }),
            DfuRequestView::HwVersion => Some(
                DfuResponseBody::HwVersion {
                    part: self.hw_info.part,
                    variant: self.hw_info.variant,
                    rom_size: self.hw_info.rom_size,
                    ram_size: self.hw_info.ram_size,
                    rom_page_size: self.hw_info.rom_page_size,
                },
            ),
            DfuRequestView::FwVersion { .. } => Some(
                DfuResponseBody::FwVersion {
                    ftype: self.fw_info.ftype,
                    version: self.fw_info.version,
                    addr: self.fw_info.addr,
                    len: self.fw_info.len,
                },
            ),
            DfuRequestView::Create { .. } => None,
            DfuRequestView::SetReceiptNotification { .. } => None,
            DfuRequestView::Execute => None,
            DfuRequestView::Abort => None,
        }
    }

    /// The answer to a request that was carried out.
    pub open spec fn response(self, request: DfuRequestView) -> DfuResponseView {
        DfuResponseView { request, result: DfuResult::Success, body: self.body(request) }
    }
}

impl View for DfuTarget {
    type V = DfuTargetView;

    closed spec fn view(&self) -> DfuTargetView {
        DfuTargetView {
            crc_receipt_interval: self.crc_receipt_interval,
            receipt_count: self.receipt_count,
            objects: self.objects@,
            fw_info: self.fw_info,
            hw_info: self.hw_info,
        }
    }
}

impl DfuTarget {
    #[verifier::type_invariant]
    spec fn objects_valid(&self) -> bool {
        self.objects@.valid()
    }

    /// The engine at the start of a session.  `size` is what the flash can
    /// hold; it is declared for the data object until one is created.
    pub fn new(size: u32, fw_info: FirmwareInfo, hw_info: HardwareInfo) -> (target: Self)
        ensures
            target@ == DfuTargetView::fresh(size, fw_info, hw_info),
            target@.valid(),
    {
        DfuTarget {
            crc_receipt_interval: 0,
            receipt_count: 0,
            objects: ObjectStore::new(size),
            fw_info,
            hw_info,
        }
    }

    /// The object table.
    pub fn objects(&self) -> (objects: &ObjectStore)
        ensures
            objects@ == self@.objects,
            self@.valid(),
    {
        proof {
            use_type_invariant(self);
        }
        &self.objects
    }

    /// The flash operation that the caller has to perform before it hands
    /// the request to [`DfuTarget::process`].
    pub fn flash_op<'m>(&self, request: &DfuRequest<'m>) -> (op: Option<FlashOp<'m>>)
        ensures
            self@.valid(),
            match self@.flash_op(request@) {
                Some(needed) => op matches Some(given) && given@ == needed,
                None => op is None,
            },
    {
        let active = self.objects.active();
        match *request {
            DfuRequest::Create { obj_type: ObjectType::Data, obj_size } => Some(
                FlashOp::Erase { from: 0, to: obj_size },
            ),
            DfuRequest::Write { data } => {
                if let ObjectType::Data = active.kind() {
                    if active.takes(data) {
                        Some(FlashOp::Write { offset: active.offset(), data })
                    } else {
                        None
                    }
                } else {
                    None
                }
            },
            _ => None,
        }
    }

    /// Carries out one request.  `flash` is how the operation that
    /// [`DfuTarget::flash_op`] asked for has ended, `Ok` where it asked for
    /// none.
    ///
    /// A write that would take the offset out of the 32-bit range is refused
    /// as out of bounds, and a request whose flash operation failed fails
    /// with the failure of the flash; either way the state stays as it was.
    /// Every other request succeeds.
    pub fn process<'m>(
        &mut self,
        request: DfuRequest<'m>,
        flash: Result<(), NorFlashErrorKind>,
    ) -> (r: Result<DfuResponse<'m>, Error>)
        ensures
            final(self)@.valid(),
            match r {
                Ok(response) => {
                    &&& !old(self)@.out_of_bounds(request@)
                    &&& flash is Ok
                    &&& final(self)@ == old(self)@.next(request@)
                    &&& response.request == request
                    &&& response@ == old(self)@.response(request@)
                },
                Err(error) => {
                    &&& final(self)@ == old(self)@
                    &&& if old(self)@.out_of_bounds(request@) {
                        error == Error::OutOfBounds
                    } else {
                        flash matches Err(kind) && error == Error::Flash(kind)
                    }
                },
            },
    {
        proof {
            use_type_invariant(&*self);
        }
        if let DfuRequest::Write { data } = request {
            if !self.objects.active().takes(data) {
                return Err(Error::OutOfBounds);
            }
        }
        if let Err(kind) = flash {
            return Err(Error::Flash(kind));
        }
        let body = match request {
            DfuRequest::ProtocolVersion => Some(
                DfuResponseBody::ProtocolVersion { version: DFU_PROTOCOL_VERSION },
            ),
            DfuRequest::Create { obj_type, obj_size } => {
                let mut objects = self.objects;
                objects.reset(obj_type, obj_size);
                self.objects = objects;
                self.receipt_count = 0;
                None
            },
            DfuRequest::SetReceiptNotification { target } => {
                self.crc_receipt_interval = target;
                None
            },
            DfuRequest::Crc => Some(
                DfuResponseBody::Crc {
                    offset: self.objects.active().offset(),
                    crc: self.objects.active().checksum(),
                },
            ),
            DfuRequest::Execute => None,
            DfuRequest::Select { obj_type } => {
                if let Some(object) = self.objects.select(obj_type) {
                    Some(
                        DfuResponseBody::Select {
                            offset: object.offset(),
                            crc: object.checksum(),
                            max_size: object.size(),
                        },
                    )
                } else {
                    None
                }
            },
            DfuRequest::MtuGet => Some(DfuResponseBody::Mtu { mtu: DFU_MTU }),
            DfuRequest::Write { data } => {
                let mut objects = self.objects;
                objects.append(data)?;
                self.objects = objects;

                if self.crc_receipt_interval > 0 {
                    self.receipt_count = self.receipt_count.wrapping_add(1);
                    if self.receipt_count == self.crc_receipt_interval {
                        self.receipt_count = 0;
                        Some(
                            DfuResponseBody::Crc {
                                offset: self.objects.active().offset(),
                                crc: self.objects.active().checksum(),
                            },
                        )
                    } else {
                        None
                    }
                } else {
                    Some(
                        DfuResponseBody::Crc {
                            offset: self.objects.active().offset(),
                            crc: self.objects.active().checksum(),
                        },
                    )
                }
            },
            DfuRequest::Ping { id } => Some(DfuResponseBody::Ping { id }),
            DfuRequest::HwVersion => Some(
                DfuResponseBody::HwVersion {
                    part: self.hw_info.part,
                    variant: self.hw_info.variant,
                    rom_size: self.hw_info.rom_size,
                    ram_size: self.hw_info.ram_size,
                    rom_page_size: self.hw_info.rom_page_size,
                },
            ),
            DfuRequest::FwVersion { image_id: _ } => Some(
                DfuResponseBody::FwVersion {
                    ftype: self.fw_info.ftype,
                    version: self.fw_info.version,
                    addr: self.fw_info.addr,
                    len: self.fw_info.len,
                },
            ),
            DfuRequest::Abort => {
                let mut objects = self.objects;
                objects.clear_all();
                self.objects = objects;
                self.receipt_count = 0;
                None
            },
        };
        Ok(DfuResponse { request, result: DfuResult::Success, body })
    }
}

} // verus!
