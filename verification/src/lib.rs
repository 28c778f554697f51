//! Firmware-update protocol engine for a small microcontroller.
//!
//! A client streams a firmware image to the device as a run of requests.
//! This crate decodes the requests ([`DfuRequest::decode`]), keeps the state
//! of the transfer and decides what each request does
//! ([`DfuTarget::flash_op`], [`DfuTarget::process`]), and encodes the answers
//! ([`DfuResponse::encode`]).  Transport and flash are the caller's.

pub mod buf;
pub mod codec;
pub mod crc;
pub mod dfu;
pub mod error;
pub mod object;
pub mod session;

pub use codec::{
    DfuRequest, DfuResponse, DfuResponseBody, DfuResult, FirmwareType, ObjectType,
};
pub use crc::Crc32;
pub use dfu::{DfuTarget, FirmwareInfo, FlashOp, HardwareInfo};
pub use error::Error;
pub use object::{Object, ObjectStore, Slot};
