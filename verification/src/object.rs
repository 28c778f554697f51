//! The two transfer objects and which of them is being written.

use crate::codec::ObjectType;
use crate::crc::{crc32, Crc32};
use crate::error::Error;
use vstd::prelude::*;

verus! {

/// Declared size of the command object before any was created.
pub const COMMAND_OBJECT_SIZE: u32 = 512;

/// One of the two places in the object table.
#[derive(Debug, Copy, Clone, PartialEq, Eq)]
pub enum Slot {
    Command,
    Data,
}

impl ObjectType {
    /// The place of an object of this kind; none for the invalid kind.
    pub open spec fn slot(self) -> Option<Slot> {
        match self {
            ObjectType::Invalid => None,
            ObjectType::Command => Some(Slot::Command),
            ObjectType::Data => Some(Slot::Data),
        }
    }
}

impl Slot {
    /// The kind of the object that lives in this place.
    pub open spec fn kind(self) -> ObjectType {
        match self {
            Slot::Command => ObjectType::Command,
            Slot::Data => ObjectType::Data,
        }
    }
}

/// One transfer object: what was declared for it and what has arrived.
#[derive(Clone, Copy)]
pub struct Object {
    obj_type: ObjectType,
    offset: u32,
    crc: Crc32,
    size: u32,
}

/// A transfer object as its kind, its declared size and the bytes received
/// since it was created or cleared.  Offset and checksum follow from the
/// bytes.
pub struct ObjectView {
    pub kind: ObjectType,
    pub size: u32,
    pub received: Seq<u8>,
}

impl ObjectView {
    /// An object of the given kind and size that has received nothing.
    pub open spec fn empty(kind: ObjectType, size: u32) -> ObjectView {
        ObjectView { kind, size, received: Seq::empty() }
    }

    /// Number of bytes received.
    pub open spec fn offset(self) -> nat {
        self.received.len()
    }

    /// Checksum of the bytes received.
    pub open spec fn checksum(self) -> u32 {
        crc32(self.received)
    }

    /// The object with `bytes` received after what it had.
    pub open spec fn append(self, bytes: Seq<u8>) -> ObjectView {
        ObjectView { received: self.received + bytes, ..self }
    }

    /// The object with nothing received and its size as it was.
    pub open spec fn clear(self) -> ObjectView {
        ObjectView { received: Seq::empty(), ..self }
    }

    /// Whether `bytes` more would still leave the offset a 32-bit number.
    pub open spec fn takes(self, bytes: Seq<u8>) -> bool {
        self.received.len() + bytes.len() <= u32::MAX
    }

    /// No more was received than was declared.
    pub open spec fn within_size(self) -> bool {
        self.received.len() <= self.size
    }

    /// The offset is a 32-bit number, as it is in every [`Object`].
    pub open spec fn valid(self) -> bool {
        self.received.len() <= u32::MAX
    }
}

impl View for Object {
    type V = ObjectView;

    closed spec fn view(&self) -> ObjectView {
        ObjectView { kind: self.obj_type, size: self.size, received: self.crc@ }
    }
}

impl Object {
    #[verifier::type_invariant]
    spec fn offset_counts_received(&self) -> bool {
        self.offset == self.crc@.len()
    }

    /// An object that has received nothing.
    pub fn new(obj_type: ObjectType, size: u32) -> (object: Object)
        ensures
            object@ == ObjectView::empty(obj_type, size),
            object@.valid(),
    {
        Object { obj_type, offset: 0, crc: Crc32::init(), size }
    }

    /// Kind of the object.
    pub fn kind(&self) -> (kind: ObjectType)
        ensures
            kind == self@.kind,
    {
        self.obj_type
    }

    /// Declared size in bytes.
    pub fn size(&self) -> (size: u32)
        ensures
            size == self@.size,
    {
        self.size
    }

    /// Number of bytes received.
    pub fn offset(&self) -> (offset: u32)
        ensures
            offset == self@.offset(),
            self@.valid(),
    {
        proof {
            use_type_invariant(self);
        }
        self.offset
    }

    /// Checksum of the bytes received.
    pub fn checksum(&self) -> (sum: u32)
        ensures
            sum == self@.checksum(),
    {
        self.crc.finish()
    }

    /// Whether `bytes` more would still leave the offset a 32-bit number.
    pub fn takes(&self, bytes: &[u8]) -> (fits: bool)
        ensures
            fits == self@.takes(bytes@),
    {
        proof {
            use_type_invariant(self);
        }
        bytes.len() <= (u32::MAX - self.offset) as usize
    }

    /// Receives `bytes`, unless the offset would leave the 32-bit range:
    /// then the object stays as it is.
    pub fn append(&mut self, bytes: &[u8]) -> (r: Result<(), Error>)
        ensures
            old(self)@.takes(bytes@) ==> r is Ok && final(self)@ == old(self)@.append(bytes@),
            !old(self)@.takes(bytes@) ==> r == Err::<(), Error>(Error::OutOfBounds) && final(self)@
                == old(self)@,
            final(self)@.valid(),
    {
        proof {
            use_type_invariant(&*self);
        }
        if !self.takes(bytes) {
            return Err(Error::OutOfBounds);
        }
        let mut crc = self.crc;
        crc.add(bytes);
        *self = Object {
            obj_type: self.obj_type,
            offset: self.offset + bytes.len() as u32,
            crc,
            size: self.size,
        };
        Ok(())
    }

    /// Forgets what was received; kind and size stay.
    pub fn clear(&mut self)
        ensures
            final(self)@ == old(self)@.clear(),
            final(self)@.valid(),
    {
        let mut crc = self.crc;
        crc.reset();
        *self = Object { obj_type: self.obj_type, offset: 0, crc, size: self.size };
    }
}

/// The object table: the command object, the data object, and the place of
/// the one that writes go to.
#[derive(Clone, Copy)]
pub struct ObjectStore {
    command: Object,
    data: Object,
    current: Slot,
}

/// The object table by the views of its objects.
pub struct ObjectsView {
    pub command: ObjectView,
    pub data: ObjectView,
    pub current: Slot,
}

impl ObjectsView {
    /// The table as it is when a session starts: nothing received, the
    /// command object active, `data_size` declared for the data object.
    pub open spec fn fresh(data_size: u32) -> ObjectsView {
        ObjectsView {
            command: ObjectView::empty(ObjectType::Command, COMMAND_OBJECT_SIZE),
            data: ObjectView::empty(ObjectType::Data, data_size),
            current: Slot::Command,
        }
    }

    /// The object in the given place.
    pub open spec fn object(self, slot: Slot) -> ObjectView {
        match slot {
            Slot::Command => self.command,
            Slot::Data => self.data,
        }
    }

    /// The object that writes go to.
    pub open spec fn active(self) -> ObjectView {
        self.object(self.current)
    }

    /// The table with `object` in the given place.
    pub open spec fn with_object(self, slot: Slot, object: ObjectView) -> ObjectsView {
        match slot {
            Slot::Command => ObjectsView { command: object, ..self },
            Slot::Data => ObjectsView { data: object, ..self },
        }
    }

    /// The table after an object of `kind` was created with `size` declared:
    /// that object is empty and active.  The invalid kind changes nothing.
    pub open spec fn reset(self, kind: ObjectType, size: u32) -> ObjectsView {
        match kind.slot() {
            Some(slot) => ObjectsView {
                current: slot,
                ..self.with_object(slot, ObjectView::empty(kind, size))
            },
            None => self,
        }
    }

    /// The table after the active object received `bytes`.
    pub open spec fn append(self, bytes: Seq<u8>) -> ObjectsView {
        self.with_object(self.current, self.active().append(bytes))
    }

    /// The table after both objects forgot what they received.
    pub open spec fn clear_all(self) -> ObjectsView {
        ObjectsView { command: self.command.clear(), data: self.data.clear(), ..self }
    }

    /// Each place holds a valid object of its own kind, as it does in every
    /// [`ObjectStore`].
    pub open spec fn valid(self) -> bool {
        &&& self.command.kind == ObjectType::Command
        &&& self.data.kind == ObjectType::Data
        &&& self.command.valid()
        &&& self.data.valid()
    }
}

impl View for ObjectStore {
    type V = ObjectsView;

    closed spec fn view(&self) -> ObjectsView {
        ObjectsView { command: self.command@, data: self.data@, current: self.current }
    }
}

impl ObjectStore {
    #[verifier::type_invariant]
    spec fn kinds_match(&self) -> bool {
        self.command@.kind == ObjectType::Command && self.data@.kind == ObjectType::Data
    }

    /// The table at the start of a session.
    pub fn new(data_size: u32) -> (store: ObjectStore)
        ensures
            store@ == ObjectsView::fresh(data_size),
            store@.valid(),
    {
        ObjectStore {
            command: Object::new(ObjectType::Command, COMMAND_OBJECT_SIZE),
            data: Object::new(ObjectType::Data, data_size),
            current: Slot::Command,
        }
    }

    /// Looks up the object of the given kind; there is none of the invalid
    /// kind.  Which object is active does not change.
    pub fn select(&self, kind: ObjectType) -> (found: Option<&Object>)
        ensures
            match kind.slot() {
                Some(slot) => found matches Some(object) && object@ == self@.object(slot),
                None => found is None,
            },
    {
        match kind {
            ObjectType::Command => Some(&self.command),
            ObjectType::Data => Some(&self.data),
            ObjectType::Invalid => None,
        }
    }

    /// The object that writes go to.
    pub fn active(&self) -> (object: &Object)
        ensures
            object@ == self@.active(),
            self@.valid(),
    {
        proof {
            use_type_invariant(self);
            use_type_invariant(&self.command);
            use_type_invariant(&self.data);
        }
        match self.current {
            Slot::Command => &self.command,
            Slot::Data => &self.data,
        }
    }

    /// Replaces the object of the given kind by an empty one of the given
    /// size and makes it the active one.  The invalid kind changes nothing.
    pub fn reset(&mut self, kind: ObjectType, new_size: u32)
        ensures
            final(self)@ == old(self)@.reset(kind, new_size),
            final(self)@.valid(),
    {
        proof {
            use_type_invariant(&*self);
            use_type_invariant(&self.command);
            use_type_invariant(&self.data);
        }
        match kind {
            ObjectType::Command => {
                *self = ObjectStore {
                    command: Object::new(kind, new_size),
                    data: self.data,
                    current: Slot::Command,
                };
            },
            ObjectType::Data => {
                *self = ObjectStore {
                    command: self.command,
                    data: Object::new(kind, new_size),
                    current: Slot::Data,
                };
            },
            ObjectType::Invalid => {},
        }
    }

    /// Hands `bytes` to the active object, unless its offset would leave the
    /// 32-bit range: then the table stays as it is.
    pub fn append(&mut self, bytes: &[u8]) -> (r: Result<(), Error>)
        ensures
            old(self)@.active().takes(bytes@) ==> r is Ok && final(self)@ == old(self)@.append(
                bytes@,
            ),
            !old(self)@.active().takes(bytes@) ==> r == Err::<(), Error>(Error::OutOfBounds)
                && final(self)@ == old(self)@,
            final(self)@.valid(),
    {
        proof {
            use_type_invariant(&*self);
            use_type_invariant(&self.command);
            use_type_invariant(&self.data);
        }
        match self.current {
            Slot::Command => {
                let mut object = self.command;
                object.append(bytes)?;
                *self = ObjectStore { command: object, data: self.data, current: self.current };
            },
            Slot::Data => {
                let mut object = self.data;
                object.append(bytes)?;
                *self = ObjectStore { command: self.command, data: object, current: self.current };
            },
        }
        Ok(())
    }

    /// Makes both objects forget what they received.  Their sizes stay, and
    /// so does which of them is active.
    pub fn clear_all(&mut self)
        ensures
            final(self)@ == old(self)@.clear_all(),
            final(self)@.valid(),
    {
        proof {
            use_type_invariant(&*self);
        }
        let mut command = self.command;
        let mut data = self.data;
        command.clear();
        data.clear();
        *self = ObjectStore { command, data, current: self.current };
    }
}

} // verus!
