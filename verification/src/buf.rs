//! Cursors over byte buffers, and the little-endian layout of integers.

use vstd::prelude::*;

verus! {

/// The 16-bit value whose little-endian bytes are `b0`, `b1`.
pub open spec fn le_u16(b0: u8, b1: u8) -> u16 {
    (b0 + 0x100 * b1) as u16
}

/// The 32-bit value whose little-endian bytes are `b0` to `b3`.
pub open spec fn le_u32(b0: u8, b1: u8, b2: u8, b3: u8) -> u32 {
    (b0 + 0x100 * b1 + 0x1_0000 * b2 + 0x100_0000 * b3) as u32
}

/// The two little-endian bytes of a 16-bit value.
pub open spec fn u16_le_bytes(value: u16) -> Seq<u8> {
    seq![(value % 0x100) as u8, (value / 0x100) as u8]
}

/// The four little-endian bytes of a 32-bit value.
pub open spec fn u32_le_bytes(value: u32) -> Seq<u8> {
    seq![
        (value % 0x100) as u8,
        (value / 0x100 % 0x100) as u8,
        (value / 0x1_0000 % 0x100) as u8,
        (value / 0x100_0000) as u8,
    ]
}

/// Reading back the bytes of a 16-bit value gives the value.
pub proof fn lemma_le_u16_of_bytes(value: u16)
    ensures
        u16_le_bytes(value).len() == 2,
        le_u16(u16_le_bytes(value)[0], u16_le_bytes(value)[1]) == value,
{
}

/// Reading back the bytes of a 32-bit value gives the value.
pub proof fn lemma_le_u32_of_bytes(value: u32)
    ensures
        u32_le_bytes(value).len() == 4,
        le_u32(
            u32_le_bytes(value)[0],
            u32_le_bytes(value)[1],
            u32_le_bytes(value)[2],
            u32_le_bytes(value)[3],
        ) == value,
{
}

/// The bytes of the value that two bytes stand for are those two bytes.
pub proof fn lemma_bytes_of_le_u16(b0: u8, b1: u8)
    ensures
        u16_le_bytes(le_u16(b0, b1)) == seq![b0, b1],
{
    assert(u16_le_bytes(le_u16(b0, b1)) =~= seq![b0, b1]);
}

/// The bytes of the value that four bytes stand for are those four bytes.
pub proof fn lemma_bytes_of_le_u32(b0: u8, b1: u8, b2: u8, b3: u8)
    ensures
        u32_le_bytes(le_u32(b0, b1, b2, b3)) == seq![b0, b1, b2, b3],
{
    let value = le_u32(b0, b1, b2, b3);
    assert(value % 0x100 == b0 && value / 0x100 % 0x100 == b1 && value / 0x1_0000 % 0x100 == b2
        && value / 0x100_0000 == b3) by (bit_vector)
        requires
            value == b0 + 0x100 * b1 + 0x1_0000 * b2 + 0x100_0000 * b3,
    ;
    assert(u32_le_bytes(value) =~= seq![b0, b1, b2, b3]);
}

/// Cursor that reads a byte slice from the front.
///
/// Its view is what is left to read.
pub struct ReadBuf<'m> {
    data: &'m [u8],
    pos: usize,
}

impl<'m> View for ReadBuf<'m> {
    type V = Seq<u8>;

    closed spec fn view(&self) -> Seq<u8> {
        self.data@.skip(self.pos as int)
    }
}

impl<'m> ReadBuf<'m> {
    #[verifier::type_invariant]
    spec fn in_bounds(&self) -> bool {
        self.pos <= self.data@.len()
    }

    /// A cursor at the start of `data`.
    pub fn new(data: &'m [u8]) -> (buf: ReadBuf<'m>)
        ensures
            buf@ == data@,
    {
        ReadBuf { data, pos: 0 }
    }

    /// Reads one byte, or fails and reads nothing if none is left.
    pub fn decode_u8(&mut self) -> (r: Result<u8, ()>)
        ensures
            r is Ok <==> old(self)@.len() >= 1,
            r matches Ok(b) ==> b == old(self)@[0] && final(self)@ == old(self)@.skip(1),
            r is Err ==> final(self)@ == old(self)@,
    {
        proof {
            use_type_invariant(&*self);
        }
        if self.data.len() - self.pos >= 1 {
            let b = self.data[self.pos];
            *self = ReadBuf { data: self.data, pos: self.pos + 1 };
            Ok(b)
        } else {
            Err(())
        }
    }

    /// Reads a little-endian 16-bit value, or fails and reads nothing if
    /// fewer than two bytes are left.
    pub fn decode_u16(&mut self) -> (r: Result<u16, ()>)
        ensures
            r is Ok <==> old(self)@.len() >= 2,
            r matches Ok(v) ==> v == le_u16(old(self)@[0], old(self)@[1]) && final(self)@ == old(
                self,
            )@.skip(2),
            r is Err ==> final(self)@ == old(self)@,
    {
        proof {
            use_type_invariant(&*self);
        }
        if self.data.len() - self.pos >= 2 {
            let b0 = self.data[self.pos];
            let b1 = self.data[self.pos + 1];
            let v = (b0 as u16) | ((b1 as u16) << 8);
            assert(v == le_u16(b0, b1)) by (bit_vector)
                requires
                    v == (b0 as u16) | ((b1 as u16) << 8),
            ;
            *self = ReadBuf { data: self.data, pos: self.pos + 2 };
            Ok(v)
        } else {
            Err(())
        }
    }

    /// Reads a little-endian 32-bit value, or fails and reads nothing if
    /// fewer than four bytes are left.
    pub fn decode_u32(&mut self) -> (r: Result<u32, ()>)
        ensures
            r is Ok <==> old(self)@.len() >= 4,
            r matches Ok(v) ==> v == le_u32(
                old(self)@[0],
                old(self)@[1],
                old(self)@[2],
                old(self)@[3],
            ) && final(self)@ == old(self)@.skip(4),
            r is Err ==> final(self)@ == old(self)@,
    {
        proof {
            use_type_invariant(&*self);
        }
        if self.data.len() - self.pos >= 4 {
            let b0 = self.data[self.pos];
            let b1 = self.data[self.pos + 1];
            let b2 = self.data[self.pos + 2];
            let b3 = self.data[self.pos + 3];
            let v = (b0 as u32) | ((b1 as u32) << 8) | ((b2 as u32) << 16) | ((b3 as u32) << 24);
            assert(v == le_u32(b0, b1, b2, b3)) by (bit_vector)
                requires
                    v == (b0 as u32) | ((b1 as u32) << 8) | ((b2 as u32) << 16) | ((b3 as u32)
                        << 24),
            ;
            *self = ReadBuf { data: self.data, pos: self.pos + 4 };
            Ok(v)
        } else {
            Err(())
        }
    }

    /// Takes everything that is left.
    pub fn slice(&mut self) -> (rest: &'m [u8])
        ensures
            rest@ == old(self)@,
            final(self)@.len() == 0,
    {
        proof {
            use_type_invariant(&*self);
        }
        let data = self.data;
        let rest = &data[self.pos..data.len()];
        *self = ReadBuf { data, pos: data.len() };
        rest
    }

    /// Gives up the cursor for what is left.
    pub fn release(self) -> (rest: &'m [u8])
        ensures
            rest@ == self@,
    {
        proof {
            use_type_invariant(&self);
        }
        let data = self.data;
        &data[self.pos..data.len()]
    }

    /// Number of bytes left to read.
    pub fn len(&self) -> (n: usize)
        ensures
            n == self@.len(),
    {
        proof {
            use_type_invariant(self);
        }
        self.data.len() - self.pos
    }
}

/// `buf` with `bytes` laid over it from index `at` on.
pub open spec fn overlay(buf: Seq<u8>, at: int, bytes: Seq<u8>) -> Seq<u8> {
    buf.take(at) + bytes + buf.skip(at + bytes.len())
}

/// `buf` after `fields` were written to its front one after the other, up to
/// the first that did not fit whole into what was left.
pub open spec fn fill(buf: Seq<u8>, fields: Seq<Seq<u8>>) -> Seq<u8>
    decreases fields.len(),
{
    if fields.len() == 0 || fields[0].len() > buf.len() {
        buf
    } else {
        fields[0] + fill(buf.skip(fields[0].len() as int), fields.drop_first())
    }
}

/// Filling a buffer does not change its length.
pub proof fn lemma_fill_len(buf: Seq<u8>, fields: Seq<Seq<u8>>)
    ensures
        fill(buf, fields).len() == buf.len(),
    decreases fields.len(),
{
    if fields.len() != 0 && fields[0].len() <= buf.len() {
        lemma_fill_len(buf.skip(fields[0].len() as int), fields.drop_first());
    }
}

/// Filling with two runs of fields writes the first run and, if all of it
/// fitted, goes on with the second run behind it.
pub proof fn lemma_fill_concat(buf: Seq<u8>, head: Seq<Seq<u8>>, tail: Seq<Seq<u8>>)
    ensures
        fill(buf, head + tail) == if head.flatten().len() <= buf.len() {
            head.flatten() + fill(buf.skip(head.flatten().len() as int), tail)
        } else {
            fill(buf, head)
        },
    decreases head.len(),
{
    if head.len() == 0 {
        assert(head + tail =~= tail);
        assert(buf.skip(0) =~= buf);
        assert(head.flatten() + fill(buf, tail) =~= fill(buf, tail));
    } else {
        let first = head[0];
        let room = buf.skip(first.len() as int);
        assert((head + tail)[0] == first);
        assert((head + tail).drop_first() =~= head.drop_first() + tail);
        if first.len() <= buf.len() {
            lemma_fill_concat(room, head.drop_first(), tail);
            let done = head.drop_first().flatten();
            if done.len() <= room.len() {
                assert(room.skip(done.len() as int) =~= buf.skip(head.flatten().len() as int));
                assert(first + (done + fill(room.skip(done.len() as int), tail)) =~= head.flatten()
                    + fill(buf.skip(head.flatten().len() as int), tail));
            }
        }
    }
}

/// Where all the fields fit, filling writes them end to end and leaves the
/// rest of the buffer as it was.
pub proof fn lemma_fill_fits(buf: Seq<u8>, fields: Seq<Seq<u8>>)
    requires
        fields.flatten().len() <= buf.len(),
    ensures
        fill(buf, fields) == fields.flatten() + buf.skip(fields.flatten().len() as int),
{
    lemma_fill_concat(buf, fields, Seq::empty());
    assert(fields + Seq::<Seq<u8>>::empty() =~= fields);
}

/// A buffer that was `before`, with the first `k` of `fields` written end to
/// end from its front and the cursor at `pos` behind them.
pub open spec fn wrote(
    data: Seq<u8>,
    pos: int,
    before: Seq<u8>,
    fields: Seq<Seq<u8>>,
    k: int,
) -> bool {
    &&& 0 <= k <= fields.len()
    &&& 0 <= pos <= before.len()
    &&& data.len() == before.len()
    &&& data.take(pos) == fields.take(k).flatten()
    &&& data.skip(pos) == before.skip(pos)
}

/// An untouched buffer has none of the fields written.
pub proof fn lemma_wrote_none(before: Seq<u8>, fields: Seq<Seq<u8>>)
    ensures
        wrote(before, 0, before, fields, 0),
{
    assert(fields.take(0) =~= Seq::<Seq<u8>>::empty());
    assert(before.take(0) =~= fields.take(0).flatten());
}

/// What the next field does to a buffer with `k` fields written: if it does
/// not fit, the buffer is already what filling gives; if it fits, writing it
/// at the cursor gives a buffer with `k + 1` fields written.
pub proof fn lemma_wrote_next(
    data: Seq<u8>,
    pos: int,
    before: Seq<u8>,
    fields: Seq<Seq<u8>>,
    k: int,
)
    requires
        wrote(data, pos, before, fields, k),
        k < fields.len(),
    ensures
        pos + fields[k].len() > before.len() ==> fill(before, fields) == data,
        pos + fields[k].len() <= before.len() ==> wrote(
            overlay(data, pos, fields[k]),
            pos + fields[k].len(),
            before,
            fields,
            k + 1,
        ),
{
    let head = fields.take(k);
    let tail = fields.skip(k);
    let field = fields[k];
    assert(head + tail =~= fields);
    assert(tail[0] == field);
    lemma_fill_concat(before, head, tail);
    if pos + field.len() > before.len() {
        assert(fill(before.skip(pos), tail) == before.skip(pos));
        assert(data.take(pos) + data.skip(pos) =~= data);
    } else {
        let next = overlay(data, pos, field);
        let end = pos + field.len();
        assert(fields.take(k + 1) =~= head.push(field));
        head.lemma_flatten_push(field);
        assert(next.take(end) =~= data.take(pos) + field);
        assert(next.skip(end) =~= before.skip(end)) by {
            assert forall|i: int| 0 <= i < before.len() - end implies next.skip(end)[i]
                == before.skip(end)[i] by {
                assert(data.skip(pos)[i + field.len()] == before.skip(pos)[i + field.len()]);
            }
        }
    }
}

/// A buffer with all the fields written is what filling gives: the fields
/// end to end, and behind them what was there before.
pub proof fn lemma_wrote_all(data: Seq<u8>, pos: int, before: Seq<u8>, fields: Seq<Seq<u8>>)
    requires
        wrote(data, pos, before, fields, fields.len() as int),
    ensures
        fill(before, fields) == data,
        pos == fields.flatten().len(),
        data == fields.flatten() + before.skip(pos),
{
    assert(fields.take(fields.len() as int) =~= fields);
    lemma_fill_fits(before, fields);
    assert(data.take(pos) + data.skip(pos) =~= data);
}

/// Cursor that fills a byte slice from the front.
///
/// The fields are in view of the whole crate because the contracts speak of
/// what the borrowed slice holds once the cursor is gone.
pub(crate) struct WriteBuf<'m> {
    pub(crate) data: &'m mut [u8],
    pub(crate) pos: usize,
}

impl<'m> WriteBuf<'m> {
    /// The cursor lies inside the slice.
    pub(crate) open spec fn inv(&self) -> bool {
        self.pos <= self.data@.len()
    }

    /// A cursor at the start of `data`.
    pub(crate) fn new(data: &'m mut [u8]) -> (buf: WriteBuf<'m>)
        ensures
            buf.inv(),
            buf.pos == 0,
            buf.data@ == old(data)@,
            final(buf.data)@ == final(data)@,
    {
        WriteBuf { data, pos: 0 }
    }

    /// Writes one byte, or fails and writes nothing if no room is left.
    pub(crate) fn encode_u8(&mut self, value: u8) -> (r: Result<(), ()>)
        requires
            old(self).inv(),
        ensures
            final(self).inv(),
            final(final(self).data)@ == final(old(self).data)@,
            r is Ok <==> old(self).pos + 1 <= old(self).data@.len(),
            r is Ok ==> final(self).pos == old(self).pos + 1 && final(self).data@ == overlay(
                old(self).data@,
                old(self).pos as int,
                seq![value],
            ),
            r is Err ==> final(self).pos == old(self).pos && final(self).data@ == old(self).data@,
    {
        if self.data.len() - self.pos >= 1 {
            self.data[self.pos] = value;
            self.pos += 1;
            assert(self.data@ =~= overlay(old(self).data@, old(self).pos as int, seq![value]));
            Ok(())
        } else {
            Err(())
        }
    }

    /// Writes a 16-bit value, low byte first, or fails and writes nothing if
    /// fewer than two bytes of room are left.
    pub(crate) fn encode_u16(&mut self, value: u16) -> (r: Result<(), ()>)
        requires
            old(self).inv(),
        ensures
            final(self).inv(),
            final(final(self).data)@ == final(old(self).data)@,
            r is Ok <==> old(self).pos + 2 <= old(self).data@.len(),
            r is Ok ==> final(self).pos == old(self).pos + 2 && final(self).data@ == overlay(
                old(self).data@,
                old(self).pos as int,
                u16_le_bytes(value),
            ),
            r is Err ==> final(self).pos == old(self).pos && final(self).data@ == old(self).data@,
    {
        if self.data.len() - self.pos >= 2 {
            let b0 = (value & 0xff) as u8;
            let b1 = (value >> 8) as u8;
            assert(b0 == (value % 0x100) as u8 && b1 == (value / 0x100) as u8) by (bit_vector)
                requires
                    b0 == (value & 0xff) as u8,
                    b1 == (value >> 8) as u8,
            ;
            self.data[self.pos] = b0;
            self.data[self.pos + 1] = b1;
            self.pos += 2;
            assert(self.data@ =~= overlay(
                old(self).data@,
                old(self).pos as int,
                u16_le_bytes(value),
            ));
            Ok(())
        } else {
            Err(())
        }
    }

    /// Writes a 32-bit value, low byte first, or fails and writes nothing if
    /// fewer than four bytes of room are left.
    pub(crate) fn encode_u32(&mut self, value: u32) -> (r: Result<(), ()>)
        requires
            old(self).inv(),
        ensures
            final(self).inv(),
            final(final(self).data)@ == final(old(self).data)@,
            r is Ok <==> old(self).pos + 4 <= old(self).data@.len(),
            r is Ok ==> final(self).pos == old(self).pos + 4 && final(self).data@ == overlay(
                old(self).data@,
                old(self).pos as int,
                u32_le_bytes(value),
            ),
            r is Err ==> final(self).pos == old(self).pos && final(self).data@ == old(self).data@,
    {
        if self.data.len() - self.pos >= 4 {
            let b0 = (value & 0xff) as u8;
            let b1 = ((value >> 8) & 0xff) as u8;
            let b2 = ((value >> 16) & 0xff) as u8;
            let b3 = (value >> 24) as u8;
            assert(b0 == (value % 0x100) as u8 && b1 == (value / 0x100 % 0x100) as u8 && b2 == (
            value / 0x1_0000 % 0x100) as u8 && b3 == (value / 0x100_0000) as u8) by (bit_vector)
                requires
                    b0 == (value & 0xff) as u8,
                    b1 == ((value >> 8) & 0xff) as u8,
                    b2 == ((value >> 16) & 0xff) as u8,
                    b3 == (value >> 24) as u8,
            ;
            self.data[self.pos] = b0;
            self.data[self.pos + 1] = b1;
            self.data[self.pos + 2] = b2;
            self.data[self.pos + 3] = b3;
            self.pos += 4;
            assert(self.data@ =~= overlay(
                old(self).data@,
                old(self).pos as int,
                u32_le_bytes(value),
            ));
            Ok(())
        } else {
            Err(())
        }
    }

    /// Moves the cursor over `amount` bytes that were filled through
    /// [`WriteBuf::slice`], or fails and stays if fewer are left.
    pub(crate) fn advance(&mut self, amount: usize) -> (r: Result<(), ()>)
        requires
            old(self).inv(),
        ensures
            final(self).inv(),
            final(final(self).data)@ == final(old(self).data)@,
            final(self).data@ == old(self).data@,
            r is Ok <==> old(self).pos + amount <= old(self).data@.len(),
            r is Ok ==> final(self).pos == old(self).pos + amount,
            r is Err ==> final(self).pos == old(self).pos,
    {
        if self.data.len() - self.pos >= amount {
            self.pos += amount;
            Ok(())
        } else {
            Err(())
        }
    }

    /// Number of bytes written so far.
    pub(crate) fn len(&self) -> (n: usize)
        ensures
            n == self.pos,
    {
        self.pos
    }

    /// Gives up the cursor for the number of bytes written; the slice now
    /// holds what the cursor last saw in it.
    pub(crate) fn release(self) -> (n: usize)
        ensures
            n == self.pos,
            final(self.data)@ == old(self.data)@,
    {
        self.pos
    }

    /// The room that is left, for a callee to fill from its own start.
    pub(crate) fn slice(&mut self) -> (rest: &mut [u8])
        requires
            old(self).inv(),
        ensures
            rest@ == old(self).data@.skip(old(self).pos as int),
            final(self).inv(),
            final(final(self).data)@ == final(old(self).data)@,
            final(self).pos == old(self).pos,
            final(self).data@ == old(self).data@.take(old(self).pos as int) + final(rest)@,
    {
        let (_, rest) = self.data.split_at_mut(self.pos);
        rest
    }
}

} // verus!
