use vstd::prelude::*;

use crate::error::DecodeError;

verus! {

/// The number of bytes a packet buffer holds.
pub const BUFFER_SIZE: usize = 512;

/// A fixed-size message buffer with a read cursor.
pub struct BytePacketBuffer {
    pub buffer: [u8; 512],
    pub position: usize,
}

/// The big-endian 16-bit value of the two bytes at `pos`.
pub open spec fn be16(b: Seq<u8>, pos: int) -> u16 {
    (b[pos] as int * 0x100 + b[pos + 1] as int) as u16
}

/// The big-endian 32-bit value of the four bytes at `pos`.
pub open spec fn be32(b: Seq<u8>, pos: int) -> u32 {
    (b[pos] as int * 0x1000000 + b[pos + 1] as int * 0x10000 + b[pos + 2] as int * 0x100
        + b[pos + 3] as int) as u32
}

impl BytePacketBuffer {
    /// An all-zero buffer with its cursor at the start.
    pub fn new() -> (r: BytePacketBuffer)
        ensures
            r.position == 0,
            forall|i: int| 0 <= i < BUFFER_SIZE ==> r.buffer@[i] == 0,
    {
        BytePacketBuffer { buffer: [0u8; 512], position: 0 }
    }

    /// The cursor position.
    pub fn pos(&self) -> (r: usize)
        ensures
            r == self.position,
    {
        self.position
    }

    /// Moves the cursor `steps` bytes forward without reading; fails where
    /// that would move it past the end of the buffer.
    pub fn step(&mut self, steps: usize) -> (r: Result<(), DecodeError>)
        ensures
            final(self).buffer == old(self).buffer,
            r is Ok <==> old(self).position + steps <= BUFFER_SIZE,
            r is Ok ==> final(self).position == old(self).position + steps,
            r is Err ==> r == Err::<(), DecodeError>(DecodeError::OutOfBounds)
                && final(self).position == old(self).position,
    {
        if self.position > BUFFER_SIZE || steps > BUFFER_SIZE - self.position {
            return Err(DecodeError::OutOfBounds);
        }
        self.position = self.position + steps;
        Ok(())
    }

    /// Sets the cursor to `pos`; fails where `pos` lies past the end.
    pub fn seek(&mut self, pos: usize) -> (r: Result<(), DecodeError>)
        ensures
            final(self).buffer == old(self).buffer,
            r is Ok <==> pos <= BUFFER_SIZE,
            r is Ok ==> final(self).position == pos,
            r is Err ==> r == Err::<(), DecodeError>(DecodeError::OutOfBounds)
                && final(self).position == old(self).position,
    {
        if pos > BUFFER_SIZE {
            return Err(DecodeError::OutOfBounds);
        }
        self.position = pos;
        Ok(())
    }

    /// Reads the byte under the cursor and moves past it.
    pub fn read(&mut self) -> (r: Result<u8, DecodeError>)
        ensures
            final(self).buffer == old(self).buffer,
            old(self).position < BUFFER_SIZE ==> r == Ok::<u8, DecodeError>(
                old(self).buffer@[old(self).position as int],
            ) && final(self).position == old(self).position + 1,
            old(self).position >= BUFFER_SIZE ==> r == Err::<u8, DecodeError>(
                DecodeError::OutOfBounds,
            ) && final(self).position == old(self).position,
    {
        if self.position >= BUFFER_SIZE {
            return Err(DecodeError::OutOfBounds);
        }
        let result = self.buffer[self.position];
        self.position = self.position + 1;
        Ok(result)
    }

    /// The byte at offset `pos`, leaving the cursor where it is.
    pub fn get(&self, pos: usize) -> (r: Result<u8, DecodeError>)
        ensures
            pos < BUFFER_SIZE ==> r == Ok::<u8, DecodeError>(self.buffer@[pos as int]),
            pos >= BUFFER_SIZE ==> r == Err::<u8, DecodeError>(DecodeError::OutOfBounds),
    {
        if pos >= BUFFER_SIZE {
            return Err(DecodeError::OutOfBounds);
        }
        Ok(self.buffer[pos])
    }
    /// The `length` bytes from offset `start`, leaving the cursor where it
    /// is; fails where the range would run past the end of the buffer.
    pub fn get_range(&self, start: usize, length: usize) -> (r: Result<&[u8], DecodeError>)
        ensures
            start + length <= BUFFER_SIZE ==> r is Ok && r->Ok_0@ == self.buffer@.subrange(
                start as int,
                start + length,
            ),
            start + length > BUFFER_SIZE ==> r == Err::<&[u8], DecodeError>(
                DecodeError::OutOfBounds,
            ),
    {
        if start > BUFFER_SIZE || length > BUFFER_SIZE - start {
            return Err(DecodeError::OutOfBounds);
        }
        Ok(&self.buffer[start..start + length])
    }

    /// Reads a big-endian 16-bit value at the cursor and moves past it.
    pub fn read_u16(&mut self) -> (r: Result<u16, DecodeError>)
        ensures
            final(self).buffer == old(self).buffer,
            old(self).position + 2 <= BUFFER_SIZE ==> r == Ok::<u16, DecodeError>(
                be16(old(self).buffer@, old(self).position as int),
            ) && final(self).position == old(self).position + 2,
            old(self).position + 2 > BUFFER_SIZE ==> r == Err::<u16, DecodeError>(
                DecodeError::OutOfBounds,
            ),
    {
        let hi = self.read()?;
        let lo = self.read()?;
        let result = ((hi as u16) << 8) | (lo as u16);
        assert(result == hi as int * 0x100 + lo as int) by {
            assert((((hi as u16) << 8u16) | (lo as u16)) == (hi as u16) * 0x100u16 + (lo as u16))
                by (bit_vector);
        }
        Ok(result)
    }

    /// Reads a big-endian 32-bit value at the cursor and moves past it.
    pub fn read_u32(&mut self) -> (r: Result<u32, DecodeError>)
        ensures
            final(self).buffer == old(self).buffer,
            old(self).position + 4 <= BUFFER_SIZE ==> r == Ok::<u32, DecodeError>(
                be32(old(self).buffer@, old(self).position as int),
            ) && final(self).position == old(self).position + 4,
            old(self).position + 4 > BUFFER_SIZE ==> r == Err::<u32, DecodeError>(
                DecodeError::OutOfBounds,
            ),
    {
        let b0 = self.read()?;
        let b1 = self.read()?;
        let b2 = self.read()?;
        let b3 = self.read()?;
        let result = ((b0 as u32) << 24) | ((b1 as u32) << 16) | ((b2 as u32) << 8) | (b3 as u32);
        assert(result == b0 as int * 0x1000000 + b1 as int * 0x10000 + b2 as int * 0x100
            + b3 as int) by {
            let (x0, x1, x2, x3) = (b0 as u32, b1 as u32, b2 as u32, b3 as u32);
            assert(x0 < 0x100 && x1 < 0x100 && x2 < 0x100 && x3 < 0x100);
            assert(x0 < 0x100 && x1 < 0x100 && x2 < 0x100 && x3 < 0x100 ==> ((x0 << 24u32) | (x1
                << 16u32) | (x2 << 8u32) | x3) == x0 * 0x1000000u32 + x1 * 0x10000u32 + x2
                * 0x100u32 + x3) by (bit_vector);
        }
        Ok(result)
    }
}

} // verus!
