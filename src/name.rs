use vstd::prelude::*;
use vstd::string::StringExecFns;

use crate::buffer::{BytePacketBuffer, BUFFER_SIZE};
use crate::error::DecodeError;
use crate::text::{label_text, lowercase, name_text, text_from_bytes};

verus! {

/// How many compression pointers one domain name may follow.
pub const MAX_JUMPS: usize = 5;

/// A length byte whose top two bits are set starts a compression pointer.
pub open spec fn is_pointer(b: u8) -> bool {
    b >= 0xC0
}

/// The offset a compression pointer made of bytes `b0`, `b1` refers to: the
/// low 14 bits of the pair.
pub open spec fn pointer_target(b0: u8, b1: u8) -> int {
    (b0 - 0xC0) * 0x100 + b1
}

/// The domain name that starts at `pos` in message `b`, with `jumps`
/// pointers already followed: its labels' bytes, and the offset just past
/// its occurrence at `pos` (past the first pointer, where there is one).
pub open spec fn name_walk(b: Seq<u8>, pos: int, jumps: int) -> Result<
    (Seq<Seq<u8>>, int),
    DecodeError,
>
    decreases MAX_JUMPS + 1 - jumps, BUFFER_SIZE - pos,
{
    if jumps > MAX_JUMPS {
        Err(DecodeError::CompressionLoopLimitExceeded)
    } else if !(0 <= pos < BUFFER_SIZE) {
        Err(DecodeError::OutOfBounds)
    } else if is_pointer(b[pos]) {
        if pos + 1 >= BUFFER_SIZE {
            Err(DecodeError::OutOfBounds)
        } else {
            match name_walk(b, pointer_target(b[pos], b[pos + 1]), jumps + 1) {
                Ok((labels, _)) => Ok((labels, pos + 2)),
                Err(e) => Err(e),
            }
        }
    } else if b[pos] == 0 {
        Ok((Seq::empty(), pos + 1))
    } else if pos + 1 + b[pos] > BUFFER_SIZE {
        Err(DecodeError::OutOfBounds)
    } else {
        match name_walk(b, pos + 1 + b[pos], jumps) {
            Ok((labels, end)) => Ok((seq![b.subrange(pos + 1, pos + 1 + b[pos])] + labels, end)),
            Err(e) => Err(e),
        }
    }
}

/// The text of the domain name at `pos` in message `b`, and the offset just
/// past its occurrence there.
pub open spec fn name_at(b: Seq<u8>, pos: int) -> Result<(Seq<char>, int), DecodeError> {
    match name_walk(b, pos, 0) {
        Ok((labels, end)) => Ok((name_text(labels), end)),
        Err(e) => Err(e),
    }
}

/// What a whole name decode yields, given the labels already `emitted`,
/// whether a pointer was followed, the cursor `at`, and the outcome `rest` of
/// decoding from the working position on.
pub open spec fn resume(
    emitted: Seq<Seq<u8>>,
    jumped: bool,
    at: int,
    rest: Result<(Seq<Seq<u8>>, int), DecodeError>,
) -> Result<(Seq<Seq<u8>>, int), DecodeError> {
    match rest {
        Ok((labels, end)) => Ok((emitted + labels, if jumped { at } else { end })),
        Err(e) => Err(e),
    }
}

impl BytePacketBuffer {
    /// Reads the domain name at the cursor and appends its text to
    /// `outstring`, following compression pointers. The cursor ends just past
    /// the name's occurrence: after its zero byte, or after the first pointer.
    pub fn read_q_name(&mut self, outstring: &mut String) -> (r: Result<(), DecodeError>)
        ensures
            final(self).buffer == old(self).buffer,
            match name_at(old(self).buffer@, old(self).position as int) {
                Ok((text, end)) => r is Ok && final(outstring)@ == old(outstring)@ + text
                    && final(self).position == end,
                Err(e) => r == Err::<(), DecodeError>(e),
            },
    {
        let ghost b = self.buffer@;
        let ghost start = self.position as int;
        let ghost mut emitted: Seq<Seq<u8>> = Seq::empty();

        // the working position, which moves on through jumps while the
        // cursor stays past the first pointer
        let mut pos: usize = self.position;
        let mut jumped = false;
        let mut jumps_performed: usize = 0;
        let mut delimiter = "";
        proof {
            reveal_strlit("");
            reveal_strlit(".");
        }

        loop
            invariant
                self.buffer == old(self).buffer,
                self.buffer@ == b,
                b == old(self).buffer@,
                start == old(self).position,
                jumps_performed <= MAX_JUMPS + 1,
                jumped == (jumps_performed > 0),
                !jumped ==> self.position == start,
                delimiter@ == (if emitted.len() == 0 { Seq::<char>::empty() } else { seq!['.'] }),
                outstring@ == old(outstring)@ + name_text(emitted),
                name_walk(b, start, 0) == resume(
                    emitted,
                    jumped,
                    self.position as int,
                    name_walk(b, pos as int, jumps_performed as int),
                ),
            decreases (MAX_JUMPS + 1 - jumps_performed) * 0x1_0000_0000_0000_0000 + (usize::MAX - pos),
        {
            // a packet can hold a cycle of pointers
            if jumps_performed > MAX_JUMPS {
                assert(name_walk(b, pos as int, jumps_performed as int) == Err::<
                    (Seq<Seq<u8>>, int),
                    DecodeError,
                >(DecodeError::CompressionLoopLimitExceeded));
                return Err(DecodeError::CompressionLoopLimitExceeded);
            }
            if pos >= BUFFER_SIZE {
                assert(name_walk(b, pos as int, jumps_performed as int) == Err::<
                    (Seq<Seq<u8>>, int),
                    DecodeError,
                >(DecodeError::OutOfBounds));
            }
            let len = self.get(pos)?;

            if (len & 0xC0) == 0xC0 {
                assert(is_pointer(len)) by {
                    assert((len & 0xC0) == 0xC0 ==> len >= 0xC0) by (bit_vector);
                }
                if pos + 1 >= BUFFER_SIZE {
                    assert(name_walk(b, pos as int, jumps_performed as int) == Err::<
                        (Seq<Seq<u8>>, int),
                        DecodeError,
                    >(DecodeError::OutOfBounds));
                }
                let len_second = self.get(pos + 1)?;
                if !jumped {
                    self.seek(pos + 2)?;
                }
                let offset = (((len as u16) ^ 0xC0) << 8) | (len_second as u16);
                assert(offset == pointer_target(len, len_second)) by {
                    assert(len >= 0xC0 ==> (((len as u16) ^ 0xC0u16) << 8u16) | (len_second as u16)
                        == ((len as u16) - 0xC0u16) * 0x100u16 + (len_second as u16))
                        by (bit_vector);
                    assert(((len as u16) - 0xC0u16) * 0x100u16 + (len_second as u16) <= 0x3FFF);
                }
                pos = offset as usize;
                jumped = true;
                jumps_performed = jumps_performed + 1;
            } else {
                assert(!is_pointer(len)) by {
                    assert(len >= 0xC0 ==> (len & 0xC0) == 0xC0) by (bit_vector);
                }
                pos = pos + 1;
                if len == 0 {
                    if !jumped {
                        self.seek(pos)?;
                    }
                    proof {
                        assert(emitted + Seq::<Seq<u8>>::empty() =~= emitted);
                    }
                    return Ok(());
                }
                outstring.append(delimiter);
                let label = self.get_range(pos, len as usize)?;
                let ghost l = label@;
                let text = lowercase(text_from_bytes(label).as_str());
                outstring.append(text.as_str());
                proof {
                    let next = emitted.push(l);
                    assert(next.drop_last() =~= emitted);
                    assert(name_text(next) == if emitted.len() == 0 {
                        label_text(l)
                    } else {
                        name_text(emitted) + seq!['.'] + label_text(l)
                    });
                    assert(outstring@ =~= old(outstring)@ + name_text(next));
                    match name_walk(b, pos + len as int, jumps_performed as int) {
                        Ok((labels, end)) => {
                            assert(emitted + (seq![l] + labels) =~= next + labels);
                        },
                        Err(_) => {},
                    }
                    emitted = next;
                }
                delimiter = ".";
                proof {
                    reveal_strlit(".");
                }
                pos = pos + len as usize;
            }
        }
    }
}

} // verus!
