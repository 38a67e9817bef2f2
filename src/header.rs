use vstd::prelude::*;

use crate::buffer::{be16, BytePacketBuffer, BUFFER_SIZE};
use crate::error::DecodeError;

verus! {

/// The outcome a response reports.
#[allow(non_camel_case_types)]
#[derive(Copy, Clone, Debug, PartialEq, Eq, Structural)]
pub enum ResultCode {
    NOERROR,
    FORMERR,
    SERVFAIL,
    NXDOMAIN,
    NOTIMP,
    REFUSED,
}

/// The result code a number stands for; the numbers without a code of
/// their own read as `NOERROR`.
pub open spec fn result_code_of(num: u8) -> ResultCode {
    if num == 1 {
        ResultCode::FORMERR
    } else if num == 2 {
        ResultCode::SERVFAIL
    } else if num == 3 {
        ResultCode::NXDOMAIN
    } else if num == 4 {
        ResultCode::NOTIMP
    } else if num == 5 {
        ResultCode::REFUSED
    } else {
        ResultCode::NOERROR
    }
}

impl ResultCode {
    pub fn from_num(num: u8) -> (r: ResultCode)
        ensures
            r == result_code_of(num),
    {
        match num {
            1 => ResultCode::FORMERR,
            2 => ResultCode::SERVFAIL,
            3 => ResultCode::NXDOMAIN,
            4 => ResultCode::NOTIMP,
            5 => ResultCode::REFUSED,
            _ => ResultCode::NOERROR,
        }
    }
}

/// The fixed twelve-byte header of a message.
#[derive(Clone, Debug, PartialEq, Eq, Structural)]
pub struct DnsHeader {
    pub id: u16,
    pub recursion_desired: bool,
    pub truncated_message: bool,
    pub authoritative_answer: bool,
    /// Four bits.
    pub opcode: u8,
    pub response: bool,
    /// Four bits on the wire.
    pub result_code: ResultCode,
    pub checking_disabled: bool,
    pub authed_data: bool,
    pub z: bool,
    pub recursion_available: bool,
    pub questions: u16,
    pub answers: u16,
    pub authoritative_entries: u16,
    pub resource_entries: u16,
}

/// The number of bytes a header takes.
pub const HEADER_SIZE: usize = 12;

/// The header whose twelve bytes start at `pos` in message `b`.
pub open spec fn header_from(b: Seq<u8>, pos: int) -> DnsHeader {
    let a = b[pos + 2];
    let c = b[pos + 3];
    DnsHeader {
        id: be16(b, pos),
        recursion_desired: a & 0x01 != 0,
        truncated_message: a & 0x02 != 0,
        authoritative_answer: a & 0x04 != 0,
        opcode: (a >> 3) & 0x0F,
        response: a & 0x80 != 0,
        result_code: result_code_of(c & 0x0F),
        checking_disabled: c & 0x10 != 0,
        authed_data: c & 0x20 != 0,
        z: c & 0x40 != 0,
        recursion_available: c & 0x80 != 0,
        questions: be16(b, pos + 4),
        answers: be16(b, pos + 6),
        authoritative_entries: be16(b, pos + 8),
        resource_entries: be16(b, pos + 10),
    }
}

/// The header with every flag clear and every field zero.
pub open spec fn empty_header() -> DnsHeader {
    DnsHeader {
        id: 0,
        recursion_desired: false,
        truncated_message: false,
        authoritative_answer: false,
        opcode: 0,
        response: false,
        result_code: ResultCode::NOERROR,
        checking_disabled: false,
        authed_data: false,
        z: false,
        recursion_available: false,
        questions: 0,
        answers: 0,
        authoritative_entries: 0,
        resource_entries: 0,
    }
}

impl DnsHeader {
    pub fn new() -> (r: DnsHeader)
        ensures
            r == empty_header(),
    {
        DnsHeader {
            id: 0,
            recursion_desired: false,
            truncated_message: false,
            authoritative_answer: false,
            opcode: 0,
            response: false,
            result_code: ResultCode::NOERROR,
            checking_disabled: false,
            authed_data: false,
            z: false,
            recursion_available: false,
            questions: 0,
            answers: 0,
            authoritative_entries: 0,
            resource_entries: 0,
        }
    }

    /// Decodes the header at the cursor into `self` and moves the cursor
    /// past it.
    pub fn read(&mut self, buffer: &mut BytePacketBuffer) -> (r: Result<(), DecodeError>)
        ensures
            final(buffer).buffer == old(buffer).buffer,
            old(buffer).position + HEADER_SIZE <= BUFFER_SIZE ==> {
                &&& r is Ok
                &&& *final(self) == header_from(old(buffer).buffer@, old(buffer).position as int)
                &&& final(buffer).position == old(buffer).position + HEADER_SIZE
            },
            old(buffer).position + HEADER_SIZE > BUFFER_SIZE ==> r == Err::<(), DecodeError>(
                DecodeError::OutOfBounds,
            ),
    {
        let ghost b = buffer.buffer@;
        let ghost pos = buffer.position as int;
        self.id = buffer.read_u16()?;

        let flags = buffer.read_u16()?;
        let a = (flags >> 8) as u8;
        let c = (flags & 0xFF) as u8;
        assert(a == b[pos + 2] && c == b[pos + 3]) by {
            let (hi, lo) = (b[pos + 2] as u16, b[pos + 3] as u16);
            assert(hi < 0x100 && lo < 0x100);
            assert(hi < 0x100 && lo < 0x100 && flags == hi * 0x100 + lo ==> (flags >> 8u16) == hi
                && (flags & 0xFFu16) == lo) by (bit_vector);
        }

        self.recursion_desired = (a & 0x01) != 0;
        self.truncated_message = (a & 0x02) != 0;
        self.authoritative_answer = (a & 0x04) != 0;
        self.opcode = (a >> 3) & 0x0F;
        self.response = (a & 0x80) != 0;

        self.result_code = ResultCode::from_num(c & 0x0F);
        self.checking_disabled = (c & 0x10) != 0;
        self.authed_data = (c & 0x20) != 0;
        self.z = (c & 0x40) != 0;
        self.recursion_available = (c & 0x80) != 0;

        self.questions = buffer.read_u16()?;
        self.answers = buffer.read_u16()?;
        self.authoritative_entries = buffer.read_u16()?;
        self.resource_entries = buffer.read_u16()?;

        Ok(())
    }
}

} // verus!
