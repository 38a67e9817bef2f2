use vstd::prelude::*;

use crate::buffer::{be16, be32, BytePacketBuffer, BUFFER_SIZE};
use crate::error::DecodeError;
use crate::name::name_at;
use crate::question::{query_type_of, QueryType};

verus! {

/// A resource record of a message.
#[allow(non_camel_case_types)]
#[derive(Debug, Clone, PartialEq, Eq, Hash, PartialOrd, Ord)]
pub enum DnsRecord {
    /// A record of a type this decoder does not know; its data is skipped.
    UNKNOWN { domain: String, qtype: u16, data_len: u16, ttl: u32 },
    /// An IPv4 address record; `address` holds the four octets in order.
    A { domain: String, address: [u8; 4], ttl: u32 },
}

/// What a resource record says.
#[allow(non_camel_case_types)]
pub enum RecordView {
    UNKNOWN { domain: Seq<char>, qtype: u16, data_len: u16, ttl: u32 },
    A { domain: Seq<char>, address: Seq<u8>, ttl: u32 },
}

impl View for DnsRecord {
    type V = RecordView;

    open spec fn view(&self) -> RecordView {
        match self {
            DnsRecord::UNKNOWN { domain, qtype, data_len, ttl } => RecordView::UNKNOWN {
                domain: domain@,
                qtype: *qtype,
                data_len: *data_len,
                ttl: *ttl,
            },
            DnsRecord::A { domain, address, ttl } => RecordView::A {
                domain: domain@,
                address: address@,
                ttl: *ttl,
            },
        }
    }
}

/// The number of bytes between a record's domain name and its data: type,
/// class, time to live and data length.
pub const RECORD_FIXED_SIZE: usize = 10;

/// The resource record at `pos` in message `b`, and the offset just past it:
/// a domain name, a type code, a class code (not kept), a time to live, a
/// data length and the data. An address record's data is its four octets
/// (the data length is not consulted); any other record's data is skipped.
pub open spec fn record_at(b: Seq<u8>, pos: int) -> Result<(RecordView, int), DecodeError> {
    match name_at(b, pos) {
        Ok((domain, p)) => if p + RECORD_FIXED_SIZE > BUFFER_SIZE {
            Err(DecodeError::OutOfBounds)
        } else {
            let code = be16(b, p);
            let ttl = be32(b, p + 4);
            let data_len = be16(b, p + 8);
            let data = p + RECORD_FIXED_SIZE;
            if query_type_of(code) == QueryType::A {
                if data + 4 > BUFFER_SIZE {
                    Err(DecodeError::OutOfBounds)
                } else {
                    Ok((RecordView::A { domain, address: b.subrange(data, data + 4), ttl }, data + 4))
                }
            } else if data + data_len > BUFFER_SIZE {
                Err(DecodeError::OutOfBounds)
            } else {
                Ok((RecordView::UNKNOWN { domain, qtype: code, data_len, ttl }, data + data_len))
            }
        },
        Err(e) => Err(e),
    }
}

impl DnsRecord {
    /// Decodes the resource record at the cursor and moves the cursor past
    /// it.
    pub fn read(buffer: &mut BytePacketBuffer) -> (r: Result<DnsRecord, DecodeError>)
        ensures
            final(buffer).buffer == old(buffer).buffer,
            match record_at(old(buffer).buffer@, old(buffer).position as int) {
                Ok((rec, end)) => r is Ok && r->Ok_0@ == rec && final(buffer).position == end,
                Err(e) => r == Err::<DnsRecord, DecodeError>(e),
            },
    {
        let ghost b = buffer.buffer@;
        let mut domain = String::new();
        buffer.read_q_name(&mut domain)?;
        proof {
            assert(domain@ =~= Seq::<char>::empty() + domain@);
        }

        let qtype_number = buffer.read_u16()?;
        let qtype = QueryType::from_num(qtype_number);
        let _ = buffer.read_u16()?;
        let ttl = buffer.read_u32()?;
        let data_length = buffer.read_u16()?;

        match qtype {
            QueryType::A => {
                let ghost p = buffer.position as int;
                let raw_address = buffer.read_u32()?;
                let address = [
                    ((raw_address >> 24) & 0xFF) as u8,
                    ((raw_address >> 16) & 0xFF) as u8,
                    ((raw_address >> 8) & 0xFF) as u8,
                    (raw_address & 0xFF) as u8,
                ];
                proof {
                    let (x0, x1, x2, x3) = (b[p] as u32, b[p + 1] as u32, b[p + 2] as u32, b[p
                        + 3] as u32);
                    assert(x0 < 0x100 && x1 < 0x100 && x2 < 0x100 && x3 < 0x100);
                    assert(x0 < 0x100 && x1 < 0x100 && x2 < 0x100 && x3 < 0x100 && raw_address
                        == x0 * 0x1000000u32 + x1 * 0x10000u32 + x2 * 0x100u32 + x3 ==> ((
                    raw_address >> 24u32) & 0xFFu32) == x0 && ((raw_address >> 16u32) & 0xFFu32)
                        == x1 && ((raw_address >> 8u32) & 0xFFu32) == x2 && (raw_address
                        & 0xFFu32) == x3) by (bit_vector);
                    assert(address@ =~= b.subrange(p, p + 4));
                }
                Ok(DnsRecord::A { domain: domain, address: address, ttl: ttl })
            },
            QueryType::UNKNOWN(_) => {
                buffer.step(data_length as usize)?;

                Ok(
                    DnsRecord::UNKNOWN {
                        domain: domain,
                        qtype: qtype_number,
                        data_len: data_length,
                        ttl: ttl,
                    },
                )
            },
        }
    }
}

} // verus!
