use vstd::prelude::*;

use crate::buffer::{be16, BytePacketBuffer, BUFFER_SIZE};
use crate::error::DecodeError;
use crate::name::name_at;

verus! {

/// The type of a query or a record: the types this decoder knows by name,
/// and the raw code of any other.
#[allow(non_camel_case_types)]
#[derive(PartialEq, Eq, Debug, Clone, Hash, Copy, Structural)]
pub enum QueryType {
    UNKNOWN(u16),
    /// An IPv4 address record, code 1.
    A,
}

/// The query type a code stands for.
pub open spec fn query_type_of(num: u16) -> QueryType {
    if num == 1 {
        QueryType::A
    } else {
        QueryType::UNKNOWN(num)
    }
}

/// The code of a query type.
pub open spec fn query_code(t: QueryType) -> u16 {
    match t {
        QueryType::UNKNOWN(x) => x,
        QueryType::A => 1,
    }
}

impl QueryType {
    pub fn to_num(&self) -> (r: u16)
        ensures
            r == query_code(*self),
    {
        match *self {
            QueryType::UNKNOWN(x) => x,
            QueryType::A => 1,
        }
    }

    pub fn from_num(num: u16) -> (r: QueryType)
        ensures
            r == query_type_of(num),
    {
        match num {
            1 => QueryType::A,
            _ => QueryType::UNKNOWN(num),
        }
    }
}

/// What a question says: the text of its domain name and its query type.
pub struct QuestionView {
    pub name: Seq<char>,
    pub qtype: QueryType,
}

/// The question at `pos` in message `b`, and the offset just past it: a
/// domain name, a type code and a class code, which is not kept.
pub open spec fn question_at(b: Seq<u8>, pos: int) -> Result<(QuestionView, int), DecodeError> {
    match name_at(b, pos) {
        Ok((name, end)) => if end + 4 <= BUFFER_SIZE {
            Ok((QuestionView { name, qtype: query_type_of(be16(b, end)) }, end + 4))
        } else {
            Err(DecodeError::OutOfBounds)
        },
        Err(e) => Err(e),
    }
}

/// A question of a message.
#[derive(Debug, Clone, PartialEq, Eq)]
pub struct DnsQuestion {
    pub name: String,
    pub qtype: QueryType,
}

impl View for DnsQuestion {
    type V = QuestionView;

    open spec fn view(&self) -> QuestionView {
        QuestionView { name: self.name@, qtype: self.qtype }
    }
}

impl DnsQuestion {
    pub fn new(name: String, qtype: QueryType) -> (r: DnsQuestion)
        ensures
            r.name@ == name@,
            r.qtype == qtype,
    {
        DnsQuestion { name: name, qtype: qtype }
    }

    /// Decodes the question at the cursor into `self`, appending the domain
    /// name's text to `self.name`, and moves the cursor past it.
    pub fn read(&mut self, buffer: &mut BytePacketBuffer) -> (r: Result<(), DecodeError>)
        ensures
            final(buffer).buffer == old(buffer).buffer,
            match question_at(old(buffer).buffer@, old(buffer).position as int) {
                Ok((q, end)) => {
                    &&& r is Ok
                    &&& final(self).name@ == old(self).name@ + q.name
                    &&& final(self).qtype == q.qtype
                    &&& final(buffer).position == end
                },
                Err(e) => r == Err::<(), DecodeError>(e),
            },
    {
        buffer.read_q_name(&mut self.name)?;
        self.qtype = QueryType::from_num(buffer.read_u16()?);
        let _ = buffer.read_u16()?;

        Ok(())
    }
}

} // verus!
