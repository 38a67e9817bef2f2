use vstd::prelude::*;

use crate::buffer::{BytePacketBuffer, BUFFER_SIZE};
use crate::error::DecodeError;
use crate::header::{empty_header, header_from, DnsHeader, HEADER_SIZE};
use crate::question::{question_at, DnsQuestion, QueryType, QuestionView};
use crate::record::{record_at, DnsRecord, RecordView};

verus! {

/// The `n` questions that follow one another from `pos` in message `b`, and
/// the offset just past the last.
pub open spec fn questions_at(b: Seq<u8>, pos: int, n: nat) -> Result<
    (Seq<QuestionView>, int),
    DecodeError,
>
    decreases n,
{
    if n == 0 {
        Ok((Seq::empty(), pos))
    } else {
        match questions_at(b, pos, (n - 1) as nat) {
            Ok((qs, p)) => match question_at(b, p) {
                Ok((q, end)) => Ok((qs.push(q), end)),
                Err(e) => Err(e),
            },
            Err(e) => Err(e),
        }
    }
}

/// The `n` resource records that follow one another from `pos` in message
/// `b`, and the offset just past the last.
pub open spec fn records_at(b: Seq<u8>, pos: int, n: nat) -> Result<
    (Seq<RecordView>, int),
    DecodeError,
>
    decreases n,
{
    if n == 0 {
        Ok((Seq::empty(), pos))
    } else {
        match records_at(b, pos, (n - 1) as nat) {
            Ok((rs, p)) => match record_at(b, p) {
                Ok((r, end)) => Ok((rs.push(r), end)),
                Err(e) => Err(e),
            },
            Err(e) => Err(e),
        }
    }
}

/// What a message says.
pub struct PacketView {
    pub header: DnsHeader,
    pub questions: Seq<QuestionView>,
    pub answers: Seq<RecordView>,
    pub authorities: Seq<RecordView>,
    pub resources: Seq<RecordView>,
}

/// The message at `pos` in `b`, and the offset just past it: a header, then
/// as many questions, answers, authority records and additional records as
/// the header counts, in that order.
pub open spec fn packet_at(b: Seq<u8>, pos: int) -> Result<(PacketView, int), DecodeError> {
    if pos + HEADER_SIZE > BUFFER_SIZE {
        Err(DecodeError::OutOfBounds)
    } else {
        let header = header_from(b, pos);
        let questions = questions_at(b, pos + HEADER_SIZE, header.questions as nat);
        if questions is Err {
            Err(questions->Err_0)
        } else {
            let (questions, after_questions) = questions->Ok_0;
            let answers = records_at(b, after_questions, header.answers as nat);
            if answers is Err {
                Err(answers->Err_0)
            } else {
                let (answers, after_answers) = answers->Ok_0;
                let authorities = records_at(
                    b,
                    after_answers,
                    header.authoritative_entries as nat,
                );
                if authorities is Err {
                    Err(authorities->Err_0)
                } else {
                    let (authorities, after_authorities) = authorities->Ok_0;
                    let resources = records_at(
                        b,
                        after_authorities,
                        header.resource_entries as nat,
                    );
                    if resources is Err {
                        Err(resources->Err_0)
                    } else {
                        let (resources, end) = resources->Ok_0;
                        Ok(
                            (
                                PacketView {
                                    header,
                                    questions,
                                    answers,
                                    authorities,
                                    resources,
                                },
                                end,
                            ),
                        )
                    }
                }
            }
        }
    }
}

/// A decoded message.
#[derive(Clone, Debug)]
pub struct DnsPacket {
    pub header: DnsHeader,
    pub questions: Vec<DnsQuestion>,
    pub answers: Vec<DnsRecord>,
    pub authorities: Vec<DnsRecord>,
    pub resources: Vec<DnsRecord>,
}

/// The views of a sequence of records.
pub open spec fn record_views(v: Seq<DnsRecord>) -> Seq<RecordView> {
    v.map_values(|r: DnsRecord| r@)
}

/// The views of a sequence of questions.
pub open spec fn question_views(v: Seq<DnsQuestion>) -> Seq<QuestionView> {
    v.map_values(|q: DnsQuestion| q@)
}

impl View for DnsPacket {
    type V = PacketView;

    open spec fn view(&self) -> PacketView {
        PacketView {
            header: self.header,
            questions: question_views(self.questions@),
            answers: record_views(self.answers@),
            authorities: record_views(self.authorities@),
            resources: record_views(self.resources@),
        }
    }
}

/// Once a sequence decode fails, decoding more items fails the same way.
proof fn lemma_questions_err(b: Seq<u8>, pos: int, i: nat, n: nat)
    requires
        i <= n,
        questions_at(b, pos, i) is Err,
    ensures
        questions_at(b, pos, n) == questions_at(b, pos, i),
    decreases n - i,
{
    if i < n {
        lemma_questions_err(b, pos, i, (n - 1) as nat);
    }
}

/// Once a sequence decode fails, decoding more items fails the same way.
proof fn lemma_records_err(b: Seq<u8>, pos: int, i: nat, n: nat)
    requires
        i <= n,
        records_at(b, pos, i) is Err,
    ensures
        records_at(b, pos, n) == records_at(b, pos, i),
    decreases n - i,
{
    if i < n {
        lemma_records_err(b, pos, i, (n - 1) as nat);
    }
}

/// A successful sequence decode yields exactly as many items as asked for.
pub proof fn lemma_records_len(b: Seq<u8>, pos: int, n: nat)
    requires
        records_at(b, pos, n) is Ok,
    ensures
        records_at(b, pos, n)->Ok_0.0.len() == n,
    decreases n,
{
    if n > 0 {
        lemma_records_len(b, pos, (n - 1) as nat);
    }
}

/// A successful sequence decode yields exactly as many items as asked for.
pub proof fn lemma_questions_len(b: Seq<u8>, pos: int, n: nat)
    requires
        questions_at(b, pos, n) is Ok,
    ensures
        questions_at(b, pos, n)->Ok_0.0.len() == n,
    decreases n,
{
    if n > 0 {
        lemma_questions_len(b, pos, (n - 1) as nat);
    }
}

/// Decodes `count` records from the cursor on, appending them to `out`.
fn read_records(buffer: &mut BytePacketBuffer, count: u16, out: &mut Vec<DnsRecord>) -> (r: Result<
    (),
    DecodeError,
>)
    requires
        old(out)@.len() == 0,
    ensures
        final(buffer).buffer == old(buffer).buffer,
        match records_at(old(buffer).buffer@, old(buffer).position as int, count as nat) {
            Ok((rs, end)) => {
                &&& r is Ok
                &&& record_views(final(out)@) == rs
                &&& final(buffer).position == end
            },
            Err(e) => r == Err::<(), DecodeError>(e),
        },
{
    let ghost b = buffer.buffer@;
    let ghost start = buffer.position as int;
    let mut i: u16 = 0;
    assert(record_views(out@) =~= Seq::<RecordView>::empty());
    while i < count
        invariant
            buffer.buffer == old(buffer).buffer,
            b == old(buffer).buffer@,
            start == old(buffer).position,
            i <= count,
            records_at(b, start, i as nat) == Ok::<(Seq<RecordView>, int), DecodeError>(
                (record_views(out@), buffer.position as int),
            ),
        decreases count - i,
    {
        let ghost before = out@;
        match DnsRecord::read(buffer) {
            Ok(record) => {
                out.push(record);
                proof {
                    assert(record_views(out@) =~= record_views(before).push(record@));
                }
            },
            Err(e) => {
                proof {
                    lemma_records_err(b, start, (i + 1) as nat, count as nat);
                }
                return Err(e);
            },
        }
        i = i + 1;
    }
    Ok(())
}

impl DnsPacket {
    /// A message with an empty header and no records.
    pub fn new() -> (r: DnsPacket)
        ensures
            r.header == empty_header(),
            r.questions@.len() == 0,
            r.answers@.len() == 0,
            r.authorities@.len() == 0,
            r.resources@.len() == 0,
    {
        DnsPacket {
            header: DnsHeader::new(),
            questions: Vec::new(),
            answers: Vec::new(),
            authorities: Vec::new(),
            resources: Vec::new(),
        }
    }

    /// Decodes the message at the cursor. Any failure aborts the whole
    /// decode; on success every section holds as many entries as the header
    /// counts.
    pub fn from_buffer(buffer: &mut BytePacketBuffer) -> (r: Result<DnsPacket, DecodeError>)
        ensures
            final(buffer).buffer == old(buffer).buffer,
            match packet_at(old(buffer).buffer@, old(buffer).position as int) {
                Ok((packet, end)) => {
                    &&& r is Ok
                    &&& r->Ok_0@ == packet
                    &&& final(buffer).position == end
                },
                Err(e) => r == Err::<DnsPacket, DecodeError>(e),
            },
            r is Ok ==> {
                let p = r->Ok_0;
                &&& p.questions@.len() == p.header.questions
                &&& p.answers@.len() == p.header.answers
                &&& p.authorities@.len() == p.header.authoritative_entries
                &&& p.resources@.len() == p.header.resource_entries
            },
    {
        let ghost b = buffer.buffer@;
        let ghost start = buffer.position as int;
        let mut result = DnsPacket::new();

        result.header.read(buffer)?;

        let ghost qstart = buffer.position as int;
        let mut i: u16 = 0;
        assert(question_views(result.questions@) =~= Seq::<QuestionView>::empty());
        while i < result.header.questions
            invariant
                buffer.buffer == old(buffer).buffer,
                b == old(buffer).buffer@,
                start == old(buffer).position,
                start + HEADER_SIZE <= BUFFER_SIZE,
                result.header == header_from(b, start),
                qstart == start + HEADER_SIZE,
                i <= result.header.questions,
                result.answers@.len() == 0,
                result.authorities@.len() == 0,
                result.resources@.len() == 0,
                questions_at(b, qstart, i as nat) == Ok::<(Seq<QuestionView>, int), DecodeError>(
                    (question_views(result.questions@), buffer.position as int),
                ),
            decreases result.header.questions - i,
        {
            let mut question = DnsQuestion::new(String::new(), QueryType::UNKNOWN(0));
            let ghost before = result.questions@;
            match question.read(buffer) {
                Ok(()) => {
                    proof {
                        assert(question.name@ =~= Seq::<char>::empty() + question.name@);
                    }
                    result.questions.push(question);
                    proof {
                        assert(question_views(result.questions@) =~= question_views(before).push(
                            question@,
                        ));
                    }
                },
                Err(e) => {
                    proof {
                        lemma_questions_err(b, qstart, (i + 1) as nat, result.header.questions as nat);
                    }
                    return Err(e);
                },
            }
            i = i + 1;
        }

        read_records(buffer, result.header.answers, &mut result.answers)?;
        read_records(buffer, result.header.authoritative_entries, &mut result.authorities)?;
        read_records(buffer, result.header.resource_entries, &mut result.resources)?;

        proof {
            let h = result.header;
            let (_, after_questions) = questions_at(b, qstart, h.questions as nat)->Ok_0;
            lemma_questions_len(b, qstart, h.questions as nat);
            lemma_records_len(b, after_questions, h.answers as nat);
            let (_, after_answers) = records_at(b, after_questions, h.answers as nat)->Ok_0;
            lemma_records_len(b, after_answers, h.authoritative_entries as nat);
            let (_, after_authorities) = records_at(
                b,
                after_answers,
                h.authoritative_entries as nat,
            )->Ok_0;
            lemma_records_len(b, after_authorities, h.resource_entries as nat);
        }
        Ok(result)
    }
}

} // verus!
