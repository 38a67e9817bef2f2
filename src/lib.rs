//! A decoder for DNS messages in the RFC 1035 wire format.
//!
//! The bytes of a message sit in a fixed-size [`BytePacketBuffer`]; the
//! decoders walk it with a cursor and build the header, the questions and the
//! resource records. Every decoder is stated against a model of the wire
//! format (spec functions over the buffer's bytes) and proved to follow it.

mod buffer;
mod error;
mod header;
mod laws;
mod name;
mod packet;
mod question;
mod record;
mod text;

pub use buffer::{be16, be32, BytePacketBuffer, BUFFER_SIZE};
pub use error::DecodeError;
pub use header::{empty_header, header_from, result_code_of, DnsHeader, ResultCode, HEADER_SIZE};
pub use laws::{
    encode_labels, holds_plain_name, lemma_chain_over_limit, lemma_chain_within_limit,
    lemma_plain_name, lemma_pointer_name, lemma_query_type_round_trip, pointer_chain, valid_labels,
};
pub use name::{is_pointer, name_at, name_walk, pointer_target, MAX_JUMPS};
pub use packet::{
    lemma_questions_len, lemma_records_len, packet_at, question_views, questions_at, record_views,
    records_at, DnsPacket, PacketView,
};
pub use question::{query_code, query_type_of, question_at, DnsQuestion, QueryType, QuestionView};
pub use record::{record_at, DnsRecord, RecordView, RECORD_FIXED_SIZE};
pub use text::{label_text, lossy_of, lower_of, name_text};
