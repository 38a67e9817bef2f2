use dns_decoder::{
    BytePacketBuffer, DecodeError, DnsHeader, DnsPacket, DnsQuestion, DnsRecord, QueryType,
    ResultCode,
};

fn buffer_with(at: usize, bytes: &[u8]) -> BytePacketBuffer {
    let mut buffer = BytePacketBuffer::new();
    buffer.buffer[at..at + bytes.len()].copy_from_slice(bytes);
    buffer
}

fn read_name(buffer: &mut BytePacketBuffer) -> Result<String, DecodeError> {
    let mut name = String::new();
    buffer.read_q_name(&mut name)?;
    Ok(name)
}

#[test]
fn new_buffer_is_zeroed_at_start() {
    let buffer = BytePacketBuffer::new();
    assert_eq!(buffer.pos(), 0);
    assert!(buffer.buffer.iter().all(|&b| b == 0));
}

#[test]
fn read_u16_then_u32_big_endian() {
    let mut buffer = buffer_with(0, &[0x00, 0x01, 0x00, 0x00, 0x00, 0x02]);
    assert_eq!(buffer.read_u16(), Ok(1));
    assert_eq!(buffer.read_u32(), Ok(2));
    assert_eq!(buffer.pos(), 6);
}

#[test]
fn read_u16_combines_high_and_low() {
    let mut buffer = buffer_with(0, &[0x13, 0x14, 0xde, 0xad, 0xbe, 0xef]);
    assert_eq!(buffer.read_u16(), Ok(0x1314));
    assert_eq!(buffer.read_u32(), Ok(0xdeadbeef));
}

#[test]
fn read_at_end_is_out_of_bounds() {
    let mut buffer = buffer_with(511, &[7]);
    buffer.position = 511;
    assert_eq!(buffer.read(), Ok(7));
    assert_eq!(buffer.pos(), 512);
    assert_eq!(buffer.read(), Err(DecodeError::OutOfBounds));
    buffer.position = 511;
    assert_eq!(buffer.read_u16(), Err(DecodeError::OutOfBounds));
    buffer.position = 509;
    assert_eq!(buffer.read_u32(), Err(DecodeError::OutOfBounds));
}

#[test]
fn get_does_not_move_cursor() {
    let mut buffer = buffer_with(100, &[42]);
    assert_eq!(buffer.get(100), Ok(42));
    assert_eq!(buffer.pos(), 0);
    assert_eq!(buffer.get(512), Err(DecodeError::OutOfBounds));
}

#[test]
fn get_range_bounds() {
    let buffer = buffer_with(508, &[1, 2, 3, 4]);
    assert_eq!(buffer.get_range(508, 4), Ok(&[1u8, 2, 3, 4][..]));
    assert_eq!(buffer.get_range(509, 4), Err(DecodeError::OutOfBounds));
    assert_eq!(buffer.get_range(0, 0), Ok(&[][..]));
}

#[test]
fn step_and_seek_stay_within_buffer() {
    let mut buffer = BytePacketBuffer::new();
    assert_eq!(buffer.step(500), Ok(()));
    assert_eq!(buffer.pos(), 500);
    assert_eq!(buffer.step(12), Ok(()));
    assert_eq!(buffer.pos(), 512);
    assert_eq!(buffer.step(1), Err(DecodeError::OutOfBounds));
    assert_eq!(buffer.pos(), 512);
    assert_eq!(buffer.seek(3), Ok(()));
    assert_eq!(buffer.pos(), 3);
    assert_eq!(buffer.seek(513), Err(DecodeError::OutOfBounds));
    assert_eq!(buffer.pos(), 3);
    assert_eq!(buffer.step(usize::MAX), Err(DecodeError::OutOfBounds));
}

#[test]
fn plain_name_is_lowercased_and_dot_joined() {
    let mut buffer = buffer_with(
        5,
        &[3, b'W', b'W', b'W', 7, b'E', b'x', b'a', b'm', b'p', b'l', b'e', 3, b'C', b'O', b'M', 0],
    );
    buffer.position = 5;
    assert_eq!(read_name(&mut buffer), Ok("www.example.com".to_string()));
    assert_eq!(buffer.pos(), 22);
}

#[test]
fn empty_name_reads_only_its_zero_byte() {
    let mut buffer = BytePacketBuffer::new();
    assert_eq!(read_name(&mut buffer), Ok(String::new()));
    assert_eq!(buffer.pos(), 1);
}

#[test]
fn name_text_is_appended_to_given_string() {
    let mut buffer = buffer_with(0, &[2, b'a', b'b', 1, b'c', 0]);
    let mut name = "x".to_string();
    assert_eq!(buffer.read_q_name(&mut name), Ok(()));
    assert_eq!(name, "xab.c");
}

#[test]
fn invalid_utf8_in_label_is_replaced() {
    let mut buffer = buffer_with(0, &[2, 0xff, b'Q', 0]);
    assert_eq!(read_name(&mut buffer), Ok("\u{fffd}q".to_string()));
}

#[test]
fn pointer_name_decodes_target_and_advances_two() {
    let mut buffer = buffer_with(0, &[3, b'f', b'o', b'o', 3, b'c', b'o', b'm', 0]);
    buffer.buffer[40] = 0xC0;
    buffer.buffer[41] = 0x00;
    let direct = read_name(&mut buffer).unwrap();
    buffer.position = 40;
    assert_eq!(read_name(&mut buffer), Ok(direct));
    assert_eq!(buffer.pos(), 42);
}

#[test]
fn labels_then_pointer_join_the_suffix() {
    let mut buffer = buffer_with(0, &[3, b'c', b'o', b'm', 0]);
    buffer.buffer[20..27].copy_from_slice(&[3, b'W', b'w', b'W', 0xC0, 0x00, 9]);
    buffer.position = 20;
    assert_eq!(read_name(&mut buffer), Ok("www.com".to_string()));
    assert_eq!(buffer.pos(), 26);
}

fn chain_buffer() -> BytePacketBuffer {
    // "a" at 0, then pointers at 10, 12, ..., 20, each to the one before
    let mut buffer = buffer_with(0, &[1, b'a', 0]);
    let mut target = 0u8;
    for at in [10usize, 12, 14, 16, 18, 20] {
        buffer.buffer[at] = 0xC0;
        buffer.buffer[at + 1] = target;
        target = at as u8;
    }
    buffer
}

#[test]
fn chain_of_five_pointers_succeeds() {
    let mut buffer = chain_buffer();
    buffer.position = 18;
    assert_eq!(read_name(&mut buffer), Ok("a".to_string()));
    assert_eq!(buffer.pos(), 20);
}

#[test]
fn chain_of_six_pointers_exceeds_limit() {
    let mut buffer = chain_buffer();
    buffer.position = 20;
    assert_eq!(read_name(&mut buffer), Err(DecodeError::CompressionLoopLimitExceeded));
}

#[test]
fn pointer_cycle_exceeds_limit() {
    let mut buffer = buffer_with(30, &[0xC0, 30]);
    buffer.position = 30;
    assert_eq!(read_name(&mut buffer), Err(DecodeError::CompressionLoopLimitExceeded));
}

#[test]
fn pointer_past_buffer_is_out_of_bounds() {
    let mut buffer = buffer_with(0, &[0xC3, 0xFF]);
    assert_eq!(read_name(&mut buffer), Err(DecodeError::OutOfBounds));
    let mut buffer = buffer_with(511, &[0xC0]);
    buffer.position = 511;
    assert_eq!(read_name(&mut buffer), Err(DecodeError::OutOfBounds));
}

#[test]
fn label_past_buffer_is_out_of_bounds() {
    let mut buffer = buffer_with(505, &[9, b'a']);
    buffer.position = 505;
    assert_eq!(read_name(&mut buffer), Err(DecodeError::OutOfBounds));
}

#[test]
fn label_ending_at_buffer_end_is_read() {
    let mut buffer = buffer_with(508, &[3, b'a', b'b', b'c']);
    buffer.position = 508;
    // the name's zero byte would lie past the end
    assert_eq!(read_name(&mut buffer), Err(DecodeError::OutOfBounds));
    let mut buffer = buffer_with(507, &[3, b'a', b'b', b'c', 0]);
    buffer.position = 507;
    assert_eq!(read_name(&mut buffer), Ok("abc".to_string()));
    assert_eq!(buffer.pos(), 512);
}

#[test]
fn result_code_from_num() {
    assert_eq!(ResultCode::from_num(0), ResultCode::NOERROR);
    assert_eq!(ResultCode::from_num(1), ResultCode::FORMERR);
    assert_eq!(ResultCode::from_num(2), ResultCode::SERVFAIL);
    assert_eq!(ResultCode::from_num(3), ResultCode::NXDOMAIN);
    assert_eq!(ResultCode::from_num(4), ResultCode::NOTIMP);
    assert_eq!(ResultCode::from_num(5), ResultCode::REFUSED);
    for n in 6..=15u8 {
        assert_eq!(ResultCode::from_num(n), ResultCode::NOERROR);
    }
}

#[test]
fn query_type_round_trip() {
    assert_eq!(QueryType::from_num(1), QueryType::A);
    assert_eq!(QueryType::A.to_num(), 1);
    assert_eq!(QueryType::from_num(QueryType::A.to_num()), QueryType::A);
    for n in [0u16, 2, 28, 255, 65535] {
        assert_eq!(QueryType::from_num(n), QueryType::UNKNOWN(n));
        assert_eq!(QueryType::from_num(n).to_num(), n);
    }
}

#[test]
fn header_new_is_empty() {
    let h = DnsHeader::new();
    assert_eq!(h.id, 0);
    assert!(!h.response && !h.recursion_desired && !h.recursion_available);
    assert_eq!(h.result_code, ResultCode::NOERROR);
    assert_eq!((h.questions, h.answers, h.authoritative_entries, h.resource_entries), (0, 0, 0, 0));
}

#[test]
fn header_decode_flags_and_counts() {
    let mut buffer =
        buffer_with(0, &[0x13, 0x14, 0x81, 0x80, 0x00, 0x01, 0x00, 0x01, 0x00, 0x00, 0x00, 0x00]);
    let mut h = DnsHeader::new();
    assert_eq!(h.read(&mut buffer), Ok(()));
    assert_eq!(h.id, 0x1314);
    assert!(h.response);
    assert!(h.recursion_desired);
    assert!(h.recursion_available);
    assert!(!h.truncated_message && !h.authoritative_answer);
    assert!(!h.checking_disabled && !h.authed_data && !h.z);
    assert_eq!(h.opcode, 0);
    assert_eq!(h.result_code, ResultCode::NOERROR);
    assert_eq!(h.questions, 1);
    assert_eq!(h.answers, 1);
    assert_eq!(h.authoritative_entries, 0);
    assert_eq!(h.resource_entries, 0);
    assert_eq!(buffer.pos(), 12);
}

#[test]
fn header_decode_opcode_and_low_flags() {
    // opcode 2, authoritative, truncated; z, authed data, checking disabled, result 3
    let mut buffer =
        buffer_with(0, &[0xff, 0xfe, 0x16, 0x73, 0x01, 0x02, 0x03, 0x04, 0x05, 0x06, 0x07, 0x08]);
    let mut h = DnsHeader::new();
    assert_eq!(h.read(&mut buffer), Ok(()));
    assert_eq!(h.id, 0xfffe);
    assert_eq!(h.opcode, 2);
    assert!(h.authoritative_answer && h.truncated_message);
    assert!(!h.response && !h.recursion_desired && !h.recursion_available);
    assert!(h.z && h.authed_data && h.checking_disabled);
    assert_eq!(h.result_code, ResultCode::NXDOMAIN);
    assert_eq!(
        (h.questions, h.answers, h.authoritative_entries, h.resource_entries),
        (0x0102, 0x0304, 0x0506, 0x0708)
    );
}

#[test]
fn header_past_end_is_out_of_bounds() {
    let mut buffer = BytePacketBuffer::new();
    buffer.position = 501;
    let mut h = DnsHeader::new();
    assert_eq!(h.read(&mut buffer), Err(DecodeError::OutOfBounds));
}

#[test]
fn question_decode() {
    let mut buffer = buffer_with(0, &[2, b'N', b's', 0, 0x00, 0x1c, 0x00, 0x01]);
    let mut q = DnsQuestion::new(String::new(), QueryType::UNKNOWN(0));
    assert_eq!(q.read(&mut buffer), Ok(()));
    assert_eq!(q, DnsQuestion::new("ns".to_string(), QueryType::UNKNOWN(28)));
    assert_eq!(buffer.pos(), 8);
}

#[test]
fn address_record_decodes_octets() {
    let mut buffer = buffer_with(
        0,
        &[
            1, b'a', 0, 0x00, 0x01, 0x00, 0x01, 0x00, 0x00, 0x0e, 0x10, 0x00, 0x04, 0x08, 0x08,
            0x08, 0x08,
        ],
    );
    let record = DnsRecord::read(&mut buffer).unwrap();
    assert_eq!(
        record,
        DnsRecord::A { domain: "a".to_string(), address: [8, 8, 8, 8], ttl: 3600 }
    );
    assert_eq!(buffer.pos(), 17);
}

#[test]
fn unknown_record_skips_its_data() {
    let mut bytes = vec![1, b'b', 0, 0x00, 0x1c, 0x00, 0x01, 0x00, 0x00, 0x00, 0x3c, 0x00, 0x10];
    bytes.extend_from_slice(&[0xaa; 16]);
    let mut buffer = buffer_with(0, &bytes);
    let record = DnsRecord::read(&mut buffer).unwrap();
    assert_eq!(
        record,
        DnsRecord::UNKNOWN { domain: "b".to_string(), qtype: 28, data_len: 16, ttl: 60 }
    );
    assert_eq!(buffer.pos(), 13 + 16);
}

#[test]
fn unknown_record_data_past_end_is_out_of_bounds() {
    let mut buffer = buffer_with(
        490,
        &[0, 0x00, 0x05, 0x00, 0x01, 0x00, 0x00, 0x00, 0x01, 0x00, 0x20],
    );
    buffer.position = 490;
    assert_eq!(DnsRecord::read(&mut buffer), Err(DecodeError::OutOfBounds));
}

fn response_bytes() -> Vec<u8> {
    let mut bytes = vec![0x13, 0x14, 0x81, 0x80, 0x00, 0x01, 0x00, 0x01, 0x00, 0x00, 0x00, 0x00];
    // question: www.google.com, type A, class IN
    bytes.extend_from_slice(&[3, b'w', b'w', b'w', 6, b'g', b'o', b'o', b'g', b'l', b'e']);
    bytes.extend_from_slice(&[3, b'c', b'o', b'm', 0, 0x00, 0x01, 0x00, 0x01]);
    // answer: pointer to the question's name, type A, class IN, ttl 293, 4 bytes
    bytes.extend_from_slice(&[0xC0, 0x0C, 0x00, 0x01, 0x00, 0x01, 0x00, 0x00, 0x01, 0x25]);
    bytes.extend_from_slice(&[0x00, 0x04, 0xac, 0xd9, 0x10, 0xc4]);
    bytes
}

#[test]
fn packet_end_to_end_shares_compressed_name() {
    let bytes = response_bytes();
    let mut buffer = buffer_with(0, &bytes);
    let packet = DnsPacket::from_buffer(&mut buffer).unwrap();
    assert_eq!(packet.header.id, 0x1314);
    assert_eq!(packet.questions.len(), 1);
    assert_eq!(packet.answers.len(), 1);
    assert!(packet.authorities.is_empty());
    assert!(packet.resources.is_empty());
    assert_eq!(packet.questions[0].name, "www.google.com");
    assert_eq!(packet.questions[0].qtype, QueryType::A);
    match &packet.answers[0] {
        DnsRecord::A { domain, address, ttl } => {
            assert_eq!(domain, &packet.questions[0].name);
            assert_eq!(address, &[172, 217, 16, 196]);
            assert_eq!(*ttl, 293);
        }
        other => panic!("expected an address record, got {:?}", other),
    }
    assert_eq!(buffer.pos(), bytes.len());
}

#[test]
fn packet_new_is_empty() {
    let packet = DnsPacket::new();
    assert_eq!(packet.header, DnsHeader::new());
    assert!(packet.questions.is_empty() && packet.answers.is_empty());
    assert!(packet.authorities.is_empty() && packet.resources.is_empty());
}

#[test]
fn packet_with_too_many_entries_fails() {
    let mut buffer = buffer_with(0, &[0, 0, 0, 0, 0xff, 0xff]);
    assert_eq!(DnsPacket::from_buffer(&mut buffer).err(), Some(DecodeError::OutOfBounds));
}

#[test]
fn packet_error_in_answer_aborts_decode() {
    let mut bytes = response_bytes();
    // the answer's name, at 32, now points at itself
    assert_eq!(bytes[32], 0xC0);
    bytes[33] = 32;
    let mut buffer = buffer_with(0, &bytes);
    assert_eq!(
        DnsPacket::from_buffer(&mut buffer).err(),
        Some(DecodeError::CompressionLoopLimitExceeded)
    );
}
