use vstd::prelude::*;

use crate::buffer::BUFFER_SIZE;
use crate::error::DecodeError;
use crate::name::{is_pointer, name_at, name_walk, pointer_target, MAX_JUMPS};
use crate::question::{query_code, query_type_of, QueryType};
use crate::text::name_text;

verus! {

/// The wire form of a name written as plain labels, with no pointer: each
/// label's length byte and bytes, then a zero byte.
pub open spec fn encode_labels(labels: Seq<Seq<u8>>) -> Seq<u8>
    decreases labels.len(),
{
    if labels.len() == 0 {
        seq![0u8]
    } else {
        seq![labels[0].len() as u8] + labels[0] + encode_labels(labels.drop_first())
    }
}

/// Every label is between 1 and 63 bytes long.
pub open spec fn valid_labels(labels: Seq<Seq<u8>>) -> bool {
    forall|i: int| 0 <= i < labels.len() ==> 1 <= #[trigger] labels[i].len() <= 63
}

/// `b` holds the plain labels `labels` at `pos`, within the buffer.
pub open spec fn holds_plain_name(b: Seq<u8>, pos: int, labels: Seq<Seq<u8>>) -> bool {
    &&& valid_labels(labels)
    &&& 0 <= pos
    &&& pos + encode_labels(labels).len() <= BUFFER_SIZE
    &&& b.subrange(pos, pos + encode_labels(labels).len()) == encode_labels(labels)
}

/// The positions `ps[0]`, ..., `ps[k]` form a chain of `k` pointers: each
/// but the last holds a pointer to the next.
pub open spec fn pointer_chain(b: Seq<u8>, ps: Seq<int>) -> bool {
    forall|i: int|
        0 <= i < ps.len() - 1 ==> {
            &&& 0 <= #[trigger] ps[i]
            &&& ps[i] + 1 < BUFFER_SIZE
            &&& is_pointer(b[ps[i]])
            &&& pointer_target(b[ps[i]], b[ps[i] + 1]) == ps[i + 1]
        }
}

proof fn lemma_plain_walk(b: Seq<u8>, pos: int, labels: Seq<Seq<u8>>, jumps: int)
    requires
        b.len() == BUFFER_SIZE,
        holds_plain_name(b, pos, labels),
        0 <= jumps <= MAX_JUMPS,
    ensures
        name_walk(b, pos, jumps) == Ok::<(Seq<Seq<u8>>, int), DecodeError>(
            (labels, pos + encode_labels(labels).len()),
        ),
    decreases labels.len(),
{
    let enc = encode_labels(labels);
    assert(b[pos] == b.subrange(pos, pos + enc.len())[0]);
    if labels.len() > 0 {
        let l = labels[0];
        let len = l.len();
        let rest = labels.drop_first();
        let next = pos + 1 + len;
        assert(1 <= labels[0].len() <= 63);
        assert(b[pos] == len);
        assert(b.subrange(pos + 1, next) =~= l) by {
            assert forall|k: int| 0 <= k < len implies b.subrange(pos + 1, next)[k] == l[k] by {
                assert(b.subrange(pos, pos + enc.len())[1 + k] == enc[1 + k]);
            }
        }
        assert(b.subrange(next, next + encode_labels(rest).len()) =~= encode_labels(rest)) by {
            assert forall|k: int| 0 <= k < encode_labels(rest).len() implies b.subrange(
                next,
                next + encode_labels(rest).len(),
            )[k] == encode_labels(rest)[k] by {
                assert(b.subrange(pos, pos + enc.len())[1 + len + k] == enc[1 + len + k]);
            }
        }
        assert(valid_labels(rest)) by {
            assert forall|i: int| 0 <= i < rest.len() implies 1 <= #[trigger] rest[i].len() <= 63 by {
                assert(rest[i] == labels[i + 1]);
            }
        }
        lemma_plain_walk(b, next, rest, jumps);
        assert(seq![l] + rest =~= labels);
        assert(b.subrange(pos + 1, pos + 1 + b[pos]) == l);
    } else {
        assert(labels =~= Seq::<Seq<u8>>::empty());
    }
}

/// A name written as plain labels, with no pointer, decodes to its labels'
/// texts joined by dots, and ends just past its zero byte.
pub proof fn lemma_plain_name(b: Seq<u8>, pos: int, labels: Seq<Seq<u8>>)
    requires
        b.len() == BUFFER_SIZE,
        holds_plain_name(b, pos, labels),
    ensures
        name_at(b, pos) == Ok::<(Seq<char>, int), DecodeError>(
            (name_text(labels), pos + encode_labels(labels).len()),
        ),
{
    lemma_plain_walk(b, pos, labels, 0);
}

/// A name that decodes having spent one more jump decodes the same having
/// spent fewer.
proof fn lemma_walk_spare_jump(b: Seq<u8>, pos: int, jumps: int)
    requires
        0 <= jumps,
        name_walk(b, pos, jumps + 1) is Ok,
    ensures
        name_walk(b, pos, jumps) == name_walk(b, pos, jumps + 1),
    decreases MAX_JUMPS + 1 - jumps, BUFFER_SIZE - pos,
{
    if 0 <= pos < BUFFER_SIZE && jumps + 1 <= MAX_JUMPS {
        if is_pointer(b[pos]) {
            if pos + 1 < BUFFER_SIZE {
                lemma_walk_spare_jump(b, pointer_target(b[pos], b[pos + 1]), jumps + 1);
            }
        } else if b[pos] != 0 && pos + 1 + b[pos] <= BUFFER_SIZE {
            lemma_walk_spare_jump(b, pos + 1 + b[pos], jumps);
        }
    }
}

/// A name that is a lone pointer decodes to the text of the name it points
/// to, provided that name decodes with one jump spent, and ends just past
/// the two pointer bytes.
pub proof fn lemma_pointer_name(b: Seq<u8>, pos: int)
    requires
        b.len() == BUFFER_SIZE,
        0 <= pos,
        pos + 1 < BUFFER_SIZE,
        is_pointer(b[pos]),
        name_walk(b, pointer_target(b[pos], b[pos + 1]), 1) is Ok,
    ensures
        name_at(b, pointer_target(b[pos], b[pos + 1])) is Ok,
        name_at(b, pos) == Ok::<(Seq<char>, int), DecodeError>(
            (name_at(b, pointer_target(b[pos], b[pos + 1]))->Ok_0.0, pos + 2),
        ),
{
    lemma_walk_spare_jump(b, pointer_target(b[pos], b[pos + 1]), 0);
}

proof fn lemma_chain_walk_over(b: Seq<u8>, ps: Seq<int>, i: int)
    requires
        pointer_chain(b, ps),
        ps.len() > MAX_JUMPS + 1,
        0 <= i <= MAX_JUMPS + 1,
    ensures
        name_walk(b, ps[i], i) == Err::<(Seq<Seq<u8>>, int), DecodeError>(
            DecodeError::CompressionLoopLimitExceeded,
        ),
    decreases MAX_JUMPS + 1 - i,
{
    if i <= MAX_JUMPS {
        assert(0 <= ps[i]);
        lemma_chain_walk_over(b, ps, i + 1);
    }
}

/// A chain of more pointers than the limit allows fails to decode, whatever
/// it leads to, cycles included.
pub proof fn lemma_chain_over_limit(b: Seq<u8>, ps: Seq<int>)
    requires
        b.len() == BUFFER_SIZE,
        ps.len() > MAX_JUMPS + 1,
        pointer_chain(b, ps),
    ensures
        name_at(b, ps[0]) == Err::<(Seq<char>, int), DecodeError>(
            DecodeError::CompressionLoopLimitExceeded,
        ),
{
    lemma_chain_walk_over(b, ps, 0);
}

proof fn lemma_chain_walk_within(b: Seq<u8>, ps: Seq<int>, labels: Seq<Seq<u8>>, i: int)
    requires
        b.len() == BUFFER_SIZE,
        2 <= ps.len() <= MAX_JUMPS + 1,
        pointer_chain(b, ps),
        holds_plain_name(b, ps.last(), labels),
        0 <= i < ps.len() - 1,
    ensures
        name_walk(b, ps[i], i) == Ok::<(Seq<Seq<u8>>, int), DecodeError>((labels, ps[i] + 2)),
    decreases ps.len() - i,
{
    assert(0 <= ps[i]);
    if i + 1 < ps.len() - 1 {
        lemma_chain_walk_within(b, ps, labels, i + 1);
    } else {
        lemma_plain_walk(b, ps.last(), labels, i + 1);
    }
}

/// A chain of one up to as many pointers as the limit allows, ending at a
/// name written as plain labels, decodes to that name's text and ends just
/// past the first pointer.
pub proof fn lemma_chain_within_limit(b: Seq<u8>, ps: Seq<int>, labels: Seq<Seq<u8>>)
    requires
        b.len() == BUFFER_SIZE,
        2 <= ps.len() <= MAX_JUMPS + 1,
        pointer_chain(b, ps),
        holds_plain_name(b, ps.last(), labels),
    ensures
        name_at(b, ps[0]) == Ok::<(Seq<char>, int), DecodeError>(
            (name_text(labels), ps[0] + 2),
        ),
{
    lemma_chain_walk_within(b, ps, labels, 0);
}

/// A code converted to a query type and back is the same code, and a named
/// query type converted to its code and back is the same type.
pub proof fn lemma_query_type_round_trip(num: u16)
    ensures
        query_code(query_type_of(num)) == num,
        query_type_of(query_code(QueryType::A)) == QueryType::A,
{
}

} // verus!
