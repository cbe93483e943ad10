//! How queries are written and responses are read, for every host and every packet.
use vstd::prelude::*;
use vstd::utf8::encode_utf8;
use crate::dns::{
    answer_of, answers_from, be16, be32, be_bytes, data_text, encodable_name, hex_rdata,
    host_labels, labels_wire, name_end, name_wire, query_head, query_wire, questions_end,
    record_at, record_type_code, response_answers, shorter, valid_label, AnswerView, DnsError,
    RecordView,
};
use crate::net::{ipv4_text, ipv6_text};
use crate::text::{decimal, hex_pair, join, trim_end_char};
use crate::text_laws::{a_separator_parts_the_pieces, a_text_without_separator_is_one_piece};

verus! {

// ---------------------------------------------------------------------------
// Queries
// ---------------------------------------------------------------------------
/// These three record types can be asked for, by these numbers, and no others.
pub proof fn the_record_types(record_type: Seq<char>)
    ensures
        record_type == "A"@ ==> record_type_code(record_type) == Some(1u16),
        record_type == "AAAA"@ ==> record_type_code(record_type) == Some(28u16),
        record_type == "HTTPS"@ ==> record_type_code(record_type) == Some(65u16),
        record_type_code(record_type) is Some <==> record_type == "A"@ || record_type == "AAAA"@
            || record_type == "HTTPS"@,
{
    reveal_strlit("A");
    reveal_strlit("AAAA");
    reveal_strlit("HTTPS");
    assert("A"@.len() == 1);
    assert("AAAA"@.len() == 4);
    assert("HTTPS"@.len() == 5);
}

/// Full stops at the end of a host name change nothing.
pub proof fn a_final_stop_changes_nothing(host: Seq<char>)
    ensures
        name_wire(host.push('.')) == name_wire(host),
        encodable_name(host.push('.')) == encodable_name(host),
{
    let more = host.push('.');
    assert(more.drop_last() =~= host);
    assert(more.last() == '.');
    assert(trim_end_char(more, '.') == trim_end_char(host, '.'));
    assert(host_labels(more) == host_labels(host));
}

proof fn labels_wire_of_one(label: Seq<char>)
    ensures
        labels_wire(seq![label]) == seq![encode_utf8(label).len() as u8] + encode_utf8(label),
{
    let labels = seq![label];
    assert(labels.drop_last() =~= Seq::empty());
    assert(labels.last() == label);
    assert(labels_wire(labels.drop_last()) =~= Seq::empty());
    assert(labels_wire(labels) =~= seq![encode_utf8(label).len() as u8] + encode_utf8(label));
}

proof fn labels_wire_of_both(a: Seq<Seq<char>>, b: Seq<Seq<char>>)
    ensures
        labels_wire(a + b) == labels_wire(a) + labels_wire(b),
    decreases b.len(),
{
    let both = a + b;
    if b.len() == 0 {
        assert(both =~= a);
        assert(labels_wire(a) + labels_wire(b) =~= labels_wire(a));
    } else {
        labels_wire_of_both(a, b.drop_last());
        assert(both.drop_last() =~= a + b.drop_last());
        assert(both.last() == b.last());
        assert(labels_wire(both) =~= labels_wire(a) + labels_wire(b));
    }
}

proof fn a_closed_name_is_trimmed(s: Seq<char>)
    requires
        s.len() > 0,
        s.last() != '.',
    ensures
        trim_end_char(s, '.') == s,
{
}

/// A name of one label is written as its length, its octets and a zero; it can be written
/// if and only if it has from one to sixty-three octets.
pub proof fn a_label_is_written_behind_its_length(label: Seq<char>)
    requires
        label.len() > 0,
        !label.contains('.'),
    ensures
        name_wire(label) == seq![encode_utf8(label).len() as u8] + encode_utf8(label) + seq![0u8],
        encodable_name(label) <==> 1 <= encode_utf8(label).len() <= 63,
{
    assert(label.contains(label[label.len() - 1]));
    a_closed_name_is_trimmed(label);
    a_text_without_separator_is_one_piece(label, '.');
    labels_wire_of_one(label);
    assert(host_labels(label) == seq![label]);
    assert(name_wire(label) =~= seq![encode_utf8(label).len() as u8] + encode_utf8(label)
        + seq![0u8]);
    if encodable_name(label) {
        assert(valid_label(host_labels(label)[0]));
    }
}

/// A name of more labels is written label by label, and can be written if and only if
/// each of them can.
pub proof fn a_name_is_written_label_by_label(label: Seq<char>, rest: Seq<char>)
    requires
        !label.contains('.'),
        rest.len() > 0,
        rest.last() != '.',
    ensures
        name_wire(label.push('.') + rest) == seq![encode_utf8(label).len() as u8] + encode_utf8(
            label,
        ) + name_wire(rest),
        encodable_name(label.push('.') + rest) <==> 1 <= encode_utf8(label).len() <= 63
            && encodable_name(rest),
{
    let host = label.push('.') + rest;
    assert(host.last() == rest.last());
    a_closed_name_is_trimmed(host);
    a_closed_name_is_trimmed(rest);
    a_text_without_separator_is_one_piece(label, '.');
    a_separator_parts_the_pieces(label, '.', rest);
    let labels = host_labels(host);
    let more = host_labels(rest);
    assert(labels == seq![label] + more);
    labels_wire_of_one(label);
    labels_wire_of_both(seq![label], more);
    assert(name_wire(host) =~= seq![encode_utf8(label).len() as u8] + encode_utf8(label)
        + name_wire(rest));
    assert(labels[0] == label);
    assert(forall|i: int| 0 <= i < more.len() ==> #[trigger] more[i] == labels[i + 1]);
    if encodable_name(host) {
        assert(valid_label(labels[0]));
        assert forall|i: int| 0 <= i < more.len() implies valid_label(#[trigger] more[i]) by {
            assert(valid_label(labels[i + 1]));
        }
    }
    if valid_label(label) && encodable_name(rest) {
        assert forall|i: int| 0 <= i < labels.len() implies valid_label(#[trigger] labels[i]) by {
            if i > 0 {
                assert(valid_label(more[i - 1]));
            }
        }
    }
}

/// The root is written as a zero, and can be.
pub proof fn the_root_is_written_as_a_zero()
    ensures
        name_wire(Seq::empty()) == seq![0u8],
        encodable_name(Seq::empty()),
{
}

/// A query asks one question, with the wish for recursion: for the record type, of the
/// Internet class, of the host.
pub proof fn a_query_asks_one_question(host: Seq<char>, record_type: u16)
    ensures
        query_wire(host, record_type) == seq![
            0x4cu8,
            0x44u8,
            0x01u8,
            0x00u8,
            0x00u8,
            0x01u8,
            0x00u8,
            0x00u8,
            0x00u8,
            0x00u8,
            0x00u8,
            0x00u8,
        ] + name_wire(host) + seq![
            (record_type / 256) as u8,
            (record_type % 256) as u8,
            0u8,
            1u8,
        ],
{
    assert(be_bytes(record_type) + be_bytes(1) =~= seq![
        (record_type / 256) as u8,
        (record_type % 256) as u8,
        0u8,
        1u8,
    ]);
    assert(query_wire(host, record_type) =~= query_head() + name_wire(host) + (be_bytes(record_type)
        + be_bytes(1)));
}

// ---------------------------------------------------------------------------
// Responses
// ---------------------------------------------------------------------------
/// Numbers are written with their highest octet first.
pub proof fn numbers_start_with_their_highest_octet(p: Seq<u8>, o: int)
    ensures
        be16(p, o) == p[o] * 256 + p[o + 1],
        be32(p, o) == p[o] * 0x100_0000 + p[o + 1] * 0x1_0000 + p[o + 2] * 0x100 + p[o + 3],
{
}

/// A name in a packet ends behind a zero or behind a pointer; a label is passed over by its
/// length. A name that is cut off, or that has a length of neither kind, is refused.
pub proof fn a_name_is_passed_over(p: Seq<u8>, o: int)
    requires
        0 <= o < p.len() <= usize::MAX,
    ensures
        p[o] == 0 ==> name_end(p, o) == Ok::<int, DnsError>(o + 1),
        p[o] >= 192 && o + 2 <= p.len() ==> name_end(p, o) == Ok::<int, DnsError>(o + 2),
        p[o] >= 192 && o + 2 > p.len() ==> name_end(p, o) == Err::<int, DnsError>(
            DnsError::PointerTruncated,
        ),
        64 <= p[o] < 192 ==> name_end(p, o) == Err::<int, DnsError>(DnsError::InvalidLabelLength),
        0 < p[o] < 64 && o + 1 + p[o] < p.len() ==> name_end(p, o) == name_end(p, o + 1 + p[o]),
        0 < p[o] < 64 && o + 1 + p[o] == p.len() ==> name_end(p, o) == Err::<int, DnsError>(
            DnsError::NameTruncated,
        ),
        0 < p[o] < 64 && p.len() < o + 1 + p[o] <= usize::MAX ==> name_end(p, o) == Err::<
            int,
            DnsError,
        >(DnsError::LabelTruncated),
        0 < p[o] < 64 && o + 1 + p[o] > usize::MAX ==> name_end(p, o) == Err::<int, DnsError>(
            DnsError::NameOverflow,
        ),
{
    if 0 < p[o] < 64 && o + 1 + p[o] == p.len() {
        assert(name_end(p, o + 1 + p[o]) is Err);
    }
}

/// Behind the end of a packet there is no name.
pub proof fn no_name_is_behind_the_end(p: Seq<u8>, o: int)
    requires
        o < 0 || o >= p.len(),
    ensures
        name_end(p, o) == Err::<int, DnsError>(DnsError::NameTruncated),
{
}

/// Questions are passed over one by one: a name, and four octets.
pub proof fn questions_are_passed_over(p: Seq<u8>, o: int, n: nat)
    requires
        p.len() + 4 <= usize::MAX,
    ensures
        questions_end(p, o, 0) == Ok::<int, DnsError>(o),
        name_end(p, o) matches Err(e) ==> questions_end(p, o, n + 1) == Err::<int, DnsError>(e),
        name_end(p, o) matches Ok(end) ==> end + 4 <= p.len() ==> questions_end(p, o, n + 1)
            == questions_end(p, end + 4, n),
        name_end(p, o) matches Ok(end) ==> p.len() < end + 4 <= usize::MAX ==> questions_end(
            p,
            o,
            n + 1,
        ) == Err::<int, DnsError>(DnsError::QuestionTruncated),
{
}

/// A record is a name, its type, its class, its lifetime, the length of its data, and the
/// data; it is refused if it is cut off.
pub proof fn a_record_is_read_field_by_field(p: Seq<u8>, o: int)
    ensures
        name_end(p, o) matches Err(e) ==> record_at(p, o) == Err::<RecordView, DnsError>(e),
        name_end(p, o) matches Ok(a) ==> a + 10 > p.len() ==> record_at(p, o) == Err::<
            RecordView,
            DnsError,
        >(DnsError::AnswerHeaderTruncated),
        name_end(p, o) matches Ok(a) ==> a + 10 <= p.len() ==> {
            let size = p[a + 8] * 256 + p[a + 9];
            &&& a + 10 + size > p.len() ==> record_at(p, o) == Err::<RecordView, DnsError>(
                DnsError::AnswerDataTruncated,
            )
            &&& a + 10 + size <= p.len() ==> {
                let r = record_at(p, o)->Ok_0;
                &&& record_at(p, o) is Ok
                &&& r.record_type == p[a] * 256 + p[a + 1]
                &&& r.class == p[a + 2] * 256 + p[a + 3]
                &&& r.ttl == p[a + 4] * 0x100_0000 + p[a + 5] * 0x1_0000 + p[a + 6] * 0x100 + p[a
                    + 7]
                &&& r.data == p.subrange(a + 10, a + 10 + size)
                &&& r.end == a + 10 + size
            }
        },
{
}

/// A record answers a question if it is of the wanted type and of the Internet class, and
/// its data has the size of an address of its kind, or is that of an HTTPS record.
pub proof fn which_records_answer(r: RecordView, wanted: u16)
    ensures
        ({
            let fits = r.class == 1 && r.record_type == wanted && ((wanted == 1
                && r.data.len() == 4)
                || (wanted == 28 && r.data.len() == 16) || wanted == 65);
            let answers = answer_of(r, wanted);
            &&& !fits ==> answers.len() == 0
            &&& fits ==> answers.len() == 1 && answers[0].record_type == wanted && answers[0].ttl
                == Some(r.ttl)
            &&& fits && wanted == 1 ==> answers[0].data == ipv4_text(
                r.data[0],
                r.data[1],
                r.data[2],
                r.data[3],
            )
            &&& fits && wanted == 28 ==> answers[0].data == ipv6_text(r.data)
            &&& fits && wanted == 65 ==> answers[0].data == "\\# "@ + decimal(r.data.len()) + " "@
                + join(r.data.map_values(|b: u8| hex_pair(b)), " "@)
        }),
{
    assert(data_text(r.record_type, r.data) is Some ==> r.record_type == 1 || r.record_type == 28
        || r.record_type == 65);
    assert(hex_rdata(r.data) == "\\# "@ + decimal(r.data.len()) + " "@ + join(
        r.data.map_values(|b: u8| hex_pair(b)),
        " "@,
    ));
}

/// The records of a response are read one after the other, and each that answers counts,
/// in order; one that cannot be read spoils the response.
pub proof fn every_record_that_answers_counts(p: Seq<u8>, o: int, n: nat, wanted: u16)
    ensures
        answers_from(p, o, 0, wanted) == Ok::<Seq<AnswerView>, DnsError>(Seq::empty()),
        record_at(p, o) matches Err(e) ==> answers_from(p, o, n + 1, wanted) == Err::<
            Seq<AnswerView>,
            DnsError,
        >(e),
        record_at(p, o) matches Ok(r) ==> (answers_from(p, r.end, n, wanted) matches Ok(rest)
            ==> answers_from(p, o, n + 1, wanted) == Ok::<Seq<AnswerView>, DnsError>(
            answer_of(r, wanted) + rest,
        )),
        record_at(p, o) matches Ok(r) ==> answers_from(p, r.end, n, wanted) is Err ==> answers_from(
            p,
            o,
            n + 1,
            wanted,
        ) == answers_from(p, r.end, n, wanted),
{
}

/// A response is read if its head is whole, says that it is a response and reports no
/// error; its answers are the records behind its questions, as many as the head says.
pub proof fn a_response_is_read_behind_its_head(p: Seq<u8>, wanted: u16)
    ensures
        p.len() < 12 ==> response_answers(p, wanted) == Err::<Seq<AnswerView>, DnsError>(
            DnsError::HeaderTruncated,
        ),
        p.len() >= 12 && p[2] < 0x80 ==> response_answers(p, wanted) == Err::<
            Seq<AnswerView>,
            DnsError,
        >(DnsError::NotAResponse),
        p.len() >= 12 && p[2] >= 0x80 && p[3] % 16 != 0 ==> response_answers(p, wanted) == Err::<
            Seq<AnswerView>,
            DnsError,
        >(DnsError::ResponseCode((p[3] % 16) as u16)),
        p.len() >= 12 && p[2] >= 0x80 && p[3] % 16 == 0 ==> (match questions_end(
            p,
            12,
            (p[4] * 256 + p[5]) as nat,
        ) {
            Err(e) => response_answers(p, wanted) == Err::<Seq<AnswerView>, DnsError>(e),
            Ok(o) => response_answers(p, wanted) == answers_from(
                p,
                o,
                (p[6] * 256 + p[7]) as nat,
                wanted,
            ),
        }),
{
}

/// The shorter of two lifetimes is one of them, and no longer than either; an unknown one
/// does not count.
pub proof fn the_shorter_lifetime(left: Option<u32>, right: Option<u32>)
    ensures
        shorter(left, right) is None <==> left is None && right is None,
        shorter(left, right) is Some ==> shorter(left, right) == left || shorter(left, right)
            == right,
        left matches Some(l) ==> shorter(left, right) is Some && shorter(left, right)->0 <= l,
        right matches Some(r) ==> shorter(left, right) is Some && shorter(left, right)->0 <= r,
{
}

} // verus!
