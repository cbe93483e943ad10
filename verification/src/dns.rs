//! DNS over HTTPS messages: building the wire form of a query, reading the
//! wire form of a response, and the lifetime of what a response holds.
use vstd::prelude::*;
use vstd::slice::slice_subrange;
use vstd::utf8::encode_utf8;
use crate::net::{ipv4_text, ipv6_text, show_ipv4, show_ipv6};
use crate::text::{
    chars_of, decimal, decimal_text, hex_pair, hex_text, join, join_texts, joined, same_text,
    split, text_of, texts, trim_end_char, trimmed_end_char,
};

verus! {

/// Why a DNS message was refused.
#[derive(Clone, Copy, Debug, PartialEq, Eq, Structural)]
pub enum DnsError {
    UnsupportedRecordType,
    InvalidLabel,
    HeaderTruncated,
    NotAResponse,
    ResponseCode(u16),
    QuestionOverflow,
    QuestionTruncated,
    AnswerHeaderTruncated,
    AnswerDataTruncated,
    NameTruncated,
    PointerTruncated,
    InvalidLabelLength,
    NameOverflow,
    LabelTruncated,
    U16Truncated,
    U32Truncated,
}

/// What is wrong with a DNS message, in words. `subject` is the record type or
/// the host that was asked for.
pub open spec fn dns_error_text(error: DnsError, subject: Seq<char>) -> Seq<char> {
    match error {
        DnsError::UnsupportedRecordType => "unsupported DNS record type "@ + subject,
        DnsError::InvalidLabel => "invalid DNS label in "@ + trim_end_char(subject, '.'),
        DnsError::HeaderTruncated => "DNS response header is truncated"@,
        DnsError::NotAResponse => "DNS message is not a response"@,
        DnsError::ResponseCode(code) => "DNS response returned rcode "@ + decimal(code as nat),
        DnsError::QuestionOverflow => "DNS question offset overflow"@,
        DnsError::QuestionTruncated => "DNS question is truncated"@,
        DnsError::AnswerHeaderTruncated => "DNS answer header is truncated"@,
        DnsError::AnswerDataTruncated => "DNS answer data is truncated"@,
        DnsError::NameTruncated => "DNS name is truncated"@,
        DnsError::PointerTruncated => "DNS compression pointer is truncated"@,
        DnsError::InvalidLabelLength => "invalid DNS label length"@,
        DnsError::NameOverflow => "DNS name offset overflow"@,
        DnsError::LabelTruncated => "DNS label is truncated"@,
        DnsError::U16Truncated => "DNS u16 field is truncated"@,
        DnsError::U32Truncated => "DNS u32 field is truncated"@,
    }
}

impl DnsError {
    /// What is wrong, in words.
    pub fn message(self, subject: &str) -> (text: String)
        ensures
            text@ == dns_error_text(self, subject@),
    {
        match self {
            DnsError::UnsupportedRecordType => joined("unsupported DNS record type ", subject),
            DnsError::InvalidLabel => {
                let chars = chars_of(subject);
                joined(
                    "invalid DNS label in ",
                    text_of(trimmed_end_char(chars.as_slice(), '.')).as_str(),
                )
            },
            DnsError::HeaderTruncated => "DNS response header is truncated".to_owned(),
            DnsError::NotAResponse => "DNS message is not a response".to_owned(),
            DnsError::ResponseCode(code) => joined(
                "DNS response returned rcode ",
                decimal_text(code as u64).as_str(),
            ),
            DnsError::QuestionOverflow => "DNS question offset overflow".to_owned(),
            DnsError::QuestionTruncated => "DNS question is truncated".to_owned(),
            DnsError::AnswerHeaderTruncated => "DNS answer header is truncated".to_owned(),
            DnsError::AnswerDataTruncated => "DNS answer data is truncated".to_owned(),
            DnsError::NameTruncated => "DNS name is truncated".to_owned(),
            DnsError::PointerTruncated => "DNS compression pointer is truncated".to_owned(),
            DnsError::InvalidLabelLength => "invalid DNS label length".to_owned(),
            DnsError::NameOverflow => "DNS name offset overflow".to_owned(),
            DnsError::LabelTruncated => "DNS label is truncated".to_owned(),
            DnsError::U16Truncated => "DNS u16 field is truncated".to_owned(),
            DnsError::U32Truncated => "DNS u32 field is truncated".to_owned(),
        }
    }
}

/// One record of a DNS answer: its type, how long it may be kept, in seconds,
/// and its data in presentation form.
#[derive(Clone, Debug)]
pub struct DohAnswer {
    pub record_type: u16,
    pub ttl: Option<u32>,
    pub data: String,
}

/// What a [`DohAnswer`] holds.
#[verifier::ext_equal]
pub struct AnswerView {
    pub record_type: u16,
    pub ttl: Option<u32>,
    pub data: Seq<char>,
}

impl View for DohAnswer {
    type V = AnswerView;

    open spec fn view(&self) -> AnswerView {
        AnswerView { record_type: self.record_type, ttl: self.ttl, data: self.data@ }
    }
}

impl DohAnswer {
    /// A copy of the answer.
    pub fn duplicate(&self) -> (copy: DohAnswer)
        ensures
            copy@ == self@,
    {
        DohAnswer { record_type: self.record_type, ttl: self.ttl, data: self.data.clone() }
    }
}

/// What some answers hold.
pub open spec fn answer_views(answers: Seq<DohAnswer>) -> Seq<AnswerView> {
    answers.map_values(|a: DohAnswer| a@)
}

/// A copy of some answers.
pub fn duplicate_answers(answers: &Vec<DohAnswer>) -> (copy: Vec<DohAnswer>)
    ensures
        answer_views(copy@) == answer_views(answers@),
{
    let mut copy: Vec<DohAnswer> = Vec::new();
    let mut i: usize = 0;
    while i < answers.len()
        invariant
            i <= answers@.len(),
            answer_views(copy@) == answer_views(answers@).take(i as int),
        decreases answers@.len() - i,
    {
        let ghost before = answer_views(copy@);
        copy.push(answers[i].duplicate());
        assert(answer_views(copy@) =~= before.push(answers@[i as int]@));
        assert(answer_views(answers@).take(i as int + 1) =~= before.push(answers@[i as int]@));
        i = i + 1;
    }
    assert(answer_views(answers@).take(i as int) =~= answer_views(answers@));
    copy
}

// ---------------------------------------------------------------------------
// Queries
// ---------------------------------------------------------------------------
/// The number of a record type, of those that the resolver asks for.
pub open spec fn record_type_code(record_type: Seq<char>) -> Option<u16> {
    if record_type == "A"@ {
        Some(1u16)
    } else if record_type == "AAAA"@ {
        Some(28u16)
    } else if record_type == "HTTPS"@ {
        Some(65u16)
    } else {
        None
    }
}

/// The labels of a host name: full stops at its end do not count.
pub open spec fn host_labels(host: Seq<char>) -> Seq<Seq<char>> {
    split(trim_end_char(host, '.'), '.')
}

/// A label that the wire form can hold: one to sixty-three octets.
pub open spec fn valid_label(label: Seq<char>) -> bool {
    1 <= encode_utf8(label).len() <= 63
}

/// The wire form of labels, without the end of the name.
pub open spec fn labels_wire(labels: Seq<Seq<char>>) -> Seq<u8>
    decreases labels.len(),
{
    if labels.len() == 0 {
        Seq::empty()
    } else {
        let octets = encode_utf8(labels.last());
        labels_wire(labels.drop_last()) + seq![octets.len() as u8] + octets
    }
}

/// The host name has a wire form: it is the root, or each of its labels is
/// valid.
pub open spec fn encodable_name(host: Seq<char>) -> bool {
    trim_end_char(host, '.').len() == 0 || forall|i: int|
        0 <= i < host_labels(host).len() ==> valid_label(#[trigger] host_labels(host)[i])
}

/// The wire form of a host name.
pub open spec fn name_wire(host: Seq<char>) -> Seq<u8> {
    if trim_end_char(host, '.').len() == 0 {
        seq![0u8]
    } else {
        labels_wire(host_labels(host)).push(0u8)
    }
}

/// The two octets of a number, the higher one first.
pub open spec fn be_bytes(v: u16) -> Seq<u8> {
    seq![(v / 256) as u8, (v % 256) as u8]
}

/// The head of a query: the identifier, the wish for recursion, one question
/// and no record.
pub open spec fn query_head() -> Seq<u8> {
    seq![0x4cu8, 0x44, 0x01, 0x00, 0x00, 0x01, 0x00, 0x00, 0x00, 0x00, 0x00, 0x00]
}

/// The wire form of the query for one record type of a host.
pub open spec fn query_wire(host: Seq<char>, record_type: u16) -> Seq<u8> {
    query_head() + name_wire(host) + be_bytes(record_type) + be_bytes(1)
}

/// The number of a record type.
pub fn dns_record_type_code(record_type: &str) -> (code: Result<u16, DnsError>)
    ensures
        code == (match record_type_code(record_type@) {
            Some(c) => Ok::<u16, DnsError>(c),
            None => Err(DnsError::UnsupportedRecordType),
        }),
{
    if same_text(record_type, "A") {
        Ok(1)
    } else if same_text(record_type, "AAAA") {
        Ok(28)
    } else if same_text(record_type, "HTTPS") {
        Ok(65)
    } else {
        Err(DnsError::UnsupportedRecordType)
    }
}

/// How many of the first labels are valid.
pub open spec fn valid_prefix(labels: Seq<Seq<char>>) -> nat
    decreases labels.len(),
{
    if labels.len() == 0 {
        0
    } else {
        let before = valid_prefix(labels.drop_last());
        if before == labels.len() - 1 && valid_label(labels.last()) {
            labels.len()
        } else {
            before
        }
    }
}

proof fn valid_prefix_stops(labels: Seq<Seq<char>>, n: int)
    requires
        0 <= n < labels.len(),
        forall|i: int| 0 <= i < n ==> valid_label(#[trigger] labels[i]),
        !valid_label(labels[n]),
    ensures
        valid_prefix(labels) == n,
    decreases labels.len(),
{
    let shorter = labels.drop_last();
    if n < labels.len() - 1 {
        assert(forall|i: int| 0 <= i < n ==> shorter[i] == labels[i]);
        valid_prefix_stops(shorter, n);
    } else {
        assert(forall|i: int| 0 <= i < n ==> shorter[i] == labels[i]);
        valid_prefix_full(shorter);
    }
}

proof fn valid_prefix_full(labels: Seq<Seq<char>>)
    requires
        forall|i: int| 0 <= i < labels.len() ==> valid_label(#[trigger] labels[i]),
    ensures
        valid_prefix(labels) == labels.len(),
    decreases labels.len(),
{
    if labels.len() > 0 {
        let shorter = labels.drop_last();
        assert(forall|i: int| 0 <= i < shorter.len() ==> shorter[i] == labels[i]);
        valid_prefix_full(shorter);
        assert(valid_label(labels[labels.len() - 1]));
    }
}

/// Appends the wire form of a host name. Where a label is refused, the labels
/// before it have been appended.
pub fn encode_dns_name(host: &str, output: &mut Vec<u8>) -> (r: Result<(), DnsError>)
    ensures
        r is Ok <==> encodable_name(host@),
        r is Ok ==> final(output)@ == old(output)@ + name_wire(host@),
        r is Err ==> r->Err_0 == DnsError::InvalidLabel && final(output)@ == old(output)@
            + labels_wire(host_labels(host@).take(valid_prefix(host_labels(host@)) as int)),
{
    let chars = chars_of(host);
    let name = trimmed_end_char(chars.as_slice(), '.');
    if name.len() == 0 {
        output.push(0);
        assert(output@ =~= old(output)@ + name_wire(host@));
        return Ok(());
    }
    let labels = crate::text::split_at_char(name, '.');
    let ghost all = host_labels(host@);
    assert(texts(labels@) == all);
    assert(labels@.len() == all.len());
    let mut i: usize = 0;
    assert(all.take(0) =~= Seq::empty());
    assert(output@ =~= old(output)@ + labels_wire(all.take(0)));
    while i < labels.len()
        invariant
            i <= labels@.len(),
            texts(labels@) == all,
            labels@.len() == all.len(),
            all == host_labels(host@),
            trim_end_char(host@, '.').len() > 0,
            forall|j: int| 0 <= j < i ==> valid_label(#[trigger] all[j]),
            output@ == old(output)@ + labels_wire(all.take(i as int)),
        decreases labels@.len() - i,
    {
        assert(all[i as int] == labels@[i as int]@);
        let octets = labels[i].as_str().as_bytes();
        if octets.len() == 0 || octets.len() > 63 {
            proof {
                valid_prefix_stops(all, i as int);
            }
            return Err(DnsError::InvalidLabel);
        }
        let ghost before = output@;
        output.push(octets.len() as u8);
        output.extend_from_slice(octets);
        assert(output@ =~= before + seq![octets@.len() as u8] + octets@);
        let ghost upto = all.take(i as int + 1);
        assert(upto.drop_last() =~= all.take(i as int));
        assert(upto.last() == all[i as int]);
        assert(output@ =~= old(output)@ + labels_wire(upto));
        i = i + 1;
    }
    assert(all.take(i as int) =~= all);
    output.push(0);
    assert(output@ =~= old(output)@ + name_wire(host@));
    Ok(())
}

fn push_be16(v: u16, output: &mut Vec<u8>)
    ensures
        final(output)@ == old(output)@ + be_bytes(v),
{
    output.push((v / 256) as u8);
    output.push((v % 256) as u8);
    assert(output@ =~= old(output)@ + be_bytes(v));
}

/// The wire form of the query for one record type of a host.
pub fn build_dns_wire_query(host: &str, record_type: u16) -> (r: Result<Vec<u8>, DnsError>)
    ensures
        match r {
            Ok(packet) => encodable_name(host@) && packet@ == query_wire(host@, record_type),
            Err(e) => !encodable_name(host@) && e == DnsError::InvalidLabel,
        },
{
    let mut packet: Vec<u8> = Vec::with_capacity(64);
    push_be16(0x4c44, &mut packet);
    push_be16(0x0100, &mut packet);
    push_be16(1, &mut packet);
    push_be16(0, &mut packet);
    push_be16(0, &mut packet);
    push_be16(0, &mut packet);
    assert(packet@ =~= query_head());
    match encode_dns_name(host, &mut packet) {
        Ok(()) => {},
        Err(e) => {
            return Err(e);
        },
    }
    push_be16(record_type, &mut packet);
    push_be16(1, &mut packet);
    Ok(packet)
}

// ---------------------------------------------------------------------------
// Responses
// ---------------------------------------------------------------------------
/// The number in the two octets at `o`.
pub open spec fn be16(p: Seq<u8>, o: int) -> u16 {
    (p[o] * 256 + p[o + 1]) as u16
}

/// The number in the four octets at `o`.
pub open spec fn be32(p: Seq<u8>, o: int) -> u32 {
    (p[o] * 0x100_0000 + p[o + 1] * 0x1_0000 + p[o + 2] * 0x100 + p[o + 3]) as u32
}

/// Where the name that starts at `o` ends. It is a list of labels, each behind
/// its length, that ends with an empty one or with a pointer, whose two octets
/// start with two set bits.
pub open spec fn name_end(p: Seq<u8>, o: int) -> Result<int, DnsError>
    decreases p.len() - o,
{
    if !(0 <= o < p.len()) {
        Err(DnsError::NameTruncated)
    } else if p[o] >= 192 {
        if o + 2 > p.len() {
            Err(DnsError::PointerTruncated)
        } else {
            Ok(o + 2)
        }
    } else if p[o] >= 64 {
        Err(DnsError::InvalidLabelLength)
    } else if p[o] == 0 {
        Ok(o + 1)
    } else if o + 1 + p[o] > usize::MAX {
        Err(DnsError::NameOverflow)
    } else if o + 1 + p[o] > p.len() {
        Err(DnsError::LabelTruncated)
    } else {
        name_end(p, o + 1 + p[o])
    }
}

/// Where `n` questions that start at `o` end: each is a name and four octets.
pub open spec fn questions_end(p: Seq<u8>, o: int, n: nat) -> Result<int, DnsError>
    decreases n,
{
    if n == 0 {
        Ok(o)
    } else {
        match name_end(p, o) {
            Err(e) => Err(e),
            Ok(a) => if a + 4 > usize::MAX {
                Err(DnsError::QuestionOverflow)
            } else if a + 4 > p.len() {
                Err(DnsError::QuestionTruncated)
            } else {
                questions_end(p, a + 4, (n - 1) as nat)
            },
        }
    }
}

/// A resource record in a packet, and where it ends.
pub struct RecordView {
    pub record_type: u16,
    pub class: u16,
    pub ttl: u32,
    pub data: Seq<u8>,
    pub end: int,
}

/// The resource record at `o`.
pub open spec fn record_at(p: Seq<u8>, o: int) -> Result<RecordView, DnsError> {
    match name_end(p, o) {
        Err(e) => Err(e),
        Ok(a) => if a + 10 > p.len() {
            Err(DnsError::AnswerHeaderTruncated)
        } else if a + 10 + be16(p, a + 8) > p.len() {
            Err(DnsError::AnswerDataTruncated)
        } else {
            let end = a + 10 + be16(p, a + 8);
            Ok(
                RecordView {
                    record_type: be16(p, a),
                    class: be16(p, a + 2),
                    ttl: be32(p, a + 4),
                    data: p.subrange(a + 10, end),
                    end,
                },
            )
        },
    }
}

/// The presentation form of record data, for the types and sizes that the
/// resolver uses.
pub open spec fn data_text(record_type: u16, data: Seq<u8>) -> Option<Seq<char>> {
    if record_type == 1 && data.len() == 4 {
        Some(ipv4_text(data[0], data[1], data[2], data[3]))
    } else if record_type == 28 && data.len() == 16 {
        Some(ipv6_text(data))
    } else if record_type == 65 {
        Some(hex_rdata(data))
    } else {
        None
    }
}

/// The answer that a record gives to a question for `wanted`: none, unless it
/// is of that type and of the Internet class and its data has a presentation
/// form.
pub open spec fn answer_of(r: RecordView, wanted: u16) -> Seq<AnswerView> {
    match data_text(r.record_type, r.data) {
        Some(data) if r.class == 1 && r.record_type == wanted => seq![
            AnswerView { record_type: r.record_type, ttl: Some(r.ttl), data },
        ],
        _ => Seq::empty(),
    }
}

/// The answers that `n` records, the first of them at `o`, give to a question
/// for `wanted`.
pub open spec fn answers_from(p: Seq<u8>, o: int, n: nat, wanted: u16) -> Result<
    Seq<AnswerView>,
    DnsError,
>
    decreases n,
{
    if n == 0 {
        Ok(Seq::empty())
    } else {
        match record_at(p, o) {
            Err(e) => Err(e),
            Ok(r) => match answers_from(p, r.end, (n - 1) as nat, wanted) {
                Err(e) => Err(e),
                Ok(rest) => Ok(answer_of(r, wanted) + rest),
            },
        }
    }
}

/// The answers that a response holds to a question for `wanted`.
pub open spec fn response_answers(p: Seq<u8>, wanted: u16) -> Result<Seq<AnswerView>, DnsError> {
    if p.len() < 12 {
        Err(DnsError::HeaderTruncated)
    } else if p[2] < 128 {
        Err(DnsError::NotAResponse)
    } else if p[3] % 16 != 0 {
        Err(DnsError::ResponseCode((p[3] % 16) as u16))
    } else {
        match questions_end(p, 12, be16(p, 4) as nat) {
            Err(e) => Err(e),
            Ok(o) => answers_from(p, o, be16(p, 6) as nat, wanted),
        }
    }
}

/// The generic presentation form of record data: `\#`, the number of octets,
/// and the octets in hexadecimal.
pub open spec fn hex_rdata(data: Seq<u8>) -> Seq<char> {
    "\\# "@ + decimal(data.len()) + " "@ + join(
        data.map_values(|b: u8| hex_pair(b)),
        " "@,
    )
}

/// The number in the two octets at `offset`.
pub fn read_dns_u16(packet: &[u8], offset: usize) -> (r: Result<u16, DnsError>)
    ensures
        r == (if offset + 2 <= packet@.len() {
            Ok::<u16, DnsError>(be16(packet@, offset as int))
        } else {
            Err(DnsError::U16Truncated)
        }),
{
    if packet.len() < 2 || packet.len() - 2 < offset {
        return Err(DnsError::U16Truncated);
    }
    Ok((packet[offset] as u16) * 256 + (packet[offset + 1] as u16))
}

/// The number in the four octets at `offset`.
pub fn read_dns_u32(packet: &[u8], offset: usize) -> (r: Result<u32, DnsError>)
    ensures
        r == (if offset + 4 <= packet@.len() {
            Ok::<u32, DnsError>(be32(packet@, offset as int))
        } else {
            Err(DnsError::U32Truncated)
        }),
{
    if packet.len() < 4 || packet.len() - 4 < offset {
        return Err(DnsError::U32Truncated);
    }
    Ok(
        (packet[offset] as u32) * 0x100_0000 + (packet[offset + 1] as u32) * 0x1_0000 + (
        packet[offset + 2] as u32) * 0x100 + (packet[offset + 3] as u32),
    )
}

/// Where the name that starts at `offset` ends.
pub fn skip_dns_wire_name(packet: &[u8], offset: usize) -> (r: Result<usize, DnsError>)
    ensures
        match r {
            Ok(end) => name_end(packet@, offset as int) == Ok::<int, DnsError>(end as int) && offset
                < end <= packet@.len(),
            Err(e) => name_end(packet@, offset as int) == Err::<int, DnsError>(e),
        },
{
    let mut at: usize = offset;
    loop
        invariant
            offset <= at,
            name_end(packet@, offset as int) == name_end(packet@, at as int),
        decreases packet@.len() - at,
    {
        if at >= packet.len() {
            return Err(DnsError::NameTruncated);
        }
        let length: u8 = packet[at];
        if length >= 192 {
            if packet.len() - at < 2 {
                return Err(DnsError::PointerTruncated);
            }
            return Ok(at + 2);
        }
        if length >= 64 {
            return Err(DnsError::InvalidLabelLength);
        }
        if length == 0 {
            return Ok(at + 1);
        }
        match (at + 1).checked_add(length as usize) {
            None => {
                return Err(DnsError::NameOverflow);
            },
            Some(next) => {
                if next > packet.len() {
                    return Err(DnsError::LabelTruncated);
                }
                at = next;
            },
        }
    }
}

/// The generic presentation form of record data.
pub fn format_dns_hex_rdata(data: &[u8]) -> (text: String)
    ensures
        text@ == hex_rdata(data@),
{
    let mut pairs: Vec<String> = Vec::new();
    let mut i: usize = 0;
    let ghost all = data@.map_values(|b: u8| hex_pair(b));
    while i < data.len()
        invariant
            i <= data@.len(),
            all == data@.map_values(|b: u8| hex_pair(b)),
            texts(pairs@) == all.take(i as int),
        decreases data@.len() - i,
    {
        let ghost before = texts(pairs@);
        pairs.push(hex_text(data[i]));
        assert(texts(pairs@) =~= before.push(hex_pair(data@[i as int])));
        assert(all.take(i as int + 1) =~= all.take(i as int).push(all[i as int]));
        i = i + 1;
    }
    assert(all.take(i as int) =~= all);
    let encoded = join_texts(&pairs, " ");
    let mut text = "\\# ".to_owned();
    text.append(decimal_text(data.len() as u64).as_str());
    text.append(" ");
    text.append(encoded.as_str());
    text
}

fn octets16(data: &[u8]) -> (octets: [u8; 16])
    requires
        data@.len() == 16,
    ensures
        octets@ == data@,
{
    let octets: [u8; 16] = [
        data[0],
        data[1],
        data[2],
        data[3],
        data[4],
        data[5],
        data[6],
        data[7],
        data[8],
        data[9],
        data[10],
        data[11],
        data[12],
        data[13],
        data[14],
        data[15],
    ];
    assert(octets@ =~= data@);
    octets
}

fn show_data(record_type: u16, data: &[u8]) -> (text: Option<String>)
    ensures
        crate::text::option_text(text) == data_text(record_type, data@),
{
    if record_type == 1 && data.len() == 4 {
        Some(show_ipv4(data[0], data[1], data[2], data[3]))
    } else if record_type == 28 && data.len() == 16 {
        Some(show_ipv6(octets16(data)))
    } else if record_type == 65 {
        Some(format_dns_hex_rdata(data))
    } else {
        None
    }
}

/// What the answers collected so far, followed by `rest`, amount to.
spec fn followed_by(
    collected: Seq<AnswerView>,
    rest: Result<Seq<AnswerView>, DnsError>,
) -> Result<Seq<AnswerView>, DnsError> {
    match rest {
        Ok(more) => Ok(collected + more),
        Err(e) => Err(e),
    }
}

fn skip_questions(packet: &[u8], start: usize, count: u16) -> (r: Result<usize, DnsError>)
    ensures
        match r {
            Ok(end) => questions_end(packet@, start as int, count as nat) == Ok::<int, DnsError>(
                end as int,
            ),
            Err(e) => questions_end(packet@, start as int, count as nat) == Err::<int, DnsError>(e),
        },
{
    let mut offset: usize = start;
    let mut left: u16 = count;
    while left > 0
        invariant
            questions_end(packet@, start as int, count as nat) == questions_end(
                packet@,
                offset as int,
                left as nat,
            ),
        decreases left,
    {
        match skip_dns_wire_name(packet, offset) {
            Err(e) => {
                return Err(e);
            },
            Ok(a) => match a.checked_add(4) {
                None => {
                    return Err(DnsError::QuestionOverflow);
                },
                Some(next) => {
                    if next > packet.len() {
                        return Err(DnsError::QuestionTruncated);
                    }
                    offset = next;
                },
            },
        }
        left = left - 1;
    }
    Ok(offset)
}

/// The answers that a response holds to a question for `requested_type`.
pub fn parse_dns_wire_response(packet: &[u8], requested_type: u16) -> (r: Result<
    Vec<DohAnswer>,
    DnsError,
>)
    ensures
        match r {
            Ok(answers) => response_answers(packet@, requested_type) == Ok::<
                Seq<AnswerView>,
                DnsError,
            >(answer_views(answers@)),
            Err(e) => response_answers(packet@, requested_type) == Err::<
                Seq<AnswerView>,
                DnsError,
            >(e),
        },
{
    if packet.len() < 12 {
        return Err(DnsError::HeaderTruncated);
    }
    if packet[2] < 128 {
        return Err(DnsError::NotAResponse);
    }
    let rcode: u16 = (packet[3] % 16) as u16;
    if rcode != 0 {
        return Err(DnsError::ResponseCode(rcode));
    }
    let question_count: u16 = match read_dns_u16(packet, 4) {
        Ok(n) => n,
        Err(e) => {
            return Err(e);
        },
    };
    let answer_count: u16 = match read_dns_u16(packet, 6) {
        Ok(n) => n,
        Err(e) => {
            return Err(e);
        },
    };
    let start: usize = match skip_questions(packet, 12, question_count) {
        Ok(end) => end,
        Err(e) => {
            return Err(e);
        },
    };
    let ghost goal = answers_from(packet@, start as int, answer_count as nat, requested_type);
    let mut offset: usize = start;
    let mut left: u16 = answer_count;
    let mut answers: Vec<DohAnswer> = Vec::new();
    assert(answer_views(answers@) =~= Seq::empty());
    assert(goal is Ok ==> Seq::<AnswerView>::empty() + goal->Ok_0 =~= goal->Ok_0);
    while left > 0
        invariant
            response_answers(packet@, requested_type) == goal,
            goal == followed_by(
                answer_views(answers@),
                answers_from(packet@, offset as int, left as nat, requested_type),
            ),
        decreases left,
    {
        let ghost here = record_at(packet@, offset as int);
        let at: usize = match skip_dns_wire_name(packet, offset) {
            Ok(a) => a,
            Err(e) => {
                return Err(e);
            },
        };
        if packet.len() - at < 10 {
            return Err(DnsError::AnswerHeaderTruncated);
        }
        let record_type: u16 = (packet[at] as u16) * 256 + (packet[at + 1] as u16);
        let class: u16 = (packet[at + 2] as u16) * 256 + (packet[at + 3] as u16);
        let ttl: u32 = match read_dns_u32(packet, at + 4) {
            Ok(t) => t,
            Err(e) => {
                return Err(e);
            },
        };
        let data_len: usize = (packet[at + 8] as usize) * 256 + (packet[at + 9] as usize);
        if packet.len() - (at + 10) < data_len {
            return Err(DnsError::AnswerDataTruncated);
        }
        let end: usize = at + 10 + data_len;
        let data = slice_subrange(packet, at + 10, end);
        let ghost record = here->Ok_0;
        assert(here is Ok);
        assert(record.record_type == record_type && record.class == class && record.ttl == ttl
            && record.data == data@ && record.end == end);
        let ghost before = answer_views(answers@);
        let ghost rest = answers_from(packet@, end as int, (left - 1) as nat, requested_type);
        if class == 1 && record_type == requested_type {
            match show_data(record_type, data) {
                Some(text) => {
                    answers.push(DohAnswer { record_type, ttl: Some(ttl), data: text });
                    assert(answer_views(answers@) =~= before + answer_of(record, requested_type));
                },
                None => {
                    assert(before + answer_of(record, requested_type) =~= before);
                },
            }
        } else {
            assert(before + answer_of(record, requested_type) =~= before);
        }
        assert(answer_views(answers@) == before + answer_of(record, requested_type));
        assert(rest is Ok ==> before + (answer_of(record, requested_type) + rest->Ok_0) =~= (before
            + answer_of(record, requested_type)) + rest->Ok_0);
        offset = end;
        left = left - 1;
    }
    assert(answer_views(answers@) + Seq::empty() =~= answer_views(answers@));
    Ok(answers)
}

// ---------------------------------------------------------------------------
// Lifetimes
// ---------------------------------------------------------------------------
/// The shorter of two lifetimes; an unknown one does not count.
pub open spec fn shorter(left: Option<u32>, right: Option<u32>) -> Option<u32> {
    match (left, right) {
        (Some(l), Some(r)) => Some(if l <= r {
            l
        } else {
            r
        }),
        (Some(l), None) => Some(l),
        (None, r) => r,
    }
}

/// The shortest known lifetime among some answers.
pub open spec fn shortest_ttl(answers: Seq<AnswerView>) -> Option<u32>
    decreases answers.len(),
{
    if answers.len() == 0 {
        None
    } else {
        shorter(
            shortest_ttl(answers.drop_last()),
            answers.last().ttl,
        )
    }
}

/// The shorter of two lifetimes, in seconds; an unknown one does not count.
pub fn min_duration_options(left: Option<u32>, right: Option<u32>) -> (r: Option<u32>)
    ensures
        r == shorter(left, right),
{
    match (left, right) {
        (Some(l), Some(r)) => Some(
            if l <= r {
                l
            } else {
                r
            },
        ),
        (Some(l), None) => Some(l),
        (None, r) => r,
    }
}

/// The shortest known lifetime among some answers, in seconds.
pub fn min_ttl_duration(answers: &Vec<DohAnswer>) -> (r: Option<u32>)
    ensures
        r == shortest_ttl(answer_views(answers@)),
{
    let mut least: Option<u32> = None;
    let mut i: usize = 0;
    let ghost all = answer_views(answers@);
    assert(all.take(0) =~= Seq::empty());
    while i < answers.len()
        invariant
            i <= answers@.len(),
            all == answer_views(answers@),
            least == shortest_ttl(all.take(i as int)),
        decreases answers@.len() - i,
    {
        let ghost upto = all.take(i as int + 1);
        assert(upto.drop_last() =~= all.take(i as int));
        assert(upto.last() == answers@[i as int]@);
        least = min_duration_options(least, answers[i].ttl);
        i = i + 1;
    }
    assert(all.take(i as int) =~= all);
    least
}

} // verus!
