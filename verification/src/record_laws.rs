//! What holds between the functions that write DNS data and those that read
//! it.
use vstd::prelude::*;
use vstd::utf8::{encode_utf8, encode_utf8_decode_utf8, encode_utf8_valid_utf8};
use crate::dns::{
    answers_from, encodable_name, hex_rdata, host_labels, labels_wire, name_end, name_wire,
    query_head, query_wire, record_at, response_answers, shorter, shortest_ttl, valid_label,
    AnswerView, DnsError,
};
use crate::https_rr::{
    generic_octets, hex_octets, labels_at, record_binding, wire_binding, wire_name,
    HttpsErrorView,
};
use crate::net::{ipv4_bits, ipv4_text, ipv4_value, octet};
use crate::text::{
    decimal, digit_char, digit_value, digits_value, hex_pair, join, number, split,
    split_is_never_empty, starts_with, trim, trim_end, trim_end_char, trim_start, white_space,
    words,
};

verus! {

// ---------------------------------------------------------------------------
// Numbers
// ---------------------------------------------------------------------------
proof fn decimal_digits(n: nat)
    ensures
        decimal(n).len() > 0,
        digits_value(decimal(n), 10) == Some(n),
        forall|i: int|
            0 <= i < decimal(n).len() ==> 0x30 <= #[trigger] decimal(n)[i] as u32 <= 0x39,
        n >= 1 ==> decimal(n)[0] != '0',
        n < 10 ==> decimal(n).len() == 1,
    decreases n,
{
    if n < 10 {
        assert(decimal(n).drop_last() =~= Seq::empty());
        assert(digits_value(Seq::<char>::empty(), 10) == Some(0nat));
        assert(decimal(n).last() == digit_char(n));
        assert(digit_value(digit_char(n), 10) == Some(n));
    } else {
        decimal_digits(n / 10);
        let shorter = decimal(n / 10);
        assert(decimal(n).drop_last() =~= shorter);
        assert(decimal(n).last() == digit_char(n % 10));
        assert(digit_value(digit_char(n % 10), 10) == Some(n % 10));
        assert((n / 10) * 10 + n % 10 == n);
        assert(decimal(n)[0] == shorter[0]);
        assert forall|i: int| 0 <= i < decimal(n).len() implies 0x30 <= #[trigger] decimal(
            n,
        )[i] as u32 <= 0x39 by {
            if i < shorter.len() {
                assert(decimal(n)[i] == shorter[i]);
            }
        }
    }
}

/// A number that is written in decimal is read back.
pub proof fn decimal_is_read_back(n: nat, max: nat)
    requires
        n <= max,
    ensures
        number(decimal(n), 10, max) == Some(n),
{
    decimal_digits(n);
    assert(decimal(n)[0] as u32 >= 0x30);
}

/// An octet that is written in hexadecimal is read back.
pub proof fn hex_is_read_back(b: u8)
    ensures
        number(hex_pair(b), 16, 255) == Some(b as nat),
{
    let s = hex_pair(b);
    let hi = b as nat / 16;
    let lo = b as nat % 16;
    assert(s.drop_last() =~= seq![digit_char(hi)]);
    assert(s.drop_last().drop_last() =~= Seq::empty());
    assert(digits_value(Seq::<char>::empty(), 16) == Some(0nat));
    assert(digit_value(digit_char(hi), 16) == Some(hi));
    assert(digit_value(digit_char(lo), 16) == Some(lo));
    assert(digits_value(s.drop_last(), 16) == Some(0 * 16 + hi));
    assert(digits_value(s, 16) == Some(hi * 16 + lo));
    assert(s[0] != '+');
}

// ---------------------------------------------------------------------------
// Addresses
// ---------------------------------------------------------------------------
proof fn split_of_plain(s: Seq<char>, sep: char)
    requires
        !s.contains(sep),
    ensures
        split(s, sep) == seq![s],
    decreases s.len(),
{
    if s.len() > 0 {
        let shorter = s.drop_last();
        assert forall|i: int| 0 <= i < shorter.len() implies shorter[i] != sep by {
            assert(shorter[i] == s[i]);
        }
        split_of_plain(shorter, sep);
        assert(s.contains(s.last()));
        assert(split(s, sep) =~= seq![s]) by {
            assert(shorter.push(s.last()) =~= s);
        }
    } else {
        assert(s =~= Seq::empty());
    }
}

proof fn split_of_extended(s: Seq<char>, sep: char, t: Seq<char>)
    requires
        !t.contains(sep),
    ensures
        split(s.push(sep) + t, sep) == split(s, sep).push(t),
    decreases t.len(),
{
    let whole = s.push(sep) + t;
    if t.len() == 0 {
        assert(whole.drop_last() =~= s);
        assert(t =~= Seq::empty());
    } else {
        let u = t.drop_last();
        assert forall|i: int| 0 <= i < u.len() implies u[i] != sep by {
            assert(u[i] == t[i]);
        }
        assert(t.contains(t.last()));
        split_of_extended(s, sep, u);
        assert(whole.drop_last() =~= s.push(sep) + u);
        let before = split(s, sep).push(u);
        assert(before.drop_last() =~= split(s, sep));
        assert(u.push(t.last()) =~= t);
    }
}

proof fn decimal_has_no_stop(n: nat)
    ensures
        !decimal(n).contains('.'),
{
    decimal_digits(n);
}

proof fn octet_is_read_back(v: u8)
    ensures
        octet(decimal(v as nat)) == Some(v as nat),
{
    decimal_digits(v as nat);
    decimal_is_read_back(v as nat, 255);
    assert(decimal(v as nat)[0] as u32 >= 0x30);
}

/// An IPv4 address that is written down is read back.
pub proof fn ipv4_is_read_back(a: u8, b: u8, c: u8, d: u8)
    ensures
        ipv4_value(ipv4_text(a, b, c, d)) == Some(
            ipv4_bits(a as nat, b as nat, c as nat, d as nat),
        ),
{
    decimal_has_no_stop(a as nat);
    decimal_has_no_stop(b as nat);
    decimal_has_no_stop(c as nat);
    decimal_has_no_stop(d as nat);
    octet_is_read_back(a);
    octet_is_read_back(b);
    octet_is_read_back(c);
    octet_is_read_back(d);
    let ta = decimal(a as nat);
    let tb = decimal(b as nat);
    let tc = decimal(c as nat);
    let td = decimal(d as nat);
    split_of_plain(ta, '.');
    split_of_extended(ta, '.', tb);
    let ab = ta.push('.') + tb;
    split_of_extended(ab, '.', tc);
    let abc = ab.push('.') + tc;
    split_of_extended(abc, '.', td);
    assert(ipv4_text(a, b, c, d) =~= abc.push('.') + td);
    assert(split(ipv4_text(a, b, c, d), '.') =~= seq![ta, tb, tc, td]);
}

// ---------------------------------------------------------------------------
// Names
// ---------------------------------------------------------------------------
/// The wire form of one label.
spec fn label_wire(label: Seq<char>) -> Seq<u8> {
    seq![encode_utf8(label).len() as u8] + encode_utf8(label)
}

proof fn labels_wire_from_front(labels: Seq<Seq<char>>)
    requires
        labels.len() > 0,
    ensures
        labels_wire(labels) == label_wire(labels[0]) + labels_wire(labels.drop_first()),
    decreases labels.len(),
{
    if labels.len() == 1 {
        assert(labels.drop_last() =~= Seq::empty());
        assert(labels.drop_first() =~= Seq::empty());
        assert(labels_wire(labels) =~= label_wire(labels[0]) + labels_wire(labels.drop_first()));
    } else {
        labels_wire_from_front(labels.drop_last());
        assert(labels.drop_last().drop_first() =~= labels.drop_first().drop_last());
        assert(labels.drop_first().last() == labels.last());
        assert(labels_wire(labels) =~= label_wire(labels[0]) + labels_wire(labels.drop_first()));
    }
}

proof fn wire_labels_are_read(d: Seq<u8>, o: int, labels: Seq<Seq<char>>)
    requires
        0 <= o,
        o + labels_wire(labels).len() + 1 <= d.len(),
        d.len() <= usize::MAX,
        d.subrange(o, o + labels_wire(labels).len() + 1) == labels_wire(labels).push(0u8),
        forall|i: int| 0 <= i < labels.len() ==> valid_label(#[trigger] labels[i]),
    ensures
        labels_at(d, o) == Ok::<(Seq<Seq<char>>, int), HttpsErrorView>(
            (labels, o + labels_wire(labels).len() + 1),
        ),
        name_end(d, o) == Ok::<int, DnsError>(o + labels_wire(labels).len() + 1),
    decreases labels.len(),
{
    let w = labels_wire(labels).push(0u8);
    let part = d.subrange(o, o + w.len());
    if labels.len() == 0 {
        assert(part[0] == 0u8);
        assert(d[o] == 0u8);
        assert(labels =~= Seq::empty());
    } else {
        labels_wire_from_front(labels);
        let octets = encode_utf8(labels[0]);
        let rest = labels.drop_first();
        assert(valid_label(labels[0]));
        assert(w =~= (label_wire(labels[0]) + labels_wire(rest)).push(0u8));
        assert(part[0] == w[0]);
        assert(d[o] == octets.len());
        let next = o + 1 + octets.len();
        assert(d.subrange(o + 1, next) =~= octets) by {
            assert forall|i: int| 0 <= i < octets.len() implies d.subrange(o + 1, next)[i]
                == octets[i] by {
                assert(part[i + 1] == w[i + 1]);
            }
        }
        assert(d.subrange(next, next + labels_wire(rest).len() + 1) =~= labels_wire(rest).push(
            0u8,
        )) by {
            assert forall|i: int| 0 <= i < labels_wire(rest).len() + 1 implies d.subrange(
                next,
                next + labels_wire(rest).len() + 1,
            )[i] == labels_wire(rest).push(0u8)[i] by {
                assert(part[i + 1 + octets.len()] == w[i + 1 + octets.len()]);
            }
        }
        assert(forall|i: int| 0 <= i < rest.len() ==> rest[i] == labels[i + 1]);
        wire_labels_are_read(d, next, rest);
        encode_utf8_valid_utf8(labels[0]);
        encode_utf8_decode_utf8(labels[0]);
        assert(seq![labels[0]] + rest =~= labels);
    }
}

proof fn join_of_split(s: Seq<char>)
    ensures
        join(split(s, '.'), "."@) == s,
    decreases s.len(),
{
    reveal_strlit(".");
    split_is_never_empty(s, '.');
    if s.len() == 0 {
        assert(s =~= Seq::empty());
    } else {
        let t = s.drop_last();
        join_of_split(t);
        split_is_never_empty(t, '.');
        let before = split(t, '.');
        let after = split(s, '.');
        if s.last() == '.' {
            assert(after.drop_last() =~= before);
            assert(join(after, "."@) =~= s);
        } else {
            assert(after.drop_last() =~= before.drop_last());
            assert(after.last() == before.last().push(s.last()));
            assert(t.push(s.last()) =~= s);
            if after.len() == 1 {
                assert(before.len() == 1);
                assert(join(before, "."@) == before[0]);
                assert(join(after, "."@) == after[0]);
            } else {
                assert(join(before, "."@) == join(before.drop_last(), "."@) + "."@ + before.last());
                assert(join(after, "."@) == join(after.drop_last(), "."@) + "."@ + after.last());
                assert(join(after, "."@) =~= join(before, "."@).push(s.last()));
            }
        }
    }
}

/// The name that a query writes is read back, whatever stands behind it: the
/// host name without the full stops at its end, and with it the number of octets
/// that were written.
pub proof fn written_name_is_read_back(host: Seq<char>, tail: Seq<u8>)
    requires
        encodable_name(host),
        name_wire(host).len() + tail.len() <= usize::MAX,
    ensures
        wire_name(name_wire(host) + tail) == Ok::<(Seq<char>, int), HttpsErrorView>(
            (trim_end_char(host, '.'), name_wire(host).len() as int),
        ),
{
    let w = name_wire(host);
    let d = w + tail;
    let name = trim_end_char(host, '.');
    assert(d.subrange(0, w.len() as int) =~= w);
    if name.len() == 0 {
        let labels = Seq::<Seq<char>>::empty();
        assert(labels_wire(labels).push(0u8) =~= w);
        wire_labels_are_read(d, 0, labels);
        assert(name =~= Seq::empty());
    } else {
        wire_labels_are_read(d, 0, host_labels(host));
        join_of_split(name);
    }
}

/// A reader of the query finds the end of the question's name where the record
/// type starts: four octets before the end.
pub proof fn query_name_ends_before_its_type(host: Seq<char>, record_type: u16)
    requires
        encodable_name(host),
        query_wire(host, record_type).len() <= usize::MAX,
    ensures
        name_end(query_wire(host, record_type), 12) == Ok::<int, DnsError>(
            query_wire(host, record_type).len() - 4,
        ),
{
    let q = query_wire(host, record_type);
    let w = name_wire(host);
    assert(query_head().len() == 12);
    assert(q.subrange(12, 12 + w.len() as int) =~= w);
    let labels = if trim_end_char(host, '.').len() == 0 {
        Seq::empty()
    } else {
        host_labels(host)
    };
    assert(labels_wire(labels).push(0u8) =~= w);
    wire_labels_are_read(q, 12, labels);
}

// ---------------------------------------------------------------------------
// The generic form of record data
// ---------------------------------------------------------------------------
spec fn no_space(s: Seq<char>) -> bool {
    forall|i: int| 0 <= i < s.len() ==> !white_space(#[trigger] s[i])
}

proof fn words_skip_leading_space(c: char, s: Seq<char>)
    requires
        white_space(c),
    ensures
        words(seq![c] + s) == words(s),
    decreases s.len(),
{
    let whole = seq![c] + s;
    if s.len() == 0 {
        assert(whole.drop_last() =~= Seq::empty());
        assert(whole.last() == c);
        assert(words(Seq::<char>::empty()) =~= Seq::empty());
        assert(s =~= Seq::empty());
    } else {
        assert(whole.drop_last() =~= seq![c] + s.drop_last());
        words_skip_leading_space(c, s.drop_last());
        assert(whole.last() == s.last());
        if s.len() >= 2 {
            assert(whole[whole.len() - 2] == s[s.len() - 2]);
        } else {
            assert(whole[whole.len() - 2] == c);
        }
    }
}

proof fn words_of_trimmed(s: Seq<char>)
    ensures
        words(trim(s)) == words(s),
{
    words_of_trimmed_start(s);
    words_of_trimmed_end(trim_start(s));
}

proof fn words_of_trimmed_start(s: Seq<char>)
    ensures
        words(trim_start(s)) == words(s),
    decreases s.len(),
{
    if s.len() > 0 && white_space(s[0]) {
        words_skip_leading_space(s[0], s.drop_first());
        assert(seq![s[0]] + s.drop_first() =~= s);
        words_of_trimmed_start(s.drop_first());
    }
}

proof fn words_of_trimmed_end(s: Seq<char>)
    ensures
        words(trim_end(s)) == words(s),
    decreases s.len(),
{
    if s.len() > 0 && white_space(s.last()) {
        words_of_trimmed_end(s.drop_last());
    }
}

proof fn words_of_next(s: Seq<char>, w: Seq<char>)
    requires
        s.len() > 0 ==> white_space(s.last()),
        w.len() > 0,
        no_space(w),
    ensures
        words(s + w) == words(s).push(w),
    decreases w.len(),
{
    let whole = s + w;
    assert(whole.last() == w.last());
    assert(whole.drop_last() =~= s + w.drop_last());
    assert(!white_space(w[w.len() - 1]));
    if w.len() == 1 {
        assert(w.drop_last() =~= Seq::empty());
        assert(whole.drop_last() =~= s);
        if s.len() > 0 {
            assert(whole[whole.len() - 2] == s.last());
        }
        assert(seq![w.last()] =~= w);
    } else {
        let u = w.drop_last();
        assert(forall|i: int| 0 <= i < u.len() ==> u[i] == w[i]);
        words_of_next(s, u);
        assert(whole[whole.len() - 2] == w[w.len() - 2]);
        assert(words(s).push(u).drop_last() =~= words(s));
        assert(u.push(w.last()) =~= w);
    }
}

proof fn hex_pair_is_plain(b: u8)
    ensures
        no_space(hex_pair(b)),
        hex_pair(b).len() == 2,
{
}

proof fn words_of_hex(head: Seq<char>, data: Seq<u8>)
    requires
        head.len() > 0,
        white_space(head.last()),
    ensures
        words(head + join(data.map_values(|b: u8| hex_pair(b)), " "@)) == words(head)
            + data.map_values(|b: u8| hex_pair(b)),
    decreases data.len(),
{
    reveal_strlit(" ");
    let pairs = data.map_values(|b: u8| hex_pair(b));
    if data.len() == 0 {
        assert(head + join(pairs, " "@) =~= head);
        assert(words(head) + pairs =~= words(head));
    } else {
        let fewer = data.drop_last();
        let before = fewer.map_values(|b: u8| hex_pair(b));
        assert(pairs.drop_last() =~= before);
        assert(pairs.last() == hex_pair(data.last()));
        hex_pair_is_plain(data.last());
        if data.len() == 1 {
            words_of_next(head, pairs[0]);
            assert(words(head) + pairs =~= words(head).push(pairs[0]));
        } else {
            words_of_hex(head, fewer);
            let s = head + join(before, " "@) + " "@;
            assert(s.drop_last() =~= head + join(before, " "@));
            assert(s.last() == ' ');
            words_of_next(s, pairs.last());
            assert(head + join(pairs, " "@) =~= s + pairs.last());
            assert(words(head) + pairs =~= (words(head) + before).push(pairs.last()));
        }
    }
}

proof fn hex_octets_of_pairs(data: Seq<u8>)
    ensures
        hex_octets(data.map_values(|b: u8| hex_pair(b))) == Ok::<Seq<u8>, HttpsErrorView>(data),
    decreases data.len(),
{
    let pairs = data.map_values(|b: u8| hex_pair(b));
    if data.len() > 0 {
        let fewer = data.drop_last();
        assert(pairs.drop_last() =~= fewer.map_values(|b: u8| hex_pair(b)));
        hex_octets_of_pairs(fewer);
        hex_is_read_back(data.last());
        assert(pairs.last() == hex_pair(data.last()));
        assert(fewer.push(data.last()) =~= data);
    } else {
        assert(data =~= Seq::empty());
    }
}

proof fn trim_keeps_start(s: Seq<char>)
    requires
        s.len() >= 2,
        !white_space(s[0]),
        !white_space(s[1]),
    ensures
        trim(s).len() >= 2,
        trim(s).take(2) == s.take(2),
        trim(s).skip(2) == trim_end(s.skip(2)),
    decreases s.len(),
{
    assert(trim_start(s) == s);
    if s.len() > 2 && white_space(s.last()) {
        let t = s.drop_last();
        trim_keeps_start(t);
        assert(trim(s) == trim(t)) by {
            assert(trim_start(t) == t);
        }
        assert(s.take(2) =~= t.take(2));
        assert(s.skip(2).drop_last() =~= t.skip(2));
        assert(s.skip(2).last() == s.last());
    } else {
        assert(trim(s) == s);
        if s.len() > 2 {
            assert(s.skip(2).last() == s.last());
        }
    }
}

/// Record data that is written in the generic form is read back.
pub proof fn hex_rdata_is_read_back(data: Seq<u8>)
    requires
        data.len() <= usize::MAX,
    ensures
        generic_octets(hex_rdata(data)) == Ok::<Seq<u8>, HttpsErrorView>(data),
{
    reveal_strlit("\\# ");
    reveal_strlit("\\#");
    reveal_strlit(" ");
    let raw = hex_rdata(data);
    let pairs = data.map_values(|b: u8| hex_pair(b));
    let count = decimal(data.len());
    decimal_digits(data.len());
    decimal_is_read_back(data.len(), usize::MAX as nat);
    trim_keeps_start(raw);
    assert(raw.take(2) =~= "\\#"@);
    assert(starts_with(trim(raw), "\\#"@));
    // The words behind the mark: the count, and then the pairs.
    let body = raw.skip(2);
    let lead = " "@;
    assert(lead.drop_last() =~= Seq::empty());
    assert(words(Seq::<char>::empty()) =~= Seq::empty());
    assert(lead.last() == ' ');
    assert(words(lead) =~= Seq::empty());
    assert(no_space(count)) by {
        assert forall|i: int| 0 <= i < count.len() implies !white_space(#[trigger] count[i]) by {
            assert(0x30 <= count[i] as u32 <= 0x39);
        }
    }
    words_of_next(lead, count);
    let head = lead + count + " "@;
    assert(head.drop_last() =~= lead + count);
    assert(words(head) =~= seq![count]);
    words_of_hex(head, data);
    assert(body =~= head + join(pairs, " "@));
    words_of_trimmed_end(body);
    words_of_trimmed(trim_end(body));
    let parts = words(trim(trim(raw).skip(2)));
    assert(parts == seq![count] + pairs);
    assert(parts.skip(1) =~= pairs);
    hex_octets_of_pairs(data);
}

/// An HTTPS record that came in a DNS message announces what its data does:
/// writing the data in the generic form and reading that form loses nothing.
pub proof fn wire_record_keeps_its_binding(data: Seq<u8>)
    requires
        data.len() <= usize::MAX,
    ensures
        record_binding(hex_rdata(data)) == wire_binding(data),
{
    reveal_strlit("\\# ");
    reveal_strlit("\\#");
    let raw = hex_rdata(data);
    hex_rdata_is_read_back(data);
    trim_keeps_start(raw);
    trim_twice(raw);
    assert(raw.take(2) =~= "\\#"@);
}

proof fn trim_twice(s: Seq<char>)
    ensures
        trim(trim(s)) == trim(s),
{
    trim_start_has_no_space(s);
    trim_end_keeps_first(trim_start(s));
    let t = trim(s);
    assert(trim_start(t) == t);
    trim_end_twice(trim_start(s));
}

proof fn trim_start_has_no_space(s: Seq<char>)
    ensures
        trim_start(s).len() > 0 ==> !white_space(trim_start(s)[0]),
    decreases s.len(),
{
    if s.len() > 0 && white_space(s[0]) {
        trim_start_has_no_space(s.drop_first());
    }
}

proof fn trim_end_keeps_first(s: Seq<char>)
    ensures
        trim_end(s).len() > 0 ==> s.len() > 0 && trim_end(s)[0] == s[0],
    decreases s.len(),
{
    if s.len() > 0 && white_space(s.last()) {
        trim_end_keeps_first(s.drop_last());
    }
}

proof fn trim_end_twice(s: Seq<char>)
    ensures
        trim_end(trim_end(s)) == trim_end(s),
    decreases s.len(),
{
    if s.len() > 0 && white_space(s.last()) {
        trim_end_twice(s.drop_last());
    }
}

// ---------------------------------------------------------------------------
// Responses
// ---------------------------------------------------------------------------
proof fn answers_from_are_wanted(p: Seq<u8>, o: int, n: nat, wanted: u16)
    ensures
        answers_from(p, o, n, wanted) matches Ok(answers) ==> forall|i: int|
            0 <= i < answers.len() ==> (#[trigger] answers[i]).record_type == wanted
                && answers[i].ttl is Some,
    decreases n,
{
    if n > 0 {
        if let Ok(r) = record_at(p, o) {
            answers_from_are_wanted(p, r.end, (n - 1) as nat, wanted);
        }
    }
}

/// A response answers only what was asked, and says how long each answer may
/// be kept.
pub proof fn answers_are_of_the_wanted_type(p: Seq<u8>, wanted: u16, answers: Seq<AnswerView>)
    requires
        response_answers(p, wanted) == Ok::<Seq<AnswerView>, DnsError>(answers),
    ensures
        forall|i: int|
            0 <= i < answers.len() ==> (#[trigger] answers[i]).record_type == wanted
                && answers[i].ttl is Some,
{
    if let Ok(o) = crate::dns::questions_end(p, 12, crate::dns::be16(p, 4) as nat) {
        answers_from_are_wanted(p, o, crate::dns::be16(p, 6) as nat, wanted);
    }
}

/// The lifetime of some answers is the least of theirs.
pub proof fn shortest_ttl_is_the_least(answers: Seq<AnswerView>)
    ensures
        shortest_ttl(answers) is None <==> forall|i: int|
            0 <= i < answers.len() ==> (#[trigger] answers[i]).ttl is None,
        forall|i: int|
            0 <= i < answers.len() ==> ((#[trigger] answers[i]).ttl matches Some(t)
                ==> shortest_ttl(
                answers,
            )->0 <= t),
        shortest_ttl(answers) matches Some(least) ==> exists|i: int|
            0 <= i < answers.len() && (#[trigger] answers[i]).ttl == Some(least),
    decreases answers.len(),
{
    if answers.len() > 0 {
        let fewer = answers.drop_last();
        shortest_ttl_is_the_least(fewer);
        assert(forall|i: int| 0 <= i < fewer.len() ==> #[trigger] answers[i] == fewer[i]);
        let last = answers[answers.len() - 1];
        assert(last == answers.last());
        if shortest_ttl(answers) is None {
            assert forall|i: int| 0 <= i < answers.len() implies (#[trigger] answers[i]).ttl
                is None by {
                if i < fewer.len() {
                    assert(answers[i] == fewer[i]);
                }
            }
        }
        if let Some(least) = shortest_ttl(answers) {
            if last.ttl is Some && last.ttl->0 == least {
                assert(answers[answers.len() - 1].ttl is Some);
            } else {
                let i = choose|i: int|
                    0 <= i < fewer.len() && (#[trigger] fewer[i]).ttl == Some(least);
                assert(answers[i] == fewer[i]);
            }
        }
    }
}

} // verus!
