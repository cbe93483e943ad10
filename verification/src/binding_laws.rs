//! How HTTPS records are read, in each of their forms, for every record.
use vstd::prelude::*;
use vstd::utf8::{decode_utf8, valid_utf8};
use crate::dns::{be16, encodable_name, name_wire};
use crate::https_rr::{
    config_public_name, ech_field, ech_list, ech_public_name, ech_text_list, ech_value,
    first_ech_value, generic_octets, hex_octets, labels_at, record_binding, spelled_name,
    text_binding, utf8_failure, wire_binding, wire_name, with_ech, with_parameters, BindingView,
    EchError, HttpsErrorOf, HttpsErrorView,
};
use crate::radix64::{
    base64_char, base64_either, base64_failure, base64_octets_of_text, base64_text,
    base64_text_is_plain,
};
use crate::record_laws::written_name_is_read_back;
use crate::text::{
    lower, number, number_fault, starts_with, trim, trim_char, trim_end_char, trim_start_char,
    words,
};

verus! {

// ---------------------------------------------------------------------------
// Encrypted Client Hello
// ---------------------------------------------------------------------------
/// A list of ECH configurations is taken whole, and exactly if the length in its first
/// two octets is that of the rest.
pub proof fn an_ech_list_is_taken_whole(value: Seq<u8>)
    ensures
        value.len() < 2 ==> ech_list(value) == Err::<Seq<u8>, HttpsErrorView>(
            HttpsErrorOf::EchTooShort,
        ),
        value.len() >= 2 ==> (ech_list(value) is Ok <==> value.len() == value[0] * 256 + value[1]
            + 2),
        ech_list(value) matches Ok(list) ==> list == value,
{
}

/// The public name of a list is the one in its first configuration, whatever key and
/// cipher suites stand before it and whatever stands behind it.
pub proof fn the_public_name_of_a_list_is_found(
    list: Seq<u8>,
    head: Seq<u8>,
    key: Seq<u8>,
    suites: Seq<u8>,
    longest: u8,
    name: Seq<u8>,
    rest: Seq<u8>,
)
    requires
        head.len() == 11,
        ({
            let s = suites.len();
            let config = head.skip(2) + key + seq![(s / 256) as u8, (s % 256) as u8] + suites
                + seq![longest, name.len() as u8] + name + rest;
            &&& s <= 0xffff
            &&& list.len() >= 2 + config.len()
            &&& list.subrange(2, 2 + config.len() as int) == config
            &&& list[0] * 256 + list[1] == config.len()
            &&& head[4] * 256 + head[5] + 4 <= config.len()
        }),
        list[0] == head[0],
        list[1] == head[1],
        head[2] == 0xfe,
        head[3] == 0x0d,
        head[9] * 256 + head[10] == key.len(),
        name.len() <= 255,
        valid_utf8(name),
        trim(decode_utf8(name)).len() > 0,
    ensures
        ech_public_name(list) == Ok::<Seq<char>, EchError>(trim(decode_utf8(name))),
{
    let s = suites.len();
    let marks = seq![(s / 256) as u8, (s % 256) as u8];
    let ends = seq![longest, name.len() as u8];
    let config = head.skip(2) + key + marks + suites + ends + name + rest;
    let k = key.len() as int;
    assert(be16(list, 0) == config.len());
    assert(config[0] == 0xfe && config[1] == 0x0d);
    assert(be16(config, 0) == 0xfe0d);
    assert(config[2] == head[4] && config[3] == head[5]);
    assert(config[7] == head[9] && config[8] == head[10]);
    assert(be16(config, 7) == k);
    assert(ech_field(config, 7) == Some(k));
    assert(config[9 + k] == marks[0]);
    assert(config[9 + k + 1] == marks[1]);
    assert(be16(config, 9 + k) == s);
    assert(ech_field(config, 9 + k) == Some(s as int));
    let o = 9 + k + 2 + s + 1;
    assert(config[o] == ends[1]);
    assert(config.subrange(o + 1, o + 1 + config[o]) =~= name);
}

/// A name is trimmed; one that is no UTF-8, or of white space alone, is none.
pub proof fn a_public_name_is_text(name: Seq<u8>)
    ensures
        spelled_name(name) is Ok <==> valid_utf8(name) && trim(decode_utf8(name)).len() > 0,
        spelled_name(name) matches Ok(text) ==> text == trim(decode_utf8(name)),
        !valid_utf8(name) ==> spelled_name(name) == Err::<Seq<char>, EchError>(
            EchError::NameNotUtf8,
        ),
{
}

/// A configuration of another version has no public name that could be read.
pub proof fn another_version_has_no_public_name(config: Seq<u8>)
    requires
        config.len() >= 2,
        config[0] != 0xfe || config[1] != 0x0d,
    ensures
        config_public_name(config) is Err,
{
    assert(config[0] * 256 + config[1] != 0xfe0d);
}

/// A list whose length is another is refused with both lengths.
pub proof fn an_ech_list_of_another_length_is_refused(value: Seq<u8>)
    requires
        value.len() >= 2,
        value.len() != value[0] * 256 + value[1] + 2,
    ensures
        ech_list(value) == Err::<Seq<u8>, HttpsErrorView>(
            HttpsErrorOf::EchLengthMismatch {
                declared: (value[0] * 256 + value[1]) as u64,
                actual: (value.len() - 2) as u64,
            },
        ),
{
}

/// A list has no public name if it is cut off: before its length, before what that
/// announces, or before its first configuration has a version and a length.
pub proof fn a_cut_off_list_has_no_public_name(list: Seq<u8>)
    ensures
        list.len() < 2 ==> ech_public_name(list) == Err::<Seq<char>, EchError>(
            EchError::FieldTruncated,
        ),
        list.len() >= 2 && list.len() < 2 + list[0] * 256 + list[1] ==> ech_public_name(list)
            == Err::<Seq<char>, EchError>(EchError::ListTruncated),
        list.len() >= 2 && list[0] * 256 + list[1] < 4 ==> ech_public_name(list) == Err::<
            Seq<char>,
            EchError,
        >(EchError::ListTruncated),
{
}

/// The first configuration has no public name if it is cut off: before what its length
/// announces, before the length of its key or of its cipher suites, before the length of
/// the name, or in the name. One of another version is not looked into.
pub proof fn a_cut_off_configuration_has_no_public_name(config: Seq<u8>)
    requires
        config.len() >= 4,
    ensures
        ({
            let version = (config[0] * 256 + config[1]) as u16;
            let found = config_public_name(config);
            &&& version != 0xfe0d ==> found == Err::<Seq<char>, EchError>(
                EchError::UnsupportedVersion(version),
            )
            &&& version == 0xfe0d && config.len() < 4 + config[2] * 256 + config[3] ==> found
                == Err::<Seq<char>, EchError>(EchError::ContentsTruncated)
            &&& version == 0xfe0d && config.len() >= 4 + config[2] * 256 + config[3] ==> {
                let k = 9 + config[7] * 256 + config[8];
                let o = k + 2 + config[k] * 256 + config[k + 1] + 1;
                &&& config.len() < 9 ==> found == Err::<Seq<char>, EchError>(
                    EchError::FieldTruncated,
                )
                &&& config.len() >= 9 && config.len() < k + 2 ==> found == Err::<
                    Seq<char>,
                    EchError,
                >(EchError::FieldTruncated)
                &&& config.len() >= 9 && config.len() >= k + 2 && config.len() <= o ==> found
                    == Err::<Seq<char>, EchError>(EchError::NameLengthMissing)
                &&& config.len() >= 9 && config.len() >= k + 2 && config.len() > o
                    && config.len() < o + 1 + config[o] ==> found == Err::<Seq<char>, EchError>(
                    EchError::NameTruncated,
                )
                &&& config.len() >= 9 && config.len() >= k + 2 && config.len() >= o + 1 + config[o]
                    && config.len() > o ==> found == spelled_name(
                    config.subrange(o + 1, o + 1 + config[o]),
                )
            }
        }),
{
}

// ---------------------------------------------------------------------------
// The presentation form
// ---------------------------------------------------------------------------
/// A field is for ECH exactly if what stands before its first equals sign is `ech`, in
/// whatever case; what stands behind it is the value, whatever is in it.
pub proof fn an_ech_field_has_its_value(key: Seq<char>, value: Seq<char>)
    requires
        !key.contains('='),
    ensures
        ech_value(key.push('=') + value) == if lower(key) == lower("ech"@) {
            Some(value)
        } else {
            None
        },
        ech_value(key) is None,
{
    let field = key.push('=') + value;
    let n = key.len() as int;
    assert(field[n] == '=');
    assert(field.contains('='));
    field.index_of_first_ensures('=');
    let first = field.index_of_first('=')->0;
    assert(first == n) by {
        if first < n {
            assert(field[first] == key[first]);
            assert(key.contains(key[first]));
        }
    }
    assert(field.take(n) =~= key);
    assert(field.skip(n + 1) =~= value);
}

/// The first field that is for ECH counts, wherever it stands.
pub proof fn the_first_ech_field_counts(
    before: Seq<Seq<char>>,
    field: Seq<char>,
    behind: Seq<Seq<char>>,
)
    requires
        forall|i: int| 0 <= i < before.len() ==> ech_value(#[trigger] before[i]) is None,
    ensures
        ech_value(field) is Some ==> first_ech_value(before + seq![field] + behind) == ech_value(
            field,
        ),
        first_ech_value(before) is None,
    decreases before.len(),
{
    let all = before + seq![field] + behind;
    if before.len() == 0 {
        assert(all[0] == field);
    } else {
        let fewer = before.drop_first();
        assert forall|i: int| 0 <= i < fewer.len() implies ech_value(#[trigger] fewer[i])
            is None by {
            assert(fewer[i] == before[i + 1]);
        }
        the_first_ech_field_counts(fewer, field, behind);
        assert(all[0] == before[0]);
        assert(all.drop_first() =~= fewer + seq![field] + behind);
        assert(ech_value(before[0]) is None);
    }
}

proof fn quotes_are_taken_off(s: Seq<char>, c: char)
    requires
        s.len() > 0,
        s[0] != c,
        s.last() != c,
    ensures
        trim_char(s, c) == s,
        trim_char(seq![c] + s + seq![c], c) == s,
{
    let q = seq![c] + s + seq![c];
    assert(q[0] == c);
    let t = q.drop_first();
    assert(t =~= s.push(c));
    assert(t[0] == s[0]);
    assert(trim_start_char(t, c) == t);
    assert(trim_start_char(q, c) == t);
    assert(t.last() == c);
    assert(t.drop_last() =~= s);
    assert(trim_end_char(t, c) == trim_end_char(s, c));
}

/// A list of ECH configurations that is written in base64, in quotation marks or not, is
/// read back.
pub proof fn a_written_ech_list_is_read_back(list: Seq<u8>)
    requires
        list.len() >= 2,
        list.len() == list[0] * 256 + list[1] + 2,
    ensures
        ech_text_list(base64_text(list, false, true)) == Ok::<Seq<u8>, HttpsErrorView>(list),
        ech_text_list(seq!['"'] + base64_text(list, false, true) + seq!['"']) == Ok::<
            Seq<u8>,
            HttpsErrorView,
        >(list),
{
    let t = base64_text(list, false, true);
    base64_octets_of_text(list, true);
    base64_text_is_plain(list, true);
    assert(t.len() > 0);
    assert(base64_char(t[0]));
    assert(base64_char(t[t.len() - 1]));
    quotes_are_taken_off(t, '"');
}

/// A record in the presentation form has the priority and the target that it names; the
/// target `.` is none, and full stops at the end of any other do not count.
pub proof fn a_record_has_its_priority_and_target(raw: Seq<char>)
    requires
        text_binding(raw) is Ok,
    ensures
        ({
            let fields = words(raw);
            let binding = text_binding(raw)->Ok_0;
            &&& fields.len() >= 2
            &&& number(fields[0], 10, 0xffff) == Some(binding.priority as nat)
            &&& fields[1] == "."@ ==> binding.target_name is None
            &&& fields[1] != "."@ ==> binding.target_name == Some(trim_end_char(fields[1], '.'))
            &&& binding.ech_config_list is Some <==> first_ech_value(fields.skip(2)) is Some
            &&& binding.ech_config_list is None ==> binding.ech_public_name is None
        }),
{
}

/// A record in the presentation form is read if and only if it has a priority and a
/// target, and its ECH field, if it has one, holds a list.
pub proof fn which_records_are_read(raw: Seq<char>)
    ensures
        ({
            let fields = words(raw);
            text_binding(raw) is Ok <==> fields.len() >= 2 && number(fields[0], 10, 0xffff) is Some
                && (first_ech_value(fields.skip(2)) matches Some(value) ==> ech_text_list(value)
                is Ok)
        }),
{
}

/// A record in the presentation form that is refused is told what it lacks first: the
/// priority, one that is a number, the target, or an ECH field that can be read.
pub proof fn why_a_record_is_refused(raw: Seq<char>)
    ensures
        ({
            let fields = words(raw);
            &&& fields.len() == 0 ==> text_binding(raw) == Err::<BindingView, HttpsErrorView>(
                HttpsErrorOf::MissingPriority,
            )
            &&& fields.len() > 0 && number(fields[0], 10, 0xffff) is None ==> text_binding(raw)
                == Err::<BindingView, HttpsErrorView>(
                HttpsErrorOf::InvalidPriority(number_fault(fields[0], 10, 0xffff)),
            )
            &&& fields.len() == 1 && number(fields[0], 10, 0xffff) is Some ==> text_binding(raw)
                == Err::<BindingView, HttpsErrorView>(HttpsErrorOf::MissingTarget)
            &&& fields.len() > 1 && number(fields[0], 10, 0xffff) is Some && (first_ech_value(
                fields.skip(2),
            ) matches Some(value) && ech_text_list(value) is Err) ==> text_binding(raw) == Err::<
                BindingView,
                HttpsErrorView,
            >(ech_text_list(first_ech_value(fields.skip(2))->0)->Err_0)
        }),
{
}

/// A record that announces ECH is read with its list, and with the public name in it.
pub proof fn an_announced_list_is_found(
    raw: Seq<char>,
    priority: Seq<char>,
    target: Seq<char>,
    before: Seq<Seq<char>>,
    key: Seq<char>,
    list: Seq<u8>,
    behind: Seq<Seq<char>>,
)
    requires
        words(raw) == seq![priority, target] + before + seq![
            key.push('=') + base64_text(list, false, true),
        ] + behind,
        number(priority, 10, 0xffff) is Some,
        !key.contains('='),
        lower(key) == lower("ech"@),
        forall|i: int| 0 <= i < before.len() ==> ech_value(#[trigger] before[i]) is None,
        list.len() >= 2,
        list.len() == list[0] * 256 + list[1] + 2,
    ensures
        text_binding(raw) is Ok,
        text_binding(raw)->Ok_0.ech_config_list == Some(list),
        text_binding(raw)->Ok_0.ech_public_name == (match ech_public_name(list) {
            Ok(name) => Some(name),
            Err(_) => None,
        }),
{
    let field = key.push('=') + base64_text(list, false, true);
    an_ech_field_has_its_value(key, base64_text(list, false, true));
    the_first_ech_field_counts(before, field, behind);
    a_written_ech_list_is_read_back(list);
    assert(words(raw).skip(2) =~= before + seq![field] + behind);
    assert(words(raw)[0] == priority);
}

/// A list of ECH configurations changes nothing else of a binding.
pub proof fn ech_changes_nothing_else(binding: BindingView, list: Seq<u8>)
    ensures
        with_ech(binding, list).priority == binding.priority,
        with_ech(binding, list).target_name == binding.target_name,
        with_ech(binding, list).ech_config_list == Some(list),
        with_ech(binding, list).ech_public_name == (match ech_public_name(list) {
            Ok(name) => Some(name),
            Err(_) => None,
        }),
{
}

/// White space around a record does not count, and what follows `\#` is in the generic
/// form.
pub proof fn a_record_shows_its_form(raw: Seq<char>)
    ensures
        !starts_with(trim(raw), "\\#"@) ==> record_binding(raw) == text_binding(trim(raw)),
        starts_with(trim(raw), "\\#"@) && generic_octets(trim(raw)) is Ok ==> record_binding(raw)
            == wire_binding(generic_octets(trim(raw))->Ok_0),
        starts_with(trim(raw), "\\#"@) && generic_octets(trim(raw)) is Err ==> record_binding(raw)
            == Err::<BindingView, HttpsErrorView>(generic_octets(trim(raw))->Err_0),
{
}

// ---------------------------------------------------------------------------
// The generic form
// ---------------------------------------------------------------------------
/// Words in hexadecimal give one octet each, in order; they are refused if one of them is
/// none.
pub proof fn each_word_is_an_octet(parts: Seq<Seq<char>>)
    ensures
        hex_octets(parts) is Ok <==> forall|i: int|
            0 <= i < parts.len() ==> number(#[trigger] parts[i], 16, 255) is Some,
        hex_octets(parts) matches Ok(octets) ==> octets.len() == parts.len() && forall|i: int|
            0 <= i < parts.len() ==> number(#[trigger] parts[i], 16, 255) == Some(octets[i] as nat),
    decreases parts.len(),
{
    if parts.len() > 0 {
        let fewer = parts.drop_last();
        let last = parts.len() - 1;
        each_word_is_an_octet(fewer);
        assert(forall|i: int| 0 <= i < fewer.len() ==> #[trigger] fewer[i] == parts[i]);
        assert(parts.last() == parts[last]);
        if hex_octets(parts) is Ok {
            assert(hex_octets(fewer) is Ok);
            let octets = hex_octets(parts)->Ok_0;
            let before = hex_octets(fewer)->Ok_0;
            assert(number(parts.last(), 16, 255)->0 <= 255);
            assert forall|i: int| 0 <= i < parts.len() implies number(#[trigger] parts[i], 16, 255)
                == Some(octets[i] as nat) by {
                if i < last {
                    assert(fewer[i] == parts[i]);
                    assert(octets[i] == before[i]);
                }
            }
        } else {
            if hex_octets(fewer) is Err {
                let i = choose|i: int|
                    0 <= i < fewer.len() && number(#[trigger] fewer[i], 16, 255) is None;
                assert(parts[i] == fewer[i]);
            }
        }
    }
}

/// The generic form is `\#`, the number of octets, and each of them; it is refused if the
/// number is another.
pub proof fn the_generic_form_counts_its_octets(raw: Seq<char>)
    ensures
        ({
            let parts = words(trim(trim(raw).skip(2)));
            generic_octets(raw) is Ok <==> starts_with(trim(raw), "\\#"@) && parts.len() > 0
                && number(parts[0], 10, usize::MAX as nat) == Some((parts.len() - 1) as nat)
                && hex_octets(parts.skip(1)) is Ok
        }),
        generic_octets(raw) matches Ok(octets) ==> hex_octets(
            words(trim(trim(raw).skip(2))).skip(1),
        ) == Ok::<Seq<u8>, HttpsErrorView>(octets),
{
    reveal_strlit("\\#");
    let parts = words(trim(trim(raw).skip(2)));
    if parts.len() > 0 {
        each_word_is_an_octet(parts.skip(1));
    }
}

/// A word that is no octet is named, the first if there are several.
pub proof fn the_first_word_that_is_no_octet_is_named(
    before: Seq<Seq<char>>,
    word: Seq<char>,
    behind: Seq<Seq<char>>,
)
    requires
        forall|i: int|
            0 <= i < before.len() ==> number(#[trigger] before[i], 16, 255) is Some,
        number(word, 16, 255) is None,
    ensures
        hex_octets(before + seq![word] + behind) == Err::<Seq<u8>, HttpsErrorView>(
            HttpsErrorOf::InvalidHexByte { part: word, fault: number_fault(word, 16, 255) },
        ),
    decreases behind.len(),
{
    let all = before + seq![word] + behind;
    if behind.len() == 0 {
        each_word_is_an_octet(before);
        assert(all.drop_last() =~= before);
        assert(all.last() == word);
    } else {
        assert(all.drop_last() =~= before + seq![word] + behind.drop_last());
        the_first_word_that_is_no_octet_is_named(before, word, behind.drop_last());
    }
}

/// A record in the generic form that is refused is told what is wrong with it first: its
/// beginning, its length, one of its octets, or their number, with the declared one first.
pub proof fn why_a_generic_record_is_refused(raw: Seq<char>)
    ensures
        ({
            let parts = words(trim(trim(raw).skip(2)));
            let declared = number(parts[0], 10, usize::MAX as nat);
            let octets = hex_octets(parts.skip(1));
            let marked = starts_with(trim(raw), "\\#"@);
            &&& !marked ==> generic_octets(raw) == Err::<Seq<u8>, HttpsErrorView>(
                HttpsErrorOf::UnexpectedFormat { raw: trim(raw) },
            )
            &&& marked && parts.len() == 0 ==> generic_octets(raw) == Err::<
                Seq<u8>,
                HttpsErrorView,
            >(HttpsErrorOf::MissingLength)
            &&& marked && parts.len() > 0 && declared is None ==> generic_octets(raw) == Err::<
                Seq<u8>,
                HttpsErrorView,
            >(HttpsErrorOf::InvalidLength(number_fault(parts[0], 10, usize::MAX as nat)))
            &&& marked && parts.len() > 0 && declared is Some && octets is Err ==> generic_octets(
                raw,
            ) == octets
            &&& marked && parts.len() > 0 && declared is Some && octets is Ok && octets->Ok_0.len()
                != declared->0 ==> generic_octets(raw) == Err::<Seq<u8>, HttpsErrorView>(
                HttpsErrorOf::LengthMismatch {
                    expected: declared->0 as u64,
                    actual: octets->Ok_0.len() as u64,
                },
            )
        }),
{
    reveal_strlit("\\#");
}

// ---------------------------------------------------------------------------
// The wire form
// ---------------------------------------------------------------------------
/// A name is read label by label: a label behind its length, and a zero at the end.
pub proof fn a_name_is_read_label_by_label(d: Seq<u8>, o: int)
    requires
        0 <= o < d.len(),
    ensures
        d[o] == 0 ==> labels_at(d, o) == Ok::<(Seq<Seq<char>>, int), HttpsErrorView>(
            (Seq::empty(), o + 1),
        ),
        d[o] >= 64 ==> labels_at(d, o) == Err::<(Seq<Seq<char>>, int), HttpsErrorView>(
            HttpsErrorOf::NameCompressed,
        ),
        0 < d[o] < 64 && o + 1 + d[o] > d.len() ==> labels_at(d, o) == Err::<
            (Seq<Seq<char>>, int),
            HttpsErrorView,
        >(HttpsErrorOf::LabelTruncated),
        0 < d[o] < 64 && o + 1 + d[o] <= d.len() && !valid_utf8(
            d.subrange(o + 1, o + 1 + d[o]),
        ) ==> labels_at(d, o) == Err::<(Seq<Seq<char>>, int), HttpsErrorView>(
            HttpsErrorOf::LabelNotUtf8 { cause: utf8_failure(d.subrange(o + 1, o + 1 + d[o])) },
        ),
        0 < d[o] < 64 && o + 1 + d[o] <= d.len() && valid_utf8(d.subrange(o + 1, o + 1 + d[o]))
            ==> labels_at(d, o) == (match labels_at(d, o + 1 + d[o]) {
            Ok((more, end)) => Ok::<(Seq<Seq<char>>, int), HttpsErrorView>(
                (seq![decode_utf8(d.subrange(o + 1, o + 1 + d[o]))] + more, end),
            ),
            Err(e) => Err(e),
        }),
{
}

/// A record in the wire form has the priority in its first two octets and the target that
/// is written behind them; what follows is its parameters.
pub proof fn a_wire_record_has_its_priority_and_target(
    high: u8,
    low: u8,
    host: Seq<char>,
    parameters: Seq<u8>,
)
    requires
        encodable_name(host),
        2 + name_wire(host).len() + parameters.len() <= usize::MAX,
    ensures
        ({
            let b = seq![high, low] + name_wire(host) + parameters;
            let name = trim_end_char(host, '.');
            wire_binding(b) == with_parameters(
                b,
                2 + name_wire(host).len() as int,
                BindingView {
                    priority: (high * 256 + low) as u16,
                    target_name: if name.len() == 0 {
                        None
                    } else {
                        Some(name)
                    },
                    ech_config_list: None,
                    ech_public_name: None,
                },
            )
        }),
{
    let b = seq![high, low] + name_wire(host) + parameters;
    assert(b.skip(2) =~= name_wire(host) + parameters);
    written_name_is_read_back(host, parameters);
    assert(b[0] == high && b[1] == low);
    assert(name_wire(host).len() > 0);
}

/// Behind the last parameter the record is read.
pub proof fn a_record_ends_behind_its_parameters(b: Seq<u8>, binding: BindingView)
    ensures
        with_parameters(b, b.len() as int, binding) == Ok::<BindingView, HttpsErrorView>(binding),
{
}

/// A parameter is a key, a length and a value. The one for ECH gives its list; any other
/// is passed over.
pub proof fn each_parameter_is_read(
    head: Seq<u8>,
    key: u16,
    value: Seq<u8>,
    rest: Seq<u8>,
    binding: BindingView,
)
    requires
        value.len() <= 0xffff,
    ensures
        ({
            let b = head + seq![
                (key / 256) as u8,
                (key % 256) as u8,
                (value.len() / 256) as u8,
                (value.len() % 256) as u8,
            ] + value + rest;
            let next = head.len() + 4 + value.len();
            &&& key != 5 ==> with_parameters(b, head.len() as int, binding) == with_parameters(
                b,
                next as int,
                binding,
            )
            &&& key == 5 && value.len() >= 2 && value.len() == value[0] * 256 + value[1] + 2
                ==> with_parameters(b, head.len() as int, binding) == with_parameters(
                b,
                next as int,
                BindingView {
                    priority: binding.priority,
                    target_name: binding.target_name,
                    ech_config_list: Some(value),
                    ech_public_name: match ech_public_name(value) {
                        Ok(name) => Some(name),
                        Err(_) => None,
                    },
                },
            )
            &&& key == 5 && !(value.len() >= 2 && value.len() == value[0] * 256 + value[1] + 2)
                ==> with_parameters(b, head.len() as int, binding) == Err::<
                BindingView,
                HttpsErrorView,
            >(ech_list(value)->Err_0) && ech_list(value) is Err
        }),
{
    let marks = seq![
        (key / 256) as u8,
        (key % 256) as u8,
        (value.len() / 256) as u8,
        (value.len() % 256) as u8,
    ];
    let b = head + marks + value + rest;
    let o = head.len() as int;
    assert(b[o] == marks[0] && b[o + 1] == marks[1] && b[o + 2] == marks[2] && b[o + 3]
        == marks[3]);
    assert(be16(b, o) == key);
    assert(be16(b, o + 2) == value.len());
    assert(b.subrange(o + 4, o + 4 + value.len() as int) =~= value);
}

/// A parameter that is cut off is refused: in its key and length, or in its value.
pub proof fn a_cut_off_parameter_is_refused(b: Seq<u8>, o: int, binding: BindingView)
    requires
        0 <= o < b.len(),
    ensures
        o + 4 > b.len() ==> with_parameters(b, o, binding) == Err::<BindingView, HttpsErrorView>(
            HttpsErrorOf::ParameterHeaderTruncated,
        ),
        o + 4 <= b.len() && o + 4 + b[o + 2] * 256 + b[o + 3] > b.len() ==> with_parameters(
            b,
            o,
            binding,
        ) == Err::<BindingView, HttpsErrorView>(HttpsErrorOf::ParameterValueTruncated),
{
}

/// A record in the wire form that is shorter than a priority and a name is refused, and so
/// is one whose name cannot be read, for the same reason as the name. A name has to end.
pub proof fn a_short_wire_record_is_refused(b: Seq<u8>)
    ensures
        b.len() < 3 ==> wire_binding(b) == Err::<BindingView, HttpsErrorView>(
            HttpsErrorOf::TooShort,
        ),
        b.len() >= 3 && wire_name(b.skip(2)) is Err ==> wire_binding(b) == Err::<
            BindingView,
            HttpsErrorView,
        >(wire_name(b.skip(2))->Err_0),
        labels_at(b, b.len() as int) == Err::<(Seq<Seq<char>>, int), HttpsErrorView>(
            HttpsErrorOf::NameTruncated,
        ),
        labels_at(b, 0) matches Err(e) ==> wire_name(b) == Err::<(Seq<char>, int), HttpsErrorView>(
            e,
        ),
{
}

/// An ECH field that is no base64 is refused with the reason; quotes around it do not
/// count. One that is must hold a list.
pub proof fn an_ech_field_holds_a_list(value: Seq<char>)
    ensures
        base64_either(trim_char(value, '"')) is None ==> ech_text_list(value) == Err::<
            Seq<u8>,
            HttpsErrorView,
        >(HttpsErrorOf::InvalidBase64 { cause: base64_failure(trim_char(value, '"')) }),
        base64_either(trim_char(value, '"')) matches Some(octets) ==> ech_text_list(value)
            == ech_list(octets),
{
}

} // verus!
