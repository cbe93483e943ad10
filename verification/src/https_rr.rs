//! HTTPS resource records: the service binding that one announces, and the
//! configuration for Encrypted Client Hello (ECH) in it.
use vstd::prelude::*;
use vstd::slice::slice_subrange;
use vstd::utf8::{decode_utf8, valid_utf8};
use crate::dns::be16;
use crate::radix64::{base64_either, base64_failure, decode_base64};
use crate::text::{
    chars_of, decimal, decimal_text, find_char, has_prefix, join, join_texts, joined, joined4,
    number, number_fault, number_fault_text, option_text, read_number, same_chars,
    same_ignoring_case, split_words, starts_with, text_of, texts, trim, trim_char, trim_end_char,
    trimmed, trimmed_end_char, trimmed_start_char, trimmed_text, words, NumberFault,
};

verus! {

/// Why an HTTPS record was refused.
#[derive(Clone, Debug, PartialEq, Eq)]
pub enum HttpsErrorOf<S> {
    MissingPriority,
    InvalidPriority(NumberFault),
    MissingTarget,
    InvalidBase64 { cause: S },
    UnexpectedFormat { raw: S },
    MissingLength,
    InvalidLength(NumberFault),
    InvalidHexByte { part: S, fault: NumberFault },
    LengthMismatch { expected: u64, actual: u64 },
    TooShort,
    NameTruncated,
    NameCompressed,
    LabelTruncated,
    LabelNotUtf8 { cause: S },
    ParameterHeaderTruncated,
    ParameterValueTruncated,
    EchTooShort,
    EchLengthMismatch { declared: u64, actual: u64 },
}

/// Why an HTTPS record was refused.
pub type HttpsError = HttpsErrorOf<String>;

/// What an [`HttpsError`] says.
pub type HttpsErrorView = HttpsErrorOf<Seq<char>>;

impl View for HttpsErrorOf<String> {
    type V = HttpsErrorOf<Seq<char>>;

    open spec fn view(&self) -> HttpsErrorOf<Seq<char>> {
        match *self {
            HttpsErrorOf::MissingPriority => HttpsErrorOf::MissingPriority,
            HttpsErrorOf::InvalidPriority(fault) => HttpsErrorOf::InvalidPriority(fault),
            HttpsErrorOf::MissingTarget => HttpsErrorOf::MissingTarget,
            HttpsErrorOf::InvalidBase64 { cause } => HttpsErrorOf::InvalidBase64 { cause: cause@ },
            HttpsErrorOf::UnexpectedFormat { raw } => HttpsErrorOf::UnexpectedFormat { raw: raw@ },
            HttpsErrorOf::MissingLength => HttpsErrorOf::MissingLength,
            HttpsErrorOf::InvalidLength(fault) => HttpsErrorOf::InvalidLength(fault),
            HttpsErrorOf::InvalidHexByte { part, fault } => HttpsErrorOf::InvalidHexByte {
                part: part@,
                fault,
            },
            HttpsErrorOf::LengthMismatch { expected, actual } => HttpsErrorOf::LengthMismatch {
                expected,
                actual,
            },
            HttpsErrorOf::TooShort => HttpsErrorOf::TooShort,
            HttpsErrorOf::NameTruncated => HttpsErrorOf::NameTruncated,
            HttpsErrorOf::NameCompressed => HttpsErrorOf::NameCompressed,
            HttpsErrorOf::LabelTruncated => HttpsErrorOf::LabelTruncated,
            HttpsErrorOf::LabelNotUtf8 { cause } => HttpsErrorOf::LabelNotUtf8 { cause: cause@ },
            HttpsErrorOf::ParameterHeaderTruncated => HttpsErrorOf::ParameterHeaderTruncated,
            HttpsErrorOf::ParameterValueTruncated => HttpsErrorOf::ParameterValueTruncated,
            HttpsErrorOf::EchTooShort => HttpsErrorOf::EchTooShort,
            HttpsErrorOf::EchLengthMismatch { declared, actual } => {
                HttpsErrorOf::EchLengthMismatch { declared, actual }
            },
        }
    }
}

/// What is wrong with an HTTPS record, in words, with the cause behind it.
pub open spec fn https_error_text(error: HttpsErrorView) -> Seq<char> {
    match error {
        HttpsErrorOf::MissingPriority => "missing HTTPS RR priority"@,
        HttpsErrorOf::InvalidPriority(fault) => "invalid HTTPS RR priority: "@
            + number_fault_text(fault),
        HttpsErrorOf::MissingTarget => "missing HTTPS RR target name"@,
        HttpsErrorOf::InvalidBase64 { cause } => "invalid base64 ECH service parameter: "@ + cause,
        HttpsErrorOf::UnexpectedFormat { raw } => "unexpected HTTPS RR format: "@ + raw,
        HttpsErrorOf::MissingLength => "missing HTTPS RR byte length"@,
        HttpsErrorOf::InvalidLength(fault) => "invalid HTTPS RR byte length: "@
            + number_fault_text(fault),
        HttpsErrorOf::InvalidHexByte { part, fault } => "invalid HTTPS RR hex byte "@ + part + ": "@
            + number_fault_text(fault),
        HttpsErrorOf::LengthMismatch { expected, actual } => "HTTPS RR length mismatch, expected "@
            + decimal(expected as nat) + " bytes, got "@ + decimal(actual as nat),
        HttpsErrorOf::TooShort => "HTTPS RR data is too short"@,
        HttpsErrorOf::NameTruncated => "truncated DNS name in HTTPS RR"@,
        HttpsErrorOf::NameCompressed => "compressed DNS names are unsupported in HTTPS RR parser"@,
        HttpsErrorOf::LabelTruncated => "truncated DNS label in HTTPS RR"@,
        HttpsErrorOf::LabelNotUtf8 { cause } => "invalid UTF-8 label in HTTPS RR: "@ + cause,
        HttpsErrorOf::ParameterHeaderTruncated => "truncated HTTPS RR service parameter header"@,
        HttpsErrorOf::ParameterValueTruncated => "truncated HTTPS RR service parameter value"@,
        HttpsErrorOf::EchTooShort => "ECH service parameter is too short"@,
        HttpsErrorOf::EchLengthMismatch { declared, actual } => {
            "ECH config length mismatch, declared "@ + decimal(declared as nat) + ", actual "@
                + decimal(actual as nat)
        },
    }
}

impl HttpsErrorOf<String> {
    /// What is wrong, in words.
    pub fn message(self) -> (text: String)
        ensures
            text@ == https_error_text(self@),
    {
        match self {
            HttpsErrorOf::MissingPriority => "missing HTTPS RR priority".to_owned(),
            HttpsErrorOf::InvalidPriority(fault) => {
                joined("invalid HTTPS RR priority: ", fault.message())
            },
            HttpsErrorOf::MissingTarget => "missing HTTPS RR target name".to_owned(),
            HttpsErrorOf::InvalidBase64 { cause } => {
                joined("invalid base64 ECH service parameter: ", cause.as_str())
            },
            HttpsErrorOf::UnexpectedFormat { raw } => {
                joined("unexpected HTTPS RR format: ", raw.as_str())
            },
            HttpsErrorOf::MissingLength => "missing HTTPS RR byte length".to_owned(),
            HttpsErrorOf::InvalidLength(fault) => {
                joined("invalid HTTPS RR byte length: ", fault.message())
            },
            HttpsErrorOf::InvalidHexByte { part, fault } => joined4(
                "invalid HTTPS RR hex byte ",
                part.as_str(),
                ": ",
                fault.message(),
            ),
            HttpsErrorOf::LengthMismatch { expected, actual } => joined4(
                "HTTPS RR length mismatch, expected ",
                decimal_text(expected).as_str(),
                " bytes, got ",
                decimal_text(actual).as_str(),
            ),
            HttpsErrorOf::TooShort => "HTTPS RR data is too short".to_owned(),
            HttpsErrorOf::NameTruncated => "truncated DNS name in HTTPS RR".to_owned(),
            HttpsErrorOf::NameCompressed => {
                "compressed DNS names are unsupported in HTTPS RR parser".to_owned()
            },
            HttpsErrorOf::LabelTruncated => "truncated DNS label in HTTPS RR".to_owned(),
            HttpsErrorOf::LabelNotUtf8 { cause } => {
                joined("invalid UTF-8 label in HTTPS RR: ", cause.as_str())
            },
            HttpsErrorOf::ParameterHeaderTruncated => {
                "truncated HTTPS RR service parameter header".to_owned()
            },
            HttpsErrorOf::ParameterValueTruncated => {
                "truncated HTTPS RR service parameter value".to_owned()
            },
            HttpsErrorOf::EchTooShort => "ECH service parameter is too short".to_owned(),
            HttpsErrorOf::EchLengthMismatch { declared, actual } => joined4(
                "ECH config length mismatch, declared ",
                decimal_text(declared).as_str(),
                ", actual ",
                decimal_text(actual).as_str(),
            ),
        }
    }
}

/// Why no public name was found in a list of ECH configurations.
#[derive(Clone, Copy, Debug, PartialEq, Eq, Structural)]
pub enum EchError {
    FieldTruncated,
    ListTruncated,
    UnsupportedVersion(u16),
    ContentsTruncated,
    NameLengthMissing,
    NameTruncated,
    NameNotUtf8,
    NameEmpty,
}

/// What an HTTPS record announces: how it ranks among others, the host that
/// serves, if it is another one, and the list of ECH configurations with the
/// name that the first of them shows in public.
#[derive(Clone, Debug)]
pub struct HttpsServiceBinding {
    pub priority: u16,
    pub target_name: Option<String>,
    pub ech_config_list: Option<Vec<u8>>,
    pub ech_public_name: Option<String>,
}

/// What an [`HttpsServiceBinding`] holds.
#[verifier::ext_equal]
pub struct BindingView {
    pub priority: u16,
    pub target_name: Option<Seq<char>>,
    pub ech_config_list: Option<Seq<u8>>,
    pub ech_public_name: Option<Seq<char>>,
}

/// The octets of an optional vector.
pub open spec fn option_octets(octets: Option<Vec<u8>>) -> Option<Seq<u8>> {
    match octets {
        Some(o) => Some(o@),
        None => None,
    }
}

impl View for HttpsServiceBinding {
    type V = BindingView;

    open spec fn view(&self) -> BindingView {
        BindingView {
            priority: self.priority,
            target_name: option_text(self.target_name),
            ech_config_list: option_octets(self.ech_config_list),
            ech_public_name: option_text(self.ech_public_name),
        }
    }
}

/// A binding that announces nothing but its priority.
pub open spec fn plain_binding(priority: u16) -> BindingView {
    BindingView {
        priority,
        target_name: None,
        ech_config_list: None,
        ech_public_name: None,
    }
}

impl Default for HttpsServiceBinding {
    fn default() -> (binding: HttpsServiceBinding)
        ensures
            binding@ == plain_binding(0),
    {
        HttpsServiceBinding {
            priority: 0,
            target_name: None,
            ech_config_list: None,
            ech_public_name: None,
        }
    }
}

// ---------------------------------------------------------------------------
// Encrypted Client Hello
// ---------------------------------------------------------------------------
/// The list of ECH configurations in a service parameter: all of it, if the
/// length in its first two octets is that of the rest.
pub open spec fn ech_list(value: Seq<u8>) -> Result<Seq<u8>, HttpsErrorView> {
    if value.len() < 2 {
        Err(HttpsErrorOf::EchTooShort)
    } else if value.len() != be16(value, 0) + 2 {
        Err(
            HttpsErrorOf::EchLengthMismatch {
                declared: be16(value, 0) as u64,
                actual: (value.len() - 2) as u64,
            },
        )
    } else {
        Ok(value)
    }
}

/// The number in the two octets at `o`, if they are there.
pub open spec fn ech_field(config: Seq<u8>, o: int) -> Option<int> {
    if o + 2 <= config.len() {
        Some(be16(config, o) as int)
    } else {
        None
    }
}

/// The public name that the octets `name` spell.
pub open spec fn spelled_name(name: Seq<u8>) -> Result<Seq<char>, EchError> {
    if !valid_utf8(name) {
        Err(EchError::NameNotUtf8)
    } else if trim(decode_utf8(name)).len() == 0 {
        Err(EchError::NameEmpty)
    } else {
        Ok(trim(decode_utf8(name)))
    }
}

/// The public name of one ECH configuration: it follows the version, the
/// length, an identifier, the KEM, the public key, the cipher suites and the
/// greatest length of a name.
pub open spec fn config_public_name(config: Seq<u8>) -> Result<Seq<char>, EchError> {
    if be16(config, 0) != 0xfe0d {
        Err(EchError::UnsupportedVersion(be16(config, 0)))
    } else if config.len() < 4 + be16(config, 2) {
        Err(EchError::ContentsTruncated)
    } else {
        match ech_field(config, 7) {
            None => Err(EchError::FieldTruncated),
            Some(key_len) => match ech_field(config, 9 + key_len) {
                None => Err(EchError::FieldTruncated),
                Some(suites_len) => {
                    let o = 9 + key_len + 2 + suites_len + 1;
                    if o >= config.len() {
                        Err(EchError::NameLengthMissing)
                    } else if o + 1 + config[o] > config.len() {
                        Err(EchError::NameTruncated)
                    } else {
                        spelled_name(config.subrange(o + 1, o + 1 + config[o]))
                    }
                },
            },
        }
    }
}

/// The public name of the first configuration in a list.
pub open spec fn ech_public_name(list: Seq<u8>) -> Result<Seq<char>, EchError> {
    if list.len() < 2 {
        Err(EchError::FieldTruncated)
    } else if list.len() < 2 + be16(list, 0) || be16(list, 0) < 4 {
        Err(EchError::ListTruncated)
    } else {
        config_public_name(list.subrange(2, 2 + be16(list, 0)))
    }
}

/// What `core::str::from_utf8` says of octets that it refuses.
pub uninterp spec fn utf8_failure(octets: Seq<u8>) -> Seq<char>;

/// `core::str::from_utf8`: it accepts the octets that are valid UTF-8, and gives
/// the text that they encode. Of the error of any others nothing more is claimed
/// than that the octets determine it.
#[verifier::external_body]
fn utf8_text(octets: &[u8]) -> (text: Result<String, String>)
    ensures
        match text {
            Ok(t) => valid_utf8(octets@) && t@ == decode_utf8(octets@),
            Err(error) => !valid_utf8(octets@) && error@ == utf8_failure(octets@),
        },
{
    core::str::from_utf8(octets).map(str::to_owned).map_err(|e| e.to_string())
}

/// A copy of some octets.
pub fn octets_of(octets: &[u8]) -> (copy: Vec<u8>)
    ensures
        copy@ == octets@,
{
    let mut copy: Vec<u8> = Vec::new();
    copy.extend_from_slice(octets);
    assert(copy@ =~= octets@);
    copy
}

/// The number in the two octets at `offset`.
pub fn read_u16(bytes: &[u8], offset: usize) -> (r: Result<u16, EchError>)
    ensures
        r == (if offset + 2 <= bytes@.len() {
            Ok::<u16, EchError>(be16(bytes@, offset as int))
        } else {
            Err(EchError::FieldTruncated)
        }),
{
    if bytes.len() < 2 || bytes.len() - 2 < offset {
        return Err(EchError::FieldTruncated);
    }
    Ok((bytes[offset] as u16) * 256 + (bytes[offset + 1] as u16))
}

/// The list of ECH configurations in a service parameter.
pub fn parse_ech_config_param(value: &[u8]) -> (r: Result<Vec<u8>, HttpsError>)
    ensures
        match r {
            Ok(list) => ech_list(value@) == Ok::<Seq<u8>, HttpsErrorView>(list@),
            Err(e) => ech_list(value@) == Err::<Seq<u8>, HttpsErrorView>(e@),
        },
{
    if value.len() < 2 {
        return Err(HttpsErrorOf::EchTooShort);
    }
    let declared: usize = (value[0] as usize) * 256 + (value[1] as usize);
    if value.len() - 2 != declared {
        return Err(
            HttpsErrorOf::EchLengthMismatch {
                declared: declared as u64,
                actual: (value.len() - 2) as u64,
            },
        );
    }
    Ok(octets_of(value))
}

/// The public name of the first configuration in a list.
pub fn parse_ech_public_name(ech_config_list: &[u8]) -> (r: Result<String, EchError>)
    ensures
        match r {
            Ok(name) => ech_public_name(ech_config_list@) == Ok::<Seq<char>, EchError>(name@),
            Err(e) => ech_public_name(ech_config_list@) == Err::<Seq<char>, EchError>(e),
        },
{
    let list_len: usize = match read_u16(ech_config_list, 0) {
        Ok(n) => n as usize,
        Err(e) => {
            return Err(e);
        },
    };
    if ech_config_list.len() < 2 + list_len || list_len < 4 {
        return Err(EchError::ListTruncated);
    }
    let config = slice_subrange(ech_config_list, 2, 2 + list_len);
    let version: u16 = match read_u16(config, 0) {
        Ok(n) => n,
        Err(e) => {
            return Err(e);
        },
    };
    if version != 0xfe0d {
        return Err(EchError::UnsupportedVersion(version));
    }
    let contents_len: usize = match read_u16(config, 2) {
        Ok(n) => n as usize,
        Err(e) => {
            return Err(e);
        },
    };
    if config.len() < 4 + contents_len {
        return Err(EchError::ContentsTruncated);
    }
    let key_len: usize = match read_u16(config, 7) {
        Ok(n) => n as usize,
        Err(e) => {
            return Err(e);
        },
    };
    let suites_len: usize = match read_u16(config, 9 + key_len) {
        Ok(n) => n as usize,
        Err(e) => {
            return Err(e);
        },
    };
    let at: usize = 9 + key_len + 2 + suites_len + 1;
    if at >= config.len() {
        return Err(EchError::NameLengthMissing);
    }
    let name_len: usize = config[at] as usize;
    if config.len() - (at + 1) < name_len {
        return Err(EchError::NameTruncated);
    }
    match utf8_text(slice_subrange(config, at + 1, at + 1 + name_len)) {
        Err(_) => Err(EchError::NameNotUtf8),
        Ok(text) => {
            let name = trimmed_text(text.as_str());
            if name.as_str().is_empty() {
                Err(EchError::NameEmpty)
            } else {
                Ok(name)
            }
        },
    }
}

// ---------------------------------------------------------------------------
// The wire form
// ---------------------------------------------------------------------------
/// The labels of the uncompressed name at `o`, and where the name ends.
pub open spec fn labels_at(d: Seq<u8>, o: int) -> Result<(Seq<Seq<char>>, int), HttpsErrorView>
    decreases d.len() - o,
{
    if !(0 <= o < d.len()) {
        Err(HttpsErrorOf::NameTruncated)
    } else if d[o] == 0 {
        Ok((Seq::empty(), o + 1))
    } else if d[o] >= 64 {
        Err(HttpsErrorOf::NameCompressed)
    } else if o + 1 + d[o] > d.len() {
        Err(HttpsErrorOf::LabelTruncated)
    } else if !valid_utf8(d.subrange(o + 1, o + 1 + d[o])) {
        Err(
            HttpsErrorOf::LabelNotUtf8 {
                cause: utf8_failure(d.subrange(o + 1, o + 1 + d[o])),
            },
        )
    } else {
        match labels_at(d, o + 1 + d[o]) {
            Err(e) => Err(e),
            Ok((rest, end)) => Ok(
                (seq![decode_utf8(d.subrange(o + 1, o + 1 + d[o]))] + rest, end),
            ),
        }
    }
}

/// The name at the start of some octets, and how many octets it takes.
pub open spec fn wire_name(d: Seq<u8>) -> Result<(Seq<char>, int), HttpsErrorView> {
    match labels_at(d, 0) {
        Ok((labels, end)) => Ok((join(labels, "."@), end)),
        Err(e) => Err(e),
    }
}

/// The binding with a list of ECH configurations.
pub open spec fn with_ech(binding: BindingView, list: Seq<u8>) -> BindingView {
    BindingView {
        ech_config_list: Some(list),
        ech_public_name: match ech_public_name(list) {
            Ok(name) => Some(name),
            Err(_) => None,
        },
        ..binding
    }
}

/// The binding once the service parameters from `o` on are read: each is a key
/// and a length, two octets each, and a value. Key 5 is ECH.
pub open spec fn with_parameters(b: Seq<u8>, o: int, binding: BindingView) -> Result<
    BindingView,
    HttpsErrorView,
>
    decreases b.len() - o,
{
    if o >= b.len() {
        Ok(binding)
    } else if o + 4 > b.len() {
        Err(HttpsErrorOf::ParameterHeaderTruncated)
    } else if o + 4 + be16(b, o + 2) > b.len() {
        Err(HttpsErrorOf::ParameterValueTruncated)
    } else {
        let end = o + 4 + be16(b, o + 2);
        if be16(b, o) == 5 {
            match ech_list(b.subrange(o + 4, end)) {
                Err(e) => Err(e),
                Ok(list) => with_parameters(b, end, with_ech(binding, list)),
            }
        } else {
            with_parameters(b, end, binding)
        }
    }
}

/// The binding that the wire form `b` announces: its priority, its target and
/// the service parameters.
pub open spec fn wire_binding(b: Seq<u8>) -> Result<BindingView, HttpsErrorView> {
    if b.len() < 3 {
        Err(HttpsErrorOf::TooShort)
    } else {
        match wire_name(b.skip(2)) {
            Err(e) => Err(e),
            Ok((name, end)) => with_parameters(
                b,
                2 + end,
                BindingView {
                    target_name: if name.len() == 0 {
                        None
                    } else {
                        Some(name)
                    },
                    ..plain_binding(be16(b, 0))
                },
            ),
        }
    }
}

/// What the labels found so far, followed by `rest`, amount to.
spec fn after_labels(
    found: Seq<Seq<char>>,
    rest: Result<(Seq<Seq<char>>, int), HttpsErrorView>,
) -> Result<(Seq<Seq<char>>, int), HttpsErrorView> {
    match rest {
        Ok((more, end)) => Ok((found + more, end)),
        Err(e) => Err(e),
    }
}

/// The name at the start of some octets, and how many octets it takes.
pub fn parse_dns_name(data: &[u8]) -> (r: Result<(String, usize), HttpsError>)
    ensures
        match r {
            Ok((name, end)) => wire_name(data@) == Ok::<(Seq<char>, int), HttpsErrorView>(
                (name@, end as int),
            ) && end <= data@.len(),
            Err(e) => wire_name(data@) == Err::<(Seq<char>, int), HttpsErrorView>(e@),
        },
{
    let mut labels: Vec<String> = Vec::new();
    let mut offset: usize = 0;
    let ghost goal = labels_at(data@, 0);
    assert(texts(labels@) =~= Seq::empty());
    assert(goal is Ok ==> Seq::<Seq<char>>::empty() + (goal->Ok_0).0 =~= (goal->Ok_0).0);
    loop
        invariant
            offset <= data@.len(),
            goal == labels_at(data@, 0),
            goal == after_labels(texts(labels@), labels_at(data@, offset as int)),
        decreases data@.len() - offset,
    {
        if offset >= data.len() {
            return Err(HttpsErrorOf::NameTruncated);
        }
        let label_len: usize = data[offset] as usize;
        if label_len == 0 {
            assert(texts(labels@) + Seq::empty() =~= texts(labels@));
            return Ok((join_texts(&labels, "."), offset + 1));
        }
        if label_len >= 64 {
            return Err(HttpsErrorOf::NameCompressed);
        }
        if data.len() - (offset + 1) < label_len {
            return Err(HttpsErrorOf::LabelTruncated);
        }
        let octets = slice_subrange(data, offset + 1, offset + 1 + label_len);
        match utf8_text(octets) {
            Err(cause) => {
                return Err(HttpsErrorOf::LabelNotUtf8 { cause });
            },
            Ok(label) => {
                let ghost before = texts(labels@);
                let ghost rest = labels_at(data@, offset + 1 + label_len);
                labels.push(label);
                assert(texts(labels@) =~= before.push(label@));
                assert(rest is Ok ==> before + (seq![label@] + (rest->Ok_0).0) =~= before.push(
                    label@,
                ) + (rest->Ok_0).0);
            },
        }
        offset = offset + 1 + label_len;
    }
}

fn add_ech(binding: &mut HttpsServiceBinding, list: Vec<u8>)
    ensures
        final(binding)@ == with_ech(old(binding)@, list@),
{
    binding.ech_public_name =
    match parse_ech_public_name(list.as_slice()) {
        Ok(name) => Some(name),
        Err(_) => None,
    };
    binding.ech_config_list = Some(list);
}

/// The binding that the wire form of a record announces.
pub fn parse_https_wire_rdata(bytes: &[u8]) -> (r: Result<HttpsServiceBinding, HttpsError>)
    ensures
        match r {
            Ok(binding) => wire_binding(bytes@) == Ok::<BindingView, HttpsErrorView>(binding@),
            Err(e) => wire_binding(bytes@) == Err::<BindingView, HttpsErrorView>(e@),
        },
{
    if bytes.len() < 3 {
        return Err(HttpsErrorOf::TooShort);
    }
    let priority: u16 = (bytes[0] as u16) * 256 + (bytes[1] as u16);
    let body = slice_subrange(bytes, 2, bytes.len());
    assert(body@ =~= bytes@.skip(2));
    let (name, consumed) = match parse_dns_name(body) {
        Ok(found) => found,
        Err(e) => {
            return Err(e);
        },
    };
    let mut binding = HttpsServiceBinding {
        priority,
        target_name: None,
        ech_config_list: None,
        ech_public_name: None,
    };
    if !name.as_str().is_empty() {
        binding.target_name = Some(name);
    }
    let mut offset: usize = 2 + consumed;
    while offset < bytes.len()
        invariant
            offset <= bytes@.len(),
            wire_binding(bytes@) == with_parameters(bytes@, offset as int, binding@),
        decreases bytes@.len() - offset,
    {
        if bytes.len() - offset < 4 {
            return Err(HttpsErrorOf::ParameterHeaderTruncated);
        }
        let key: u16 = (bytes[offset] as u16) * 256 + (bytes[offset + 1] as u16);
        let value_len: usize = (bytes[offset + 2] as usize) * 256 + (bytes[offset + 3] as usize);
        if bytes.len() - (offset + 4) < value_len {
            return Err(HttpsErrorOf::ParameterValueTruncated);
        }
        let end: usize = offset + 4 + value_len;
        if key == 5 {
            match parse_ech_config_param(slice_subrange(bytes, offset + 4, end)) {
                Ok(list) => {
                    add_ech(&mut binding, list);
                },
                Err(e) => {
                    return Err(e);
                },
            }
        }
        offset = end;
    }
    Ok(binding)
}

// ---------------------------------------------------------------------------
// The generic presentation form
// ---------------------------------------------------------------------------
/// The octets that some words write in hexadecimal, or what is wrong with the
/// first that does not.
pub open spec fn hex_octets(parts: Seq<Seq<char>>) -> Result<Seq<u8>, HttpsErrorView>
    decreases parts.len(),
{
    if parts.len() == 0 {
        Ok(Seq::empty())
    } else {
        match hex_octets(parts.drop_last()) {
            Err(e) => Err(e),
            Ok(before) => match number(parts.last(), 16, 255) {
                Some(v) => Ok(before.push(v as u8)),
                None => Err(
                    HttpsErrorOf::InvalidHexByte {
                        part: parts.last(),
                        fault: number_fault(parts.last(), 16, 255),
                    },
                ),
            },
        }
    }
}

/// The octets that the generic form of record data stands for: `\#`, their
/// number, and each of them in hexadecimal.
pub open spec fn generic_octets(raw: Seq<char>) -> Result<Seq<u8>, HttpsErrorView> {
    if !starts_with(trim(raw), "\\#"@) {
        Err(HttpsErrorOf::UnexpectedFormat { raw: trim(raw) })
    } else {
        let parts = words(trim(trim(raw).skip("\\#"@.len() as int)));
        if parts.len() == 0 {
            Err(HttpsErrorOf::MissingLength)
        } else {
            match number(parts[0], 10, usize::MAX as nat) {
                None => Err(
                    HttpsErrorOf::InvalidLength(
                        number_fault(parts[0], 10, usize::MAX as nat),
                    ),
                ),
                Some(expected) => match hex_octets(parts.skip(1)) {
                    Err(e) => Err(e),
                    Ok(octets) => if octets.len() != expected {
                        Err(
                            HttpsErrorOf::LengthMismatch {
                                expected: expected as u64,
                                actual: octets.len() as u64,
                            },
                        )
                    } else {
                        Ok(octets)
                    },
                },
            }
        }
    }
}

proof fn hex_octets_fails_early(parts: Seq<Seq<char>>, n: int)
    requires
        0 <= n <= parts.len(),
        hex_octets(parts.take(n)) is Err,
    ensures
        hex_octets(parts) == hex_octets(parts.take(n)),
    decreases parts.len() - n,
{
    if n < parts.len() {
        assert(parts.take(n + 1).drop_last() =~= parts.take(n));
        hex_octets_fails_early(parts, n + 1);
    } else {
        assert(parts.take(n) =~= parts);
    }
}

/// The octets that the generic form of record data stands for.
pub fn parse_dns_json_hex_rdata(raw_rdata: &str) -> (r: Result<Vec<u8>, HttpsError>)
    ensures
        match r {
            Ok(octets) => generic_octets(raw_rdata@) == Ok::<Seq<u8>, HttpsErrorView>(octets@),
            Err(e) => generic_octets(raw_rdata@) == Err::<Seq<u8>, HttpsErrorView>(e@),
        },
{
    let chars = chars_of(raw_rdata);
    let raw = trimmed(chars.as_slice());
    let mark = chars_of("\\#");
    if !has_prefix(raw, mark.as_slice()) {
        return Err(HttpsErrorOf::UnexpectedFormat { raw: text_of(raw) });
    }
    let encoded = trimmed(slice_subrange(raw, mark.len(), raw.len()));
    assert(raw@.subrange(mark@.len() as int, raw@.len() as int) =~= raw@.skip(mark@.len() as int));
    let parts = split_words(encoded);
    let ghost all = texts(parts@);
    assert(all.len() == parts@.len());
    if parts.len() == 0 {
        return Err(HttpsErrorOf::MissingLength);
    }
    assert(all[0] == parts@[0]@);
    let first = chars_of(parts[0].as_str());
    let expected: u64 = match read_number(first.as_slice(), 10, usize::MAX as u64) {
        Ok(n) => n,
        Err(fault) => {
            return Err(HttpsErrorOf::InvalidLength(fault));
        },
    };
    let ghost written = all.skip(1);
    let mut octets: Vec<u8> = Vec::new();
    let mut i: usize = 1;
    assert(written.take(0) =~= Seq::empty());
    assert(octets@ =~= Seq::empty());
    while i < parts.len()
        invariant
            1 <= i <= parts@.len(),
            all == texts(parts@),
            all.len() == parts@.len(),
            written == all.skip(1),
            hex_octets(written.take(i - 1)) == Ok::<Seq<u8>, HttpsErrorView>(octets@),
            octets@.len() == i - 1,
            generic_octets(raw_rdata@) == (match hex_octets(written) {
                Err(e) => Err::<Seq<u8>, HttpsErrorView>(e),
                Ok(octets) => if octets.len() != expected {
                    Err(
                        HttpsErrorOf::LengthMismatch {
                            expected: expected as u64,
                            actual: octets.len() as u64,
                        },
                    )
                } else {
                    Ok(octets)
                },
            }),
        decreases parts@.len() - i,
    {
        let ghost upto = written.take(i as int);
        assert(upto.drop_last() =~= written.take(i - 1));
        assert(upto.last() == parts@[i as int]@);
        let part = chars_of(parts[i].as_str());
        match read_number(part.as_slice(), 16, 255) {
            Ok(v) => {
                octets.push(v as u8);
            },
            Err(fault) => {
                proof {
                    hex_octets_fails_early(written, i as int);
                }
                return Err(
                    HttpsErrorOf::InvalidHexByte { part: parts[i].clone(), fault },
                );
            },
        }
        i = i + 1;
    }
    assert(written.take(i - 1) =~= written);
    if octets.len() as u64 != expected {
        return Err(HttpsErrorOf::LengthMismatch { expected, actual: octets.len() as u64 });
    }
    Ok(octets)
}

// ---------------------------------------------------------------------------
// The presentation form of its own
// ---------------------------------------------------------------------------
/// The value of a field `key=value` whose key is `ech` in any case.
pub open spec fn ech_value(field: Seq<char>) -> Option<Seq<char>> {
    if field.contains('=') && same_ignoring_case(
        field.take(field.index_of_first('=')->0),
        "ech"@,
    ) {
        Some(field.skip(field.index_of_first('=')->0 + 1))
    } else {
        None
    }
}

/// The value of the first field that is an `ech` field.
pub open spec fn first_ech_value(fields: Seq<Seq<char>>) -> Option<Seq<char>>
    decreases fields.len(),
{
    if fields.len() == 0 {
        None
    } else {
        match ech_value(fields[0]) {
            Some(value) => Some(value),
            None => first_ech_value(fields.drop_first()),
        }
    }
}

/// The list of ECH configurations that the value of an `ech` field stands for:
/// base64, in quotation marks or not.
pub open spec fn ech_text_list(value: Seq<char>) -> Result<Seq<u8>, HttpsErrorView> {
    match base64_either(trim_char(value, '"')) {
        None => Err(
            HttpsErrorOf::InvalidBase64 { cause: base64_failure(trim_char(value, '"')) },
        ),
        Some(octets) => ech_list(octets),
    }
}

/// The binding that the presentation form of a record announces: a priority, a
/// target and fields `key=value`.
pub open spec fn text_binding(raw: Seq<char>) -> Result<BindingView, HttpsErrorView> {
    let fields = words(raw);
    if fields.len() == 0 {
        Err(HttpsErrorOf::MissingPriority)
    } else if number(fields[0], 10, u16::MAX as nat) is None {
        Err(
            HttpsErrorOf::InvalidPriority(number_fault(fields[0], 10, u16::MAX as nat)),
        )
    } else if fields.len() == 1 {
        Err(HttpsErrorOf::MissingTarget)
    } else {
        let binding = BindingView {
            target_name: if fields[1] == "."@ {
                None
            } else {
                Some(trim_end_char(fields[1], '.'))
            },
            ..plain_binding(number(fields[0], 10, u16::MAX as nat)->0 as u16)
        };
        match first_ech_value(fields.skip(2)) {
            None => Ok(binding),
            Some(value) => match ech_text_list(value) {
                Err(e) => Err(e),
                Ok(list) => Ok(with_ech(binding, list)),
            },
        }
    }
}

/// The binding that an HTTPS record announces, in whichever form it is given.
pub open spec fn record_binding(raw: Seq<char>) -> Result<BindingView, HttpsErrorView> {
    if !starts_with(trim(raw), "\\#"@) {
        text_binding(trim(raw))
    } else {
        match generic_octets(trim(raw)) {
            Err(e) => Err(e),
            Ok(octets) => wire_binding(octets),
        }
    }
}

fn find_ech_value(field: &str) -> (value: Option<String>)
    ensures
        option_text(value) == ech_value(field@),
{
    let chars = chars_of(field);
    let size: usize = chars.len();
    match find_char(chars.as_slice(), '=') {
        None => {
            assert(!field@.contains('='));
            None
        },
        Some(at) => {
            assert(field@[at as int] == '=');
            assert(field@.contains('='));
            proof {
                field@.index_of_first_ensures('=');
                let first = field@.index_of_first('=')->0;
                assert(first == at);
            }
            let key = slice_subrange(chars.as_slice(), 0, at);
            assert(key@ =~= field@.take(at as int));
            let key_text = text_of(key);
            if crate::text::equal_ignoring_case(key_text.as_str(), "ech") {
                let rest = slice_subrange(chars.as_slice(), at + 1, size);
                assert(rest@ =~= field@.skip(at as int + 1));
                Some(text_of(rest))
            } else {
                None
            }
        },
    }
}

fn parse_ech_text(value: &str) -> (r: Result<Vec<u8>, HttpsError>)
    ensures
        match r {
            Ok(list) => ech_text_list(value@) == Ok::<Seq<u8>, HttpsErrorView>(list@),
            Err(e) => ech_text_list(value@) == Err::<Seq<u8>, HttpsErrorView>(e@),
        },
{
    let chars = chars_of(value);
    let encoded = text_of(trimmed_end_char(trimmed_start_char(chars.as_slice(), '"'), '"'));
    match decode_base64(encoded.as_str()) {
        Err(cause) => Err(HttpsErrorOf::InvalidBase64 { cause }),
        Ok(octets) => parse_ech_config_param(octets.as_slice()),
    }
}

/// The binding that the presentation form of a record announces.
pub fn parse_https_presentation_rdata(raw_rdata: &str) -> (r: Result<
    HttpsServiceBinding,
    HttpsError,
>)
    ensures
        match r {
            Ok(binding) => text_binding(raw_rdata@) == Ok::<BindingView, HttpsErrorView>(binding@),
            Err(e) => text_binding(raw_rdata@) == Err::<BindingView, HttpsErrorView>(e@),
        },
{
    let chars = chars_of(raw_rdata);
    let fields = split_words(chars.as_slice());
    let ghost all = words(raw_rdata@);
    assert(texts(fields@) == all);
    assert(all.len() == fields@.len());
    assert(forall|i: int| 0 <= i < fields@.len() ==> all[i] == #[trigger] fields@[i]@);
    if fields.len() == 0 {
        return Err(HttpsErrorOf::MissingPriority);
    }
    let first = chars_of(fields[0].as_str());
    let priority: u16 = match read_number(first.as_slice(), 10, u16::MAX as u64) {
        Ok(n) => n as u16,
        Err(fault) => {
            return Err(HttpsErrorOf::InvalidPriority(fault));
        },
    };
    if fields.len() == 1 {
        return Err(HttpsErrorOf::MissingTarget);
    }
    let mut binding = HttpsServiceBinding {
        priority,
        target_name: None,
        ech_config_list: None,
        ech_public_name: None,
    };
    let target = chars_of(fields[1].as_str());
    let root = chars_of(".");
    if !same_chars(target.as_slice(), root.as_slice()) {
        binding.target_name = Some(text_of(trimmed_end_char(target.as_slice(), '.')));
    }
    let ghost plain = binding@;
    let mut i: usize = 2;
    while i < fields.len()
        invariant
            2 <= i <= fields@.len(),
            all.len() == fields@.len(),
            forall|i: int| 0 <= i < fields@.len() ==> all[i] == #[trigger] fields@[i]@,
            binding@ == plain,
            first_ech_value(all.skip(2)) == first_ech_value(all.skip(i as int)),
            text_binding(raw_rdata@) == (match first_ech_value(all.skip(2)) {
                None => Ok::<BindingView, HttpsErrorView>(plain),
                Some(value) => match ech_text_list(value) {
                    Err(e) => Err(e),
                    Ok(list) => Ok(with_ech(plain, list)),
                },
            }),
        decreases fields@.len() - i,
    {
        assert(all.skip(i as int)[0] == fields@[i as int]@);
        assert(all.skip(i as int).drop_first() =~= all.skip(i as int + 1));
        match find_ech_value(fields[i].as_str()) {
            None => {},
            Some(value) => {
                match parse_ech_text(value.as_str()) {
                    Err(e) => {
                        return Err(e);
                    },
                    Ok(list) => {
                        add_ech(&mut binding, list);
                        return Ok(binding);
                    },
                }
            },
        }
        i = i + 1;
    }
    assert(all.skip(i as int) =~= Seq::empty());
    Ok(binding)
}

/// The binding that an HTTPS record announces, in whichever form it is given.
pub fn parse_https_answer(raw_rdata: &str) -> (r: Result<HttpsServiceBinding, HttpsError>)
    ensures
        match r {
            Ok(binding) => record_binding(raw_rdata@) == Ok::<BindingView, HttpsErrorView>(binding@),
            Err(e) => record_binding(raw_rdata@) == Err::<BindingView, HttpsErrorView>(e@),
        },
{
    let raw = trimmed_text(raw_rdata);
    let chars = chars_of(raw.as_str());
    let mark = chars_of("\\#");
    if !has_prefix(chars.as_slice(), mark.as_slice()) {
        return parse_https_presentation_rdata(raw.as_str());
    }
    match parse_dns_json_hex_rdata(raw.as_str()) {
        Err(e) => Err(e),
        Ok(octets) => parse_https_wire_rdata(octets.as_slice()),
    }
}

} // verus!
