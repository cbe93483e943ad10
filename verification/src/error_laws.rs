//! What the user is told is wrong, for every error.
use vstd::prelude::*;
use crate::dns::{dns_error_text, DnsError};
use crate::doh::{endpoint_failure, status_error};
use crate::https_rr::{https_error_text, HttpsErrorOf};
use crate::text::{
    behind_plus, decimal, digit_value, digits_value, number_fault, number_fault_text,
    too_large_at, trim_end_char, NumberFault,
};

verus! {

/// An error about a query names what was asked for.
pub proof fn what_is_wrong_with_a_query(subject: Seq<char>, code: u16)
    ensures
        dns_error_text(DnsError::UnsupportedRecordType, subject) == "unsupported DNS record type "@
            + subject,
        dns_error_text(DnsError::InvalidLabel, subject) == "invalid DNS label in "@
            + trim_end_char(subject, '.'),
        dns_error_text(DnsError::ResponseCode(code), subject) == "DNS response returned rcode "@
            + decimal(code as nat),
{
}

/// An error about a message says what of it cannot be read, whatever was asked for.
pub proof fn what_is_wrong_with_a_message(subject: Seq<char>)
    ensures
        dns_error_text(DnsError::HeaderTruncated, subject) == "DNS response header is truncated"@,
        dns_error_text(DnsError::NotAResponse, subject) == "DNS message is not a response"@,
        dns_error_text(DnsError::QuestionOverflow, subject) == "DNS question offset overflow"@,
        dns_error_text(DnsError::QuestionTruncated, subject) == "DNS question is truncated"@,
        dns_error_text(DnsError::AnswerHeaderTruncated, subject)
            == "DNS answer header is truncated"@,
        dns_error_text(DnsError::AnswerDataTruncated, subject) == "DNS answer data is truncated"@,
        dns_error_text(DnsError::NameTruncated, subject) == "DNS name is truncated"@,
        dns_error_text(DnsError::PointerTruncated, subject)
            == "DNS compression pointer is truncated"@,
        dns_error_text(DnsError::InvalidLabelLength, subject) == "invalid DNS label length"@,
        dns_error_text(DnsError::NameOverflow, subject) == "DNS name offset overflow"@,
        dns_error_text(DnsError::LabelTruncated, subject) == "DNS label is truncated"@,
        dns_error_text(DnsError::U16Truncated, subject) == "DNS u16 field is truncated"@,
        dns_error_text(DnsError::U32Truncated, subject) == "DNS u32 field is truncated"@,
{
}

/// An error about the text of an HTTPS record names what could not be read, with its cause.
pub proof fn what_is_wrong_with_a_text_record(cause: Seq<char>, fault: NumberFault)
    ensures
        https_error_text(HttpsErrorOf::MissingPriority) == "missing HTTPS RR priority"@,
        https_error_text(HttpsErrorOf::InvalidPriority(fault)) == "invalid HTTPS RR priority: "@
            + number_fault_text(fault),
        https_error_text(HttpsErrorOf::MissingTarget) == "missing HTTPS RR target name"@,
        https_error_text(HttpsErrorOf::InvalidBase64 { cause })
            == "invalid base64 ECH service parameter: "@ + cause,
{
}

/// An error about the generic form of an HTTPS record names what could not be read, and a
/// wrong length is told with both numbers, the declared one first.
pub proof fn what_is_wrong_with_a_generic_record(
    part: Seq<char>,
    fault: NumberFault,
    expected: u64,
    actual: u64,
)
    ensures
        https_error_text(HttpsErrorOf::UnexpectedFormat { raw: part })
            == "unexpected HTTPS RR format: "@ + part,
        https_error_text(HttpsErrorOf::MissingLength) == "missing HTTPS RR byte length"@,
        https_error_text(HttpsErrorOf::InvalidLength(fault)) == "invalid HTTPS RR byte length: "@
            + number_fault_text(fault),
        https_error_text(HttpsErrorOf::InvalidHexByte { part, fault })
            == "invalid HTTPS RR hex byte "@ + part + ": "@ + number_fault_text(fault),
        https_error_text(HttpsErrorOf::LengthMismatch { expected, actual })
            == "HTTPS RR length mismatch, expected "@ + decimal(expected as nat) + " bytes, got "@
            + decimal(actual as nat),
{
}

/// An error about the wire form of an HTTPS record says what of it cannot be read.
pub proof fn what_is_wrong_with_a_wire_record(cause: Seq<char>)
    ensures
        https_error_text(HttpsErrorOf::TooShort) == "HTTPS RR data is too short"@,
        https_error_text(HttpsErrorOf::NameTruncated) == "truncated DNS name in HTTPS RR"@,
        https_error_text(HttpsErrorOf::NameCompressed)
            == "compressed DNS names are unsupported in HTTPS RR parser"@,
        https_error_text(HttpsErrorOf::LabelTruncated) == "truncated DNS label in HTTPS RR"@,
        https_error_text(HttpsErrorOf::LabelNotUtf8 { cause })
            == "invalid UTF-8 label in HTTPS RR: "@ + cause,
        https_error_text(HttpsErrorOf::ParameterHeaderTruncated)
            == "truncated HTTPS RR service parameter header"@,
        https_error_text(HttpsErrorOf::ParameterValueTruncated)
            == "truncated HTTPS RR service parameter value"@,
{
}

/// An error about an ECH list says that it is too short, or tells both lengths, the
/// declared one first.
pub proof fn what_is_wrong_with_an_ech_list(declared: u64, actual: u64)
    ensures
        https_error_text(HttpsErrorOf::EchTooShort) == "ECH service parameter is too short"@,
        https_error_text(HttpsErrorOf::EchLengthMismatch { declared, actual })
            == "ECH config length mismatch, declared "@ + decimal(declared as nat) + ", actual "@
            + decimal(actual as nat),
{
}

/// The two faults of a number are told apart, and so is the lack of one.
pub proof fn what_is_wrong_with_a_number(s: Seq<char>, radix: nat, max: nat)
    ensures
        number_fault_text(NumberFault::Empty) == "cannot parse integer from empty string"@,
        number_fault_text(NumberFault::InvalidDigit) == "invalid digit found in string"@,
        number_fault_text(NumberFault::TooLarge) == "number too large to fit in target type"@,
        number_fault(s, radix, max) == NumberFault::Empty <==> s.len() == 0,
{
}

/// A number is too large as soon as its first digits are, whatever follows them.
pub proof fn a_number_is_too_large_by_its_first_digits(
    digits: Seq<char>,
    rest: Seq<char>,
    radix: nat,
    max: nat,
)
    requires
        digits.len() > 0,
        digits[0] != '+',
        digits_value(digits, radix) matches Some(v) && v > max,
    ensures
        number_fault(digits + rest, radix, max) == NumberFault::TooLarge,
{
    assert(behind_plus(digits + rest) == digits + rest);
    assert((digits + rest).take(digits.len() as int) =~= digits);
    assert(too_large_at(digits + rest, radix, max, digits.len() as int));
}

/// A text whose first digits are none, or small enough up to what is no digit, has an
/// invalid digit.
pub proof fn a_text_is_no_number_by_its_first_fault(
    digits: Seq<char>,
    c: char,
    rest: Seq<char>,
    radix: nat,
    max: nat,
)
    requires
        digits.len() > 0 ==> digits[0] != '+',
        digits.len() == 0 ==> c != '+',
        digit_value(c, radix) is None,
        forall|n: int|
            0 <= n <= digits.len() ==> !(#[trigger] too_large_at(digits, radix, max, n)),
    ensures
        number_fault(digits + seq![c] + rest, radix, max) == NumberFault::InvalidDigit,
{
    let s = digits + seq![c] + rest;
    assert(behind_plus(s) == s);
    assert forall|n: int| !(#[trigger] too_large_at(s, radix, max, n)) by {
        if 0 <= n <= digits.len() {
            assert(s.take(n) =~= digits.take(n));
            assert(!too_large_at(digits, radix, max, n));
        } else if digits.len() < n <= s.len() {
            no_value_with_a_fault(s.take(n), digits.len() as int, radix);
        }
    }
}

proof fn no_value_with_a_fault(s: Seq<char>, i: int, radix: nat)
    requires
        0 <= i < s.len(),
        digit_value(s[i], radix) is None,
    ensures
        digits_value(s, radix) is None,
    decreases s.len(),
{
    if i < s.len() - 1 {
        assert(s.drop_last()[i] == s[i]);
        no_value_with_a_fault(s.drop_last(), i, radix);
    }
}

/// A server that gave no answer is named, with what went wrong at each of the two ways of
/// asking it, and the user is told that another can be configured.
pub proof fn what_is_wrong_with_a_server(
    endpoint: Seq<char>,
    json_error: Seq<char>,
    message_error: Seq<char>,
)
    ensures
        endpoint_failure(endpoint, json_error, message_error)
            == "DoH 不可用，请在配置中自行更换 DoH："@ + endpoint + ": JSON DoH failed first: "@
            + json_error + ": "@ + message_error,
{
}

/// A status that is an error is told with the type, the host and the server, in this order.
pub proof fn what_is_wrong_with_an_answer(
    endpoint: Seq<char>,
    host: Seq<char>,
    record_type: Seq<char>,
    status: u32,
)
    ensures
        status_error(endpoint, host, record_type, status) == "DoH query "@ + record_type + " "@
            + host + " via "@ + endpoint + " returned status "@ + decimal(status as nat),
{
}

} // verus!
