use base64::Engine;
use linuxdo_accelerator::dns::{
    build_dns_wire_query, dns_record_type_code, encode_dns_name, format_dns_hex_rdata,
    min_duration_options, min_ttl_duration, parse_dns_wire_response, read_dns_u16, read_dns_u32,
    skip_dns_wire_name, DnsError, DohAnswer,
};
use linuxdo_accelerator::https_rr::{
    parse_dns_json_hex_rdata, parse_dns_name, parse_ech_config_param, parse_ech_public_name,
    parse_https_answer, parse_https_presentation_rdata, parse_https_wire_rdata, read_u16, EchError,
    HttpsError, HttpsServiceBinding,
};
use linuxdo_accelerator::net::{
    parse_ip, parse_ipv4, parse_ipv6, show_ipv4, show_socket, IpAddress, SocketAddress,
};
use linuxdo_accelerator::radix64::{base64_decode, decode_base64};
use linuxdo_accelerator::text::{read_number, NumberFault};

const CURRENT_LINUX_DO_HTTPS_RR: &str = "1 . alpn=h3,h2 ipv4hint=104.20.16.234,172.66.166.61 ech=AEX+DQBBUgAgACApX7zJGzc2YT6igXiXwkBCe+2AqFgEbRjVaSzuvIIPbgAEAAEAAQASY2xvdWRmbGFyZS1lY2guY29tAAA= ipv6hint=2606:4700:10::6814:10ea,2606:4700:10::ac42:a63d";

fn decode_hex(value: &str) -> Vec<u8> {
    value
        .as_bytes()
        .chunks_exact(2)
        .map(|pair| {
            let pair = std::str::from_utf8(pair).unwrap();
            u8::from_str_radix(pair, 16).unwrap()
        })
        .collect()
}

#[test]
fn parses_presentation_format_https_rr_with_ech() {
    let binding = parse_https_answer(CURRENT_LINUX_DO_HTTPS_RR).unwrap();
    assert_eq!(binding.priority, 1);
    assert_eq!(binding.target_name, None);
    assert_eq!(
        binding.ech_public_name.as_deref(),
        Some("cloudflare-ech.com")
    );
    assert!(binding.ech_config_list.is_some());
}

#[test]
fn parses_dns_message_https_answer_with_ech() {
    let packet = decode_hex(
        "4c4481800001000100000001056c696e757802646f0000410001c00c004100010000012c00880001000001000602683302683200040008681410eaac42a63d000500470045fe0d0041a1002000209617c436d19cf32fa6a8add0a4ea77c7e4761843759b4be749533759fb87810f0004000100010012636c6f7564666c6172652d6563682e636f6d000000060020260647000010000000000000681410ea260647000010000000000000ac42a63d0000291000000000000000",
    );
    let answers = parse_dns_wire_response(&packet, 65).unwrap();
    assert_eq!(answers.len(), 1);
    assert_eq!(answers[0].ttl, Some(300));
    let binding = parse_https_answer(&answers[0].data).unwrap();
    assert_eq!(binding.priority, 1);
    assert_eq!(
        binding.ech_public_name.as_deref(),
        Some("cloudflare-ech.com")
    );
    assert!(binding.ech_config_list.is_some());
}

#[test]
fn builds_dns_message_query() {
    let query = build_dns_wire_query("linux.do", 65).unwrap();
    assert_eq!(&query[..12], b"LD\x01\x00\x00\x01\x00\x00\x00\x00\x00\x00");
    assert_eq!(&query[12..], b"\x05linux\x02do\x00\x00A\x00\x01");
}

#[test]
fn numbers_record_types() {
    assert_eq!(dns_record_type_code("A"), Ok(1));
    assert_eq!(dns_record_type_code("AAAA"), Ok(28));
    assert_eq!(dns_record_type_code("HTTPS"), Ok(65));
    assert_eq!(dns_record_type_code("TXT"), Err(DnsError::UnsupportedRecordType));
    assert_eq!(dns_record_type_code("a"), Err(DnsError::UnsupportedRecordType));
}

#[test]
fn encodes_names() {
    let mut output = vec![9u8];
    encode_dns_name("a.bc...", &mut output).unwrap();
    assert_eq!(output, b"\x09\x01a\x02bc\x00");
    let mut root = Vec::new();
    encode_dns_name("...", &mut root).unwrap();
    assert_eq!(root, b"\x00");
    let long = "x".repeat(63);
    let mut output = Vec::new();
    encode_dns_name(&long, &mut output).unwrap();
    assert_eq!(output.len(), 65);
    assert_eq!(
        encode_dns_name(&"x".repeat(64), &mut Vec::new()),
        Err(DnsError::InvalidLabel)
    );
    assert_eq!(encode_dns_name("a..b", &mut Vec::new()), Err(DnsError::InvalidLabel));
    assert_eq!(build_dns_wire_query(".a", 1), Err(DnsError::InvalidLabel));
}

#[test]
fn says_what_is_wrong_with_a_message() {
    assert_eq!(
        DnsError::UnsupportedRecordType.message("TXT"),
        "unsupported DNS record type TXT"
    );
    assert_eq!(DnsError::InvalidLabel.message("a..b."), "invalid DNS label in a..b");
    assert_eq!(DnsError::ResponseCode(3).message(""), "DNS response returned rcode 3");
    assert_eq!(DnsError::NotAResponse.message(""), "DNS message is not a response");
}

/// A response with one question for the root, and the given records.
fn response(records: &[u8], count: u8) -> Vec<u8> {
    let mut packet = vec![0, 0, 0x81, 0x80, 0, 1, 0, count, 0, 0, 0, 0];
    packet.extend_from_slice(&[0, 0, 1, 0, 1]);
    packet.extend_from_slice(records);
    packet
}

fn record(record_type: u16, class: u16, ttl: u32, data: &[u8]) -> Vec<u8> {
    let mut bytes = vec![0xc0, 12];
    bytes.extend_from_slice(&record_type.to_be_bytes());
    bytes.extend_from_slice(&class.to_be_bytes());
    bytes.extend_from_slice(&ttl.to_be_bytes());
    bytes.extend_from_slice(&(data.len() as u16).to_be_bytes());
    bytes.extend_from_slice(data);
    bytes
}

#[test]
fn reads_addresses_from_a_response() {
    let mut records = record(1, 1, 60, &[104, 20, 16, 234]);
    records.extend(record(5, 1, 10, b"\x00"));
    records.extend(record(1, 3, 10, &[1, 2, 3, 4]));
    records.extend(record(1, 1, 10, &[1, 2, 3]));
    records.extend(record(1, 1, 30, &[172, 66, 166, 61]));
    let answers = parse_dns_wire_response(&response(&records, 5), 1).unwrap();
    assert_eq!(answers.len(), 2);
    assert_eq!(answers[0].data, "104.20.16.234");
    assert_eq!(answers[0].ttl, Some(60));
    assert_eq!(answers[1].data, "172.66.166.61");
    assert_eq!(min_ttl_duration(&answers), Some(30));

    let mut octets = [0u8; 16];
    octets[0] = 0x20;
    octets[1] = 1;
    octets[2] = 0x0d;
    octets[3] = 0xb8;
    octets[15] = 1;
    let answers = parse_dns_wire_response(&response(&record(28, 1, 7, &octets), 1), 28).unwrap();
    assert_eq!(answers[0].data, "2001:db8::1");
    assert_eq!(answers[0].record_type, 28);
    let answers = parse_dns_wire_response(&response(&record(16, 1, 7, b"x"), 1), 16).unwrap();
    assert!(answers.is_empty());
}

#[test]
fn refuses_broken_responses() {
    let error = |packet: &[u8]| parse_dns_wire_response(packet, 1).unwrap_err();
    assert_eq!(error(&[0; 11]), DnsError::HeaderTruncated);
    assert_eq!(error(&[0; 12]), DnsError::NotAResponse);
    let mut packet = response(&[], 0);
    packet[3] = 0x83;
    assert_eq!(error(&packet), DnsError::ResponseCode(3));
    let question = |bytes: &[u8]| {
        let mut packet = vec![0, 0, 0x81, 0x80, 0, 1, 0, 0, 0, 0, 0, 0];
        packet.extend_from_slice(bytes);
        packet
    };
    assert_eq!(error(&question(&[])), DnsError::NameTruncated);
    assert_eq!(error(&question(&[0xc0])), DnsError::PointerTruncated);
    assert_eq!(error(&question(&[0x40])), DnsError::InvalidLabelLength);
    assert_eq!(error(&question(&[3, b'a'])), DnsError::LabelTruncated);
    assert_eq!(error(&question(&[0, 0, 1, 0])), DnsError::QuestionTruncated);
    assert_eq!(error(&response(&[0, 0, 1], 1)), DnsError::AnswerHeaderTruncated);
    let mut short = record(1, 1, 60, &[1, 2, 3, 4]);
    short.pop();
    assert_eq!(error(&response(&short, 1)), DnsError::AnswerDataTruncated);
}

#[test]
fn reads_fields() {
    assert_eq!(read_dns_u16(&[0, 1, 2], 1), Ok(0x0102));
    assert_eq!(read_dns_u16(&[0, 1, 2], 2), Err(DnsError::U16Truncated));
    assert_eq!(read_dns_u32(&[1, 2, 3, 4], 0), Ok(0x0102_0304));
    assert_eq!(read_dns_u32(&[1, 2, 3, 4], 1), Err(DnsError::U32Truncated));
    assert_eq!(read_u16(&[0xfe, 0x0d], 0), Ok(0xfe0d));
    assert_eq!(read_u16(&[0xfe, 0x0d], 1), Err(EchError::FieldTruncated));
    assert_eq!(skip_dns_wire_name(b"\x05linux\x02do\x00rest", 0), Ok(10));
    assert_eq!(skip_dns_wire_name(b"\x05linux\xc0\x0crest", 0), Ok(8));
}

#[test]
fn a_written_name_is_read_back() {
    let query = build_dns_wire_query("cdn3.linux.do", 1).unwrap();
    assert_eq!(skip_dns_wire_name(&query, 12), Ok(query.len() - 4));
    let (name, consumed) = parse_dns_name(&query[12..]).unwrap();
    assert_eq!(name, "cdn3.linux.do");
    assert_eq!(consumed, query.len() - 16);
}

#[test]
fn hex_data_is_read_back() {
    assert_eq!(format_dns_hex_rdata(&[0, 0x0a, 0xff]), "\\# 3 00 0a ff");
    assert_eq!(format_dns_hex_rdata(&[]), "\\# 0 ");
    for data in [vec![], vec![7], vec![1, 2, 250, 0]] {
        assert_eq!(parse_dns_json_hex_rdata(&format_dns_hex_rdata(&data)), Ok(data));
    }
}

#[test]
fn refuses_broken_hex_data() {
    let error = |text: &str| parse_dns_json_hex_rdata(text).unwrap_err();
    assert_eq!(error(" 1 . "), HttpsError::UnexpectedFormat { raw: "1 .".to_string() });
    assert_eq!(error("\\#"), HttpsError::MissingLength);
    assert_eq!(error("\\# x 00"), HttpsError::InvalidLength(NumberFault::InvalidDigit));
    let hex = |part: &str, fault| HttpsError::InvalidHexByte { part: part.to_string(), fault };
    assert_eq!(error("\\# 1 0g"), hex("0g", NumberFault::InvalidDigit));
    assert_eq!(error("\\# 1 00 100 zz"), hex("100", NumberFault::TooLarge));
    assert_eq!(
        error("\\# 3 00 01"),
        HttpsError::LengthMismatch { expected: 3, actual: 2 }
    );
    assert_eq!(parse_dns_json_hex_rdata("  \\#2 0A +b "), Ok(vec![10, 11]));
}

#[test]
fn reads_wire_bindings() {
    let mut bytes = vec![0, 7, 3, b'f', b'o', b'o', 2, b'd', b'o', 0];
    bytes.extend_from_slice(&[0, 1, 0, 2, 9, 9]);
    let binding = parse_https_wire_rdata(&bytes).unwrap();
    assert_eq!(binding.priority, 7);
    assert_eq!(binding.target_name.as_deref(), Some("foo.do"));
    assert!(binding.ech_config_list.is_none());
    bytes.extend_from_slice(&[0, 5, 0, 2, 0, 0]);
    let binding = parse_https_wire_rdata(&bytes).unwrap();
    assert_eq!(binding.ech_config_list, Some(vec![0, 0]));
    assert_eq!(binding.ech_public_name, None);
}

#[test]
fn refuses_broken_wire_bindings() {
    let error = |bytes: &[u8]| parse_https_wire_rdata(bytes).unwrap_err();
    assert_eq!(error(&[0, 1]), HttpsError::TooShort);
    assert_eq!(error(&[0, 1, 3]), HttpsError::LabelTruncated);
    assert_eq!(error(&[0, 1, 1, b'a']), HttpsError::NameTruncated);
    assert_eq!(error(&[0, 1, 0xc0, 0]), HttpsError::NameCompressed);
    assert!(matches!(error(&[0, 1, 1, 0xff, 0]), HttpsError::LabelNotUtf8 { .. }));
    assert_eq!(error(&[0, 1, 0, 0, 5, 0]), HttpsError::ParameterHeaderTruncated);
    assert_eq!(error(&[0, 1, 0, 0, 5, 0, 1]), HttpsError::ParameterValueTruncated);
    assert_eq!(error(&[0, 1, 0, 0, 5, 0, 1, 0]), HttpsError::EchTooShort);
    assert_eq!(
        error(&[0, 1, 0, 0, 5, 0, 3, 0, 2, 1]),
        HttpsError::EchLengthMismatch { declared: 2, actual: 1 }
    );
    assert_eq!(parse_ech_config_param(&[0, 1, 7]), Ok(vec![0, 1, 7]));
    assert_eq!(parse_ech_config_param(&[0]), Err(HttpsError::EchTooShort));
}

#[test]
fn reads_presentation_bindings() {
    let binding = parse_https_presentation_rdata("16 svc.linux.do. ECH=\"AAIAAQ==\"").unwrap();
    assert_eq!(binding.priority, 16);
    assert_eq!(binding.target_name.as_deref(), Some("svc.linux.do"));
    assert_eq!(binding.ech_config_list, Some(vec![0, 2, 0, 1]));
    let unpadded = parse_https_presentation_rdata("1 . ech=AAIAAQ ech=!!").unwrap();
    assert_eq!(unpadded.ech_config_list, Some(vec![0, 2, 0, 1]));
    let error = |text: &str| parse_https_presentation_rdata(text).unwrap_err();
    assert_eq!(error(""), HttpsError::MissingPriority);
    assert_eq!(error("x ."), HttpsError::InvalidPriority(NumberFault::InvalidDigit));
    assert_eq!(error("65536 ."), HttpsError::InvalidPriority(NumberFault::TooLarge));
    assert_eq!(error("1"), HttpsError::MissingTarget);
    assert!(matches!(error("1 . ech=!!"), HttpsError::InvalidBase64 { .. }));
    assert_eq!(error("1 . ech=AA=="), HttpsError::EchTooShort);
}

#[test]
fn both_forms_of_a_record_agree() {
    let wire = [0u8, 1, 0, 0, 5, 0, 4, 0, 2, 0, 1];
    let text = format_dns_hex_rdata(&wire);
    let from_text = parse_https_answer(&text).unwrap();
    let from_wire = parse_https_wire_rdata(&wire).unwrap();
    assert_eq!(from_text.priority, from_wire.priority);
    assert_eq!(from_text.target_name, from_wire.target_name);
    assert_eq!(from_text.ech_config_list, from_wire.ech_config_list);
    assert_eq!(HttpsServiceBinding::default().priority, 0);
}

/// A list with one configuration whose public name is given.
fn ech_list(name: &[u8]) -> Vec<u8> {
    let mut contents = vec![1, 0, 0x20, 0, 1, 9, 0, 4, 0, 1, 0, 1, 0, name.len() as u8];
    contents.extend_from_slice(name);
    contents.extend_from_slice(&[0, 0]);
    let mut config = vec![0xfe, 0x0d, 0, contents.len() as u8];
    config.extend(contents);
    let mut list = vec![0, config.len() as u8];
    list.extend(config);
    list
}

#[test]
fn reads_public_names() {
    assert_eq!(
        parse_ech_public_name(&ech_list(b" cloudflare-ech.com ")),
        Ok("cloudflare-ech.com".to_string())
    );
    let error = |list: &[u8]| parse_ech_public_name(list).unwrap_err();
    assert_eq!(error(&[0]), EchError::FieldTruncated);
    assert_eq!(error(&[0, 3, 0, 0, 0]), EchError::ListTruncated);
    assert_eq!(error(&[0, 9, 0, 0]), EchError::ListTruncated);
    assert_eq!(error(&[0, 4, 0xfe, 0x0a, 0, 0]), EchError::UnsupportedVersion(0xfe0a));
    assert_eq!(error(&[0, 4, 0xfe, 0x0d, 0, 1]), EchError::ContentsTruncated);
    assert_eq!(error(&[0, 4, 0xfe, 0x0d, 0, 0]), EchError::FieldTruncated);
    let bare = [0, 12, 0xfe, 0x0d, 0, 8, 1, 0, 0x20, 0, 0, 0, 0, 9];
    assert_eq!(error(&bare), EchError::NameLengthMissing);
    let cut = [0, 13, 0xfe, 0x0d, 0, 9, 1, 0, 0x20, 0, 0, 0, 0, 9, 5];
    assert_eq!(error(&cut), EchError::NameTruncated);
    assert_eq!(error(&ech_list(&[0xff])), EchError::NameNotUtf8);
    assert_eq!(error(&ech_list(b"  ")), EchError::NameEmpty);
}

#[test]
fn finds_the_shortest_lifetime() {
    let answer = |ttl: Option<u32>| DohAnswer { record_type: 1, ttl, data: String::new() };
    assert_eq!(min_ttl_duration(&vec![]), None);
    assert_eq!(min_ttl_duration(&vec![answer(None)]), None);
    assert_eq!(
        min_ttl_duration(&vec![answer(Some(9)), answer(None), answer(Some(4)), answer(Some(5))]),
        Some(4)
    );
    assert_eq!(min_duration_options(Some(2), Some(1)), Some(1));
    assert_eq!(min_duration_options(None, Some(1)), Some(1));
    assert_eq!(min_duration_options(Some(2), None), Some(2));
    assert_eq!(min_duration_options(None, None), None);
}

#[test]
fn reads_and_shows_addresses() {
    assert_eq!(parse_ipv4("104.20.16.234"), Some(0x6814_10ea));
    assert_eq!(parse_ipv4("1.2.3"), None);
    assert_eq!(parse_ipv4("01.2.3.4"), None);
    assert_eq!(parse_ipv4("256.2.3.4"), None);
    assert_eq!(parse_ipv4("+1.2.3.4"), None);
    assert_eq!(parse_ipv6("::1"), Some(1));
    assert_eq!(parse_ipv6("1.2.3.4"), None);
    assert_eq!(parse_ip("1.2.3.4"), Some(IpAddress::V4(0x0102_0304)));
    assert_eq!(parse_ip("2606:4700::"), Some(IpAddress::V6(0x2606_4700 << 96)));
    assert_eq!(parse_ip("linux.do"), None);
    assert_eq!(show_ipv4(10, 0, 200, 1), "10.0.200.1");
    assert_eq!(
        show_socket(SocketAddress { ip: IpAddress::V4(0x7f00_0001), port: 443 }),
        "127.0.0.1:443"
    );
    assert_eq!(
        show_socket(SocketAddress { ip: IpAddress::V6(0x2001_0db8 << 96 | 1), port: 80 }),
        "[2001:db8::1]:80"
    );
}

#[test]
fn decodes_base64() {
    assert_eq!(decode_base64("aGk="), Ok(b"hi".to_vec()));
    assert_eq!(decode_base64("aGk"), Ok(b"hi".to_vec()));
    assert!(decode_base64("aGk==").is_err());
    assert!(decode_base64("aG k=").is_err());
    assert_eq!(base64_decode("a\nG k=="), Some(b"hi".to_vec()));
    assert_eq!(base64_decode("////"), Some(vec![255, 255, 255]));
    assert_eq!(base64_decode("+A"), Some(vec![0xf8]));
    assert_eq!(base64_decode(""), Some(vec![]));
    assert_eq!(base64_decode("a-b"), None);
    assert_eq!(base64_decode("中"), None);
}

#[test]
fn numbers_are_refused_for_a_reason() {
    for text in [
        "", "+", "-", "-1", "+-1", "x", "12x", "65535", "+65535", "65536", "99999x", "6553x6",
        "000000001", "0x1", "\u{661}", "9999999999999999999999999",
    ] {
        let chars: Vec<char> = text.chars().collect();
        let found = read_number(&chars, 10, u16::MAX as u64).map_err(|fault| fault.message());
        let wanted = text.parse::<u16>().map(u64::from).map_err(|error| error.to_string());
        assert_eq!(found.map_err(str::to_string), wanted, "{text}");
        let found = read_number(&chars, 16, 255).map_err(|fault| fault.message().to_string());
        let wanted = u8::from_str_radix(text, 16).map(u64::from).map_err(|error| error.to_string());
        assert_eq!(found, wanted, "{text}");
    }
}

#[test]
fn a_refused_record_says_why() {
    let text = |raw: &str| parse_https_answer(raw).unwrap_err().message();
    assert_eq!(text("x ."), "invalid HTTPS RR priority: invalid digit found in string");
    assert_eq!(
        text("65536 ."),
        "invalid HTTPS RR priority: number too large to fit in target type"
    );
    assert_eq!(text("\\# x 00"), "invalid HTTPS RR byte length: invalid digit found in string");
    assert_eq!(
        text("\\# 2 00 0g"),
        "invalid HTTPS RR hex byte 0g: invalid digit found in string"
    );
    assert_eq!(
        text("\\# 5 00 01 01 ff 00"),
        "invalid UTF-8 label in HTTPS RR: invalid utf-8 sequence of 1 bytes from index 0"
    );
    let refused = base64::engine::general_purpose::STANDARD_NO_PAD.decode("A!==").unwrap_err();
    assert_eq!(
        text("1 . ech=A!=="),
        format!("invalid base64 ECH service parameter: {refused}")
    );
    assert_eq!(
        parse_dns_json_hex_rdata(" 1 . ").unwrap_err().message(),
        "unexpected HTTPS RR format: 1 ."
    );
}

#[test]
fn a_written_name_is_read_back_before_anything() {
    let mut wire = vec![];
    encode_dns_name("www.linux.do.", &mut wire).unwrap();
    let size = wire.len();
    for tail in [vec![], vec![0], vec![3, b'a'], vec![0xc0, 12, 7]] {
        let mut data = wire.clone();
        data.extend_from_slice(&tail);
        assert_eq!(parse_dns_name(&data), Ok(("www.linux.do".to_string(), size)));
    }
}
