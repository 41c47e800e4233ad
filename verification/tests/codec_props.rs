use dns_rs::DnsClass;
use dns_rs::DnsHeaderFlags;
use dns_rs::DnsLabel;
use dns_rs::DnsName;
use dns_rs::DnsPacket;
use dns_rs::DnsQuery;
use dns_rs::DnsRecord;
use dns_rs::DnsRecordType;
use dns_rs::ErrorKind;
use dns_rs::ParseError;
use dns_rs::SerializeError;
use dns_rs::DnsHeader;

#[test]
fn test_packet_round_trip() {
    let mut packet = DnsPacket::new();
    packet.header.set_flags(DnsHeaderFlags {
        response: true,
        recdesired: true,
        recavail: true,
        ..Default::default()
    });
    packet.header.transaction_id = 0xBEEF;
    packet.add_query(DnsQuery {
        name: DnsName::from("example.com"),
        record_type: DnsRecordType::A,
        class: DnsClass::IN,
    });
    packet.add_response(DnsRecord::A {
        name: DnsName::from("example.com"),
        class: DnsClass::IN,
        ttl: 600,
        address: [93, 184, 216, 34],
    });
    packet.add_authority(DnsRecord::NS {
        name: DnsName::from("example.com"),
        class: DnsClass::IN,
        ttl: 3600,
        name_server: DnsName::from("ns1.example.com"),
    });
    packet.add_record(DnsRecord::AAAA {
        name: DnsName::from("ns1.example.com"),
        class: DnsClass::IN,
        ttl: 3600,
        address: [0x20, 0x01, 0x0D, 0xB8, 0, 0, 0, 0, 0, 0, 0, 0, 0, 0, 0, 1],
    });

    let bytes = packet.serialize().unwrap();
    let reparsed = DnsPacket::parse(&bytes[..]).unwrap();
    assert_eq!(packet, reparsed);
}

#[test]
fn test_response_round_trip_bytes() {
    // An uncompressed response: one A answer for google.com, TTL 128,
    // address 172.217.13.174.  Re-serializing must reproduce the bytes.
    let bytes: Vec<u8> = vec![
        0xD0, 0xAE, // Transaction ID
        0x81, 0x80, // Flags: response, recursion desired, recursion available
        0x00, 0x01, // Queries count: 1
        0x00, 0x01, // Responses count: 1
        0x00, 0x00, // Authority RRs: 0
        0x00, 0x00, // Additional RRs: 0
        0x06, 0x67, 0x6F, 0x6F, 0x67, 0x6C, 0x65, // google
        0x03, 0x63, 0x6F, 0x6D, // com
        0x00,       // Null terminated
        0x00, 0x01, // Record Type: A
        0x00, 0x01, // Class: IN
        0x06, 0x67, 0x6F, 0x6F, 0x67, 0x6C, 0x65, // google
        0x03, 0x63, 0x6F, 0x6D, // com
        0x00,       // Null terminated
        0x00, 0x01, // Record Type: A
        0x00, 0x01, // Class: IN
        0x00, 0x00, 0x00, 0x80, // TTL: 128 seconds
        0x00, 0x04, // Data length: 4
        0xAC, 0xD9, 0x0D, 0xAE, // Address: 172.217.13.174
    ];

    let packet = DnsPacket::parse(&bytes[..]).unwrap();
    assert_eq!(packet.responses().len(), 1);
    assert_eq!(
        packet.responses()[0],
        DnsRecord::A {
            name: DnsName::from("google.com"),
            class: DnsClass::IN,
            ttl: 128,
            address: [172, 217, 13, 174],
        }
    );
    assert_eq!(packet.serialize().unwrap(), bytes);
}

#[test]
fn test_name_compression() {
    // "subdomain.local.com" encoded in full, then "www" followed by a
    // pointer to the "local.com" suffix: decoding at the "www" position
    // yields "www.local.com".
    let bytes = [
        0x09, 0x73, 0x75, 0x62, 0x64, 0x6f, 0x6d, 0x61, 0x69, 0x6e, // "subdomain"
        0x05, 0x6c, 0x6f, 0x63, 0x61, 0x6c, // "local"      (offset 10)
        0x03, 0x63, 0x6f, 0x6d, // "com"
        0x00, // Null terminated
        0x03, 0x77, 0x77, 0x77, // "www"                    (offset 21)
        0xC0, 0x0A, // Compression jump to "local.com"
    ];

    let (name, end) = DnsName::parse(&bytes, 21).unwrap();
    assert_eq!(name, DnsName::from("www.local.com"));
    // The cursor resumes after the two pointer bytes, not at the target.
    assert_eq!(end, 27);
}

#[test]
fn test_name_equality_compression_invariant() {
    let compressed = [
        0x05, 0x6c, 0x6f, 0x63, 0x61, 0x6c, // "local"
        0x03, 0x63, 0x6f, 0x6d, // "com"
        0x00, // Null terminated
        0x03, 0x77, 0x77, 0x77, // "www"    (offset 11)
        0xC0, 0x00, // Compression jump to "local.com"
    ];
    let plain = [
        0x03, 0x77, 0x77, 0x77, // "www"
        0x05, 0x6c, 0x6f, 0x63, 0x61, 0x6c, // "local"
        0x03, 0x63, 0x6f, 0x6d, // "com"
        0x00, // Null terminated
    ];

    let (with_pointer, _) = DnsName::parse(&compressed, 11).unwrap();
    let (without_pointer, _) = DnsName::parse(&plain, 0).unwrap();
    assert_eq!(with_pointer, without_pointer);
    assert_eq!(with_pointer, DnsName::from("www.local.com"));
}

#[test]
fn test_unsupported_query_type() {
    let bytes = [
        0x01, 0x61, // "a"
        0x00, // Null terminated
        0x00, 0x03, // Record Type: 3 (not implemented)
        0x00, 0x01, // Class: IN
    ];
    let err = DnsQuery::parse(&bytes, 0).unwrap_err();
    assert_eq!(err, ParseError { kind: ErrorKind::UnsupportedType(3), offset: 3 });
}

#[test]
fn test_unsupported_record_type() {
    let bytes = [
        0x01, 0x61, // "a"
        0x00, // Null terminated
        0x00, 0x10, // Record Type: TXT (not implemented)
        0x00, 0x01, // Class: IN
        0x00, 0x00, 0x00, 0x05, // TTL
        0x00, 0x01, // Data length
        0x62, // body
    ];
    let err = DnsRecord::parse(&bytes, 0).unwrap_err();
    assert_eq!(err, ParseError { kind: ErrorKind::UnsupportedType(16), offset: 3 });
}

#[test]
fn test_parse_error_kinds() {
    // Truncated header.
    let err = DnsHeader::parse(&[0x12, 0x34, 0x01], 0).unwrap_err();
    assert_eq!(err.kind, ErrorKind::Truncated);

    // Opcode 3 is unassigned.
    let err = DnsHeaderFlags::parse(0x18, 0x00).unwrap_err();
    assert_eq!(err, ParseError { kind: ErrorKind::InvalidOpcode(3), offset: 0 });

    // Reply code 15 is unassigned.
    let err = DnsHeaderFlags::parse(0x00, 0x0F).unwrap_err();
    assert_eq!(err, ParseError { kind: ErrorKind::InvalidReplyCode(15), offset: 1 });

    // Class 5 is unknown.
    let query_bad_class = [0x01, 0x61, 0x00, 0x00, 0x01, 0x00, 0x05];
    let err = DnsQuery::parse(&query_bad_class, 0).unwrap_err();
    assert_eq!(err, ParseError { kind: ErrorKind::InvalidClass(5), offset: 5 });

    // A length byte with exactly one of the top two bits set.
    let err = DnsName::parse(&[0x41, 0x61, 0x00], 0).unwrap_err();
    assert_eq!(err, ParseError { kind: ErrorKind::InvalidLabel(0x41), offset: 0 });

    // A pointer that targets itself can never terminate: rejected, not
    // followed forever.
    let err = DnsName::parse(&[0xC0, 0x00], 0).unwrap_err();
    assert_eq!(err.kind, ErrorKind::CompressionLoop);

    // An A record whose data length is not 4.
    let bad_a = [
        0x01, 0x61, 0x00, // "a"
        0x00, 0x01, // Record Type: A
        0x00, 0x01, // Class: IN
        0x00, 0x00, 0x00, 0x05, // TTL
        0x00, 0x05, // Data length: 5
        0x01, 0x02, 0x03, 0x04, 0x05,
    ];
    let err = DnsRecord::parse(&bad_a, 0).unwrap_err();
    assert_eq!(err, ParseError { kind: ErrorKind::InvalidAddressLength(5), offset: 11 });
}

#[test]
fn test_serialize_error_kinds() {
    // A label longer than 63 bytes cannot be length-prefixed.
    let long = DnsName { labels: vec![DnsLabel::new(&[b'a'; 64])] };
    assert_eq!(long.to_bytes().unwrap_err(), SerializeError::InvalidLabel);

    // An empty label cannot be carried either.
    let empty = DnsName::from("");
    assert_eq!(empty.to_bytes().unwrap_err(), SerializeError::InvalidLabel);

    // An NS body longer than the 16-bit data-length field can state.
    let mut labels = Vec::new();
    for _ in 0..1100 {
        labels.push(DnsLabel::new(&[b'a'; 63]));
    }
    let huge = DnsRecord::NS {
        name: DnsName::from("example.com"),
        class: DnsClass::IN,
        ttl: 0,
        name_server: DnsName { labels },
    };
    assert_eq!(huge.to_bytes().unwrap_err(), SerializeError::DataTooLong);
}

#[test]
fn test_flags_parse_round_trip() {
    let flags = DnsHeaderFlags {
        response: true,
        recdesired: true,
        recavail: true,
        ..Default::default()
    };
    let bytes = flags.to_bytes();
    assert_eq!(bytes, vec![0x81, 0x80]);
    assert_eq!(DnsHeaderFlags::parse(bytes[0], bytes[1]).unwrap(), flags);
}
