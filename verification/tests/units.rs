use dns_rs::DnsHeader;
use dns_rs::DnsHeaderFlags;
use dns_rs::DnsName;
use dns_rs::Opcode;
use dns_rs::ReplyCode;

#[test]
fn flags_test_serialize() {
    let flags = DnsHeaderFlags {
        response: true,
        opcode: Opcode::Query,
        authoritative: false,
        truncated: false,
        recdesired: true,
        recavail: true,
        z: false,
        authenticated: false,
        checkdisable: false,
        rcode: ReplyCode::NoError,
    };

    assert_eq!(flags.to_bytes(), vec![0x81, 0x80]);

    // 0010 1101 1001 0010
    let flags = DnsHeaderFlags {
        response: false,
        opcode: Opcode::Update,
        authoritative: true,
        truncated: false,
        recdesired: true,
        recavail: true,
        z: false,
        authenticated: false,
        checkdisable: true,
        rcode: ReplyCode::ServerFailure,
    };

    assert_eq!(flags.to_bytes(), vec![0x2D, 0x92]);
}

#[test]
fn mod_test_serialize() {
    let header = DnsHeader {
        transaction_id: 0x1234,
        flags: DnsHeaderFlags {
            recdesired: true,
            ..Default::default()
        },
        queries: 0x5678,
        responses: 0x9abc,
        auth_rr: 0xdef0,
        add_rr: 0xabcd,
    };

    assert_eq!(header.to_bytes(), vec![
        0x12, 0x34, // Transaction ID
        0x01, 0x00, // Flags
        0x56, 0x78, // Queries
        0x9A, 0xBC, // Responses
        0xDE, 0xF0, // Auth RRs
        0xAB, 0xCD, // Additional RRs
    ]);
}

#[test]
fn test_parse_name() {
    let bytes = [
        0x03, 0x77, 0x77, 0x77, // "www"
        0x05, 0x6c, 0x6f, 0x63, 0x61, 0x6c, // "local"
        0x03, 0x63, 0x6f, 0x6d, // "com"
        0x00, // Null terminated
    ];

    let (name, _) = DnsName::parse(&bytes, 0).unwrap();

    assert_eq!(name.labels.len(), 3);
    assert_eq!(name.labels[0].data, vec![0x77, 0x77, 0x77]);
    assert_eq!(name.labels[1].data, vec![0x6c, 0x6f, 0x63, 0x61, 0x6c]);
    assert_eq!(name.labels[2].data, vec![0x63, 0x6f, 0x6d]);
    assert_eq!(name, DnsName::from("www.local.com"));
}

#[test]
fn test_parse_compressed_name() {
    let bytes = [
        0x03, 0x77, 0x77, 0x77, // "www"
        0x05, 0x6c, 0x6f, 0x63, 0x61, 0x6c, // "local"
        0x03, 0x63, 0x6f, 0x6d, // "com"
        0x00, // Null terminated
        0x09, 0x73, 0x75, 0x62, 0x64, 0x6f, 0x6d, 0x61, 0x69, 0x6e, // "subdomain"
        0xC0, 0x04, // Compression jump to the fourth byte
    ];

    let (name, _) = DnsName::parse(&bytes, 15).unwrap();

    assert_eq!(name.labels.len(), 3);
    assert_eq!(
        name.labels[0].data,
        vec![0x73, 0x75, 0x62, 0x64, 0x6f, 0x6d, 0x61, 0x69, 0x6e]
    );
    assert_eq!(name.labels[1].data, vec![0x6c, 0x6f, 0x63, 0x61, 0x6c]);
    assert_eq!(name.labels[2].data, vec![0x63, 0x6f, 0x6d]);
    assert_eq!(name, DnsName::from("subdomain.local.com"));
}
