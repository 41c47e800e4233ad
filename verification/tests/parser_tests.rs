use dns_rs::DnsClass;
use dns_rs::DnsHeader;
use dns_rs::DnsHeaderFlags;
use dns_rs::DnsName;
use dns_rs::DnsPacket;
use dns_rs::DnsQuery;
use dns_rs::DnsRecordType;
use dns_rs::Opcode;

#[test]
fn parser_tests_test_parse_ipv4_dns_query() {
    let bytes: Vec<u8> = vec![
        0xD0, 0xAE, // Transaction ID: 0xD0AE
        0x01, 0x00, // Flags: recursion desired
        0x00, 0x01, // Queries count: 1
        0x00, 0x00, // Responses count: 0
        0x00, 0x00, // Authority RRs: 0
        0x00, 0x00, // Additional RRs: 0
        0x06, 0x67, 0x6F, 0x6F, 0x67, 0x6C, 0x65, // google
        0x03, 0x63, 0x6F, 0x6D, // com
        0x00,       // Null terminated
        0x00, 0x01, // Record Type: A
        0x00, 0x01, // Class: IN
    ];

    let expect = DnsPacket {
        header: DnsHeader {
            transaction_id: 0xD0AE,
            flags: DnsHeaderFlags {
                response: false,
                opcode: Opcode::Query,
                truncated: false,
                recdesired: true,
                z: false,
                authenticated: false,
                ..Default::default()
            },
            queries: 0x01,
            responses: 0x00,
            add_rr: 0x00,
            auth_rr: 0x00,
        },
        queries: vec![DnsQuery {
            name: DnsName::from("google.com"),
            record_type: DnsRecordType::A,
            class: DnsClass::IN,
        }],
        responses: vec![],
        authorities: vec![],
        additional_records: vec![],
    };

    assert_eq!(expect, DnsPacket::parse(&bytes[..]).unwrap())
}

#[test]
fn parser_tests_test_parse_ipv6_dns_query() {
    let bytes: Vec<u8> = vec![
        0x62, 0x09, // Transaction ID: 0x6209
        0x01, 0x00, // Flags: recursion desired
        0x00, 0x01, // Queries count: 1
        0x00, 0x00, // Responses count: 0
        0x00, 0x00, // Authority RRs: 0
        0x00, 0x00, // Additional RRs: 0
        0x06, 0x67, 0x6F, 0x6F, 0x67, 0x6C, 0x65, // google
        0x03, 0x63, 0x6F, 0x6D, // com
        0x00,       // Null terminated
        0x00, 0x1C, // Record Type: AAAA
        0x00, 0x01, // Class: IN
    ];

    let expect = DnsPacket {
        header: DnsHeader {
            transaction_id: 0x6209,
            flags: DnsHeaderFlags {
                response: false,
                opcode: Opcode::Query,
                truncated: false,
                recdesired: true,
                z: false,
                authenticated: false,
                ..Default::default()
            },
            queries: 0x01,
            responses: 0x00,
            add_rr: 0x00,
            auth_rr: 0x00,
        },
        queries: vec![DnsQuery {
            name: DnsName::from("google.com"),
            record_type: DnsRecordType::AAAA,
            class: DnsClass::IN,
        }],
        responses: vec![],
        authorities: vec![],
        additional_records: vec![],
    };

    assert_eq!(expect, DnsPacket::parse(&bytes[..]).unwrap());
}
