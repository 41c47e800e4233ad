use dns_rs::build_query_packet;
use dns_rs::get_random_element;
use dns_rs::recursive_lookup;
use dns_rs::DnsClass;
use dns_rs::DnsName;
use dns_rs::DnsPacket;
use dns_rs::DnsQuery;
use dns_rs::DnsRecord;
use dns_rs::DnsRecordType;
use dns_rs::ResolveOutcome;
use dns_rs::ServerAddr;
use dns_rs::ServerModel;

fn a_query(name: &str) -> DnsQuery {
    DnsQuery {
        name: DnsName::from(name),
        record_type: DnsRecordType::A,
        class: DnsClass::IN,
    }
}

fn a_record(name: &str, address: [u8; 4]) -> DnsRecord {
    DnsRecord::A {
        name: DnsName::from(name),
        class: DnsClass::IN,
        ttl: 300,
        address,
    }
}

#[test]
fn test_resolver_follows_referral_chain() {
    // A root that refers "example.com" to a name server with glue, and
    // the glued server answering: a finite acyclic graph with a valid
    // final answer along the chain.
    let roots = vec![a_record("root.test", [1, 2, 3, 4])];

    let mut referral = DnsPacket::new();
    referral.add_authority(DnsRecord::NS {
        name: DnsName::from("example.com"),
        class: DnsClass::IN,
        ttl: 300,
        name_server: DnsName::from("ns.example.com"),
    });
    referral.add_record(a_record("ns.example.com", [5, 6, 7, 8]));

    let mut answer = DnsPacket::new();
    answer.add_response(a_record("example.com", [9, 9, 9, 9]));

    let network = vec![
        ServerModel { address: ServerAddr::V4([1, 2, 3, 4]), reply: referral },
        ServerModel { address: ServerAddr::V4([5, 6, 7, 8]), reply: answer },
    ];

    match recursive_lookup(&a_query("example.com"), &roots, &network, 16) {
        ResolveOutcome::Answer(p) => {
            assert_eq!(p.responses().len(), 1);
            assert_eq!(p.responses()[0], a_record("example.com", [9, 9, 9, 9]));
        }
        other => panic!("expected an answer, got {:?}", other),
    }
}

#[test]
fn test_resolver_empty_pool() {
    // An empty initial candidate pool is a terminal failure, not a
    // panic or an endless loop.
    let roots: Vec<DnsRecord> = vec![];
    let network: Vec<ServerModel> = vec![];
    let outcome = recursive_lookup(&a_query("example.com"), &roots, &network, 16);
    assert!(matches!(outcome, ResolveOutcome::EmptyPool));
}

#[test]
fn test_resolver_budget_exhausted_on_cycle() {
    // A root that keeps referring every question back to itself with
    // glue: the budget runs out and the resolver fails closed.
    let roots = vec![a_record("root.test", [1, 2, 3, 4])];

    let mut referral = DnsPacket::new();
    referral.add_authority(DnsRecord::NS {
        name: DnsName::from("example.com"),
        class: DnsClass::IN,
        ttl: 300,
        name_server: DnsName::from("root.test"),
    });
    referral.add_record(a_record("root.test", [1, 2, 3, 4]));

    let network = vec![ServerModel { address: ServerAddr::V4([1, 2, 3, 4]), reply: referral }];

    let outcome = recursive_lookup(&a_query("example.com"), &roots, &network, 8);
    assert!(matches!(outcome, ResolveOutcome::BudgetExhausted));
}

#[test]
fn test_resolver_transport_failure() {
    // A candidate server that the network has no entry for behaves as a
    // transport fault, which fails the whole attempt upward.
    let roots = vec![a_record("root.test", [1, 2, 3, 4])];
    let network: Vec<ServerModel> = vec![];
    let outcome = recursive_lookup(&a_query("example.com"), &roots, &network, 16);
    assert!(matches!(outcome, ResolveOutcome::TransportFailure));
}

#[test]
fn test_resolver_partial_reply() {
    // A reply with no answers, no glue and no referral is returned
    // as-is: a terminal non-authoritative outcome, not an error.
    let roots = vec![a_record("root.test", [1, 2, 3, 4])];
    let empty_reply = DnsPacket::new();
    let network = vec![ServerModel {
        address: ServerAddr::V4([1, 2, 3, 4]),
        reply: empty_reply,
    }];

    match recursive_lookup(&a_query("example.com"), &roots, &network, 16) {
        ResolveOutcome::Partial(p) => {
            assert_eq!(p.responses().len(), 0);
        }
        other => panic!("expected a partial outcome, got {:?}", other),
    }
}

#[test]
fn test_get_random_element() {
    let empty: Vec<u32> = vec![];
    assert!(get_random_element(&empty).is_none());

    let pool: Vec<u32> = vec![5, 6, 7];
    let picked = *get_random_element(&pool).unwrap();
    assert!(pool.contains(&picked));
}

#[test]
fn test_build_query_packet() {
    let query = a_query("example.com");
    let packet = build_query_packet(&query);
    assert_eq!(packet.header().queries, 1);
    assert_eq!(packet.header().responses, 0);
    assert_eq!(packet.queries().len(), 1);
    assert_eq!(packet.queries()[0], query);

    // The packet it builds parses back to itself.
    let bytes = packet.serialize().unwrap();
    assert_eq!(DnsPacket::parse(&bytes[..]).unwrap(), packet);
}
