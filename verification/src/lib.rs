//! A DNS message codec and a recursive resolution engine.
//!
//! The codec decodes the DNS wire format (big-endian, with
//! pointer-compressed domain names) into typed values and encodes those
//! values back to bytes; the resolver walks a referral chain of name
//! servers, deciding after each reply which server to ask next.  All
//! byte-level work and every resolution decision lives in this crate;
//! socket transport and process setup live outside it.

pub mod flags;
pub mod header;
pub mod name;
pub mod packet;
pub mod query;
pub mod record;
pub mod resolver;
pub mod resources;
pub mod types;
pub mod wire;

pub use flags::convert_bit_to_bool;
pub use flags::DnsHeaderFlags;
pub use flags::Opcode;
pub use flags::ReplyCode;
pub use header::DnsHeader;
pub use name::DnsLabel;
pub use name::DnsName;
pub use packet::DnsPacket;
pub use query::DnsQuery;
pub use record::DnsRecord;
pub use resolver::build_query_packet;
pub use resolver::get_random_element;
pub use resolver::recursive_lookup;
pub use resolver::ResolveOutcome;
pub use resolver::ResolveStep;
pub use resolver::Resolver;
pub use resolver::ServerAddr;
pub use resolver::ServerModel;
pub use resources::DnsClass;
pub use resources::DnsRecordType;
pub use types::ErrorKind;
pub use types::ParseError;
pub use types::SerializeError;
