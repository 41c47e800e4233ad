//! The 16-bit flags word of a message header: ten named sub-fields
//! packed into two bytes.
//!
//! Wire layout (bit 7 is the most significant bit of each byte):
//! byte 0 holds response(1) opcode(4) authoritative(1) truncated(1)
//! recursion-desired(1); byte 1 holds recursion-available(1) z(1)
//! authenticated(1) checkdisable(1) rcode(4).

use vstd::prelude::*;

use crate::types::ErrorKind;
use crate::types::ParseError;

verus! {

/// The query-kind field of the flags word, a 4-bit enumeration.
/// Values 3 and 6 through 15 are unassigned and rejected on parse.
#[derive(Debug, Clone, Copy, PartialEq, Eq, Structural)]
pub enum Opcode {
    Query,
    IQuery,
    Status,
    Notify,
    Update,
}

/// The reply-status field of the flags word, a 4-bit enumeration.
/// Values 6 through 15 are unassigned and rejected on parse.
#[derive(Debug, Clone, Copy, PartialEq, Eq, Structural)]
pub enum ReplyCode {
    NoError,
    FormatError,
    ServerFailure,
    NameError,
    NotImplemented,
    Refused,
}

impl Opcode {
    /// The 4-bit wire value of this opcode.
    pub open spec fn spec_code(self) -> u8 {
        match self {
            Opcode::Query => 0x00,
            Opcode::IQuery => 0x01,
            Opcode::Status => 0x02,
            Opcode::Notify => 0x04,
            Opcode::Update => 0x05,
        }
    }

    /// The opcode denoted by a 4-bit wire value, if any.
    pub open spec fn spec_from_code(code: u8) -> Option<Opcode> {
        if code == 0x00 {
            Some(Opcode::Query)
        } else if code == 0x01 {
            Some(Opcode::IQuery)
        } else if code == 0x02 {
            Some(Opcode::Status)
        } else if code == 0x04 {
            Some(Opcode::Notify)
        } else if code == 0x05 {
            Some(Opcode::Update)
        } else {
            None
        }
    }

    #[verifier::when_used_as_spec(spec_code)]
    pub fn code(self) -> (c: u8)
        ensures
            c == self.spec_code(),
    {
        match self {
            Opcode::Query => 0x00,
            Opcode::IQuery => 0x01,
            Opcode::Status => 0x02,
            Opcode::Notify => 0x04,
            Opcode::Update => 0x05,
        }
    }

    #[verifier::when_used_as_spec(spec_from_code)]
    pub fn from_code(code: u8) -> (r: Option<Opcode>)
        ensures
            r == Opcode::spec_from_code(code),
    {
        match code {
            0x00 => Some(Opcode::Query),
            0x01 => Some(Opcode::IQuery),
            0x02 => Some(Opcode::Status),
            0x04 => Some(Opcode::Notify),
            0x05 => Some(Opcode::Update),
            _ => None,
        }
    }
}

impl ReplyCode {
    /// The 4-bit wire value of this reply code.
    pub open spec fn spec_code(self) -> u8 {
        match self {
            ReplyCode::NoError => 0x00,
            ReplyCode::FormatError => 0x01,
            ReplyCode::ServerFailure => 0x02,
            ReplyCode::NameError => 0x03,
            ReplyCode::NotImplemented => 0x04,
            ReplyCode::Refused => 0x05,
        }
    }

    /// The reply code denoted by a 4-bit wire value, if any.
    pub open spec fn spec_from_code(code: u8) -> Option<ReplyCode> {
        if code == 0x00 {
            Some(ReplyCode::NoError)
        } else if code == 0x01 {
            Some(ReplyCode::FormatError)
        } else if code == 0x02 {
            Some(ReplyCode::ServerFailure)
        } else if code == 0x03 {
            Some(ReplyCode::NameError)
        } else if code == 0x04 {
            Some(ReplyCode::NotImplemented)
        } else if code == 0x05 {
            Some(ReplyCode::Refused)
        } else {
            None
        }
    }

    #[verifier::when_used_as_spec(spec_code)]
    pub fn code(self) -> (c: u8)
        ensures
            c == self.spec_code(),
    {
        match self {
            ReplyCode::NoError => 0x00,
            ReplyCode::FormatError => 0x01,
            ReplyCode::ServerFailure => 0x02,
            ReplyCode::NameError => 0x03,
            ReplyCode::NotImplemented => 0x04,
            ReplyCode::Refused => 0x05,
        }
    }

    #[verifier::when_used_as_spec(spec_from_code)]
    pub fn from_code(code: u8) -> (r: Option<ReplyCode>)
        ensures
            r == ReplyCode::spec_from_code(code),
    {
        match code {
            0x00 => Some(ReplyCode::NoError),
            0x01 => Some(ReplyCode::FormatError),
            0x02 => Some(ReplyCode::ServerFailure),
            0x03 => Some(ReplyCode::NameError),
            0x04 => Some(ReplyCode::NotImplemented),
            0x05 => Some(ReplyCode::Refused),
            _ => None,
        }
    }
}

/// A single flag bit read off the wire: 1 means set, 0 means clear,
/// and anything else is a caller error.
pub fn convert_bit_to_bool(value: usize) -> (r: bool)
    requires
        value <= 1,
    ensures
        r == (value == 1),
{
    value == 1
}

/// The ten sub-fields of the 16-bit flags word.
#[derive(Debug, Clone, Copy, PartialEq, Eq, Structural)]
pub struct DnsHeaderFlags {
    pub response: bool,
    pub opcode: Opcode,
    pub authoritative: bool,
    pub truncated: bool,
    pub recdesired: bool,
    pub recavail: bool,
    pub z: bool,
    pub authenticated: bool,
    pub checkdisable: bool,
    pub rcode: ReplyCode,
}

/// The bit denoting a boolean flag.
pub open spec fn spec_bit(b: bool) -> u8 {
    if b {
        1
    } else {
        0
    }
}

impl DnsHeaderFlags {
    /// An all-clear query: every bit zero, opcode `Query`, rcode `NoError`.
    pub open spec fn spec_default() -> DnsHeaderFlags {
        DnsHeaderFlags {
            response: false,
            opcode: Opcode::Query,
            authoritative: false,
            truncated: false,
            recdesired: false,
            recavail: false,
            z: false,
            authenticated: false,
            checkdisable: false,
            rcode: ReplyCode::NoError,
        }
    }

    /// The first wire byte: response, opcode, authoritative, truncated,
    /// recursion-desired, with response as the high bit.
    pub open spec fn spec_byte0(self) -> u8 {
        (spec_bit(self.response) << 7) | (self.opcode.spec_code() << 3) | (spec_bit(
            self.authoritative,
        ) << 2) | (spec_bit(self.truncated) << 1) | spec_bit(self.recdesired)
    }

    /// The second wire byte: recursion-available, z, authenticated,
    /// checkdisable, rcode, with recursion-available as the high bit.
    pub open spec fn spec_byte1(self) -> u8 {
        (spec_bit(self.recavail) << 7) | (spec_bit(self.z) << 6) | (spec_bit(self.authenticated)
            << 5) | (spec_bit(self.checkdisable) << 4) | self.rcode.spec_code()
    }

    /// The two bytes this flag set occupies on the wire.
    pub open spec fn spec_serialize(self) -> Seq<u8> {
        seq![self.spec_byte0(), self.spec_byte1()]
    }

    /// Decoding two wire bytes into a flag set; `offset` locates a fault
    /// relative to the first of the two bytes.
    pub open spec fn spec_parse(b0: u8, b1: u8) -> Result<DnsHeaderFlags, ParseError> {
        let opcode_bits = (b0 >> 3) & 0x0F;
        let rcode_bits = b1 & 0x0F;
        match Opcode::spec_from_code(opcode_bits) {
            None => Err(ParseError { kind: ErrorKind::InvalidOpcode(opcode_bits), offset: 0 }),
            Some(opcode) => match ReplyCode::spec_from_code(rcode_bits) {
                None => Err(
                    ParseError { kind: ErrorKind::InvalidReplyCode(rcode_bits), offset: 1 },
                ),
                Some(rcode) => Ok(
                    DnsHeaderFlags {
                        response: (b0 >> 7) & 1 == 1,
                        opcode,
                        authoritative: (b0 >> 2) & 1 == 1,
                        truncated: (b0 >> 1) & 1 == 1,
                        recdesired: b0 & 1 == 1,
                        recavail: (b1 >> 7) & 1 == 1,
                        z: (b1 >> 6) & 1 == 1,
                        authenticated: (b1 >> 5) & 1 == 1,
                        checkdisable: (b1 >> 4) & 1 == 1,
                        rcode,
                    },
                ),
            },
        }
    }

    /// Decodes the two bytes of the flags word.  Fails exactly when the
    /// opcode or reply-code bit pattern maps to no known value; the
    /// error offset is 0 for the opcode byte and 1 for the rcode byte.
    pub fn parse(b0: u8, b1: u8) -> (r: Result<DnsHeaderFlags, ParseError>)
        ensures
            r == DnsHeaderFlags::spec_parse(b0, b1),
    {
        let opcode_bits = (b0 >> 3) & 0x0F;
        let rcode_bits = b1 & 0x0F;
        let opcode = match Opcode::from_code(opcode_bits) {
            Some(o) => o,
            None => {
                return Err(ParseError { kind: ErrorKind::InvalidOpcode(opcode_bits), offset: 0 });
            },
        };
        let rcode = match ReplyCode::from_code(rcode_bits) {
            Some(c) => c,
            None => {
                return Err(ParseError { kind: ErrorKind::InvalidReplyCode(rcode_bits), offset: 1 });
            },
        };
        Ok(
            DnsHeaderFlags {
                response: (b0 >> 7) & 1 == 1,
                opcode,
                authoritative: (b0 >> 2) & 1 == 1,
                truncated: (b0 >> 1) & 1 == 1,
                recdesired: b0 & 1 == 1,
                recavail: (b1 >> 7) & 1 == 1,
                z: (b1 >> 6) & 1 == 1,
                authenticated: (b1 >> 5) & 1 == 1,
                checkdisable: (b1 >> 4) & 1 == 1,
                rcode,
            },
        )
    }

    /// Appends the two wire bytes of this flag set to `out`.
    pub fn serialize(&self, out: &mut Vec<u8>)
        ensures
            final (out)@ == old(out)@ + self.spec_serialize(),
    {
        let b0: u8 = (if self.response {
            0x80u8
        } else {
            0u8
        }) | (self.opcode.code() << 3) | (if self.authoritative {
            0x04u8
        } else {
            0u8
        }) | (if self.truncated {
            0x02u8
        } else {
            0u8
        }) | (if self.recdesired {
            0x01u8
        } else {
            0u8
        });
        let b1: u8 = (if self.recavail {
            0x80u8
        } else {
            0u8
        }) | (if self.z {
            0x40u8
        } else {
            0u8
        }) | (if self.authenticated {
            0x20u8
        } else {
            0u8
        }) | (if self.checkdisable {
            0x10u8
        } else {
            0u8
        }) | self.rcode.code();
        proof {
            lemma_byte0_compose(
                spec_bit(self.response),
                self.opcode.spec_code(),
                spec_bit(self.authoritative),
                spec_bit(self.truncated),
                spec_bit(self.recdesired),
            );
            lemma_byte1_compose(
                spec_bit(self.recavail),
                spec_bit(self.z),
                spec_bit(self.authenticated),
                spec_bit(self.checkdisable),
                self.rcode.spec_code(),
            );
            assert(b0 == self.spec_byte0());
            assert(b1 == self.spec_byte1());
        }
        out.push(b0);
        out.push(b1);
        assert(out@ =~= old(out)@ + self.spec_serialize());
    }

    /// The flags word as a two-byte vector.
    pub fn to_bytes(&self) -> (r: Vec<u8>)
        ensures
            r@ == self.spec_serialize(),
    {
        let mut out: Vec<u8> = Vec::new();
        self.serialize(&mut out);
        assert(out@ =~= self.spec_serialize());
        out
    }
}

/// The first flags byte built from shifted fields equals the same byte
/// built from the masked constants that the executable code ORs together.
proof fn lemma_byte0_compose(r: u8, c: u8, a: u8, t: u8, d: u8)
    requires
        r <= 1,
        c <= 15,
        a <= 1,
        t <= 1,
        d <= 1,
    ensures
        ((r << 7) | (c << 3) | (a << 2) | (t << 1) | d) == ((if r == 1 {
            0x80u8
        } else {
            0u8
        }) | (c << 3) | (if a == 1 {
            0x04u8
        } else {
            0u8
        }) | (if t == 1 {
            0x02u8
        } else {
            0u8
        }) | (if d == 1 {
            0x01u8
        } else {
            0u8
        })),
{
    assert(((r << 7) | (c << 3) | (a << 2) | (t << 1) | d) == ((if r == 1 {
        0x80u8
    } else {
        0u8
    }) | (c << 3) | (if a == 1 {
        0x04u8
    } else {
        0u8
    }) | (if t == 1 {
        0x02u8
    } else {
        0u8
    }) | (if d == 1 {
        0x01u8
    } else {
        0u8
    }))) by (bit_vector)
        requires
            r <= 1 && c <= 15 && a <= 1 && t <= 1 && d <= 1,
    ;
}

/// The second flags byte built from shifted fields equals the same byte
/// built from the masked constants that the executable code ORs together.
proof fn lemma_byte1_compose(v: u8, z: u8, u: u8, k: u8, e: u8)
    requires
        v <= 1,
        z <= 1,
        u <= 1,
        k <= 1,
        e <= 15,
    ensures
        ((v << 7) | (z << 6) | (u << 5) | (k << 4) | e) == ((if v == 1 {
            0x80u8
        } else {
            0u8
        }) | (if z == 1 {
            0x40u8
        } else {
            0u8
        }) | (if u == 1 {
            0x20u8
        } else {
            0u8
        }) | (if k == 1 {
            0x10u8
        } else {
            0u8
        }) | e),
{
    assert(((v << 7) | (z << 6) | (u << 5) | (k << 4) | e) == ((if v == 1 {
        0x80u8
    } else {
        0u8
    }) | (if z == 1 {
        0x40u8
    } else {
        0u8
    }) | (if u == 1 {
        0x20u8
    } else {
        0u8
    }) | (if k == 1 {
        0x10u8
    } else {
        0u8
    }) | e)) by (bit_vector)
        requires
            v <= 1 && z <= 1 && u <= 1 && k <= 1 && e <= 15,
    ;
}

impl Default for DnsHeaderFlags {
    /// The all-clear query flag set.
    fn default() -> (r: Self)
        ensures
            r == DnsHeaderFlags::spec_default(),
    {
        DnsHeaderFlags {
            response: false,
            opcode: Opcode::Query,
            authoritative: false,
            truncated: false,
            recdesired: false,
            recavail: false,
            z: false,
            authenticated: false,
            checkdisable: false,
            rcode: ReplyCode::NoError,
        }
    }
}

/// Decoding the two bytes written for a flag set gives that flag set
/// back: the flags word survives a serialize-parse round trip exactly.
pub proof fn lemma_flags_round_trip(f: DnsHeaderFlags)
    ensures
        DnsHeaderFlags::spec_parse(f.spec_byte0(), f.spec_byte1()) == Ok::<
            DnsHeaderFlags,
            ParseError,
        >(f),
{
    let r = spec_bit(f.response);
    let a = spec_bit(f.authoritative);
    let t = spec_bit(f.truncated);
    let d = spec_bit(f.recdesired);
    let c = f.opcode.spec_code();
    let b0 = f.spec_byte0();
    assert(b0 == (r << 7) | (c << 3) | (a << 2) | (t << 1) | d);
    assert(((b0 >> 7) & 1 == r) && ((b0 >> 3) & 0x0F == c) && ((b0 >> 2) & 1 == a) && ((b0 >> 1) & 1
        == t) && (b0 & 1 == d)) by (bit_vector)
        requires
            b0 == (r << 7) | (c << 3) | (a << 2) | (t << 1) | d && r <= 1 && a <= 1 && t <= 1 && d
                <= 1 && c <= 5,
    ;
    let v = spec_bit(f.recavail);
    let z = spec_bit(f.z);
    let u = spec_bit(f.authenticated);
    let k = spec_bit(f.checkdisable);
    let e = f.rcode.spec_code();
    let b1 = f.spec_byte1();
    assert(b1 == (v << 7) | (z << 6) | (u << 5) | (k << 4) | e);
    assert(((b1 >> 7) & 1 == v) && ((b1 >> 6) & 1 == z) && ((b1 >> 5) & 1 == u) && ((b1 >> 4) & 1
        == k) && (b1 & 0x0F == e)) by (bit_vector)
        requires
            b1 == (v << 7) | (z << 6) | (u << 5) | (k << 4) | e && v <= 1 && z <= 1 && u <= 1 && k
                <= 1 && e <= 5,
    ;
    assert(Opcode::spec_from_code(c) == Some(f.opcode));
    assert(ReplyCode::spec_from_code(e) == Some(f.rcode));
}

} // verus!
