//! The record-type and class enumerations shared by queries and
//! resource records.

use vstd::prelude::*;

verus! {

/// The record types this codec implements: address, name-server,
/// canonical-name and IPv6-address records.  Any other wire code is
/// reported as an unsupported type, never parsed into a wrong variant.
#[derive(Debug, Clone, Copy, PartialEq, Eq, Structural)]
pub enum DnsRecordType {
    A,
    NS,
    CNAME,
    AAAA,
}

/// The four record classes of the wire format.
#[derive(Debug, Clone, Copy, PartialEq, Eq, Structural)]
pub enum DnsClass {
    IN,
    CS,
    CH,
    HS,
}

impl DnsRecordType {
    /// The 16-bit wire code of this record type.
    pub open spec fn spec_code(self) -> u16 {
        match self {
            DnsRecordType::A => 0x01,
            DnsRecordType::NS => 0x02,
            DnsRecordType::CNAME => 0x05,
            DnsRecordType::AAAA => 0x1C,
        }
    }

    /// The record type denoted by a 16-bit wire code, if implemented.
    pub open spec fn spec_from_code(code: u16) -> Option<DnsRecordType> {
        if code == 0x01 {
            Some(DnsRecordType::A)
        } else if code == 0x02 {
            Some(DnsRecordType::NS)
        } else if code == 0x05 {
            Some(DnsRecordType::CNAME)
        } else if code == 0x1C {
            Some(DnsRecordType::AAAA)
        } else {
            None
        }
    }

    #[verifier::when_used_as_spec(spec_code)]
    pub fn code(self) -> (c: u16)
        ensures
            c == self.spec_code(),
    {
        match self {
            DnsRecordType::A => 0x01,
            DnsRecordType::NS => 0x02,
            DnsRecordType::CNAME => 0x05,
            DnsRecordType::AAAA => 0x1C,
        }
    }

    #[verifier::when_used_as_spec(spec_from_code)]
    pub fn from_code(code: u16) -> (r: Option<DnsRecordType>)
        ensures
            r == DnsRecordType::spec_from_code(code),
    {
        match code {
            0x01 => Some(DnsRecordType::A),
            0x02 => Some(DnsRecordType::NS),
            0x05 => Some(DnsRecordType::CNAME),
            0x1C => Some(DnsRecordType::AAAA),
            _ => None,
        }
    }
}

impl DnsClass {
    /// The 16-bit wire code of this class.
    pub open spec fn spec_code(self) -> u16 {
        match self {
            DnsClass::IN => 0x01,
            DnsClass::CS => 0x02,
            DnsClass::CH => 0x03,
            DnsClass::HS => 0x04,
        }
    }

    /// The class denoted by a 16-bit wire code, if any.
    pub open spec fn spec_from_code(code: u16) -> Option<DnsClass> {
        if code == 0x01 {
            Some(DnsClass::IN)
        } else if code == 0x02 {
            Some(DnsClass::CS)
        } else if code == 0x03 {
            Some(DnsClass::CH)
        } else if code == 0x04 {
            Some(DnsClass::HS)
        } else {
            None
        }
    }

    #[verifier::when_used_as_spec(spec_code)]
    pub fn code(self) -> (c: u16)
        ensures
            c == self.spec_code(),
    {
        match self {
            DnsClass::IN => 0x01,
            DnsClass::CS => 0x02,
            DnsClass::CH => 0x03,
            DnsClass::HS => 0x04,
        }
    }

    #[verifier::when_used_as_spec(spec_from_code)]
    pub fn from_code(code: u16) -> (r: Option<DnsClass>)
        ensures
            r == DnsClass::spec_from_code(code),
    {
        match code {
            0x01 => Some(DnsClass::IN),
            0x02 => Some(DnsClass::CS),
            0x03 => Some(DnsClass::CH),
            0x04 => Some(DnsClass::HS),
            _ => None,
        }
    }
}

} // verus!
