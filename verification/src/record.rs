//! Resource records: the type-tagged entries of the answer, authority
//! and additional sections.
//!
//! On the wire a record is its owner name, a type code, a class code, a
//! 32-bit time to live, a 16-bit data length and a body of exactly that
//! many bytes.  The body's shape is fixed by the type: four address
//! bytes for A, sixteen for AAAA, and a possibly compressed name for NS
//! and CNAME, decoded against the same reference buffer as every other
//! name.  Encoding recomputes the data length from the body it actually
//! writes and never trusts a parsed length.

use vstd::prelude::*;

use crate::name::lemma_parse_encoded_name;
use crate::name::spec_encode_name;
use crate::name::spec_parse_name_full;
use crate::name::wf_name;
use crate::name::DnsName;
use crate::resources::DnsClass;
use crate::resources::DnsRecordType;
use crate::types::ErrorKind;
use crate::types::ParseError;
use crate::types::SerializeError;
use crate::wire::lemma_sub_index;
use crate::wire::lemma_sub_subrange;
use crate::wire::lemma_u16_round_trip;
use crate::wire::lemma_u32_round_trip;
use crate::wire::push_bytes;
use crate::wire::push_u16;
use crate::wire::push_u32;
use crate::wire::read_u16;
use crate::wire::read_u32;
use crate::wire::spec_read_u16;
use crate::wire::spec_read_u32;
use crate::wire::spec_u16_bytes;
use crate::wire::spec_u32_bytes;

verus! {

/// The mathematical value of a record: names as label sequences,
/// addresses as byte sequences.
pub enum RecordV {
    A { name: Seq<Seq<u8>>, class: DnsClass, ttl: u32, address: Seq<u8> },
    NS { name: Seq<Seq<u8>>, class: DnsClass, ttl: u32, name_server: Seq<Seq<u8>> },
    CNAME { name: Seq<Seq<u8>>, class: DnsClass, ttl: u32, canonical_name: Seq<Seq<u8>> },
    AAAA { name: Seq<Seq<u8>>, class: DnsClass, ttl: u32, address: Seq<u8> },
}

/// One resource record, a closed union over the implemented types.
#[derive(Debug, PartialEq, Eq)]
#[allow(inconsistent_fields)]
pub enum DnsRecord {
    A { name: DnsName, class: DnsClass, ttl: u32, address: [u8; 4] },
    NS { name: DnsName, class: DnsClass, ttl: u32, name_server: DnsName },
    CNAME { name: DnsName, class: DnsClass, ttl: u32, canonical_name: DnsName },
    AAAA { name: DnsName, class: DnsClass, ttl: u32, address: [u8; 16] },
}

impl View for DnsRecord {
    type V = RecordV;

    open spec fn view(&self) -> RecordV {
        match self {
            DnsRecord::A { name, class, ttl, address } => RecordV::A {
                name: name@,
                class: *class,
                ttl: *ttl,
                address: address@,
            },
            DnsRecord::NS { name, class, ttl, name_server } => RecordV::NS {
                name: name@,
                class: *class,
                ttl: *ttl,
                name_server: name_server@,
            },
            DnsRecord::CNAME { name, class, ttl, canonical_name } => RecordV::CNAME {
                name: name@,
                class: *class,
                ttl: *ttl,
                canonical_name: canonical_name@,
            },
            DnsRecord::AAAA { name, class, ttl, address } => RecordV::AAAA {
                name: name@,
                class: *class,
                ttl: *ttl,
                address: address@,
            },
        }
    }
}

impl Clone for DnsRecord {
    /// A record with the same fields.
    fn clone(&self) -> (r: Self)
        ensures
            r@ == self@,
    {
        match self {
            DnsRecord::A { name, class, ttl, address } => DnsRecord::A {
                name: name.clone(),
                class: *class,
                ttl: *ttl,
                address: *address,
            },
            DnsRecord::NS { name, class, ttl, name_server } => DnsRecord::NS {
                name: name.clone(),
                class: *class,
                ttl: *ttl,
                name_server: name_server.clone(),
            },
            DnsRecord::CNAME { name, class, ttl, canonical_name } => DnsRecord::CNAME {
                name: name.clone(),
                class: *class,
                ttl: *ttl,
                canonical_name: canonical_name.clone(),
            },
            DnsRecord::AAAA { name, class, ttl, address } => DnsRecord::AAAA {
                name: name.clone(),
                class: *class,
                ttl: *ttl,
                address: *address,
            },
        }
    }
}

/// The owner name of a record value.
pub open spec fn record_name(r: RecordV) -> Seq<Seq<u8>> {
    match r {
        RecordV::A { name, .. } => name,
        RecordV::NS { name, .. } => name,
        RecordV::CNAME { name, .. } => name,
        RecordV::AAAA { name, .. } => name,
    }
}

/// The wire type of a record value.
pub open spec fn record_type(r: RecordV) -> DnsRecordType {
    match r {
        RecordV::A { .. } => DnsRecordType::A,
        RecordV::NS { .. } => DnsRecordType::NS,
        RecordV::CNAME { .. } => DnsRecordType::CNAME,
        RecordV::AAAA { .. } => DnsRecordType::AAAA,
    }
}

/// The class of a record value.
pub open spec fn record_class(r: RecordV) -> DnsClass {
    match r {
        RecordV::A { class, .. } => class,
        RecordV::NS { class, .. } => class,
        RecordV::CNAME { class, .. } => class,
        RecordV::AAAA { class, .. } => class,
    }
}

/// The time to live of a record value.
pub open spec fn record_ttl(r: RecordV) -> u32 {
    match r {
        RecordV::A { ttl, .. } => ttl,
        RecordV::NS { ttl, .. } => ttl,
        RecordV::CNAME { ttl, .. } => ttl,
        RecordV::AAAA { ttl, .. } => ttl,
    }
}

/// The record body as encoded: the address bytes, or the uncompressed
/// name encoding for NS and CNAME.
pub open spec fn record_body(r: RecordV) -> Seq<u8> {
    match r {
        RecordV::A { address, .. } => address,
        RecordV::NS { name_server, .. } => spec_encode_name(name_server),
        RecordV::CNAME { canonical_name, .. } => spec_encode_name(canonical_name),
        RecordV::AAAA { address, .. } => address,
    }
}

/// A record the wire format can carry: well-formed names throughout,
/// the address length fixed by the family, and a body short enough for
/// the 16-bit data-length field.  Every record built from the typed
/// constructors with well-formed names satisfies this; the address
/// lengths hold by construction.
pub open spec fn wf_record(r: RecordV) -> bool {
    &&& wf_name(record_name(r))
    &&& match r {
        RecordV::A { address, .. } => address.len() == 4,
        RecordV::NS { name_server, .. } => wf_name(name_server) && spec_encode_name(
            name_server,
        ).len() <= 0xFFFF,
        RecordV::CNAME { canonical_name, .. } => wf_name(canonical_name) && spec_encode_name(
            canonical_name,
        ).len() <= 0xFFFF,
        RecordV::AAAA { address, .. } => address.len() == 16,
    }
}

/// The wire encoding of a record: owner name, type code, class code,
/// time to live, recomputed data length, body.
pub open spec fn spec_encode_record(r: RecordV) -> Seq<u8> {
    spec_encode_name(record_name(r)) + spec_u16_bytes(record_type(r).spec_code()) + spec_u16_bytes(
        record_class(r).spec_code(),
    ) + spec_u32_bytes(record_ttl(r)) + spec_u16_bytes(record_body(r).len() as u16) + record_body(r)
}

/// Encoding a record: its bytes, or the first fault that makes it
/// unencodable — a bad owner name, then a bad body name, then a body
/// too long for its length field.
pub open spec fn spec_serialize_record(r: RecordV) -> Result<Seq<u8>, SerializeError> {
    if !wf_name(record_name(r)) {
        Err(SerializeError::InvalidLabel)
    } else {
        match r {
            RecordV::NS { name_server, .. } => if !wf_name(name_server) {
                Err(SerializeError::InvalidLabel)
            } else if spec_encode_name(name_server).len() > 0xFFFF {
                Err(SerializeError::DataTooLong)
            } else {
                Ok(spec_encode_record(r))
            },
            RecordV::CNAME { canonical_name, .. } => if !wf_name(canonical_name) {
                Err(SerializeError::InvalidLabel)
            } else if spec_encode_name(canonical_name).len() > 0xFFFF {
                Err(SerializeError::DataTooLong)
            } else {
                Ok(spec_encode_record(r))
            },
            RecordV::A { address, .. } => if address.len() != 4 {
                Err(SerializeError::InvalidAddress)
            } else {
                Ok(spec_encode_record(r))
            },
            RecordV::AAAA { address, .. } => if address.len() != 16 {
                Err(SerializeError::InvalidAddress)
            } else {
                Ok(spec_encode_record(r))
            },
        }
    }
}

/// Decoding a record at `pos` against the whole buffer.  The data
/// length must match the family for address records; for NS and CNAME
/// the body is a name decoded in place, as the wire position after it
/// determines where the next record starts.
pub open spec fn spec_parse_record(buf: Seq<u8>, pos: int) -> Result<(RecordV, int), ParseError> {
    match spec_parse_name_full(buf, pos) {
        Err(e) => Err(e),
        Ok((name, p)) => match spec_read_u16(buf, p) {
            Err(e) => Err(e),
            Ok(tcode) => match DnsRecordType::spec_from_code(tcode) {
                None => Err(
                    ParseError { kind: ErrorKind::UnsupportedType(tcode), offset: p as usize },
                ),
                Some(rt) => match spec_read_u16(buf, p + 2) {
                    Err(e) => Err(e),
                    Ok(ccode) => match DnsClass::spec_from_code(ccode) {
                        None => Err(
                            ParseError {
                                kind: ErrorKind::InvalidClass(ccode),
                                offset: (p + 2) as usize,
                            },
                        ),
                        Some(class) => match spec_read_u32(buf, p + 4) {
                            Err(e) => Err(e),
                            Ok(ttl) => match spec_read_u16(buf, p + 8) {
                                Err(e) => Err(e),
                                Ok(dlen) => spec_parse_record_body(
                                    buf,
                                    p + 10,
                                    name,
                                    rt,
                                    class,
                                    ttl,
                                    dlen,
                                ),
                            },
                        },
                    },
                },
            },
        },
    }
}

/// Decoding the type-dependent body of a record at `pos`.
pub open spec fn spec_parse_record_body(
    buf: Seq<u8>,
    pos: int,
    name: Seq<Seq<u8>>,
    rt: DnsRecordType,
    class: DnsClass,
    ttl: u32,
    dlen: u16,
) -> Result<(RecordV, int), ParseError> {
    match rt {
        DnsRecordType::A => if dlen != 4 {
            Err(
                ParseError { kind: ErrorKind::InvalidAddressLength(dlen), offset: (pos - 2) as usize },
            )
        } else if pos + 4 > buf.len() {
            Err(ParseError { kind: ErrorKind::Truncated, offset: pos as usize })
        } else {
            Ok((RecordV::A { name, class, ttl, address: buf.subrange(pos, pos + 4) }, pos + 4))
        },
        DnsRecordType::AAAA => if dlen != 16 {
            Err(
                ParseError { kind: ErrorKind::InvalidAddressLength(dlen), offset: (pos - 2) as usize },
            )
        } else if pos + 16 > buf.len() {
            Err(ParseError { kind: ErrorKind::Truncated, offset: pos as usize })
        } else {
            Ok((RecordV::AAAA { name, class, ttl, address: buf.subrange(pos, pos + 16) }, pos + 16))
        },
        DnsRecordType::NS => match spec_parse_name_full(buf, pos) {
            Err(e) => Err(e),
            Ok((name_server, e)) => Ok((RecordV::NS { name, class, ttl, name_server }, e)),
        },
        DnsRecordType::CNAME => match spec_parse_name_full(buf, pos) {
            Err(e) => Err(e),
            Ok((canonical_name, e)) => Ok(
                (RecordV::CNAME { name, class, ttl, canonical_name }, e),
            ),
        },
    }
}

impl DnsRecord {
    /// Decodes the record at `pos` against the full reference buffer and
    /// returns it with the position of the first byte after it.  A type
    /// code outside the implemented set fails with an unsupported-type
    /// fault; an address body whose data length does not match its
    /// family fails with an invalid-address-length fault.
    pub fn parse(buf: &[u8], pos: usize) -> (r: Result<(DnsRecord, usize), ParseError>)
        ensures
            r is Ok ==> spec_parse_record(buf@, pos as int) == Ok::<_, ParseError>(
                (r->Ok_0.0@, r->Ok_0.1 as int),
            ),
            r is Err ==> spec_parse_record(buf@, pos as int) == Err::<(RecordV, int), _>(r->Err_0),
    {
        let buf_len: usize = buf.len();
        let (name, p) = match DnsName::parse(buf, pos) {
            Ok(v) => v,
            Err(e) => {
                return Err(e);
            },
        };
        let tcode = match read_u16(buf, p) {
            Ok(v) => v,
            Err(e) => {
                return Err(e);
            },
        };
        assert(p + 2 <= buf@.len());
        let rt = match DnsRecordType::from_code(tcode) {
            Some(t) => t,
            None => {
                return Err(ParseError { kind: ErrorKind::UnsupportedType(tcode), offset: p });
            },
        };
        let ccode = match read_u16(buf, p + 2) {
            Ok(v) => v,
            Err(e) => {
                return Err(e);
            },
        };
        assert(p + 4 <= buf@.len());
        let class = match DnsClass::from_code(ccode) {
            Some(c) => c,
            None => {
                return Err(ParseError { kind: ErrorKind::InvalidClass(ccode), offset: p + 2 });
            },
        };
        let ttl = match read_u32(buf, p + 4) {
            Ok(v) => v,
            Err(e) => {
                return Err(e);
            },
        };
        assert(p + 8 <= buf@.len());
        let dlen = match read_u16(buf, p + 8) {
            Ok(v) => v,
            Err(e) => {
                return Err(e);
            },
        };
        assert(p + 10 <= buf@.len());
        let body_pos = p + 10;
        match rt {
            DnsRecordType::A => {
                if dlen != 4 {
                    return Err(
                        ParseError { kind: ErrorKind::InvalidAddressLength(dlen), offset: p + 8 },
                    );
                }
                if buf_len < 4 || body_pos > buf_len - 4 {
                    return Err(ParseError { kind: ErrorKind::Truncated, offset: body_pos });
                }
                let address: [u8; 4] = [
                    buf[body_pos],
                    buf[body_pos + 1],
                    buf[body_pos + 2],
                    buf[body_pos + 3],
                ];
                assert(address@ =~= buf@.subrange(body_pos as int, body_pos as int + 4));
                Ok((DnsRecord::A { name, class, ttl, address }, body_pos + 4))
            },
            DnsRecordType::AAAA => {
                if dlen != 16 {
                    return Err(
                        ParseError { kind: ErrorKind::InvalidAddressLength(dlen), offset: p + 8 },
                    );
                }
                if buf_len < 16 || body_pos > buf_len - 16 {
                    return Err(ParseError { kind: ErrorKind::Truncated, offset: body_pos });
                }
                let address: [u8; 16] = [
                    buf[body_pos],
                    buf[body_pos + 1],
                    buf[body_pos + 2],
                    buf[body_pos + 3],
                    buf[body_pos + 4],
                    buf[body_pos + 5],
                    buf[body_pos + 6],
                    buf[body_pos + 7],
                    buf[body_pos + 8],
                    buf[body_pos + 9],
                    buf[body_pos + 10],
                    buf[body_pos + 11],
                    buf[body_pos + 12],
                    buf[body_pos + 13],
                    buf[body_pos + 14],
                    buf[body_pos + 15],
                ];
                assert(address@ =~= buf@.subrange(body_pos as int, body_pos as int + 16));
                Ok((DnsRecord::AAAA { name, class, ttl, address }, body_pos + 16))
            },
            DnsRecordType::NS => {
                let (name_server, e) = match DnsName::parse(buf, body_pos) {
                    Ok(v) => v,
                    Err(e) => {
                        return Err(e);
                    },
                };
                Ok((DnsRecord::NS { name, class, ttl, name_server }, e))
            },
            DnsRecordType::CNAME => {
                let (canonical_name, e) = match DnsName::parse(buf, body_pos) {
                    Ok(v) => v,
                    Err(e) => {
                        return Err(e);
                    },
                };
                Ok((DnsRecord::CNAME { name, class, ttl, canonical_name }, e))
            },
        }
    }

    /// Appends the wire encoding of this record to `out`, recomputing
    /// the data length from the body it writes.  Fails, leaving `out`
    /// unchanged, exactly when a name is not well formed or an NS or
    /// CNAME body is too long for the 16-bit length field.
    pub fn serialize(&self, out: &mut Vec<u8>) -> (r: Result<(), SerializeError>)
        ensures
            r is Ok ==> wf_record(self@) && final (out)@ == old(out)@ + spec_encode_record(self@),
            r is Err ==> !wf_record(self@) && final (out)@ == old(out)@ && Err::<
                Seq<u8>,
                _,
            >(r->Err_0) == spec_serialize_record(self@),
    {
        match self {
            DnsRecord::A { name, class, ttl, address } => {
                if !name.is_wf() {
                    return Err(SerializeError::InvalidLabel);
                }
                match name.serialize(out) {
                    Ok(()) => (),
                    Err(e) => {
                        return Err(e);
                    },
                }
                push_u16(out, DnsRecordType::A.code());
                push_u16(out, class.code());
                push_u32(out, *ttl);
                push_u16(out, 4);
                push_bytes(out, address.as_slice());
                assert(out@ =~= old(out)@ + spec_encode_record(self@));
                Ok(())
            },
            DnsRecord::AAAA { name, class, ttl, address } => {
                if !name.is_wf() {
                    return Err(SerializeError::InvalidLabel);
                }
                match name.serialize(out) {
                    Ok(()) => (),
                    Err(e) => {
                        return Err(e);
                    },
                }
                push_u16(out, DnsRecordType::AAAA.code());
                push_u16(out, class.code());
                push_u32(out, *ttl);
                push_u16(out, 16);
                push_bytes(out, address.as_slice());
                assert(out@ =~= old(out)@ + spec_encode_record(self@));
                Ok(())
            },
            DnsRecord::NS { name, class, ttl, name_server } => {
                if !name.is_wf() {
                    return Err(SerializeError::InvalidLabel);
                }
                let body = match name_server.to_bytes() {
                    Ok(b) => b,
                    Err(e) => {
                        return Err(e);
                    },
                };
                if body.len() > 0xFFFF {
                    return Err(SerializeError::DataTooLong);
                }
                match name.serialize(out) {
                    Ok(()) => (),
                    Err(e) => {
                        return Err(e);
                    },
                }
                push_u16(out, DnsRecordType::NS.code());
                push_u16(out, class.code());
                push_u32(out, *ttl);
                push_u16(out, body.len() as u16);
                push_bytes(out, body.as_slice());
                assert(out@ =~= old(out)@ + spec_encode_record(self@));
                Ok(())
            },
            DnsRecord::CNAME { name, class, ttl, canonical_name } => {
                if !name.is_wf() {
                    return Err(SerializeError::InvalidLabel);
                }
                let body = match canonical_name.to_bytes() {
                    Ok(b) => b,
                    Err(e) => {
                        return Err(e);
                    },
                };
                if body.len() > 0xFFFF {
                    return Err(SerializeError::DataTooLong);
                }
                match name.serialize(out) {
                    Ok(()) => (),
                    Err(e) => {
                        return Err(e);
                    },
                }
                push_u16(out, DnsRecordType::CNAME.code());
                push_u16(out, class.code());
                push_u32(out, *ttl);
                push_u16(out, body.len() as u16);
                push_bytes(out, body.as_slice());
                assert(out@ =~= old(out)@ + spec_encode_record(self@));
                Ok(())
            },
        }
    }

    /// The wire encoding of this record as a fresh vector.
    pub fn to_bytes(&self) -> (r: Result<Vec<u8>, SerializeError>)
        ensures
            r is Ok ==> wf_record(self@) && r->Ok_0@ == spec_encode_record(self@),
            r is Err ==> Err::<Seq<u8>, _>(r->Err_0) == spec_serialize_record(self@),
    {
        let mut out: Vec<u8> = Vec::new();
        match self.serialize(&mut out) {
            Ok(()) => {
                assert(out@ =~= spec_encode_record(self@));
                Ok(out)
            },
            Err(e) => Err(e),
        }
    }
}

/// Decoding the bytes written for a well-formed record, wherever they
/// sit in a larger buffer, gives that record back and stops right after
/// them.
pub proof fn lemma_record_round_trip(buf: Seq<u8>, pos: int, r: RecordV)
    requires
        wf_record(r),
        0 <= pos,
        pos + spec_encode_record(r).len() <= buf.len(),
        buf.subrange(pos, pos + spec_encode_record(r).len() as int) == spec_encode_record(r),
    ensures
        spec_parse_record(buf, pos) == Ok::<_, ParseError>((r, pos + spec_encode_record(r).len())),
{
    let enc = spec_encode_record(r);
    let nenc = spec_encode_name(record_name(r));
    let nlen = nenc.len() as int;
    let tc = record_type(r).spec_code();
    let cc = record_class(r).spec_code();
    let ttl = record_ttl(r);
    let body = record_body(r);
    let dl = body.len() as u16;
    assert(enc.subrange(0, nlen) =~= nenc);
    lemma_sub_subrange(buf, pos, enc, 0, nlen);
    lemma_parse_encoded_name(buf, pos, record_name(r), buf.len() as int);
    let p = pos + nlen;
    assert forall|k: int| 0 <= k < 10 implies buf[p + k] == #[trigger] enc[nlen + k] by {
        lemma_sub_index(buf, pos, enc, nlen + k);
    }
    assert(enc[nlen] == (tc >> 8) as u8 && enc[nlen + 1] == (tc & 0xFF) as u8);
    assert(enc[nlen + 2] == (cc >> 8) as u8 && enc[nlen + 3] == (cc & 0xFF) as u8);
    let n6 = nlen + 6;
    assert(enc[nlen + 4] == (ttl >> 24) as u8 && enc[nlen + 5] == ((ttl >> 16) & 0xFF) as u8
        && enc[n6] == ((ttl >> 8) & 0xFF) as u8 && enc[nlen + 7] == (ttl & 0xFF) as u8);
    assert(enc[nlen + 8] == (dl >> 8) as u8 && enc[nlen + 9] == (dl & 0xFF) as u8);
    lemma_u16_round_trip(tc);
    lemma_u16_round_trip(cc);
    lemma_u32_round_trip(ttl);
    lemma_u16_round_trip(dl);
    assert(DnsRecordType::spec_from_code(tc) == Some(record_type(r)));
    assert(DnsClass::spec_from_code(cc) == Some(record_class(r)));
    let bp = p + 10;
    assert(enc.subrange(nlen + 10, enc.len() as int) =~= body);
    lemma_sub_subrange(buf, pos, enc, nlen + 10, enc.len() as int);
    assert(buf.subrange(bp, bp + body.len() as int) == body);
    match r {
        RecordV::A { name, class, ttl, address } => {
            assert(dl == 4);
            assert(spec_parse_record_body(buf, bp, name, DnsRecordType::A, class, ttl, dl) == Ok::<
                _,
                ParseError,
            >((r, bp + 4)));
        },
        RecordV::AAAA { name, class, ttl, address } => {
            assert(dl == 16);
        },
        RecordV::NS { name, class, ttl, name_server } => {
            lemma_parse_encoded_name(buf, bp, name_server, buf.len() as int);
        },
        RecordV::CNAME { name, class, ttl, canonical_name } => {
            lemma_parse_encoded_name(buf, bp, canonical_name, buf.len() as int);
        },
    }
}

} // verus!
