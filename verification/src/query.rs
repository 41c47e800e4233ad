//! The question section's entries: a name, a query type and a class.

use vstd::prelude::*;

use crate::name::spec_encode_name;
use crate::name::spec_parse_name_full;
use crate::name::lemma_parse_encoded_name;
use crate::name::wf_name;
use crate::name::DnsName;
use crate::resources::DnsClass;
use crate::resources::DnsRecordType;
use crate::types::ErrorKind;
use crate::types::ParseError;
use crate::types::SerializeError;
use crate::wire::lemma_sub_index;
use crate::wire::lemma_sub_subrange;
use crate::wire::lemma_u16_round_trip;
use crate::wire::push_u16;
use crate::wire::read_u16;
use crate::wire::spec_read_u16;
use crate::wire::spec_u16_bytes;

verus! {

/// The mathematical value of a query: its name's label sequence, its
/// type and its class.
pub struct QueryV {
    pub name: Seq<Seq<u8>>,
    pub record_type: DnsRecordType,
    pub class: DnsClass,
}

/// One entry of the question section.
#[derive(Debug, PartialEq, Eq)]
pub struct DnsQuery {
    pub name: DnsName,
    pub record_type: DnsRecordType,
    pub class: DnsClass,
}

impl View for DnsQuery {
    type V = QueryV;

    open spec fn view(&self) -> QueryV {
        QueryV { name: self.name@, record_type: self.record_type, class: self.class }
    }
}

impl Clone for DnsQuery {
    /// A query with the same name, type and class.
    fn clone(&self) -> (r: Self)
        ensures
            r@ == self@,
    {
        DnsQuery { name: self.name.clone(), record_type: self.record_type, class: self.class }
    }
}

/// A query the wire format can carry: its name is well formed.
pub open spec fn wf_query(q: QueryV) -> bool {
    wf_name(q.name)
}

/// The wire encoding of a query: name, type code, class code.
pub open spec fn spec_encode_query(q: QueryV) -> Seq<u8> {
    spec_encode_name(q.name) + spec_u16_bytes(q.record_type.spec_code()) + spec_u16_bytes(
        q.class.spec_code(),
    )
}

/// Encoding a query: its bytes, or the fault that makes it unencodable.
pub open spec fn spec_serialize_query(q: QueryV) -> Result<Seq<u8>, SerializeError> {
    if wf_query(q) {
        Ok(spec_encode_query(q))
    } else {
        Err(SerializeError::InvalidLabel)
    }
}

/// Decoding a query at `pos` against the whole buffer: name, then a
/// type code that must be implemented, then a class code that must be
/// known.
pub open spec fn spec_parse_query(buf: Seq<u8>, pos: int) -> Result<(QueryV, int), ParseError> {
    match spec_parse_name_full(buf, pos) {
        Err(e) => Err(e),
        Ok((name, p)) => match spec_read_u16(buf, p) {
            Err(e) => Err(e),
            Ok(tcode) => match DnsRecordType::spec_from_code(tcode) {
                None => Err(
                    ParseError { kind: ErrorKind::UnsupportedType(tcode), offset: p as usize },
                ),
                Some(record_type) => match spec_read_u16(buf, p + 2) {
                    Err(e) => Err(e),
                    Ok(ccode) => match DnsClass::spec_from_code(ccode) {
                        None => Err(
                            ParseError {
                                kind: ErrorKind::InvalidClass(ccode),
                                offset: (p + 2) as usize,
                            },
                        ),
                        Some(class) => Ok((QueryV { name, record_type, class }, p + 4)),
                    },
                },
            },
        },
    }
}

impl DnsQuery {
    /// Decodes the query at `pos` against the full reference buffer and
    /// returns it with the position of the first byte after it.  A type
    /// code outside the implemented set fails with an unsupported-type
    /// fault, never a silently wrong variant; an unknown class code
    /// fails with an invalid-class fault.
    pub fn parse(buf: &[u8], pos: usize) -> (r: Result<(DnsQuery, usize), ParseError>)
        ensures
            r is Ok ==> spec_parse_query(buf@, pos as int) == Ok::<_, ParseError>(
                (r->Ok_0.0@, r->Ok_0.1 as int),
            ),
            r is Err ==> spec_parse_query(buf@, pos as int) == Err::<(QueryV, int), _>(r->Err_0),
    {
        let buf_len: usize = buf.len();
        let (name, p) = match DnsName::parse(buf, pos) {
            Ok(v) => v,
            Err(e) => {
                return Err(e);
            },
        };
        let tcode = match read_u16(buf, p) {
            Ok(v) => v,
            Err(e) => {
                return Err(e);
            },
        };
        assert(p + 2 <= buf@.len());
        let record_type = match DnsRecordType::from_code(tcode) {
            Some(t) => t,
            None => {
                return Err(ParseError { kind: ErrorKind::UnsupportedType(tcode), offset: p });
            },
        };
        let ccode = match read_u16(buf, p + 2) {
            Ok(v) => v,
            Err(e) => {
                return Err(e);
            },
        };
        assert(p + 4 <= buf@.len());
        let class = match DnsClass::from_code(ccode) {
            Some(c) => c,
            None => {
                return Err(ParseError { kind: ErrorKind::InvalidClass(ccode), offset: p + 2 });
            },
        };
        Ok((DnsQuery { name, record_type, class }, p + 4))
    }

    /// Appends the wire encoding of this query to `out`.  Fails, leaving
    /// `out` unchanged, exactly when the name is not well formed.
    pub fn serialize(&self, out: &mut Vec<u8>) -> (r: Result<(), SerializeError>)
        ensures
            r is Ok ==> wf_query(self@) && final (out)@ == old(out)@ + spec_encode_query(self@),
            r is Err ==> !wf_query(self@) && final (out)@ == old(out)@ && Err::<
                Seq<u8>,
                _,
            >(r->Err_0) == spec_serialize_query(self@),
    {
        match self.name.serialize(out) {
            Ok(()) => (),
            Err(e) => {
                return Err(e);
            },
        }
        push_u16(out, self.record_type.code());
        push_u16(out, self.class.code());
        assert(out@ =~= old(out)@ + spec_encode_query(self@));
        Ok(())
    }

    /// The wire encoding of this query as a fresh vector.
    pub fn to_bytes(&self) -> (r: Result<Vec<u8>, SerializeError>)
        ensures
            r is Ok ==> wf_query(self@) && r->Ok_0@ == spec_encode_query(self@),
            r is Err ==> Err::<Seq<u8>, _>(r->Err_0) == spec_serialize_query(self@),
    {
        let mut out: Vec<u8> = Vec::new();
        match self.serialize(&mut out) {
            Ok(()) => {
                assert(out@ =~= spec_encode_query(self@));
                Ok(out)
            },
            Err(e) => Err(e),
        }
    }
}

/// Decoding the bytes written for a well-formed query, wherever they
/// sit in a larger buffer, gives that query back and stops right after
/// them.
pub proof fn lemma_query_round_trip(buf: Seq<u8>, pos: int, q: QueryV)
    requires
        wf_query(q),
        0 <= pos,
        pos + spec_encode_query(q).len() <= buf.len(),
        buf.subrange(pos, pos + spec_encode_query(q).len() as int) == spec_encode_query(q),
    ensures
        spec_parse_query(buf, pos) == Ok::<_, ParseError>((q, pos + spec_encode_query(q).len())),
{
    let enc = spec_encode_query(q);
    let nenc = spec_encode_name(q.name);
    let nlen = nenc.len() as int;
    let tc = q.record_type.spec_code();
    let cc = q.class.spec_code();
    assert(enc.subrange(0, nlen) =~= nenc);
    lemma_sub_subrange(buf, pos, enc, 0, nlen);
    lemma_parse_encoded_name(buf, pos, q.name, buf.len() as int);
    let p = pos + nlen;
    lemma_sub_index(buf, pos, enc, nlen);
    lemma_sub_index(buf, pos, enc, nlen + 1);
    lemma_sub_index(buf, pos, enc, nlen + 2);
    lemma_sub_index(buf, pos, enc, nlen + 3);
    assert(enc[nlen] == (tc >> 8) as u8 && enc[nlen + 1] == (tc & 0xFF) as u8);
    assert(enc[nlen + 2] == (cc >> 8) as u8 && enc[nlen + 3] == (cc & 0xFF) as u8);
    lemma_u16_round_trip(tc);
    lemma_u16_round_trip(cc);
    assert(DnsRecordType::spec_from_code(tc) == Some(q.record_type));
    assert(DnsClass::spec_from_code(cc) == Some(q.class));
    assert(spec_parse_query(buf, pos) == Ok::<_, ParseError>((q, pos + enc.len())));
}

} // verus!
