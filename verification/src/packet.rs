//! The full message: a header and four ordered sections, assembled and
//! disassembled in the fixed wire order.
//!
//! Parsing reads the header first and then exactly as many entries per
//! section as the header's counts demand, every name resolved against
//! the original full buffer; the first sub-parse failure aborts the
//! whole parse.  Serialization concatenates the header and the sections
//! in list order with no separators.  The appending operations keep the
//! header counts in step with the lists; writing the public fields
//! directly can still break that correspondence, and the round-trip law
//! holds exactly for packets whose counts are consistent.

use vstd::prelude::*;

use crate::header::lemma_header_round_trip;
use crate::header::DnsHeader;
use crate::query::lemma_query_round_trip;
use crate::query::spec_encode_query;
use crate::query::spec_parse_query;
use crate::query::spec_serialize_query;
use crate::query::wf_query;
use crate::query::DnsQuery;
use crate::query::QueryV;
use crate::record::lemma_record_round_trip;
use crate::record::spec_encode_record;
use crate::record::spec_parse_record;
use crate::record::spec_serialize_record;
use crate::record::wf_record;
use crate::record::DnsRecord;
use crate::record::RecordV;
use crate::types::ParseError;
use crate::types::SerializeError;
use crate::wire::lemma_concat_prefix;
use crate::wire::lemma_sub_subrange;

verus! {

/// The query values of a sequence of queries.
pub open spec fn queries_view(qs: Seq<DnsQuery>) -> Seq<QueryV> {
    qs.map_values(|q: DnsQuery| q@)
}

/// The record values of a sequence of records.
pub open spec fn records_view(rs: Seq<DnsRecord>) -> Seq<RecordV> {
    rs.map_values(|r: DnsRecord| r@)
}

/// The mathematical value of a packet.
pub struct PacketV {
    pub header: DnsHeader,
    pub queries: Seq<QueryV>,
    pub responses: Seq<RecordV>,
    pub authorities: Seq<RecordV>,
    pub additional_records: Seq<RecordV>,
}

/// A whole message: header, questions, answers, authorities and
/// additional records.  The packet owns all nested names and records.
#[derive(Debug, PartialEq, Eq)]
pub struct DnsPacket {
    pub header: DnsHeader,
    pub queries: Vec<DnsQuery>,
    pub responses: Vec<DnsRecord>,
    pub authorities: Vec<DnsRecord>,
    pub additional_records: Vec<DnsRecord>,
}

impl View for DnsPacket {
    type V = PacketV;

    open spec fn view(&self) -> PacketV {
        PacketV {
            header: self.header,
            queries: queries_view(self.queries@),
            responses: records_view(self.responses@),
            authorities: records_view(self.authorities@),
            additional_records: records_view(self.additional_records@),
        }
    }
}

/// Every query of the sequence is well formed.
pub open spec fn wf_queries(qs: Seq<QueryV>) -> bool {
    forall|i: int| 0 <= i < qs.len() ==> wf_query(#[trigger] qs[i])
}

/// Every record of the sequence is well formed.
pub open spec fn wf_records(rs: Seq<RecordV>) -> bool {
    forall|i: int| 0 <= i < rs.len() ==> wf_record(#[trigger] rs[i])
}

/// A packet the wire format can carry: every entry of every section is
/// well formed.
pub open spec fn wf_packet(p: PacketV) -> bool {
    wf_queries(p.queries) && wf_records(p.responses) && wf_records(p.authorities) && wf_records(
        p.additional_records,
    )
}

/// The header counts agree with the section lengths.  The appending
/// operations maintain this; parsing establishes it.
pub open spec fn counts_consistent(p: PacketV) -> bool {
    &&& p.header.queries as int == p.queries.len()
    &&& p.header.responses as int == p.responses.len()
    &&& p.header.auth_rr as int == p.authorities.len()
    &&& p.header.add_rr as int == p.additional_records.len()
}

/// The wire bytes of a query sequence, in list order.
pub open spec fn spec_encode_queries(qs: Seq<QueryV>) -> Seq<u8>
    decreases qs.len(),
{
    if qs.len() == 0 {
        Seq::empty()
    } else {
        spec_encode_query(qs[0]) + spec_encode_queries(qs.drop_first())
    }
}

/// The wire bytes of a record sequence, in list order.
pub open spec fn spec_encode_records(rs: Seq<RecordV>) -> Seq<u8>
    decreases rs.len(),
{
    if rs.len() == 0 {
        Seq::empty()
    } else {
        spec_encode_record(rs[0]) + spec_encode_records(rs.drop_first())
    }
}

/// Encoding a query sequence: its bytes, or the first entry's fault.
pub open spec fn spec_serialize_queries(qs: Seq<QueryV>) -> Result<Seq<u8>, SerializeError>
    decreases qs.len(),
{
    if qs.len() == 0 {
        Ok(Seq::empty())
    } else {
        match spec_serialize_query(qs[0]) {
            Err(e) => Err(e),
            Ok(b) => match spec_serialize_queries(qs.drop_first()) {
                Err(e) => Err(e),
                Ok(rest) => Ok(b + rest),
            },
        }
    }
}

/// Encoding a record sequence: its bytes, or the first entry's fault.
pub open spec fn spec_serialize_records(rs: Seq<RecordV>) -> Result<Seq<u8>, SerializeError>
    decreases rs.len(),
{
    if rs.len() == 0 {
        Ok(Seq::empty())
    } else {
        match spec_serialize_record(rs[0]) {
            Err(e) => Err(e),
            Ok(b) => match spec_serialize_records(rs.drop_first()) {
                Err(e) => Err(e),
                Ok(rest) => Ok(b + rest),
            },
        }
    }
}

/// The wire bytes of a whole packet: header, then the four sections.
pub open spec fn spec_encode_packet(p: PacketV) -> Seq<u8> {
    p.header.spec_serialize() + spec_encode_queries(p.queries) + spec_encode_records(p.responses)
        + spec_encode_records(p.authorities) + spec_encode_records(p.additional_records)
}

/// Encoding a whole packet: its bytes, or the first section entry's
/// fault, sections checked in wire order.
pub open spec fn spec_serialize_packet(p: PacketV) -> Result<Seq<u8>, SerializeError> {
    match spec_serialize_queries(p.queries) {
        Err(e) => Err(e),
        Ok(_) => match spec_serialize_records(p.responses) {
            Err(e) => Err(e),
            Ok(_) => match spec_serialize_records(p.authorities) {
                Err(e) => Err(e),
                Ok(_) => match spec_serialize_records(p.additional_records) {
                    Err(e) => Err(e),
                    Ok(_) => Ok(spec_encode_packet(p)),
                },
            },
        },
    }
}

/// Decoding `count` queries one after another from `pos`.
pub open spec fn spec_parse_queries(buf: Seq<u8>, pos: int, count: int) -> Result<
    (Seq<QueryV>, int),
    ParseError,
>
    decreases count,
{
    if count <= 0 {
        Ok((Seq::empty(), pos))
    } else {
        match spec_parse_query(buf, pos) {
            Err(e) => Err(e),
            Ok((q, p)) => match spec_parse_queries(buf, p, count - 1) {
                Err(e) => Err(e),
                Ok((qs, e)) => Ok((seq![q] + qs, e)),
            },
        }
    }
}

/// Decoding `count` records one after another from `pos`.
pub open spec fn spec_parse_records(buf: Seq<u8>, pos: int, count: int) -> Result<
    (Seq<RecordV>, int),
    ParseError,
>
    decreases count,
{
    if count <= 0 {
        Ok((Seq::empty(), pos))
    } else {
        match spec_parse_record(buf, pos) {
            Err(e) => Err(e),
            Ok((r, p)) => match spec_parse_records(buf, p, count - 1) {
                Err(e) => Err(e),
                Ok((rs, e)) => Ok((seq![r] + rs, e)),
            },
        }
    }
}

/// Decoding a whole packet: the header fixes how many entries each
/// section holds, and every name resolves against the full buffer.
/// Bytes after the last counted entry are ignored.
pub open spec fn spec_parse_packet(buf: Seq<u8>) -> Result<PacketV, ParseError> {
    match DnsHeader::spec_parse(buf, 0) {
        Err(e) => Err(e),
        Ok((header, p)) => match spec_parse_queries(buf, p, header.queries as int) {
            Err(e) => Err(e),
            Ok((queries, p)) => match spec_parse_records(buf, p, header.responses as int) {
                Err(e) => Err(e),
                Ok((responses, p)) => match spec_parse_records(buf, p, header.auth_rr as int) {
                    Err(e) => Err(e),
                    Ok((authorities, p)) => match spec_parse_records(
                        buf,
                        p,
                        header.add_rr as int,
                    ) {
                        Err(e) => Err(e),
                        Ok((additional_records, _)) => Ok(
                            PacketV {
                                header,
                                queries,
                                responses,
                                authorities,
                                additional_records,
                            },
                        ),
                    },
                },
            },
        },
    }
}

/// Reads `count` queries starting at `pos` against the full buffer.
fn parse_queries(buf: &[u8], pos: usize, count: u16) -> (r: Result<
    (Vec<DnsQuery>, usize),
    ParseError,
>)
    ensures
        r is Ok ==> spec_parse_queries(buf@, pos as int, count as int) == Ok::<_, ParseError>(
            (queries_view(r->Ok_0.0@), r->Ok_0.1 as int),
        ),
        r is Err ==> spec_parse_queries(buf@, pos as int, count as int) == Err::<
            (Seq<QueryV>, int),
            _,
        >(r->Err_0),
{
    let ghost target = spec_parse_queries(buf@, pos as int, count as int);
    let mut acc: Vec<DnsQuery> = Vec::new();
    let mut cur: usize = pos;
    let mut left: u16 = count;
    loop
        invariant
            spec_parse_queries(buf@, pos as int, count as int) == target,
            match spec_parse_queries(buf@, cur as int, left as int) {
                Ok((qs, e)) => target == Ok::<_, ParseError>((queries_view(acc@) + qs, e)),
                Err(e) => target == Err::<(Seq<QueryV>, int), _>(e),
            },
        decreases left,
    {
        if left == 0 {
            assert(queries_view(acc@) + Seq::<QueryV>::empty() =~= queries_view(acc@));
            return Ok((acc, cur));
        }
        let (q, p) = match DnsQuery::parse(buf, cur) {
            Ok(v) => v,
            Err(e) => {
                return Err(e);
            },
        };
        let ghost old_acc = acc@;
        acc.push(q);
        proof {
            assert(queries_view(acc@) =~= queries_view(old_acc).push(q@));
            if let Ok((qs, e)) = spec_parse_queries(buf@, p as int, left - 1) {
                assert(queries_view(old_acc) + (seq![q@] + qs) =~= queries_view(acc@) + qs);
            }
        }
        cur = p;
        left = left - 1;
    }
}

/// Reads `count` records starting at `pos` against the full buffer.
fn parse_records(buf: &[u8], pos: usize, count: u16) -> (r: Result<
    (Vec<DnsRecord>, usize),
    ParseError,
>)
    ensures
        r is Ok ==> spec_parse_records(buf@, pos as int, count as int) == Ok::<_, ParseError>(
            (records_view(r->Ok_0.0@), r->Ok_0.1 as int),
        ),
        r is Err ==> spec_parse_records(buf@, pos as int, count as int) == Err::<
            (Seq<RecordV>, int),
            _,
        >(r->Err_0),
{
    let ghost target = spec_parse_records(buf@, pos as int, count as int);
    let mut acc: Vec<DnsRecord> = Vec::new();
    let mut cur: usize = pos;
    let mut left: u16 = count;
    loop
        invariant
            spec_parse_records(buf@, pos as int, count as int) == target,
            match spec_parse_records(buf@, cur as int, left as int) {
                Ok((rs, e)) => target == Ok::<_, ParseError>((records_view(acc@) + rs, e)),
                Err(e) => target == Err::<(Seq<RecordV>, int), _>(e),
            },
        decreases left,
    {
        if left == 0 {
            assert(records_view(acc@) + Seq::<RecordV>::empty() =~= records_view(acc@));
            return Ok((acc, cur));
        }
        let (rec, p) = match DnsRecord::parse(buf, cur) {
            Ok(v) => v,
            Err(e) => {
                return Err(e);
            },
        };
        let ghost old_acc = acc@;
        acc.push(rec);
        proof {
            assert(records_view(acc@) =~= records_view(old_acc).push(rec@));
            if let Ok((rs, e)) = spec_parse_records(buf@, p as int, left - 1) {
                assert(records_view(old_acc) + (seq![rec@] + rs) =~= records_view(acc@) + rs);
            }
        }
        cur = p;
        left = left - 1;
    }
}

/// Appends the wire bytes of every query, stopping at the first fault.
fn serialize_queries(qs: &Vec<DnsQuery>, out: &mut Vec<u8>) -> (r: Result<(), SerializeError>)
    ensures
        r is Ok ==> spec_serialize_queries(queries_view(qs@)) == Ok::<_, SerializeError>(
            spec_encode_queries(queries_view(qs@)),
        ) && final (out)@ == old(out)@ + spec_encode_queries(queries_view(qs@)),
        r is Err ==> spec_serialize_queries(queries_view(qs@)) == Err::<Seq<u8>, _>(r->Err_0),
{
    let ghost whole = queries_view(qs@);
    proof {
        assert(whole.skip(0) =~= whole);
        if let Ok(b) = spec_serialize_queries(whole) {
            assert(spec_encode_queries(whole.take(0)) + b =~= b);
        }
    }
    let mut i: usize = 0;
    while i < qs.len()
        invariant
            i <= qs.len(),
            whole == queries_view(qs@),
            out@ == old(out)@ + spec_encode_queries(whole.take(i as int)),
            spec_serialize_queries(whole) == (match spec_serialize_queries(whole.skip(i as int)) {
                Ok(b) => Ok::<Seq<u8>, SerializeError>(
                    spec_encode_queries(whole.take(i as int)) + b,
                ),
                Err(e) => Err(e),
            }),
        decreases qs.len() - i,
    {
        proof {
            assert(whole.skip(i as int)[0] == whole[i as int]);
            assert(whole.skip(i as int).drop_first() =~= whole.skip(i as int + 1));
        }
        match qs[i].serialize(out) {
            Ok(()) => (),
            Err(e) => {
                return Err(e);
            },
        }
        proof {
            lemma_encode_queries_snoc(whole.take(i as int), whole[i as int]);
            assert(whole.take(i as int).push(whole[i as int]) =~= whole.take(i as int + 1));
            if let Ok(b) = spec_serialize_queries(whole.skip(i as int + 1)) {
                assert(spec_encode_queries(whole.take(i as int)) + (spec_encode_query(
                    whole[i as int],
                ) + b) =~= spec_encode_queries(whole.take(i as int + 1)) + b);
            }
        }
        i = i + 1;
    }
    proof {
        assert(whole.skip(whole.len() as int) =~= Seq::<QueryV>::empty());
        assert(whole.take(whole.len() as int) =~= whole);
        assert(spec_encode_queries(whole) + Seq::<u8>::empty() =~= spec_encode_queries(whole));
    }
    Ok(())
}

/// Appends the wire bytes of every record, stopping at the first fault.
fn serialize_records(rs: &Vec<DnsRecord>, out: &mut Vec<u8>) -> (r: Result<(), SerializeError>)
    ensures
        r is Ok ==> spec_serialize_records(records_view(rs@)) == Ok::<_, SerializeError>(
            spec_encode_records(records_view(rs@)),
        ) && final (out)@ == old(out)@ + spec_encode_records(records_view(rs@)),
        r is Err ==> spec_serialize_records(records_view(rs@)) == Err::<Seq<u8>, _>(r->Err_0),
{
    let ghost whole = records_view(rs@);
    proof {
        assert(whole.skip(0) =~= whole);
        if let Ok(b) = spec_serialize_records(whole) {
            assert(spec_encode_records(whole.take(0)) + b =~= b);
        }
    }
    let mut i: usize = 0;
    while i < rs.len()
        invariant
            i <= rs.len(),
            whole == records_view(rs@),
            out@ == old(out)@ + spec_encode_records(whole.take(i as int)),
            spec_serialize_records(whole) == (match spec_serialize_records(whole.skip(i as int)) {
                Ok(b) => Ok::<Seq<u8>, SerializeError>(
                    spec_encode_records(whole.take(i as int)) + b,
                ),
                Err(e) => Err(e),
            }),
        decreases rs.len() - i,
    {
        proof {
            assert(whole.skip(i as int)[0] == whole[i as int]);
            assert(whole.skip(i as int).drop_first() =~= whole.skip(i as int + 1));
        }
        match rs[i].serialize(out) {
            Ok(()) => (),
            Err(e) => {
                return Err(e);
            },
        }
        proof {
            lemma_encode_records_snoc(whole.take(i as int), whole[i as int]);
            assert(whole.take(i as int).push(whole[i as int]) =~= whole.take(i as int + 1));
            if let Ok(b) = spec_serialize_records(whole.skip(i as int + 1)) {
                assert(spec_encode_records(whole.take(i as int)) + (spec_encode_record(
                    whole[i as int],
                ) + b) =~= spec_encode_records(whole.take(i as int + 1)) + b);
            }
        }
        i = i + 1;
    }
    proof {
        assert(whole.skip(whole.len() as int) =~= Seq::<RecordV>::empty());
        assert(whole.take(whole.len() as int) =~= whole);
        assert(spec_encode_records(whole) + Seq::<u8>::empty() =~= spec_encode_records(whole));
    }
    Ok(())
}

/// Appending one query appends its encoding.
proof fn lemma_encode_queries_snoc(qs: Seq<QueryV>, q: QueryV)
    ensures
        spec_encode_queries(qs.push(q)) == spec_encode_queries(qs) + spec_encode_query(q),
    decreases qs.len(),
{
    if qs.len() == 0 {
        assert(qs.push(q).drop_first() =~= qs);
        assert(spec_encode_queries(qs.push(q)) =~= spec_encode_queries(qs) + spec_encode_query(q));
    } else {
        assert(qs.push(q).drop_first() =~= qs.drop_first().push(q));
        lemma_encode_queries_snoc(qs.drop_first(), q);
        assert(spec_encode_queries(qs.push(q)) =~= spec_encode_queries(qs) + spec_encode_query(q));
    }
}

/// Appending one record appends its encoding.
proof fn lemma_encode_records_snoc(rs: Seq<RecordV>, r: RecordV)
    ensures
        spec_encode_records(rs.push(r)) == spec_encode_records(rs) + spec_encode_record(r),
    decreases rs.len(),
{
    if rs.len() == 0 {
        assert(rs.push(r).drop_first() =~= rs);
        assert(spec_encode_records(rs.push(r)) =~= spec_encode_records(rs) + spec_encode_record(r));
    } else {
        assert(rs.push(r).drop_first() =~= rs.drop_first().push(r));
        lemma_encode_records_snoc(rs.drop_first(), r);
        assert(spec_encode_records(rs.push(r)) =~= spec_encode_records(rs) + spec_encode_record(r));
    }
}

impl DnsPacket {
    /// An empty packet: fresh header, no entries in any section.
    pub fn new() -> (r: DnsPacket)
        ensures
            r.header == DnsHeader::spec_new(),
            r@.queries =~= Seq::<QueryV>::empty(),
            r@.responses =~= Seq::<RecordV>::empty(),
            r@.authorities =~= Seq::<RecordV>::empty(),
            r@.additional_records =~= Seq::<RecordV>::empty(),
    {
        DnsPacket {
            header: DnsHeader::new(),
            queries: Vec::new(),
            responses: Vec::new(),
            authorities: Vec::new(),
            additional_records: Vec::new(),
        }
    }

    /// Decodes a whole message.  Fails exactly when the header or any
    /// counted section entry fails, with that entry's fault.
    pub fn parse(buf: &[u8]) -> (r: Result<DnsPacket, ParseError>)
        ensures
            r is Ok ==> spec_parse_packet(buf@) == Ok::<_, ParseError>(r->Ok_0@),
            r is Ok ==> counts_consistent(r->Ok_0@),
            r is Err ==> spec_parse_packet(buf@) == Err::<PacketV, _>(r->Err_0),
    {
        let (header, p) = match DnsHeader::parse(buf, 0) {
            Ok(v) => v,
            Err(e) => {
                return Err(e);
            },
        };
        let (queries, p) = match parse_queries(buf, p, header.queries) {
            Ok(v) => v,
            Err(e) => {
                return Err(e);
            },
        };
        let (responses, p) = match parse_records(buf, p, header.responses) {
            Ok(v) => v,
            Err(e) => {
                return Err(e);
            },
        };
        let (authorities, p) = match parse_records(buf, p, header.auth_rr) {
            Ok(v) => v,
            Err(e) => {
                return Err(e);
            },
        };
        let (additional_records, _) = match parse_records(buf, p, header.add_rr) {
            Ok(v) => v,
            Err(e) => {
                return Err(e);
            },
        };
        proof {
            let b = buf@;
            if let Ok((h, p0)) = DnsHeader::spec_parse(b, 0) {
                lemma_parse_queries_len(b, p0, h.queries as int);
                if let Ok((_, p1)) = spec_parse_queries(b, p0, h.queries as int) {
                    lemma_parse_records_len(b, p1, h.responses as int);
                    if let Ok((_, p2)) = spec_parse_records(b, p1, h.responses as int) {
                        lemma_parse_records_len(b, p2, h.auth_rr as int);
                        if let Ok((_, p3)) = spec_parse_records(b, p2, h.auth_rr as int) {
                            lemma_parse_records_len(b, p3, h.add_rr as int);
                        }
                    }
                }
            }
        }
        Ok(DnsPacket { header, queries, responses, authorities, additional_records })
    }

    /// Encodes the whole message: header bytes, then each section's
    /// entries in list order.  Fails exactly when some section entry is
    /// unencodable, with the first such entry's fault, checked in wire
    /// order.
    pub fn serialize(&self) -> (r: Result<Vec<u8>, SerializeError>)
        ensures
            r is Ok ==> spec_serialize_packet(self@) == Ok::<_, SerializeError>(r->Ok_0@),
            r is Err ==> spec_serialize_packet(self@) == Err::<Seq<u8>, _>(r->Err_0),
    {
        let mut out: Vec<u8> = Vec::new();
        self.header.serialize(&mut out);
        match serialize_queries(&self.queries, &mut out) {
            Ok(()) => (),
            Err(e) => {
                return Err(e);
            },
        }
        match serialize_records(&self.responses, &mut out) {
            Ok(()) => (),
            Err(e) => {
                return Err(e);
            },
        }
        match serialize_records(&self.authorities, &mut out) {
            Ok(()) => (),
            Err(e) => {
                return Err(e);
            },
        }
        match serialize_records(&self.additional_records, &mut out) {
            Ok(()) => (),
            Err(e) => {
                return Err(e);
            },
        }
        assert(out@ =~= spec_encode_packet(self@));
        Ok(out)
    }

    /// The header.
    pub fn header(&self) -> (r: &DnsHeader)
        ensures
            r == &self.header,
    {
        &self.header
    }

    /// The question section.
    pub fn queries(&self) -> (r: &Vec<DnsQuery>)
        ensures
            r == &self.queries,
    {
        &self.queries
    }

    /// The answer section.
    pub fn responses(&self) -> (r: &Vec<DnsRecord>)
        ensures
            r == &self.responses,
    {
        &self.responses
    }

    /// The authority section.
    pub fn authorities(&self) -> (r: &Vec<DnsRecord>)
        ensures
            r == &self.authorities,
    {
        &self.authorities
    }

    /// The additional section.
    pub fn additional_records(&self) -> (r: &Vec<DnsRecord>)
        ensures
            r == &self.additional_records,
    {
        &self.additional_records
    }

    /// Appends one question and raises the query count with it.
    pub fn add_query(&mut self, query: DnsQuery)
        requires
            old(self).header.queries < 0xFFFF,
        ensures
            final (self).queries@ == old(self).queries@.push(query),
            final (self).header.queries == old(self).header.queries + 1,
            final (self).header == (DnsHeader {
                queries: final (self).header.queries,
                ..old(self).header
            }),
            final (self).responses == old(self).responses,
            final (self).authorities == old(self).authorities,
            final (self).additional_records == old(self).additional_records,
    {
        self.header.queries = self.header.queries + 1;
        self.queries.push(query);
    }

    /// Appends questions and raises the query count by their number.
    pub fn add_queries(&mut self, queries: Vec<DnsQuery>)
        requires
            old(self).header.queries + queries.len() <= 0xFFFF,
        ensures
            final (self).queries@ == old(self).queries@ + queries@,
            final (self).header.queries == old(self).header.queries + queries.len(),
            final (self).header == (DnsHeader {
                queries: final (self).header.queries,
                ..old(self).header
            }),
            final (self).responses == old(self).responses,
            final (self).authorities == old(self).authorities,
            final (self).additional_records == old(self).additional_records,
    {
        let mut queries = queries;
        self.header.queries = self.header.queries + (queries.len() as u16);
        self.queries.append(&mut queries);
    }

    /// Appends one answer and raises the answer count with it.
    pub fn add_response(&mut self, response: DnsRecord)
        requires
            old(self).header.responses < 0xFFFF,
        ensures
            final (self).responses@ == old(self).responses@.push(response),
            final (self).header.responses == old(self).header.responses + 1,
            final (self).header == (DnsHeader {
                responses: final (self).header.responses,
                ..old(self).header
            }),
            final (self).queries == old(self).queries,
            final (self).authorities == old(self).authorities,
            final (self).additional_records == old(self).additional_records,
    {
        self.header.responses = self.header.responses + 1;
        self.responses.push(response);
    }

    /// Appends answers and raises the answer count by their number.
    pub fn add_responses(&mut self, responses: Vec<DnsRecord>)
        requires
            old(self).header.responses + responses.len() <= 0xFFFF,
        ensures
            final (self).responses@ == old(self).responses@ + responses@,
            final (self).header.responses == old(self).header.responses + responses.len(),
            final (self).header == (DnsHeader {
                responses: final (self).header.responses,
                ..old(self).header
            }),
            final (self).queries == old(self).queries,
            final (self).authorities == old(self).authorities,
            final (self).additional_records == old(self).additional_records,
    {
        let mut responses = responses;
        self.header.responses = self.header.responses + (responses.len() as u16);
        self.responses.append(&mut responses);
    }

    /// Appends one authority record and raises the authority count.
    pub fn add_authority(&mut self, authority: DnsRecord)
        requires
            old(self).header.auth_rr < 0xFFFF,
        ensures
            final (self).authorities@ == old(self).authorities@.push(authority),
            final (self).header.auth_rr == old(self).header.auth_rr + 1,
            final (self).header == (DnsHeader {
                auth_rr: final (self).header.auth_rr,
                ..old(self).header
            }),
            final (self).queries == old(self).queries,
            final (self).responses == old(self).responses,
            final (self).additional_records == old(self).additional_records,
    {
        self.header.auth_rr = self.header.auth_rr + 1;
        self.authorities.push(authority);
    }

    /// Appends authority records and raises the authority count by
    /// their number.
    pub fn add_authorities(&mut self, authorities: Vec<DnsRecord>)
        requires
            old(self).header.auth_rr + authorities.len() <= 0xFFFF,
        ensures
            final (self).authorities@ == old(self).authorities@ + authorities@,
            final (self).header.auth_rr == old(self).header.auth_rr + authorities.len(),
            final (self).header == (DnsHeader {
                auth_rr: final (self).header.auth_rr,
                ..old(self).header
            }),
            final (self).queries == old(self).queries,
            final (self).responses == old(self).responses,
            final (self).additional_records == old(self).additional_records,
    {
        let mut authorities = authorities;
        self.header.auth_rr = self.header.auth_rr + (authorities.len() as u16);
        self.authorities.append(&mut authorities);
    }

    /// Appends one additional record and raises the additional count.
    pub fn add_record(&mut self, record: DnsRecord)
        requires
            old(self).header.add_rr < 0xFFFF,
        ensures
            final (self).additional_records@ == old(self).additional_records@.push(record),
            final (self).header.add_rr == old(self).header.add_rr + 1,
            final (self).header == (DnsHeader {
                add_rr: final (self).header.add_rr,
                ..old(self).header
            }),
            final (self).queries == old(self).queries,
            final (self).responses == old(self).responses,
            final (self).authorities == old(self).authorities,
    {
        self.header.add_rr = self.header.add_rr + 1;
        self.additional_records.push(record);
    }

    /// Appends additional records and raises the additional count by
    /// their number.
    pub fn add_records(&mut self, records: Vec<DnsRecord>)
        requires
            old(self).header.add_rr + records.len() <= 0xFFFF,
        ensures
            final (self).additional_records@ == old(self).additional_records@ + records@,
            final (self).header.add_rr == old(self).header.add_rr + records.len(),
            final (self).header == (DnsHeader {
                add_rr: final (self).header.add_rr,
                ..old(self).header
            }),
            final (self).queries == old(self).queries,
            final (self).responses == old(self).responses,
            final (self).authorities == old(self).authorities,
    {
        let mut records = records;
        self.header.add_rr = self.header.add_rr + (records.len() as u16);
        self.additional_records.append(&mut records);
    }
}

impl Default for DnsPacket {
    /// The same packet as `new`.
    fn default() -> (r: Self)
        ensures
            r.header == DnsHeader::spec_new(),
            r@.queries =~= Seq::<QueryV>::empty(),
            r@.responses =~= Seq::<RecordV>::empty(),
            r@.authorities =~= Seq::<RecordV>::empty(),
            r@.additional_records =~= Seq::<RecordV>::empty(),
    {
        DnsPacket::new()
    }
}

impl Clone for DnsPacket {
    /// A packet with the same header and the same sections.
    fn clone(&self) -> (r: Self)
        ensures
            r@ == self@,
    {
        let r = DnsPacket {
            header: self.header,
            queries: clone_queries(&self.queries),
            responses: clone_records(&self.responses),
            authorities: clone_records(&self.authorities),
            additional_records: clone_records(&self.additional_records),
        };
        assert(r@.queries =~= self@.queries);
        assert(r@.responses =~= self@.responses);
        assert(r@.authorities =~= self@.authorities);
        assert(r@.additional_records =~= self@.additional_records);
        r
    }
}

/// A copy of a query list with the same query values.
pub fn clone_queries(qs: &Vec<DnsQuery>) -> (r: Vec<DnsQuery>)
    ensures
        queries_view(r@) == queries_view(qs@),
{
    let mut out: Vec<DnsQuery> = Vec::new();
    let mut i: usize = 0;
    while i < qs.len()
        invariant
            i <= qs.len(),
            queries_view(out@) =~= queries_view(qs@).take(i as int),
        decreases qs.len() - i,
    {
        let ghost old_out = out@;
        out.push(qs[i].clone());
        proof {
            assert(queries_view(out@) =~= queries_view(old_out).push(qs@[i as int]@));
            assert(queries_view(out@) =~= queries_view(qs@).take(i as int + 1));
        }
        i = i + 1;
    }
    assert(queries_view(qs@).take(qs@.len() as int) =~= queries_view(qs@));
    out
}

/// A copy of a record list with the same record values.
pub fn clone_records(rs: &Vec<DnsRecord>) -> (r: Vec<DnsRecord>)
    ensures
        records_view(r@) == records_view(rs@),
{
    let mut out: Vec<DnsRecord> = Vec::new();
    let mut i: usize = 0;
    while i < rs.len()
        invariant
            i <= rs.len(),
            records_view(out@) =~= records_view(rs@).take(i as int),
        decreases rs.len() - i,
    {
        let ghost old_out = out@;
        out.push(rs[i].clone());
        proof {
            assert(records_view(out@) =~= records_view(old_out).push(rs@[i as int]@));
            assert(records_view(out@) =~= records_view(rs@).take(i as int + 1));
        }
        i = i + 1;
    }
    assert(records_view(rs@).take(rs@.len() as int) =~= records_view(rs@));
    out
}

/// Decoding the bytes written for a run of well-formed queries gives
/// those queries back, in order, stopping right after them.
proof fn lemma_parse_encoded_queries(buf: Seq<u8>, pos: int, qs: Seq<QueryV>)
    requires
        wf_queries(qs),
        0 <= pos,
        pos + spec_encode_queries(qs).len() <= buf.len(),
        buf.subrange(pos, pos + spec_encode_queries(qs).len() as int) == spec_encode_queries(qs),
    ensures
        spec_parse_queries(buf, pos, qs.len() as int) == Ok::<_, ParseError>(
            (qs, pos + spec_encode_queries(qs).len()),
        ),
    decreases qs.len(),
{
    let enc = spec_encode_queries(qs);
    if qs.len() == 0 {
        assert(qs =~= Seq::<QueryV>::empty());
    } else {
        let q0 = qs[0];
        let rest = qs.drop_first();
        let e0 = spec_encode_query(q0);
        let er = spec_encode_queries(rest);
        assert(enc == e0 + er);
        lemma_concat_prefix(e0, er);
        lemma_sub_subrange(buf, pos, enc, 0, e0.len() as int);
        lemma_sub_subrange(buf, pos, enc, e0.len() as int, enc.len() as int);
        assert(wf_query(qs[0]));
        lemma_query_round_trip(buf, pos, q0);
        assert forall|i: int| 0 <= i < rest.len() implies wf_query(#[trigger] rest[i]) by {
            assert(rest[i] == qs[i + 1]);
        }
        lemma_parse_encoded_queries(buf, pos + e0.len(), rest);
        assert(seq![q0] + rest =~= qs);
    }
}

/// Decoding the bytes written for a run of well-formed records gives
/// those records back, in order, stopping right after them.
proof fn lemma_parse_encoded_records(buf: Seq<u8>, pos: int, rs: Seq<RecordV>)
    requires
        wf_records(rs),
        0 <= pos,
        pos + spec_encode_records(rs).len() <= buf.len(),
        buf.subrange(pos, pos + spec_encode_records(rs).len() as int) == spec_encode_records(rs),
    ensures
        spec_parse_records(buf, pos, rs.len() as int) == Ok::<_, ParseError>(
            (rs, pos + spec_encode_records(rs).len()),
        ),
    decreases rs.len(),
{
    let enc = spec_encode_records(rs);
    if rs.len() == 0 {
        assert(rs =~= Seq::<RecordV>::empty());
    } else {
        let r0 = rs[0];
        let rest = rs.drop_first();
        let e0 = spec_encode_record(r0);
        let er = spec_encode_records(rest);
        assert(enc == e0 + er);
        lemma_concat_prefix(e0, er);
        lemma_sub_subrange(buf, pos, enc, 0, e0.len() as int);
        lemma_sub_subrange(buf, pos, enc, e0.len() as int, enc.len() as int);
        assert(wf_record(rs[0]));
        lemma_record_round_trip(buf, pos, r0);
        assert forall|i: int| 0 <= i < rest.len() implies wf_record(#[trigger] rest[i]) by {
            assert(rest[i] == rs[i + 1]);
        }
        lemma_parse_encoded_records(buf, pos + e0.len(), rest);
        assert(seq![r0] + rest =~= rs);
    }
}

/// A query sequence encodes without fault exactly when every entry is
/// well formed.
proof fn lemma_serialize_queries_ok(qs: Seq<QueryV>)
    ensures
        spec_serialize_queries(qs) is Ok <==> wf_queries(qs),
    decreases qs.len(),
{
    if qs.len() != 0 {
        lemma_serialize_queries_ok(qs.drop_first());
        if spec_serialize_queries(qs) is Ok {
            assert forall|i: int| 0 <= i < qs.len() implies wf_query(#[trigger] qs[i]) by {
                if i > 0 {
                    assert(qs.drop_first()[i - 1] == qs[i]);
                }
            }
        } else {
            if wf_queries(qs) {
                assert(wf_query(qs[0]));
                assert forall|i: int| 0 <= i < qs.drop_first().len() implies wf_query(
                    #[trigger] qs.drop_first()[i],
                ) by {
                    assert(qs.drop_first()[i] == qs[i + 1]);
                }
            }
        }
    }
}

/// A record sequence encodes without fault exactly when every entry is
/// well formed.
proof fn lemma_serialize_records_ok(rs: Seq<RecordV>)
    ensures
        spec_serialize_records(rs) is Ok <==> wf_records(rs),
    decreases rs.len(),
{
    if rs.len() != 0 {
        lemma_serialize_records_ok(rs.drop_first());
        if spec_serialize_records(rs) is Ok {
            assert forall|i: int| 0 <= i < rs.len() implies wf_record(#[trigger] rs[i]) by {
                if i > 0 {
                    assert(rs.drop_first()[i - 1] == rs[i]);
                }
            }
        } else {
            if wf_records(rs) {
                assert(wf_record(rs[0]));
                assert forall|i: int| 0 <= i < rs.drop_first().len() implies wf_record(
                    #[trigger] rs.drop_first()[i],
                ) by {
                    assert(rs.drop_first()[i] == rs[i + 1]);
                }
            }
        }
    }
}

/// Round trip: decoding the bytes encoded for a packet whose header
/// counts match its section lengths gives that packet back exactly.
/// Serialization succeeds on such a packet exactly when it is well
/// formed, so this covers every value that `serialize` accepts.
#[verifier::rlimit(80)]
pub proof fn lemma_packet_round_trip(p: PacketV)
    requires
        counts_consistent(p),
        spec_serialize_packet(p) is Ok,
    ensures
        spec_parse_packet(spec_serialize_packet(p)->Ok_0) == Ok::<_, ParseError>(p),
{
    lemma_serialize_queries_ok(p.queries);
    lemma_serialize_records_ok(p.responses);
    lemma_serialize_records_ok(p.authorities);
    lemma_serialize_records_ok(p.additional_records);
    let hb = p.header.spec_serialize();
    let qb = spec_encode_queries(p.queries);
    let rb = spec_encode_records(p.responses);
    let ab = spec_encode_records(p.authorities);
    let db = spec_encode_records(p.additional_records);
    let s2 = hb + qb;
    let s3 = s2 + rb;
    let s4 = s3 + ab;
    let buf = spec_encode_packet(p);
    assert(buf == s4 + db);
    assert(hb.len() == 12);
    assert(buf.subrange(0, buf.len() as int) =~= buf);
    lemma_concat_prefix(s4, db);
    lemma_sub_subrange(buf, 0, buf, 0, s4.len() as int);
    assert(buf.subrange(0, s4.len() as int) == s4);
    lemma_concat_prefix(s3, ab);
    lemma_sub_subrange(buf, 0, s4, 0, s3.len() as int);
    lemma_sub_subrange(buf, 0, s4, s3.len() as int, s4.len() as int);
    assert(buf.subrange(0, s3.len() as int) == s3);
    assert(buf.subrange(s3.len() as int, s4.len() as int) == ab);
    lemma_concat_prefix(s2, rb);
    lemma_sub_subrange(buf, 0, s3, 0, s2.len() as int);
    lemma_sub_subrange(buf, 0, s3, s2.len() as int, s3.len() as int);
    assert(buf.subrange(0, s2.len() as int) == s2);
    assert(buf.subrange(s2.len() as int, s3.len() as int) == rb);
    lemma_concat_prefix(hb, qb);
    lemma_sub_subrange(buf, 0, s2, 0, hb.len() as int);
    lemma_sub_subrange(buf, 0, s2, hb.len() as int, s2.len() as int);
    assert(buf.subrange(0, 12) == hb);
    assert(buf.subrange(12, s2.len() as int) == qb);
    lemma_header_round_trip(buf, 0, p.header);
    lemma_parse_encoded_queries(buf, 12, p.queries);
    lemma_parse_encoded_records(buf, s2.len() as int, p.responses);
    lemma_parse_encoded_records(buf, s3.len() as int, p.authorities);
    lemma_parse_encoded_records(buf, s4.len() as int, p.additional_records);
    assert(spec_parse_packet(buf) == Ok::<_, ParseError>(
        PacketV {
            header: p.header,
            queries: p.queries,
            responses: p.responses,
            authorities: p.authorities,
            additional_records: p.additional_records,
        },
    ));
    assert(PacketV {
        header: p.header,
        queries: p.queries,
        responses: p.responses,
        authorities: p.authorities,
        additional_records: p.additional_records,
    } == p);
}

/// A successful query-sequence parse returns exactly `count` entries.
proof fn lemma_parse_queries_len(buf: Seq<u8>, pos: int, count: int)
    requires
        count >= 0,
    ensures
        spec_parse_queries(buf, pos, count) is Ok ==> spec_parse_queries(
            buf,
            pos,
            count,
        )->Ok_0.0.len() == count,
    decreases count,
{
    if count > 0 {
        if let Ok((q, p)) = spec_parse_query(buf, pos) {
            lemma_parse_queries_len(buf, p, count - 1);
        }
    }
}

/// A successful record-sequence parse returns exactly `count` entries.
proof fn lemma_parse_records_len(buf: Seq<u8>, pos: int, count: int)
    requires
        count >= 0,
    ensures
        spec_parse_records(buf, pos, count) is Ok ==> spec_parse_records(
            buf,
            pos,
            count,
        )->Ok_0.0.len() == count,
    decreases count,
{
    if count > 0 {
        if let Ok((r, p)) = spec_parse_record(buf, pos) {
            lemma_parse_records_len(buf, p, count - 1);
        }
    }
}

} // verus!
