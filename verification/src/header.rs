//! The fixed 12-byte message header: transaction id, flags word, and
//! the four section counts, all big-endian.

use vstd::prelude::*;

use crate::flags::lemma_flags_round_trip;
use crate::flags::DnsHeaderFlags;
use crate::types::ErrorKind;
use crate::types::ParseError;
use crate::wire::lemma_u16_round_trip;
use crate::wire::read_u16;
use crate::wire::spec_read_u16;
use crate::wire::spec_u16_bytes;
use crate::wire::push_u16;

verus! {

/// The message header.  The four counts are the sole source of truth
/// for how many entries follow in each section; keeping them in step
/// with the section lists is the caller's duty, and the packet type's
/// appending operations do so.
#[derive(Debug, Clone, Copy, PartialEq, Eq, Structural)]
pub struct DnsHeader {
    pub transaction_id: u16,
    pub flags: DnsHeaderFlags,
    pub queries: u16,
    pub responses: u16,
    pub auth_rr: u16,
    pub add_rr: u16,
}

impl DnsHeader {
    /// A fresh query header: fixed transaction id, all-clear flags, all
    /// counts zero.
    pub fn new() -> (r: DnsHeader)
        ensures
            r == DnsHeader::spec_new(),
    {
        DnsHeader {
            transaction_id: 1337,
            flags: DnsHeaderFlags::default(),
            queries: 0,
            responses: 0,
            auth_rr: 0,
            add_rr: 0,
        }
    }

    /// The header that `new` returns.
    pub open spec fn spec_new() -> DnsHeader {
        DnsHeader {
            transaction_id: 1337,
            flags: DnsHeaderFlags::spec_default(),
            queries: 0,
            responses: 0,
            auth_rr: 0,
            add_rr: 0,
        }
    }

    /// Replaces the flags word.
    pub fn set_flags(&mut self, flags: DnsHeaderFlags)
        ensures
            *final (self) == (DnsHeader { flags, ..*old(self) }),
    {
        self.flags = flags;
    }

    /// The twelve bytes this header occupies on the wire: transaction
    /// id, flags, then the query, answer, authority and additional
    /// counts, in that order.
    pub open spec fn spec_serialize(self) -> Seq<u8> {
        spec_u16_bytes(self.transaction_id) + self.flags.spec_serialize() + spec_u16_bytes(
            self.queries,
        ) + spec_u16_bytes(self.responses) + spec_u16_bytes(self.auth_rr) + spec_u16_bytes(
            self.add_rr,
        )
    }

    /// Decoding a header at `pos`: twelve bytes are consumed, and a
    /// flags fault is reported at the absolute offset of the faulty
    /// flags byte.
    pub open spec fn spec_parse(buf: Seq<u8>, pos: int) -> Result<(DnsHeader, int), ParseError> {
        match spec_read_u16(buf, pos) {
            Err(e) => Err(e),
            Ok(transaction_id) => if pos + 4 <= buf.len() {
                match DnsHeaderFlags::spec_parse(buf[pos + 2], buf[pos + 3]) {
                    Err(e) => Err(
                        ParseError { kind: e.kind, offset: (pos + 2 + e.offset) as usize },
                    ),
                    Ok(flags) => match spec_read_u16(buf, pos + 4) {
                        Err(e) => Err(e),
                        Ok(queries) => match spec_read_u16(buf, pos + 6) {
                            Err(e) => Err(e),
                            Ok(responses) => match spec_read_u16(buf, pos + 8) {
                                Err(e) => Err(e),
                                Ok(auth_rr) => match spec_read_u16(buf, pos + 10) {
                                    Err(e) => Err(e),
                                    Ok(add_rr) => Ok(
                                        (
                                            DnsHeader {
                                                transaction_id,
                                                flags,
                                                queries,
                                                responses,
                                                auth_rr,
                                                add_rr,
                                            },
                                            pos + 12,
                                        ),
                                    ),
                                },
                            },
                        },
                    },
                }
            } else {
                Err(ParseError { kind: ErrorKind::Truncated, offset: (pos + 2) as usize })
            },
        }
    }

    /// Decodes the header at `pos` and returns it with the position of
    /// the first byte after it.  Fails exactly when fewer than twelve
    /// bytes remain or the flags word holds an unknown opcode or reply
    /// code.
    pub fn parse(buf: &[u8], pos: usize) -> (r: Result<(DnsHeader, usize), ParseError>)
        ensures
            r is Ok ==> DnsHeader::spec_parse(buf@, pos as int) == Ok::<_, ParseError>(
                (r->Ok_0.0, r->Ok_0.1 as int),
            ),
            r is Err ==> DnsHeader::spec_parse(buf@, pos as int) == Err::<(DnsHeader, int), _>(
                r->Err_0,
            ),
    {
        let transaction_id = match read_u16(buf, pos) {
            Ok(v) => v,
            Err(e) => {
                return Err(e);
            },
        };
        if buf.len() < 4 || pos > buf.len() - 4 {
            return Err(ParseError { kind: ErrorKind::Truncated, offset: pos + 2 });
        }
        let flags = match DnsHeaderFlags::parse(buf[pos + 2], buf[pos + 3]) {
            Ok(f) => f,
            Err(e) => {
                assert(e.offset <= 1);
                return Err(ParseError { kind: e.kind, offset: pos + 2 + e.offset });
            },
        };
        let queries = match read_u16(buf, pos + 4) {
            Ok(v) => v,
            Err(e) => {
                return Err(e);
            },
        };
        let responses = match read_u16(buf, pos + 6) {
            Ok(v) => v,
            Err(e) => {
                return Err(e);
            },
        };
        let auth_rr = match read_u16(buf, pos + 8) {
            Ok(v) => v,
            Err(e) => {
                return Err(e);
            },
        };
        let add_rr = match read_u16(buf, pos + 10) {
            Ok(v) => v,
            Err(e) => {
                return Err(e);
            },
        };
        Ok((DnsHeader { transaction_id, flags, queries, responses, auth_rr, add_rr }, pos + 12))
    }

    /// Appends the twelve wire bytes of this header to `out`.
    pub fn serialize(&self, out: &mut Vec<u8>)
        ensures
            final (out)@ == old(out)@ + self.spec_serialize(),
    {
        push_u16(out, self.transaction_id);
        self.flags.serialize(out);
        push_u16(out, self.queries);
        push_u16(out, self.responses);
        push_u16(out, self.auth_rr);
        push_u16(out, self.add_rr);
        assert(out@ =~= old(out)@ + self.spec_serialize());
    }

    /// The header as a twelve-byte vector.
    pub fn to_bytes(&self) -> (r: Vec<u8>)
        ensures
            r@ == self.spec_serialize(),
    {
        let mut out: Vec<u8> = Vec::new();
        self.serialize(&mut out);
        assert(out@ =~= self.spec_serialize());
        out
    }
}

impl Default for DnsHeader {
    /// The same header as `new`.
    fn default() -> (r: Self)
        ensures
            r == DnsHeader::spec_new(),
    {
        DnsHeader::new()
    }
}

/// Decoding the twelve bytes written for a header, wherever they sit in
/// a larger buffer, gives that header back and stops right after them.
pub proof fn lemma_header_round_trip(buf: Seq<u8>, pos: int, h: DnsHeader)
    ensures
        0 <= pos && pos + 12 <= buf.len() && buf.subrange(pos, pos + 12) == h.spec_serialize()
            ==> DnsHeader::spec_parse(buf, pos) == Ok::<_, ParseError>((h, pos + 12)),
{
    if 0 <= pos && pos + 12 <= buf.len() && buf.subrange(pos, pos + 12) == h.spec_serialize() {
        let s = h.spec_serialize();
        let flat = seq![
            (h.transaction_id >> 8) as u8,
            (h.transaction_id & 0xFF) as u8,
            h.flags.spec_byte0(),
            h.flags.spec_byte1(),
            (h.queries >> 8) as u8,
            (h.queries & 0xFF) as u8,
            (h.responses >> 8) as u8,
            (h.responses & 0xFF) as u8,
            (h.auth_rr >> 8) as u8,
            (h.auth_rr & 0xFF) as u8,
            (h.add_rr >> 8) as u8,
            (h.add_rr & 0xFF) as u8,
        ];
        assert(s =~= flat);
        assert forall|k: int| 0 <= k < 12 implies buf[pos + k] == flat[k] by {
            assert(buf.subrange(pos, pos + 12)[k] == buf[pos + k]);
        }
        lemma_u16_round_trip(h.transaction_id);
        lemma_u16_round_trip(h.queries);
        lemma_u16_round_trip(h.responses);
        lemma_u16_round_trip(h.auth_rr);
        lemma_u16_round_trip(h.add_rr);
        lemma_flags_round_trip(h.flags);
        assert(buf[pos + 2] == h.flags.spec_byte0() && buf[pos + 3] == h.flags.spec_byte1());
    }
}

} // verus!
