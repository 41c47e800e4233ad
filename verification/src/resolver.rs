//! The recursive resolution engine, as a step machine over packets.
//!
//! The machine owns the referral state: a stack of open questions, each
//! with its pool of candidate server addresses, and a query budget that
//! every outbound question consumes, so a resolution can never run
//! forever however adversarial the referral chain.  `advance` picks a
//! server at random from the top pool and asks the caller to send the
//! question to it; `deliver` digests the reply — a final answer, glue
//! addresses for the same question, a referral that opens a nested
//! question for the name server's own address against the root set, or
//! a terminal no-information reply returned as-is.  The caller performs
//! only the transport; every decision is made here.  `recursive_lookup`
//! drives the same machine against a synthetic network table, with no
//! transport at all.

use vstd::prelude::*;

use crate::flags::ReplyCode;
use crate::header::DnsHeader;
use crate::name::DnsName;
use crate::packet::records_view;
use crate::packet::DnsPacket;
use crate::packet::PacketV;
use crate::query::DnsQuery;
use crate::record::DnsRecord;
use crate::record::RecordV;
use crate::resources::DnsClass;
use crate::resources::DnsRecordType;
use vstd::slice::slice_to_vec;

verus! {

/// The mathematical value of a server address: its bytes, tagged by
/// family.
pub enum ServerAddrV {
    V4(Seq<u8>),
    V6(Seq<u8>),
}

/// One candidate server: the address taken from an A or AAAA record.
#[derive(Debug, Clone, Copy, PartialEq, Eq)]
pub enum ServerAddr {
    V4([u8; 4]),
    V6([u8; 16]),
}

impl View for ServerAddr {
    type V = ServerAddrV;

    open spec fn view(&self) -> ServerAddrV {
        match self {
            ServerAddr::V4(a) => ServerAddrV::V4(a@),
            ServerAddr::V6(a) => ServerAddrV::V6(a@),
        }
    }
}

/// The address values of a sequence of candidate servers.
pub open spec fn addrs_view(s: Seq<ServerAddr>) -> Seq<ServerAddrV> {
    s.map_values(|a: ServerAddr| a@)
}

/// The addresses carried by the A and AAAA records of a sequence, in
/// order; other record types contribute none.
pub open spec fn spec_addresses(rs: Seq<RecordV>) -> Seq<ServerAddrV>
    decreases rs.len(),
{
    if rs.len() == 0 {
        Seq::empty()
    } else {
        let rest = spec_addresses(rs.drop_first());
        match rs[0] {
            RecordV::A { address, .. } => seq![ServerAddrV::V4(address)] + rest,
            RecordV::AAAA { address, .. } => seq![ServerAddrV::V6(address)] + rest,
            _ => rest,
        }
    }
}

/// The referral target of a record: the server name an NS record
/// delegates to, and nothing for any other type.
pub open spec fn ns_target(r: RecordV) -> Option<Seq<Seq<u8>>> {
    match r {
        RecordV::NS { name_server, .. } => Some(name_server),
        _ => None,
    }
}

/// Whether some record of the sequence is an NS referral.
pub open spec fn spec_has_ns(rs: Seq<RecordV>) -> bool {
    exists|i: int| 0 <= i < rs.len() && ns_target(#[trigger] rs[i]) is Some
}

/// A reply that ends a resolution: its answer section is non-empty and
/// its reply code reports no error.
pub open spec fn spec_success(p: PacketV) -> bool {
    p.responses.len() > 0 && p.header.flags.rcode == ReplyCode::NoError
}

/// How a resolution ended.
#[derive(Debug)]
pub enum ResolveOutcome {
    /// A reply with answers and no error: the terminal success.
    Answer(DnsPacket),
    /// A reply with nothing further to follow, returned as-is: a
    /// terminal non-authoritative outcome, not an error.
    Partial(DnsPacket),
    /// A question had no candidate server to ask.
    EmptyPool,
    /// The query budget ran out before the chain ended: failing closed
    /// on an overlong or cyclic referral chain.
    BudgetExhausted,
    /// The caller reported a transport fault; the attempt fails upward.
    TransportFailure,
}

/// What the machine asks of its caller next.
#[derive(Debug)]
pub enum ResolveStep {
    /// Send `query` to `server` and deliver the parsed reply.
    Send { server: ServerAddr, query: DnsQuery },
    /// The resolution is over.
    Finished(ResolveOutcome),
}

/// One open question: what is being asked, which servers remain to be
/// asked, and, once this question has spawned a nested one, the
/// referral reply to fall back to.
#[derive(Debug)]
pub struct ResolverFrame {
    pub query: DnsQuery,
    pub pool: Vec<ServerAddr>,
    pub saved: Option<DnsPacket>,
}

/// The resolution machine.
#[derive(Debug)]
pub struct Resolver {
    /// The stack of open questions; the last entry is being worked on.
    pub frames: Vec<ResolverFrame>,
    /// The root-set addresses every nested question starts from.
    pub roots: Vec<ServerAddr>,
    /// How many more questions may be sent.
    pub budget: u32,
    /// Whether a question is in flight, so a reply is owed.
    pub awaiting: bool,
}

/// Collects the addresses of the A and AAAA records of a section.
fn extract_addresses(records: &Vec<DnsRecord>) -> (r: Vec<ServerAddr>)
    ensures
        addrs_view(r@) == spec_addresses(records_view(records@)),
{
    let ghost whole = records_view(records@);
    let mut out: Vec<ServerAddr> = Vec::new();
    let mut i: usize = 0;
    while i < records.len()
        invariant
            i <= records.len(),
            whole == records_view(records@),
            addrs_view(out@) =~= spec_addresses(whole.take(i as int)),
        decreases records.len() - i,
    {
        let ghost old_out = out@;
        match &records[i] {
            DnsRecord::A { address, .. } => {
                out.push(ServerAddr::V4(*address));
            },
            DnsRecord::AAAA { address, .. } => {
                out.push(ServerAddr::V6(*address));
            },
            _ => (),
        }
        proof {
            lemma_addresses_snoc(whole.take(i as int), whole[i as int]);
            assert(whole.take(i as int).push(whole[i as int]) =~= whole.take(i as int + 1));
            assert(addrs_view(out@) =~= spec_addresses(whole.take(i as int + 1)));
        }
        i = i + 1;
    }
    assert(whole.take(whole.len() as int) =~= whole);
    out
}

/// Appending one record appends its address, if it carries one.
proof fn lemma_addresses_snoc(rs: Seq<RecordV>, r: RecordV)
    ensures
        spec_addresses(rs.push(r)) == spec_addresses(rs) + (match r {
            RecordV::A { address, .. } => seq![ServerAddrV::V4(address)],
            RecordV::AAAA { address, .. } => seq![ServerAddrV::V6(address)],
            _ => Seq::empty(),
        }),
    decreases rs.len(),
{
    let tail = (match r {
        RecordV::A { address, .. } => seq![ServerAddrV::V4(address)],
        RecordV::AAAA { address, .. } => seq![ServerAddrV::V6(address)],
        _ => Seq::<ServerAddrV>::empty(),
    });
    if rs.len() == 0 {
        assert(rs.push(r).drop_first() =~= rs);
        assert(spec_addresses(rs.push(r)) =~= spec_addresses(rs) + tail);
    } else {
        assert(rs.push(r).drop_first() =~= rs.drop_first().push(r));
        lemma_addresses_snoc(rs.drop_first(), r);
        assert(spec_addresses(rs.push(r)) =~= spec_addresses(rs) + tail);
    }
}

/// Relies on rand's `Rng::gen_range` over `0..n`: a uniformly chosen
/// index strictly below `n`; the range is non-empty, so the call cannot
/// panic.
#[verifier::external_body]
fn random_index(n: usize) -> (r: usize)
    requires
        n > 0,
    ensures
        r < n,
{
    rand::Rng::gen_range(&mut rand::thread_rng(), 0..n)
}

/// A uniformly random element of the vector, or nothing exactly when it
/// is empty.
pub fn get_random_element<'a, T>(v: &'a Vec<T>) -> (r: Option<&'a T>)
    ensures
        (r is None) == (v@.len() == 0),
        r is Some ==> exists|i: int| 0 <= i < v@.len() && *r->0 == v@[i],
{
    if v.len() == 0 {
        None
    } else {
        let i = random_index(v.len());
        Some(&v[i])
    }
}

impl Resolver {
    /// A machine about to resolve `query`, with the addresses carried
    /// by `roots` as the first candidate pool, allowed to send at most
    /// `budget` questions.
    pub fn new(query: DnsQuery, roots: &Vec<DnsRecord>, budget: u32) -> (r: Resolver)
        ensures
            r.frames@.len() == 1,
            r.frames@[0].query@ == query@,
            addrs_view(r.frames@[0].pool@) == spec_addresses(records_view(roots@)),
            r.frames@[0].saved is None,
            addrs_view(r.roots@) == spec_addresses(records_view(roots@)),
            r.budget == budget,
            !r.awaiting,
    {
        let pool = extract_addresses(roots);
        let root_pool = extract_addresses(roots);
        let mut frames: Vec<ResolverFrame> = Vec::new();
        frames.push(ResolverFrame { query, pool, saved: None });
        Resolver { frames, roots: root_pool, budget, awaiting: false }
    }

    /// Picks a random server from the top pool and asks the caller to
    /// send the top question to it, spending one unit of budget; or
    /// finishes: with an exhausted budget when none is left, and with
    /// an empty-pool failure when there is no server to ask — never a
    /// panic and never a loop.
    pub fn advance(&mut self) -> (r: ResolveStep)
        requires
            !old(self).awaiting,
            old(self).frames@.len() >= 1,
        ensures
            final (self).frames@ == old(self).frames@,
            final (self).roots@ == old(self).roots@,
            old(self).budget == 0 ==> (r matches ResolveStep::Finished(
                ResolveOutcome::BudgetExhausted,
            )) && !final (self).awaiting,
            old(self).budget > 0 && old(self).frames@.last().pool@.len() == 0 ==> (
            r matches ResolveStep::Finished(ResolveOutcome::EmptyPool)) && !final (self).awaiting,
            old(self).budget > 0 && old(self).frames@.last().pool@.len() > 0 ==> {
                &&& final (self).awaiting
                &&& final (self).budget == old(self).budget - 1
                &&& match r {
                    ResolveStep::Send { server, query } => {
                        &&& query@ == old(self).frames@.last().query@
                        &&& exists|i: int|
                            0 <= i < old(self).frames@.last().pool@.len() && server == old(self).frames@.last().pool@[i]
                    },
                    _ => false,
                }
            },
            (old(self).budget == 0 || old(self).frames@.last().pool@.len() == 0) ==> final (self).budget == old(self).budget,
    {
        if self.budget == 0 {
            return ResolveStep::Finished(ResolveOutcome::BudgetExhausted);
        }
        let top = self.frames.len() - 1;
        if self.frames[top].pool.len() == 0 {
            return ResolveStep::Finished(ResolveOutcome::EmptyPool);
        }
        let i = random_index(self.frames[top].pool.len());
        let server = self.frames[top].pool[i];
        let query = self.frames[top].query.clone();
        self.budget = self.budget - 1;
        self.awaiting = true;
        ResolveStep::Send { server, query }
    }

    /// Hands a finished nested question's result to the question below
    /// it: the result's addresses become that question's new pool, and
    /// a question with no addresses to follow falls back to its saved
    /// referral reply, finishing in turn.
    fn absorb_nested(&mut self, result: DnsPacket) -> (r: Option<ResolveOutcome>)
        requires
            old(self).frames@.len() >= 2,
            !old(self).awaiting,
        ensures
            !final (self).awaiting,
            final (self).budget == old(self).budget,
            final (self).roots@ == old(self).roots@,
            1 <= final (self).frames@.len() < old(self).frames@.len(),
            match r {
                Some(ResolveOutcome::Answer(_)) => false,
                _ => true,
            },
        decreases old(self).frames@.len(),
    {
        let popped = self.frames.pop();
        proof {
            assert(popped is Some);
        }
        let mut addrs = extract_addresses(&result.responses);
        let mut more = extract_addresses(&result.additional_records);
        addrs.append(&mut more);
        if addrs.len() > 0 {
            let mut frame = match self.frames.pop() {
                Some(f) => f,
                None => {
                    return Some(ResolveOutcome::Partial(result));
                },
            };
            frame.pool = addrs;
            self.frames.push(frame);
            return None;
        }
        let mut frame = match self.frames.pop() {
            Some(f) => f,
            None => {
                return Some(ResolveOutcome::Partial(result));
            },
        };
        let saved = frame.saved;
        frame.saved = None;
        self.frames.push(frame);
        match saved {
            Some(p) => {
                if self.frames.len() == 1 {
                    Some(ResolveOutcome::Partial(p))
                } else {
                    self.absorb_nested(p)
                }
            },
            None => Some(ResolveOutcome::Partial(result)),
        }
    }

    /// Digests the reply to the question in flight.  A reply with
    /// answers and no error ends the resolution at the root question
    /// and completes a nested one; glue addresses in the additional
    /// section become the question's new pool; an NS referral without
    /// glue opens a nested address question against the root set; and a
    /// reply with none of these is the terminal outcome, returned
    /// as-is.
    pub fn deliver(&mut self, reply: DnsPacket) -> (r: Option<ResolveOutcome>)
        requires
            old(self).awaiting,
            old(self).frames@.len() >= 1,
        ensures
            !final (self).awaiting,
            final (self).budget == old(self).budget,
            final (self).roots@ == old(self).roots@,
            final (self).frames@.len() >= 1,
            match r {
                Some(ResolveOutcome::Answer(p)) => spec_success(p@),
                _ => true,
            },
            spec_success(reply@) && old(self).frames@.len() == 1 ==> match r {
                Some(ResolveOutcome::Answer(p)) => p@ == reply@,
                _ => false,
            },
            spec_success(reply@) && old(self).frames@.len() > 1 ==> final (self).frames@.len()
                < old(self).frames@.len(),
            !spec_success(reply@) && spec_addresses(reply@.additional_records).len() > 0 ==> {
                &&& r is None
                &&& final (self).frames@.len() == old(self).frames@.len()
                &&& final (self).frames@.last().query@ == old(self).frames@.last().query@
                &&& addrs_view(final (self).frames@.last().pool@) == spec_addresses(
                    reply@.additional_records,
                )
            },
            !spec_success(reply@) && spec_addresses(reply@.additional_records).len() == 0
                && spec_has_ns(reply@.authorities) ==> {
                &&& r is None
                &&& final (self).frames@.len() == old(self).frames@.len() + 1
                &&& (exists|i: int|
                    0 <= i < reply@.authorities.len() && ns_target(#[trigger] reply@.authorities[i])
                        == Some(final (self).frames@.last().query@.name))
                &&& final (self).frames@.last().query@.record_type == DnsRecordType::A
                &&& final (self).frames@.last().query@.class == DnsClass::IN
                &&& addrs_view(final (self).frames@.last().pool@) == addrs_view(old(self).roots@)
            },
            !spec_success(reply@) && spec_addresses(reply@.additional_records).len() == 0
                && !spec_has_ns(reply@.authorities) && old(self).frames@.len() == 1 ==> match r {
                Some(ResolveOutcome::Partial(p)) => p@ == reply@,
                _ => false,
            },
    {
        self.awaiting = false;
        let success = self.reply_is_success(&reply);
        if success {
            if self.frames.len() == 1 {
                return Some(ResolveOutcome::Answer(reply));
            }
            return self.absorb_nested(reply);
        }
        let glue = extract_addresses(&reply.additional_records);
        if glue.len() > 0 {
            let mut frame = match self.frames.pop() {
                Some(f) => f,
                None => {
                    return Some(ResolveOutcome::Partial(reply));
                },
            };
            let ghost old_frames = old(self).frames@;
            frame.pool = glue;
            self.frames.push(frame);
            assert(self.frames@ =~= old_frames.update(
                old_frames.len() - 1,
                self.frames@.last(),
            ));
            return None;
        }
        let targets = ns_targets(&reply.authorities);
        if targets.len() == 0 {
            if self.frames.len() == 1 {
                return Some(ResolveOutcome::Partial(reply));
            }
            return self.absorb_nested(reply);
        }
        let idx = random_index(targets.len());
        let name = targets[idx].clone();
        let nested_query = DnsQuery { name, record_type: DnsRecordType::A, class: DnsClass::IN };
        let mut frame = match self.frames.pop() {
            Some(f) => f,
            None => {
                return Some(ResolveOutcome::Partial(reply));
            },
        };
        frame.saved = Some(reply);
        self.frames.push(frame);
        let pool = slice_to_vec(self.roots.as_slice());
        self.frames.push(ResolverFrame { query: nested_query, pool, saved: None });
        None
    }

    /// Whether the reply ends a resolution: non-empty answers, no
    /// error.
    pub fn reply_is_success(&self, reply: &DnsPacket) -> (r: bool)
        ensures
            r == spec_success(reply@),
    {
        reply.responses.len() > 0 && match reply.header.flags.rcode {
            ReplyCode::NoError => true,
            _ => false,
        }
    }
}

/// The delegation targets named by the NS records of a section, in
/// order.
fn ns_targets(records: &Vec<DnsRecord>) -> (r: Vec<DnsName>)
    ensures
        r@.len() == 0 <==> !spec_has_ns(records_view(records@)),
        forall|j: int|
            0 <= j < r@.len() ==> exists|i: int|
                0 <= i < records@.len() && ns_target(#[trigger] records_view(records@)[i]) == Some(
                    #[trigger] r@[j]@,
                ),
{
    let ghost whole = records_view(records@);
    let mut out: Vec<DnsName> = Vec::new();
    let mut i: usize = 0;
    while i < records.len()
        invariant
            i <= records.len(),
            whole == records_view(records@),
            out@.len() == 0 <==> (forall|k: int|
                0 <= k < i ==> ns_target(#[trigger] whole[k]) is None),
            forall|j: int|
                0 <= j < out@.len() ==> exists|k: int|
                    0 <= k < i && ns_target(#[trigger] whole[k]) == Some(#[trigger] out@[j]@),
        decreases records.len() - i,
    {
        match &records[i] {
            DnsRecord::NS { name_server, .. } => {
                let ghost old_out = out@;
                out.push(name_server.clone());
                proof {
                    assert(ns_target(whole[i as int]) == Some(out@.last()@));
                    assert forall|j: int| 0 <= j < out@.len() implies exists|k: int|
                        0 <= k < i + 1 && ns_target(#[trigger] whole[k]) == Some(
                            #[trigger] out@[j]@,
                        ) by {
                        if j < old_out.len() {
                            assert(out@[j] == old_out[j]);
                        } else {
                            assert(ns_target(whole[i as int]) == Some(out@[j]@));
                        }
                    }
                }
            },
            _ => (),
        }
        i = i + 1;
    }
    proof {
        if out@.len() == 0 {
            assert(forall|k: int| 0 <= k < whole.len() ==> ns_target(#[trigger] whole[k]) is None);
        } else {
            let j = 0int;
            assert(exists|k: int|
                0 <= k < records@.len() && ns_target(#[trigger] whole[k]) == Some(out@[j]@));
        }
    }
    out
}

/// The packet that carries one outbound question: a fresh header whose
/// query count is one, the question itself, and nothing else.
pub fn build_query_packet(query: &DnsQuery) -> (r: DnsPacket)
    ensures
        r@.queries == seq![query@],
        r@.responses.len() == 0,
        r@.authorities.len() == 0,
        r@.additional_records.len() == 0,
        r.header == (DnsHeader { queries: 1, ..DnsHeader::spec_new() }),
{
    let mut packet = DnsPacket::new();
    packet.add_query(query.clone());
    assert(packet@.queries =~= seq![query@]);
    packet
}

/// One server of a synthetic network: the reply it gives to any
/// question sent to its address.
pub struct ServerModel {
    pub address: ServerAddr,
    pub reply: DnsPacket,
}

/// Whether two candidate addresses are the same address.
fn addr_eq(a: &ServerAddr, b: &ServerAddr) -> (r: bool)
    ensures
        r == (a@ == b@),
{
    match (a, b) {
        (ServerAddr::V4(x), ServerAddr::V4(y)) => bytes_eq(x.as_slice(), y.as_slice()),
        (ServerAddr::V6(x), ServerAddr::V6(y)) => bytes_eq(x.as_slice(), y.as_slice()),
        _ => false,
    }
}

/// Whether two byte strings are equal.
fn bytes_eq(x: &[u8], y: &[u8]) -> (r: bool)
    ensures
        r == (x@ == y@),
{
    if x.len() != y.len() {
        return false;
    }
    let mut i: usize = 0;
    while i < x.len()
        invariant
            i <= x.len(),
            x@.len() == y@.len(),
            forall|k: int| 0 <= k < i ==> x@[k] == y@[k],
        decreases x.len() - i,
    {
        if x[i] != y[i] {
            return false;
        }
        i = i + 1;
    }
    assert(x@ =~= y@);
    true
}

/// Resolves `query` against a synthetic network: each candidate server
/// address answers with its fixed scripted reply, and an address absent
/// from the table behaves as a transport fault.  The loop provably
/// terminates — the budget falls with every question sent — and an
/// empty initial candidate pool is a terminal empty-pool failure, not a
/// panic or an endless loop.
pub fn recursive_lookup(
    query: &DnsQuery,
    roots: &Vec<DnsRecord>,
    network: &Vec<ServerModel>,
    budget: u32,
) -> (r: ResolveOutcome)
    ensures
        budget > 0 && spec_addresses(records_view(roots@)).len() == 0 ==> (
        r matches ResolveOutcome::EmptyPool),
        budget == 0 ==> (r matches ResolveOutcome::BudgetExhausted),
        match r {
            ResolveOutcome::Answer(p) => spec_success(p@),
            _ => true,
        },
{
    let mut resolver = Resolver::new(query.clone(), roots, budget);
    loop
        invariant
            !resolver.awaiting,
            resolver.frames@.len() >= 1,
            budget > 0 && spec_addresses(records_view(roots@)).len() == 0 ==> resolver.budget
                == budget && resolver.frames@.last().pool@.len() == 0,
            budget == 0 ==> resolver.budget == 0,
        decreases resolver.budget,
    {
        let ghost budget_before = resolver.budget;
        match resolver.advance() {
            ResolveStep::Finished(outcome) => {
                proof {
                    if budget_before == budget && budget > 0 && spec_addresses(
                        records_view(roots@),
                    ).len() == 0 {
                        assert(outcome matches ResolveOutcome::EmptyPool);
                    }
                }
                return outcome;
            },
            ResolveStep::Send { server, query: _q } => {
                let mut found: Option<DnsPacket> = None;
                let mut i: usize = 0;
                while i < network.len()
                    invariant
                        i <= network.len(),
                    decreases network.len() - i,
                {
                    if addr_eq(&network[i].address, &server) {
                        found = Some(network[i].reply.clone());
                    }
                    i = i + 1;
                }
                match found {
                    None => {
                        return ResolveOutcome::TransportFailure;
                    },
                    Some(reply) => {
                        match resolver.deliver(reply) {
                            Some(outcome) => {
                                return outcome;
                            },
                            None => (),
                        }
                    },
                }
            },
        }
    }
}

} // verus!
