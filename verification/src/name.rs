//! Domain names on the wire: length-prefixed labels ending in a zero
//! byte, with two-byte compression pointers that jump back into the
//! full message buffer.
//!
//! Decoding therefore takes the complete original message as a
//! reference buffer, never just the unparsed suffix: pointers hold
//! absolute offsets from the start of the message.  A pointer byte has
//! both top bits set and carries a 14-bit offset.  Decoding follows at
//! most as many pointers as the buffer has bytes, which every
//! pointer-acyclic name satisfies, so a pointer cycle is reported
//! instead of looping forever.  Encoding always emits plain labels and
//! never re-introduces compression.

use vstd::prelude::*;

use crate::types::ErrorKind;
use crate::types::ParseError;
use crate::types::SerializeError;
use vstd::slice::slice_to_vec;
use vstd::string::StringSliceAdditionalSpecFns;

verus! {

/// One dot-separated component of a domain name: raw bytes, carrying
/// 1 to 63 bytes when well formed.
#[derive(Debug, PartialEq, Eq)]
pub struct DnsLabel {
    pub data: Vec<u8>,
}

impl Clone for DnsLabel {
    /// A label holding the same bytes.
    fn clone(&self) -> (r: Self)
        ensures
            r@ == self@,
    {
        let r = DnsLabel { data: slice_to_vec(self.data.as_slice()) };
        assert(r@ =~= self@);
        r
    }
}

impl View for DnsLabel {
    type V = Seq<u8>;

    open spec fn view(&self) -> Seq<u8> {
        self.data@
    }
}

impl DnsLabel {
    /// A label holding a copy of the given bytes.
    pub fn new(data: &[u8]) -> (r: DnsLabel)
        ensures
            r@ == data@,
    {
        DnsLabel { data: slice_to_vec(data) }
    }
}

/// The label sequences of a sequence of labels.
pub open spec fn labels_view(labels: Seq<DnsLabel>) -> Seq<Seq<u8>> {
    labels.map_values(|l: DnsLabel| l@)
}

/// A domain name: an ordered sequence of labels.  Equality is over the
/// label sequence, never over any particular wire encoding.
#[derive(Debug, PartialEq, Eq)]
pub struct DnsName {
    pub labels: Vec<DnsLabel>,
}

impl Clone for DnsName {
    /// A name holding the same label sequence.
    fn clone(&self) -> (r: Self)
        ensures
            r@ == self@,
    {
        let mut labels: Vec<DnsLabel> = Vec::new();
        let mut i: usize = 0;
        while i < self.labels.len()
            invariant
                i <= self.labels.len(),
                labels_view(labels@) =~= self@.take(i as int),
            decreases self.labels.len() - i,
        {
            let ghost old_labels = labels@;
            labels.push(self.labels[i].clone());
            proof {
                assert(labels_view(labels@) =~= labels_view(old_labels).push(self@[i as int]));
                assert(labels_view(labels@) =~= self@.take(i as int + 1));
            }
            i = i + 1;
        }
        assert(self@.take(self@.len() as int) =~= self@);
        DnsName { labels }
    }
}

impl View for DnsName {
    type V = Seq<Seq<u8>>;

    open spec fn view(&self) -> Seq<Seq<u8>> {
        labels_view(self.labels@)
    }
}

/// A label that the wire format can carry: one length byte below the
/// pointer-marker range, at least one content byte.
pub open spec fn wf_label(l: Seq<u8>) -> bool {
    1 <= l.len() <= 63
}

/// A name whose every label the wire format can carry.
pub open spec fn wf_name(n: Seq<Seq<u8>>) -> bool {
    forall|i: int| 0 <= i < n.len() ==> wf_label(#[trigger] n[i])
}

/// The labels of a name as encoded, without the terminating zero byte:
/// each label's length byte followed by its bytes.
pub open spec fn spec_encode_labels(n: Seq<Seq<u8>>) -> Seq<u8>
    decreases n.len(),
{
    if n.len() == 0 {
        Seq::empty()
    } else {
        seq![n[0].len() as u8] + n[0] + spec_encode_labels(n.drop_first())
    }
}

/// The full wire encoding of a name: its labels, then a zero byte.
pub open spec fn spec_encode_name(n: Seq<Seq<u8>>) -> Seq<u8> {
    spec_encode_labels(n) + seq![0u8]
}

/// Decoding a name at `pos` against the whole buffer, following at
/// most `jumps` compression pointers.  Returns the labels in encounter
/// order and the resume position: one past the terminating zero, or,
/// once a pointer has been followed, one past that first pointer.
pub open spec fn spec_parse_name(buf: Seq<u8>, pos: int, jumps: int) -> Result<
    (Seq<Seq<u8>>, int),
    ParseError,
>
    decreases jumps, buf.len() - pos,
{
    if pos < 0 || pos >= buf.len() {
        Err(ParseError { kind: ErrorKind::Truncated, offset: pos as usize })
    } else {
        let b = buf[pos];
        if b == 0 {
            Ok((Seq::empty(), pos + 1))
        } else if b & 0xC0 == 0xC0 {
            if pos + 2 > buf.len() {
                Err(ParseError { kind: ErrorKind::Truncated, offset: (pos + 1) as usize })
            } else {
                let target = ((b & 0x3F) as int) * 256 + buf[pos + 1] as int;
                if jumps <= 0 {
                    Err(ParseError { kind: ErrorKind::CompressionLoop, offset: pos as usize })
                } else if target >= buf.len() {
                    Err(ParseError { kind: ErrorKind::Truncated, offset: target as usize })
                } else {
                    match spec_parse_name(buf, target, jumps - 1) {
                        Err(e) => Err(e),
                        Ok((labels, _)) => Ok((labels, pos + 2)),
                    }
                }
            }
        } else if b & 0xC0 != 0 {
            Err(ParseError { kind: ErrorKind::InvalidLabel(b), offset: pos as usize })
        } else {
            if pos + 1 + b as int > buf.len() {
                Err(ParseError { kind: ErrorKind::Truncated, offset: (pos + 1) as usize })
            } else {
                match spec_parse_name(buf, pos + 1 + b as int, jumps) {
                    Err(e) => Err(e),
                    Ok((labels, end)) => Ok(
                        (seq![buf.subrange(pos + 1, pos + 1 + b as int)] + labels, end),
                    ),
                }
            }
        }
    }
}

/// The label starting at `start` and continuing from `cur`, followed by
/// the labels of the rest of the dotted byte string: the maximal runs
/// between dots.
pub open spec fn spec_split_from(b: Seq<u8>, start: int, cur: int) -> Seq<Seq<u8>>
    decreases b.len() - cur,
{
    if cur < 0 || start > cur || cur >= b.len() {
        seq![b.subrange(start, if b.len() >= start { b.len() as int } else { start })]
    } else if b[cur] == 0x2E {
        seq![b.subrange(start, cur)] + spec_split_from(b, cur + 1, cur + 1)
    } else {
        spec_split_from(b, start, cur + 1)
    }
}

/// The labels denoted by a whole dotted byte string.
pub open spec fn spec_split_labels(b: Seq<u8>) -> Seq<Seq<u8>> {
    spec_split_from(b, 0, 0)
}

/// Decoding a name with the jump allowance every acyclic pointer chain
/// fits in: one jump per byte of the buffer.
pub open spec fn spec_parse_name_full(buf: Seq<u8>, pos: int) -> Result<
    (Seq<Seq<u8>>, int),
    ParseError,
> {
    spec_parse_name(buf, pos, buf.len() as int)
}

impl DnsName {
    /// Reads labels at `pos` against the full reference buffer `buf`,
    /// resolving compression pointers, and returns them with the resume
    /// position.  Fails exactly when the input runs out, a length byte
    /// has exactly one of its top two bits set, or a pointer chain is
    /// longer than the buffer (a cycle).
    pub fn process_name(buf: &[u8], pos: usize) -> (r: Result<(Vec<DnsLabel>, usize), ParseError>)
        ensures
            r is Ok ==> spec_parse_name_full(buf@, pos as int) == Ok::<_, ParseError>(
                (labels_view(r->Ok_0.0@), r->Ok_0.1 as int),
            ),
            r is Err ==> spec_parse_name_full(buf@, pos as int) == Err::<(Seq<Seq<u8>>, int), _>(
                r->Err_0,
            ),
    {
        let ghost target_result = spec_parse_name_full(buf@, pos as int);
        let mut cur: usize = pos;
        let mut jumps_left: usize = buf.len();
        let mut acc: Vec<DnsLabel> = Vec::new();
        let mut resume: Option<usize> = None;
        loop
            invariant
                spec_parse_name_full(buf@, pos as int) == target_result,
                match spec_parse_name(buf@, cur as int, jumps_left as int) {
                    Ok((ls, e)) => target_result == Ok::<_, ParseError>(
                        (
                            labels_view(acc@) + ls,
                            match resume {
                                Some(rp) => rp as int,
                                None => e,
                            },
                        ),
                    ),
                    Err(e) => target_result == Err::<(Seq<Seq<u8>>, int), _>(e),
                },
            decreases jumps_left, buf@.len() - cur,
        {
            if cur >= buf.len() {
                return Err(ParseError { kind: ErrorKind::Truncated, offset: cur });
            }
            let b = buf[cur];
            if b == 0 {
                let end = match resume {
                    Some(rp) => rp,
                    None => cur + 1,
                };
                assert(labels_view(acc@) + Seq::<Seq<u8>>::empty() =~= labels_view(acc@));
                return Ok((acc, end));
            }
            if b & 0xC0 == 0xC0 {
                if buf.len() - cur < 2 {
                    return Err(ParseError { kind: ErrorKind::Truncated, offset: cur + 1 });
                }
                let target = ((b & 0x3F) as usize) * 256 + buf[cur + 1] as usize;
                if jumps_left == 0 {
                    return Err(ParseError { kind: ErrorKind::CompressionLoop, offset: cur });
                }
                if target >= buf.len() {
                    return Err(ParseError { kind: ErrorKind::Truncated, offset: target });
                }
                if resume.is_none() {
                    resume = Some(cur + 2);
                }
                jumps_left = jumps_left - 1;
                cur = target;
            } else if b & 0xC0 != 0 {
                return Err(ParseError { kind: ErrorKind::InvalidLabel(b), offset: cur });
            } else {
                let blen = b as usize;
                if buf.len() - cur < 1 + blen {
                    return Err(ParseError { kind: ErrorKind::Truncated, offset: cur + 1 });
                }
                let data = slice_to_vec(&buf[cur + 1..cur + 1 + blen]);
                let ghost old_acc = acc@;
                acc.push(DnsLabel { data });
                proof {
                    assert(labels_view(acc@) =~= labels_view(old_acc) + seq![
                        buf@.subrange(cur as int + 1, cur as int + 1 + blen as int),
                    ]);
                    if let Ok((ls, e)) = spec_parse_name(
                        buf@,
                        cur as int + 1 + blen as int,
                        jumps_left as int,
                    ) {
                        assert(labels_view(old_acc) + (seq![
                            buf@.subrange(cur as int + 1, cur as int + 1 + blen as int),
                        ] + ls) =~= labels_view(acc@) + ls);
                    }
                }
                cur = cur + 1 + blen;
            }
        }
    }

    /// Decodes the name at `pos` against the full reference buffer.
    pub fn parse(buf: &[u8], pos: usize) -> (r: Result<(DnsName, usize), ParseError>)
        ensures
            r is Ok ==> spec_parse_name_full(buf@, pos as int) == Ok::<_, ParseError>(
                (r->Ok_0.0@, r->Ok_0.1 as int),
            ),
            r is Err ==> spec_parse_name_full(buf@, pos as int) == Err::<(Seq<Seq<u8>>, int), _>(
                r->Err_0,
            ),
    {
        match DnsName::process_name(buf, pos) {
            Ok((labels, end)) => Ok((DnsName { labels }, end)),
            Err(e) => Err(e),
        }
    }

    /// A name built from a dotted byte string: the labels are the
    /// maximal runs between dots, kept as raw bytes.
    pub fn from_dotted_bytes(bytes: &[u8]) -> (r: DnsName)
        ensures
            r@ == spec_split_labels(bytes@),
    {
        let mut labels: Vec<DnsLabel> = Vec::new();
        let mut start: usize = 0;
        let mut i: usize = 0;
        while i < bytes.len()
            invariant
                start <= i <= bytes.len(),
                spec_split_labels(bytes@) == labels_view(labels@) + spec_split_from(
                    bytes@,
                    start as int,
                    i as int,
                ),
            decreases bytes.len() - i,
        {
            if bytes[i] == 0x2E {
                let ghost old_labels = labels@;
                labels.push(DnsLabel::new(&bytes[start..i]));
                proof {
                    assert(labels_view(labels@) =~= labels_view(old_labels) + seq![
                        bytes@.subrange(start as int, i as int),
                    ]);
                    assert(labels_view(old_labels) + (seq![
                        bytes@.subrange(start as int, i as int),
                    ] + spec_split_from(bytes@, i as int + 1, i as int + 1)) =~= labels_view(
                        labels@,
                    ) + spec_split_from(bytes@, i as int + 1, i as int + 1));
                }
                start = i + 1;
            }
            i = i + 1;
        }
        let ghost old_labels = labels@;
        labels.push(DnsLabel::new(&bytes[start..bytes.len()]));
        proof {
            assert(labels_view(labels@) =~= labels_view(old_labels) + seq![
                bytes@.subrange(start as int, bytes@.len() as int),
            ]);
        }
        DnsName { labels }
    }

    /// A name built from a dotted string, such as a host name literal.
    pub fn from(s: &str) -> (r: DnsName)
        ensures
            r@ == spec_split_labels(s.spec_bytes()),
    {
        DnsName::from_dotted_bytes(s.as_bytes())
    }

    /// Whether every label of this name fits the wire format.
    pub fn is_wf(&self) -> (r: bool)
        ensures
            r == wf_name(self@),
    {
        let mut i: usize = 0;
        while i < self.labels.len()
            invariant
                i <= self.labels.len(),
                forall|j: int| 0 <= j < i ==> wf_label(#[trigger] self@[j]),
            decreases self.labels.len() - i,
        {
            let n = self.labels[i].data.len();
            if n == 0 || n > 63 {
                assert(!wf_label(self@[i as int]));
                return false;
            }
            assert(wf_label(self@[i as int]));
            i = i + 1;
        }
        true
    }

    /// Appends the wire encoding of this name to `out`: each label as a
    /// length byte and its bytes, then a terminating zero, with no
    /// compression.  Fails, leaving `out` unchanged, exactly when some
    /// label is empty or longer than 63 bytes.
    pub fn serialize(&self, out: &mut Vec<u8>) -> (r: Result<(), SerializeError>)
        ensures
            r is Ok ==> wf_name(self@) && final (out)@ == old(out)@ + spec_encode_name(self@),
            r is Err ==> !wf_name(self@) && final (out)@ == old(out)@ && r->Err_0
                == SerializeError::InvalidLabel,
    {
        if !self.is_wf() {
            return Err(SerializeError::InvalidLabel);
        }
        let mut i: usize = 0;
        while i < self.labels.len()
            invariant
                i <= self.labels.len(),
                wf_name(self@),
                out@ == old(out)@ + spec_encode_labels(self@.take(i as int)),
            decreases self.labels.len() - i,
        {
            let ghost prefix = self@.take(i as int);
            let label = &self.labels[i];
            out.push(label.data.len() as u8);
            let mut j: usize = 0;
            while j < label.data.len()
                invariant
                    j <= label.data.len(),
                    label == &self.labels[i as int],
                    i < self.labels.len(),
                    out@ == old(out)@ + spec_encode_labels(prefix) + seq![
                        label@.len() as u8,
                    ] + label@.take(j as int),
                decreases label.data.len() - j,
            {
                out.push(label.data[j]);
                assert(label@.take(j as int + 1) =~= label@.take(j as int) + seq![label@[j as int]]);
                assert(out@ =~= old(out)@ + spec_encode_labels(prefix) + seq![label@.len() as u8]
                    + label@.take(j as int + 1));
                j = j + 1;
            }
            proof {
                assert(label@.take(label@.len() as int) =~= label@);
                lemma_encode_labels_snoc(prefix, label@);
                assert(self@.take(i as int + 1) =~= prefix.push(self@[i as int]));
                assert(out@ =~= old(out)@ + spec_encode_labels(self@.take(i as int + 1)));
            }
            i = i + 1;
        }
        out.push(0);
        proof {
            assert(self@.take(self@.len() as int) =~= self@);
            assert(out@ =~= old(out)@ + spec_encode_name(self@));
        }
        Ok(())
    }

    /// The wire encoding of this name as a fresh vector.
    pub fn to_bytes(&self) -> (r: Result<Vec<u8>, SerializeError>)
        ensures
            r is Ok ==> wf_name(self@) && r->Ok_0@ == spec_encode_name(self@),
            r is Err ==> !wf_name(self@) && r->Err_0 == SerializeError::InvalidLabel,
    {
        let mut out: Vec<u8> = Vec::new();
        match self.serialize(&mut out) {
            Ok(()) => {
                assert(out@ =~= spec_encode_name(self@));
                Ok(out)
            },
            Err(e) => Err(e),
        }
    }
}

/// Decoding an uncompressed name encoding, wherever it sits inside a
/// larger buffer and whatever the jump allowance, gives the encoded
/// labels back and stops right after the terminating zero byte.
pub proof fn lemma_parse_encoded_name(buf: Seq<u8>, pos: int, n: Seq<Seq<u8>>, jumps: int)
    requires
        wf_name(n),
        0 <= pos,
        pos + spec_encode_name(n).len() <= buf.len(),
        buf.subrange(pos, pos + spec_encode_name(n).len() as int) == spec_encode_name(n),
    ensures
        spec_parse_name(buf, pos, jumps) == Ok::<_, ParseError>(
            (n, pos + spec_encode_name(n).len()),
        ),
    decreases n.len(),
{
    let enc = spec_encode_name(n);
    let sub = buf.subrange(pos, pos + enc.len() as int);
    if n.len() == 0 {
        assert(enc =~= seq![0u8]);
        assert(sub[0] == buf[pos]);
        assert(buf[pos] == 0);
        assert(n =~= Seq::<Seq<u8>>::empty());
    } else {
        assert(wf_label(n[0]));
        let l = n[0];
        let ll = l.len() as int;
        let rest = n.drop_first();
        let rest_enc = spec_encode_name(rest);
        assert(enc =~= seq![l.len() as u8] + l + rest_enc);
        assert(sub[0] == buf[pos]);
        let b = buf[pos];
        assert(b == l.len() as u8);
        assert(b != 0 && b & 0xC0 == 0) by (bit_vector)
            requires
                1 <= b <= 63,
        ;
        assert(pos + 1 + ll <= buf.len());
        assert(buf.subrange(pos + 1, pos + 1 + ll) =~= l) by {
            assert forall|k: int| 0 <= k < ll implies buf.subrange(pos + 1, pos + 1 + ll)[k]
                == l[k] by {
                assert(buf.subrange(pos + 1, pos + 1 + ll)[k] == buf[pos + 1 + k]);
                assert(sub[1 + k] == buf[pos + 1 + k]);
                assert(enc[1 + k] == l[k]);
            }
        }
        assert(buf.subrange(pos + 1 + ll, pos + 1 + ll + rest_enc.len() as int) =~= rest_enc) by {
            assert forall|k: int| 0 <= k < rest_enc.len() implies buf.subrange(
                pos + 1 + ll,
                pos + 1 + ll + rest_enc.len() as int,
            )[k] == rest_enc[k] by {
                let idx = pos + 1 + ll + k;
                assert(buf.subrange(pos + 1 + ll, pos + 1 + ll + rest_enc.len() as int)[k]
                    == buf[idx]);
                assert(sub[1 + ll + k] == buf[idx]);
                assert(enc[1 + ll + k] == rest_enc[k]);
            }
        }
        lemma_parse_encoded_name(buf, pos + 1 + ll, rest, jumps);
        assert(b as int == ll);
        assert(seq![buf.subrange(pos + 1, pos + 1 + b as int)] + rest =~= n);
        assert(pos + 1 + ll + rest_enc.len() == pos + enc.len());
    }
}

/// A name read through a compression pointer equals the name whose
/// labels sit uncompressed at the pointer's target: name equality is
/// over the decompressed label sequence, never over the encoding, so a
/// compressed and an uncompressed occurrence of the same name decode to
/// equal values.
pub proof fn lemma_compression_invariant_equality(buf: Seq<u8>, pos: int, n: Seq<Seq<u8>>, jumps: int)
    requires
        wf_name(n),
        0 <= pos,
        pos + 2 <= buf.len(),
        buf[pos] & 0xC0 == 0xC0,
        1 <= jumps,
        ({
            let target = ((buf[pos] & 0x3F) as int) * 256 + buf[pos + 1] as int;
            &&& target + spec_encode_name(n).len() <= buf.len()
            &&& buf.subrange(target, target + spec_encode_name(n).len() as int)
                == spec_encode_name(n)
        }),
    ensures
        spec_parse_name(buf, pos, jumps) == Ok::<_, ParseError>((n, pos + 2)),
{
    let target = ((buf[pos] & 0x3F) as int) * 256 + buf[pos + 1] as int;
    let b = buf[pos];
    assert(b != 0) by (bit_vector)
        requires
            b & 0xC0 == 0xC0,
    ;
    assert(spec_encode_name(n).len() >= 1) by {
        if n.len() == 0 {
            assert(spec_encode_name(n) =~= seq![0u8]);
        }
    }
    lemma_parse_encoded_name(buf, target, n, jumps - 1);
}

/// Appending one label to a name appends its length byte and bytes to
/// the encoded label run.
pub proof fn lemma_encode_labels_snoc(n: Seq<Seq<u8>>, x: Seq<u8>)
    ensures
        spec_encode_labels(n.push(x)) == spec_encode_labels(n) + seq![x.len() as u8] + x,
    decreases n.len(),
{
    if n.len() == 0 {
        assert(n.push(x).drop_first() =~= n);
        assert(n.push(x)[0] == x);
        assert(spec_encode_labels(n.push(x)) =~= spec_encode_labels(n) + seq![x.len() as u8] + x);
    } else {
        assert(n.push(x).drop_first() =~= n.drop_first().push(x));
        lemma_encode_labels_snoc(n.drop_first(), x);
        assert(spec_encode_labels(n.push(x)) =~= spec_encode_labels(n) + seq![x.len() as u8] + x);
    }
}

} // verus!
