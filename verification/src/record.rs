use vstd::prelude::*;
use vstd::slice::{slice_index_get, slice_subrange, slice_to_vec};
use crate::error::{BuildError, DecodingError, EncodingError};
use crate::tnf::{spec_tnf_bits, spec_tnf_from_bits, tnf_bits, tnf_from_bits, TNF};

verus! {

/// Mathematical model of one record: exactly what survives a trip onto the
/// wire and back. The framing flags are not part of it; they belong to a
/// record's position inside a message, not to its content.
#[verifier::ext_equal]
pub ghost struct RecordV {
    pub tnf: TNF,
    pub record_type: Seq<u8>,
    pub id: Option<Seq<u8>>,
    pub payload: Seq<u8>,
}

/// One NDEF record. The codec treats `record_type` and `payload` as opaque
/// bytes; interpreting them is the payload implementations' job.
#[derive(Debug)]
pub struct NdefRecord {
    tnf: TNF,
    record_type: Vec<u8>,
    id: Option<Vec<u8>>,
    payload: Vec<u8>,
}

/// The view of an optional byte buffer.
pub open spec fn spec_opt_bytes(o: Option<Vec<u8>>) -> Option<Seq<u8>> {
    match o {
        Some(v) => Some(v@),
        None => None,
    }
}

impl View for NdefRecord {
    type V = RecordV;

    closed spec fn view(&self) -> RecordV {
        RecordV {
            tnf: self.tnf,
            record_type: self.record_type@,
            id: spec_opt_bytes(self.id),
            payload: self.payload@,
        }
    }
}

/// The message-position flags a caller chooses when encoding one record:
/// message-begin and message-end. The short-record and id-present bits are
/// derived from the record's own data, never passed in.
#[derive(Clone, Copy, Debug, PartialEq, Eq, Structural)]
pub struct RecordFlags {
    pub mb: bool,
    pub me: bool,
}

/// A record is short exactly when its payload length fits one byte.
pub open spec fn spec_sr(r: RecordV) -> bool {
    r.payload.len() <= 255
}

/// The id-length field is present exactly when an id is present.
pub open spec fn spec_il(r: RecordV) -> bool {
    r.id is Some
}

/// The id bytes, or the empty sequence when no id is present.
pub open spec fn spec_id_seq(r: RecordV) -> Seq<u8> {
    match r.id {
        Some(s) => s,
        None => Seq::empty(),
    }
}

/// Header byte layout, bit 7 down to bit 0: MB, ME, CF, SR, IL, TNF(3).
/// CF (chunking) is never set by this codec.
pub open spec fn spec_header_byte(mb: bool, me: bool, sr: bool, il: bool, tnf: u8) -> u8 {
    (if mb {
        0x80u8
    } else {
        0u8
    }) | (if me {
        0x40u8
    } else {
        0u8
    }) | (if sr {
        0x10u8
    } else {
        0u8
    }) | (if il {
        0x08u8
    } else {
        0u8
    }) | tnf
}

/// The payload-length field: one byte for a short record, else four bytes
/// big-endian.
pub open spec fn spec_len_field(n: nat) -> Seq<u8> {
    if n <= 255 {
        seq![n as u8]
    } else {
        seq![
            ((n as u64) >> 24) as u8,
            ((n as u64) >> 16) as u8,
            ((n as u64) >> 8) as u8,
            (n as u64) as u8,
        ]
    }
}

/// Whether every length field can represent its datum.
pub open spec fn spec_encodable(r: RecordV) -> bool {
    &&& r.record_type.len() <= 255
    &&& (r.id matches Some(id) ==> id.len() <= 255)
    &&& r.payload.len() <= 0xffff_ffff
}

/// The error encoding surfaces first when a size is out of range: the type
/// length is checked first, then the id length, then the payload length.
pub open spec fn spec_encode_error(r: RecordV) -> EncodingError {
    if r.record_type.len() > 255 {
        EncodingError::TypeTooLong
    } else if r.id matches Some(id) && id.len() > 255 {
        EncodingError::IdTooLong
    } else {
        EncodingError::PayloadTooLong
    }
}

/// The exact bytes of one encoded record carrying the given message flags:
/// header, type length, payload length, optional id length, then the type,
/// id and payload bytes.
pub open spec fn spec_record_bytes(r: RecordV, mb: bool, me: bool) -> Seq<u8> {
    seq![spec_header_byte(mb, me, spec_sr(r), spec_il(r), spec_tnf_bits(r.tnf))]
        + seq![r.record_type.len() as u8]
        + spec_len_field(r.payload.len())
        + (if spec_il(r) {
            seq![spec_id_seq(r).len() as u8]
        } else {
            Seq::<u8>::empty()
        })
        + r.record_type
        + spec_id_seq(r)
        + r.payload
}

/// Four big-endian bytes read back as one number.
pub open spec fn spec_be32(b0: u8, b1: u8, b2: u8, b3: u8) -> u32 {
    ((b0 as u32) << 24) | ((b1 as u32) << 16) | ((b2 as u32) << 8) | (b3 as u32)
}

/// What one record parse yields: the record, its MB and ME header bits, and
/// the position just past its last byte.
#[verifier::ext_equal]
pub ghost struct ParsedRecord {
    pub rec: RecordV,
    pub mb: bool,
    pub me: bool,
    pub end: int,
}

/// Parses the remainder of a record once the header byte, the type length
/// and the payload length are in hand; `off` is the position just past the
/// payload-length field.
pub open spec fn spec_parse_tail(b: Seq<u8>, h: u8, tlen: int, plen: int, off: int) -> Option<
    ParsedRecord,
> {
    let il = (h & 0x08) != 0;
    if il && off + 1 > b.len() {
        None
    } else {
        let idlen: int = if il {
            b[off] as int
        } else {
            0
        };
        let data_off = if il {
            off + 1
        } else {
            off
        };
        let end = data_off + tlen + idlen + plen;
        if end <= b.len() {
            Some(
                ParsedRecord {
                    rec: RecordV {
                        tnf: spec_tnf_from_bits(h & 0x07),
                        record_type: b.subrange(data_off, data_off + tlen),
                        id: if il {
                            Some(b.subrange(data_off + tlen, data_off + tlen + idlen))
                        } else {
                            None
                        },
                        payload: b.subrange(data_off + tlen + idlen, end),
                    },
                    mb: (h & 0x80) != 0,
                    me: (h & 0x40) != 0,
                    end: end,
                },
            )
        } else {
            None
        }
    }
}

/// Parses exactly one record starting at `pos`, with no lookahead: the
/// result's `end` is the position just past the record's bytes.
pub open spec fn spec_parse_record(b: Seq<u8>, pos: int) -> Option<ParsedRecord> {
    if 0 <= pos && pos + 2 <= b.len() {
        let h = b[pos];
        let tlen = b[pos + 1] as int;
        if (h & 0x10) != 0 {
            if pos + 3 <= b.len() {
                spec_parse_tail(b, h, tlen, b[pos + 2] as int, pos + 3)
            } else {
                None
            }
        } else {
            if pos + 6 <= b.len() {
                spec_parse_tail(
                    b,
                    h,
                    tlen,
                    spec_be32(b[pos + 2], b[pos + 3], b[pos + 4], b[pos + 5]) as int,
                    pos + 6,
                )
            } else {
                None
            }
        }
    } else {
        None
    }
}

/// A successful parse lands strictly inside the buffer and consumes at
/// least the three mandatory header bytes.
pub proof fn lemma_parse_record_bounds(b: Seq<u8>, pos: int)
    ensures
        spec_parse_record(b, pos) matches Some(p) ==> pos + 3 <= p.end <= b.len(),
{
}

/// Record-level round trip: wherever the encoding of a record sits inside a
/// larger buffer, parsing at its start yields back the record, the flags it
/// was encoded with, and the position just past its bytes.
#[verifier::rlimit(100)]
#[verifier::spinoff_prover]
pub proof fn lemma_parse_record_of_encoding(b: Seq<u8>, pos: int, r: RecordV, mb: bool, me: bool)
    requires
        spec_encodable(r),
        0 <= pos,
        pos + spec_record_bytes(r, mb, me).len() <= b.len(),
        b.subrange(pos, pos + spec_record_bytes(r, mb, me).len()) == spec_record_bytes(r, mb, me),
    ensures
        spec_parse_record(b, pos) matches Some(p) && p.rec == r && p.mb == mb && p.me == me
            && p.end == pos + spec_record_bytes(r, mb, me).len(),
{
    let enc = spec_record_bytes(r, mb, me);
    let n = enc.len() as int;
    let sr = spec_sr(r);
    let il = spec_il(r);
    let tl = r.record_type.len() as int;
    let idl = spec_id_seq(r).len() as int;
    let pl = r.payload.len() as int;
    let hdr = spec_header_byte(mb, me, sr, il, spec_tnf_bits(r.tnf));
    let hdr_len: int = 2 + (if sr {
        1int
    } else {
        4int
    }) + (if il {
        1int
    } else {
        0int
    });
    assert(n == hdr_len + tl + idl + pl);
    assert forall|k: int| 0 <= k < n implies b[pos + k] == enc[k] by {
        assert(b.subrange(pos, pos + n)[k] == b[pos + k]);
    }
    assert(spec_tnf_bits(r.tnf) < 8);
    lemma_header_bits(mb, me, sr, il, spec_tnf_bits(r.tnf));
    assert(enc[0] == hdr);
    assert(enc[1] == tl as u8);
    assert((tl as u8) as int == tl);
    if sr {
        assert(enc[2] == pl as u8);
        assert((pl as u8) as int == pl);
    } else {
        let m = pl as u64;
        assert(enc[2] == (m >> 24) as u8);
        assert(enc[3] == (m >> 16) as u8);
        assert(enc[4] == (m >> 8) as u8);
        assert(enc[5] == m as u8);
        assert(m <= 0xffff_ffff ==> spec_be32(
            (m >> 24) as u8,
            (m >> 16) as u8,
            (m >> 8) as u8,
            m as u8,
        ) == m as u32) by (bit_vector);
        assert(spec_be32(enc[2], enc[3], enc[4], enc[5]) as int == pl);
    }
    let off: int = pos + 2 + (if sr {
        1int
    } else {
        4int
    });
    if il {
        assert(enc[off - pos] == idl as u8);
        assert((idl as u8) as int == idl);
    }
    let data_off: int = pos + hdr_len;
    assert forall|j: int| 0 <= j < tl implies b[data_off + j] == r.record_type[j] by {
        assert(b[pos + (hdr_len + j)] == enc[hdr_len + j]);
        assert(enc[hdr_len + j] == r.record_type[j]);
    }
    assert(b.subrange(data_off, data_off + tl) =~= r.record_type);
    if il {
        assert forall|j: int| 0 <= j < idl implies b[data_off + tl + j] == spec_id_seq(r)[j] by {
            assert(b[pos + (hdr_len + tl + j)] == enc[hdr_len + tl + j]);
            assert(enc[hdr_len + tl + j] == spec_id_seq(r)[j]);
        }
        assert(b.subrange(data_off + tl, data_off + tl + idl) =~= spec_id_seq(r));
    }
    assert forall|j: int| 0 <= j < pl implies b[data_off + tl + idl + j] == r.payload[j] by {
        assert(b[pos + (hdr_len + tl + idl + j)] == enc[hdr_len + tl + idl + j]);
        assert(enc[hdr_len + tl + idl + j] == r.payload[j]);
    }
    assert(b.subrange(data_off + tl + idl, data_off + tl + idl + pl) =~= r.payload);
    assert(b[pos] == hdr);
    crate::tnf::lemma_tnf_bits_roundtrip(r.tnf);
    assert(spec_parse_record(b, pos) matches Some(p) && p.rec =~= r && p.mb == mb && p.me == me
        && p.end == pos + n);
}

/// Short-record boundary: a payload whose length fits one byte encodes with
/// the SR bit set and a one-byte length field holding that length; a longer
/// payload encodes with SR clear and a four-byte big-endian length field.
pub proof fn lemma_sr_boundary(r: RecordV, mb: bool, me: bool)
    requires
        spec_encodable(r),
    ensures
        ({
            let enc = spec_record_bytes(r, mb, me);
            &&& spec_sr(r) ==> (enc[0] & 0x10 != 0) && enc[2] == r.payload.len() as u8
            &&& !spec_sr(r) ==> (enc[0] & 0x10 == 0) && enc.subrange(2, 6) == spec_len_field(
                r.payload.len(),
            )
            &&& enc.len() == 2 + (if spec_sr(r) {
                1int
            } else {
                4int
            }) + (if spec_il(r) {
                1int
            } else {
                0int
            }) + r.record_type.len() + spec_id_seq(r).len() + r.payload.len()
        }),
{
    let enc = spec_record_bytes(r, mb, me);
    assert(spec_tnf_bits(r.tnf) < 8);
    lemma_header_bits(mb, me, spec_sr(r), spec_il(r), spec_tnf_bits(r.tnf));
    assert(enc[0] == spec_header_byte(mb, me, spec_sr(r), spec_il(r), spec_tnf_bits(r.tnf)));
    if spec_sr(r) {
        assert(enc[2] == r.payload.len() as u8);
    } else {
        assert(enc[2] == spec_len_field(r.payload.len())[0]);
        assert(enc[3] == spec_len_field(r.payload.len())[1]);
        assert(enc[4] == spec_len_field(r.payload.len())[2]);
        assert(enc[5] == spec_len_field(r.payload.len())[3]);
        assert(enc.subrange(2, 6) =~= spec_len_field(r.payload.len()));
    }
}

/// Appends all of `src` to `dst`.
pub(crate) fn push_bytes(dst: &mut Vec<u8>, src: &[u8])
    ensures
        final(dst)@ == old(dst)@ + src@,
{
    let mut i: usize = 0;
    while i < src.len()
        invariant
            i <= src@.len(),
            dst@ == old(dst)@ + src@.subrange(0, i as int),
        decreases src@.len() - i,
    {
        let byte = *slice_index_get(src, i);
        dst.push(byte);
        proof {
            assert(old(dst)@ + src@.subrange(0, i + 1) =~= (old(dst)@ + src@.subrange(
                0,
                i as int,
            )).push(src@[i as int]));
        }
        i = i + 1;
    }
    proof {
        assert(src@.subrange(0, src@.len() as int) =~= src@);
    }
}

/// The five header fields read back from a composed header byte.
pub proof fn lemma_header_bits(mb: bool, me: bool, sr: bool, il: bool, tnf: u8)
    requires
        tnf < 8,
    ensures
        (spec_header_byte(mb, me, sr, il, tnf) & 0x80 != 0) == mb,
        (spec_header_byte(mb, me, sr, il, tnf) & 0x40 != 0) == me,
        (spec_header_byte(mb, me, sr, il, tnf) & 0x10 != 0) == sr,
        (spec_header_byte(mb, me, sr, il, tnf) & 0x08 != 0) == il,
        spec_header_byte(mb, me, sr, il, tnf) & 0x07 == tnf,
{
    let a: u8 = if mb {
        0x80
    } else {
        0
    };
    let b: u8 = if me {
        0x40
    } else {
        0
    };
    let c: u8 = if sr {
        0x10
    } else {
        0
    };
    let d: u8 = if il {
        0x08
    } else {
        0
    };
    assert((a == 0 || a == 0x80) && (b == 0 || b == 0x40) && (c == 0 || c == 0x10) && (d == 0 || d
        == 0x08) && tnf < 8 ==> ((a | b | c | d | tnf) & 0x80 == a) && ((a | b | c | d | tnf) & 0x40
        == b) && ((a | b | c | d | tnf) & 0x10 == c) && ((a | b | c | d | tnf) & 0x08 == d) && ((a
        | b | c | d | tnf) & 0x07 == tnf)) by (bit_vector);
}

impl NdefRecord {
    /// The type name format this record carries.
    pub fn tnf(&self) -> (t: TNF)
        ensures
            t == self@.tnf,
    {
        self.tnf
    }

    /// The raw type bytes; their meaning depends on the type name format.
    pub fn record_type(&self) -> (r: &[u8])
        ensures
            r@ == self@.record_type,
    {
        self.record_type.as_slice()
    }

    /// The optional id bytes.
    pub fn id(&self) -> (r: &Option<Vec<u8>>)
        ensures
            spec_opt_bytes(*r) == self@.id,
    {
        &self.id
    }

    /// The raw payload bytes.
    pub fn payload(&self) -> (r: &[u8])
        ensures
            r@ == self@.payload,
    {
        self.payload.as_slice()
    }

    /// Decodes exactly one record starting at `pos` in `buf`, with no
    /// lookahead: on success the returned position sits just past the
    /// record's last byte. Fails exactly when a declared length field needs
    /// more bytes than the buffer still holds.
    pub fn decode(buf: &[u8], pos: usize) -> (res: Result<
        (NdefRecord, RecordFlags, usize),
        DecodingError,
    >)
        requires
            pos <= buf@.len(),
        ensures
            res matches Ok(r) ==> (spec_parse_record(buf@, pos as int) matches Some(p) && p.rec
                == r.0@ && p.mb == r.1.mb && p.me == r.1.me && p.end == r.2 as int && pos < r.2
                <= buf@.len()),
            res is Err ==> spec_parse_record(buf@, pos as int) is None,
            res matches Err(e) ==> e == DecodingError::Truncated,
    {
        if buf.len() - pos < 2 {
            return Err(DecodingError::Truncated);
        }
        let h = *slice_index_get(buf, pos);
        let tlen = *slice_index_get(buf, pos + 1) as usize;
        let sr = h & 0x10 != 0;
        let il = h & 0x08 != 0;
        let plen: usize;
        let off: usize;
        if sr {
            if buf.len() - pos < 3 {
                return Err(DecodingError::Truncated);
            }
            plen = *slice_index_get(buf, pos + 2) as usize;
            off = pos + 3;
        } else {
            if buf.len() - pos < 6 {
                return Err(DecodingError::Truncated);
            }
            let b0 = *slice_index_get(buf, pos + 2);
            let b1 = *slice_index_get(buf, pos + 3);
            let b2 = *slice_index_get(buf, pos + 4);
            let b3 = *slice_index_get(buf, pos + 5);
            let plen32: u32 = ((b0 as u32) << 24) | ((b1 as u32) << 16) | ((b2 as u32) << 8) | (
            b3 as u32);
            plen = plen32 as usize;
            off = pos + 6;
        }
        let idlen: usize;
        let data_off: usize;
        if il {
            if off >= buf.len() {
                return Err(DecodingError::Truncated);
            }
            idlen = *slice_index_get(buf, off) as usize;
            data_off = off + 1;
        } else {
            idlen = 0;
            data_off = off;
        }
        let avail = buf.len() - data_off;
        let need: u64 = tlen as u64 + idlen as u64 + plen as u64;
        if need > avail as u64 {
            return Err(DecodingError::Truncated);
        }
        let t_end = data_off + tlen;
        let record_type = slice_to_vec(slice_subrange(buf, data_off, t_end));
        let id = if il {
            Some(slice_to_vec(slice_subrange(buf, t_end, t_end + idlen)))
        } else {
            None
        };
        let p_start = t_end + idlen;
        let end = p_start + plen;
        let payload = slice_to_vec(slice_subrange(buf, p_start, end));
        let bits = h & 0x07;
        proof {
            assert(h & 0x07 < 8) by (bit_vector);
        }
        let rec = NdefRecord { tnf: tnf_from_bits(bits), record_type, id, payload };
        let flags = RecordFlags { mb: h & 0x80 != 0, me: h & 0x40 != 0 };
        proof {
            let p = spec_parse_record(buf@, pos as int);
            assert(p matches Some(pp) && pp.rec =~= rec@ && pp.mb == flags.mb && pp.me == flags.me
                && pp.end == end as int);
        }
        Ok((rec, flags, end))
    }

    /// Encodes this record with the given message-position flags. The
    /// short-record and id-present header bits are derived here, from the
    /// data itself, so no caller can desynchronize them from it.
    pub fn to_buffer(&self, flags: RecordFlags) -> (res: Result<Vec<u8>, EncodingError>)
        ensures
            res matches Ok(buf) ==> spec_encodable(self@) && buf@ == spec_record_bytes(
                self@,
                flags.mb,
                flags.me,
            ),
            res matches Err(e) ==> !spec_encodable(self@) && e == spec_encode_error(self@),
    {
        if self.record_type.len() > 255 {
            return Err(EncodingError::TypeTooLong);
        }
        match &self.id {
            Some(id) => {
                if id.len() > 255 {
                    return Err(EncodingError::IdTooLong);
                }
            },
            None => {},
        }
        if self.payload.len() > 0xffff_ffff {
            return Err(EncodingError::PayloadTooLong);
        }
        let sr = self.payload.len() <= 255;
        let mut buf: Vec<u8> = Vec::new();
        let il = match &self.id {
            Some(_) => true,
            None => false,
        };
        buf.push(header_byte(flags.mb, flags.me, sr, il, tnf_bits(self.tnf)));
        buf.push(self.record_type.len() as u8);
        if sr {
            buf.push(self.payload.len() as u8);
        } else {
            let n = self.payload.len() as u64;
            buf.push((n >> 24) as u8);
            buf.push((n >> 16) as u8);
            buf.push((n >> 8) as u8);
            buf.push(n as u8);
        }
        match &self.id {
            Some(id) => {
                buf.push(id.len() as u8);
                push_bytes(&mut buf, self.record_type.as_slice());
                push_bytes(&mut buf, id.as_slice());
            },
            None => {
                push_bytes(&mut buf, self.record_type.as_slice());
            },
        }
        push_bytes(&mut buf, self.payload.as_slice());
        proof {
            assert(buf@ =~= spec_record_bytes(self@, flags.mb, flags.me));
        }
        Ok(buf)
    }
}

/// Step-by-step configuration for a record: a type name format and a payload
/// are required; everything else is optional. Nothing half-built escapes: the
/// record is produced, or refused, at `build` alone.
pub struct NdefRecordBuilder {
    pub tnf: Option<TNF>,
    pub record_type: Vec<u8>,
    pub id: Option<Vec<u8>>,
    pub payload: Option<Vec<u8>>,
}

impl NdefRecord {
    /// Starts configuring a record.
    pub fn builder() -> (b: NdefRecordBuilder)
        ensures
            b.tnf is None,
            b.record_type@ == Seq::<u8>::empty(),
            b.id is None,
            b.payload is None,
    {
        NdefRecordBuilder { tnf: None, record_type: Vec::new(), id: None, payload: None }
    }
}

impl NdefRecordBuilder {
    /// Chooses the record's type name format.
    pub fn tnf(self, tnf: TNF) -> (b: Self)
        ensures
            b.tnf == Some(tnf),
            b.record_type == self.record_type,
            b.id == self.id,
            b.payload == self.payload,
    {
        NdefRecordBuilder { tnf: Some(tnf), ..self }
    }

    /// Gives the record an id.
    pub fn id(self, id: Vec<u8>) -> (b: Self)
        ensures
            b.tnf == self.tnf,
            b.record_type == self.record_type,
            b.id == Some(id),
            b.payload == self.payload,
    {
        NdefRecordBuilder { id: Some(id), ..self }
    }

    /// Takes the record's type bytes and payload bytes from a payload
    /// implementation; the codec itself never interprets either.
    pub fn payload<P: crate::payload::Payload>(self, payload: &P) -> (b: Self)
        ensures
            b.tnf == self.tnf,
            b.record_type@ == payload.spec_record_type(),
            b.id == self.id,
            b.payload matches Some(pl) && pl@ == payload.spec_bytes(),
    {
        NdefRecordBuilder {
            record_type: payload.record_type(),
            payload: Some(payload.to_bytes()),
            ..self
        }
    }

    /// Finalizes the record; fails unless a type name format and a payload
    /// were both supplied.
    pub fn build(self) -> (res: Result<NdefRecord, BuildError>)
        ensures
            res is Ok <==> (self.tnf is Some && self.payload is Some),
            res matches Ok(rec) ==> (self.tnf matches Some(t) && self.payload matches Some(pl)
                && rec@ == (RecordV {
                tnf: t,
                record_type: self.record_type@,
                id: spec_opt_bytes(self.id),
                payload: pl@,
            })),
            res matches Err(e) ==> (e == BuildError::MissingTnf <==> self.tnf is None) && (e
                == BuildError::MissingPayload <==> self.tnf is Some),
    {
        let tnf = match self.tnf {
            Some(t) => t,
            None => {
                return Err(BuildError::MissingTnf);
            },
        };
        let payload = match self.payload {
            Some(pl) => pl,
            None => {
                return Err(BuildError::MissingPayload);
            },
        };
        Ok(NdefRecord { tnf, record_type: self.record_type, id: self.id, payload })
    }
}

/// Composes the header byte of a record.
fn header_byte(mb: bool, me: bool, sr: bool, il: bool, tnf: u8) -> (h: u8)
    ensures
        h == spec_header_byte(mb, me, sr, il, tnf),
{
    (if mb {
        0x80u8
    } else {
        0u8
    }) | (if me {
        0x40u8
    } else {
        0u8
    }) | (if sr {
        0x10u8
    } else {
        0u8
    }) | (if il {
        0x08u8
    } else {
        0u8
    }) | tnf
}

} // verus!
