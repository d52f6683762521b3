use vstd::prelude::*;
use crate::error::{DecodingError, EncodingError, FramingError, MessageDecodeError};
use crate::record::{
    lemma_parse_record_of_encoding, spec_encodable, spec_encode_error, spec_parse_record,
    spec_record_bytes, NdefRecord, RecordFlags, RecordV,
};

verus! {

/// An ordered sequence of records; the order is wire order.
#[derive(Debug)]
pub struct NdefMessage {
    records: Vec<NdefRecord>,
}

impl View for NdefMessage {
    type V = Seq<RecordV>;

    closed spec fn view(&self) -> Seq<RecordV> {
        self.records@.map_values(|r: NdefRecord| r@)
    }
}

/// The message flags of the record at index `i` of `n`: message-begin on the
/// first record, message-end on the last, both on the sole record of a
/// one-record message.
pub open spec fn spec_message_flags(n: int, i: int) -> RecordFlags {
    RecordFlags { mb: i == 0, me: i == n - 1 }
}

/// The concatenated encodings of the first `k` records of `rs`, each carrying
/// the flags its position assigns.
pub open spec fn spec_message_prefix(rs: Seq<RecordV>, k: int) -> Seq<u8>
    decreases k,
{
    if k <= 0 {
        Seq::empty()
    } else {
        spec_message_prefix(rs, k - 1) + spec_record_bytes(
            rs[k - 1],
            spec_message_flags(rs.len() as int, k - 1).mb,
            spec_message_flags(rs.len() as int, k - 1).me,
        )
    }
}

/// The full wire form of a message: record encodings concatenated in order,
/// with no separator and no record-count prefix.
pub open spec fn spec_message_bytes(rs: Seq<RecordV>) -> Seq<u8> {
    spec_message_prefix(rs, rs.len() as int)
}

/// Whether every record's length fields can represent its data.
pub open spec fn spec_message_encodable(rs: Seq<RecordV>) -> bool {
    forall|i: int| 0 <= i < rs.len() ==> spec_encodable(#[trigger] rs[i])
}

/// Parses records from `pos` to the end of the buffer: a record whose MB
/// flag is set on other than the first record fails, and the record that
/// consumes the final byte must carry ME. Nothing requires the first record
/// to carry MB: decoding deliberately keeps that leniency.
pub open spec fn spec_parse_message(b: Seq<u8>, pos: int, first: bool) -> Result<
    Seq<RecordV>,
    MessageDecodeError,
>
    decreases b.len() - pos,
{
    match spec_parse_record(b, pos) {
        None => Err(MessageDecodeError::Decoding(DecodingError::Truncated)),
        Some(p) => {
            if p.mb && !first {
                Err(MessageDecodeError::Framing(FramingError::MbOnNonFirstRecord))
            } else if p.end >= b.len() {
                if p.me {
                    Ok(seq![p.rec])
                } else {
                    Err(MessageDecodeError::Framing(FramingError::MissingMe))
                }
            } else {
                match spec_parse_message(b, p.end, false) {
                    Ok(rest) => Ok(seq![p.rec] + rest),
                    Err(e) => Err(e),
                }
            }
        },
    }
}

/// What decoding a whole buffer returns.
pub open spec fn spec_decode(b: Seq<u8>) -> Result<Seq<RecordV>, MessageDecodeError> {
    spec_parse_message(b, 0, true)
}

impl NdefMessage {
    /// A message with no records yet.
    pub fn new() -> (m: Self)
        ensures
            m@ =~= Seq::<RecordV>::empty(),
    {
        NdefMessage { records: Vec::new() }
    }

    /// A message holding the given records, in order.
    pub fn from_records(records: Vec<NdefRecord>) -> (m: Self)
        ensures
            m@ == records@.map_values(|r: NdefRecord| r@),
    {
        NdefMessage { records }
    }

    /// Appends one record at the end of the message.
    pub fn add_record(&mut self, record: NdefRecord)
        ensures
            final(self)@ == old(self)@.push(record@),
    {
        self.records.push(record);
        proof {
            assert(self.records@.map_values(|r: NdefRecord| r@) =~= old(
                self,
            ).records@.map_values(|r: NdefRecord| r@).push(record@));
        }
    }

    /// The records of the message, in wire order.
    pub fn records(&self) -> (r: &Vec<NdefRecord>)
        ensures
            r@.map_values(|rec: NdefRecord| rec@) == self@,
    {
        &self.records
    }

    /// Encodes the whole message: each record's buffer in sequence order,
    /// flags assigned from its position. Fails only by propagation from a
    /// record whose own sizes cannot be represented, with the first such
    /// record's error.
    pub fn to_buffer(&self) -> (res: Result<Vec<u8>, EncodingError>)
        ensures
            res is Ok <==> spec_message_encodable(self@),
            res matches Ok(buf) ==> buf@ == spec_message_bytes(self@),
            res matches Err(e) ==> (exists|i: int|
                0 <= i < self@.len() && !spec_encodable(#[trigger] self@[i]) && (forall|j: int|
                    0 <= j < i ==> spec_encodable(#[trigger] self@[j])) && e == spec_encode_error(
                    self@[i],
                )),
    {
        let mut buffer: Vec<u8> = Vec::new();
        let n = self.records.len();
        let mut index: usize = 0;
        while index < n
            invariant
                n == self.records@.len(),
                index <= n,
                self@ == self.records@.map_values(|r: NdefRecord| r@),
                self@.len() == n,
                forall|j: int| 0 <= j < index ==> spec_encodable(#[trigger] self@[j]),
                buffer@ == spec_message_prefix(self@, index as int),
            decreases n - index,
        {
            let flags = RecordFlags { mb: index == 0, me: index == n - 1 };
            match self.records[index].to_buffer(flags) {
                Ok(mut rec_buf) => {
                    proof {
                        assert(self.records@[index as int]@ == self@[index as int]);
                    }
                    buffer.append(&mut rec_buf);
                    proof {
                        assert(spec_message_prefix(self@, index + 1) == spec_message_prefix(
                            self@,
                            index as int,
                        ) + spec_record_bytes(
                            self@[index as int],
                            spec_message_flags(n as int, index as int).mb,
                            spec_message_flags(n as int, index as int).me,
                        ));
                    }
                },
                Err(e) => {
                    proof {
                        assert(self.records@[index as int]@ == self@[index as int]);
                        assert(!spec_encodable(self@[index as int]) && e == spec_encode_error(
                            self@[index as int],
                        ));
                    }
                    return Err(e);
                },
            }
            index = index + 1;
        }
        Ok(buffer)
    }

    /// Decodes a buffer into a message: records are parsed one after the
    /// other until the cursor has consumed the whole input. A record with MB
    /// set on other than the first position, or a final record without ME,
    /// fails the whole decode; a first record without MB is accepted.
    pub fn decode(data: &[u8]) -> (res: Result<NdefMessage, MessageDecodeError>)
        ensures
            res is Ok <==> spec_decode(data@) is Ok,
            res matches Ok(m) ==> spec_decode(data@) matches Ok(rs) && m@ == rs,
            res matches Err(e) ==> spec_decode(data@) matches Err(e2) && e == e2,
    {
        let total = data.len();
        let mut records: Vec<NdefRecord> = Vec::new();
        let mut pos: usize = 0;
        loop
            invariant
                pos <= total,
                total == data@.len(),
                pos == 0 <==> records@.len() == 0,
                (match spec_parse_message(data@, pos as int, records@.len() == 0) {
                    Ok(rest) => spec_decode(data@) == Ok::<Seq<RecordV>, MessageDecodeError>(
                        records@.map_values(|r: NdefRecord| r@) + rest,
                    ),
                    Err(e) => spec_decode(data@) == Err::<Seq<RecordV>, MessageDecodeError>(e),
                }),
            decreases total - pos,
        {
            let ghost first = records@.len() == 0;
            let ghost done = records@.map_values(|r: NdefRecord| r@);
            match NdefRecord::decode(data, pos) {
                Err(_) => {
                    return Err(MessageDecodeError::Decoding(DecodingError::Truncated));
                },
                Ok((record, flags, end)) => {
                    if flags.mb && records.len() > 0 {
                        return Err(MessageDecodeError::Framing(FramingError::MbOnNonFirstRecord));
                    }
                    records.push(record);
                    pos = end;
                    proof {
                        assert(records@.map_values(|r: NdefRecord| r@) =~= done.push(record@));
                        assert(done.push(record@) =~= done + seq![record@]);
                    }
                    if pos >= total {
                        if !flags.me {
                            return Err(MessageDecodeError::Framing(FramingError::MissingMe));
                        }
                        proof {
                            assert(done + seq![record@] =~= done + (seq![record@]
                                + Seq::<RecordV>::empty()));
                            assert(seq![record@] + Seq::<RecordV>::empty() =~= seq![record@]);
                        }
                        return Ok(NdefMessage { records });
                    }
                    proof {
                        let step = spec_parse_message(data@, pos as int, false);
                        match step {
                            Ok(rest) => {
                                assert(done + (seq![record@] + rest) =~= (done + seq![record@])
                                    + rest);
                            },
                            Err(_) => {},
                        }
                    }
                },
            }
        }
    }
}

/// The concatenated encodings of the records of `rs` from index `k` on.
pub open spec fn spec_message_rest(rs: Seq<RecordV>, k: int) -> Seq<u8>
    decreases rs.len() - k,
{
    if k < 0 || k >= rs.len() {
        Seq::empty()
    } else {
        spec_record_bytes(
            rs[k],
            spec_message_flags(rs.len() as int, k).mb,
            spec_message_flags(rs.len() as int, k).me,
        ) + spec_message_rest(rs, k + 1)
    }
}

/// A message's bytes split at any record boundary into the encodings of the
/// records before it and the encodings of the records from it on.
pub proof fn lemma_message_split(rs: Seq<RecordV>, k: int)
    requires
        0 <= k <= rs.len(),
    ensures
        spec_message_bytes(rs) == spec_message_prefix(rs, k) + spec_message_rest(rs, k),
    decreases rs.len() - k,
{
    if k == rs.len() {
        assert(spec_message_rest(rs, k) == Seq::<u8>::empty());
        assert(spec_message_prefix(rs, k) + Seq::<u8>::empty() =~= spec_message_prefix(rs, k));
    } else {
        let fl = spec_message_flags(rs.len() as int, k);
        let enc = spec_record_bytes(rs[k], fl.mb, fl.me);
        lemma_message_split(rs, k + 1);
        assert(spec_message_prefix(rs, k + 1) == spec_message_prefix(rs, k) + enc);
        assert(spec_message_rest(rs, k) == enc + spec_message_rest(rs, k + 1));
        assert((spec_message_prefix(rs, k) + enc) + spec_message_rest(rs, k + 1)
            =~= spec_message_prefix(rs, k) + (enc + spec_message_rest(rs, k + 1)));
    }
}

/// Parsing an encoded message from the start of the record at index `k`
/// yields exactly the records from `k` on.
pub proof fn lemma_parse_message_suffix(rs: Seq<RecordV>, k: int)
    requires
        spec_message_encodable(rs),
        0 <= k < rs.len(),
    ensures
        spec_parse_message(
            spec_message_bytes(rs),
            spec_message_prefix(rs, k).len() as int,
            k == 0,
        ) == Ok::<Seq<RecordV>, MessageDecodeError>(rs.skip(k)),
    decreases rs.len() - k,
{
    let b = spec_message_bytes(rs);
    let pos = spec_message_prefix(rs, k).len() as int;
    let fl = spec_message_flags(rs.len() as int, k);
    let enc = spec_record_bytes(rs[k], fl.mb, fl.me);
    lemma_message_split(rs, k);
    assert(spec_message_rest(rs, k) == enc + spec_message_rest(rs, k + 1));
    assert(b.len() == pos + enc.len() + spec_message_rest(rs, k + 1).len());
    assert forall|j: int| 0 <= j < enc.len() implies b[pos + j] == enc[j] by {
        assert(b[pos + j] == (spec_message_prefix(rs, k) + spec_message_rest(rs, k))[pos + j]);
        assert(spec_message_rest(rs, k)[j] == enc[j]);
    }
    assert(b.subrange(pos, pos + enc.len()) =~= enc);
    lemma_parse_record_of_encoding(b, pos, rs[k], fl.mb, fl.me);
    if k == rs.len() - 1 {
        assert(spec_message_rest(rs, k + 1) == Seq::<u8>::empty());
        assert(pos + enc.len() == b.len());
        assert(rs.skip(k) =~= seq![rs[k]]);
    } else {
        assert(spec_message_rest(rs, k + 1) == spec_record_bytes(
            rs[k + 1],
            spec_message_flags(rs.len() as int, k + 1).mb,
            spec_message_flags(rs.len() as int, k + 1).me,
        ) + spec_message_rest(rs, k + 2));
        assert(spec_record_bytes(
            rs[k + 1],
            spec_message_flags(rs.len() as int, k + 1).mb,
            spec_message_flags(rs.len() as int, k + 1).me,
        ).len() >= 3);
        assert(pos + enc.len() < b.len());
        assert(spec_message_prefix(rs, k + 1) == spec_message_prefix(rs, k) + enc);
        lemma_parse_message_suffix(rs, k + 1);
        assert(seq![rs[k]] + rs.skip(k + 1) =~= rs.skip(k));
    }
}

/// Round trip: decoding the wire form of any non-empty encodable message
/// yields exactly the records it was built from, in order.
pub proof fn lemma_round_trip(rs: Seq<RecordV>)
    requires
        rs.len() >= 1,
        spec_message_encodable(rs),
    ensures
        spec_decode(spec_message_bytes(rs)) == Ok::<Seq<RecordV>, MessageDecodeError>(rs),
{
    lemma_parse_message_suffix(rs, 0);
    assert(spec_message_prefix(rs, 0).len() == 0);
    assert(rs.skip(0) =~= rs);
}

/// Single-record framing: a one-record message encodes as that record with
/// both MB and ME set, and a buffer holding exactly that encoding decodes
/// back to the single record.
pub proof fn lemma_single_record_framing(r: RecordV)
    requires
        spec_encodable(r),
    ensures
        spec_message_bytes(seq![r]) == spec_record_bytes(r, true, true),
        spec_decode(spec_record_bytes(r, true, true)) == Ok::<Seq<RecordV>, MessageDecodeError>(
            seq![r],
        ),
{
    let rs = seq![r];
    assert(rs[0] == r);
    assert(spec_message_flags(1, 0) == RecordFlags { mb: true, me: true });
    assert(spec_message_prefix(rs, 1) == spec_message_prefix(rs, 0) + spec_record_bytes(
        r,
        true,
        true,
    ));
    assert(Seq::<u8>::empty() + spec_record_bytes(r, true, true) =~= spec_record_bytes(
        r,
        true,
        true,
    ));
    assert(spec_message_encodable(rs));
    lemma_round_trip(rs);
}

/// Multi-record framing: in the wire form of a message, the record at index
/// `i` carries MB exactly when it is the first record and ME exactly when it
/// is the last; every interior record carries neither.
pub proof fn lemma_multi_record_framing(rs: Seq<RecordV>, i: int)
    requires
        spec_message_encodable(rs),
        0 <= i < rs.len(),
    ensures
        ({
            let b = spec_message_bytes(rs);
            let pos = spec_message_prefix(rs, i).len() as int;
            &&& pos < b.len()
            &&& (b[pos] & 0x80 != 0 <==> i == 0)
            &&& (b[pos] & 0x40 != 0 <==> i == rs.len() - 1)
        }),
{
    let b = spec_message_bytes(rs);
    let pos = spec_message_prefix(rs, i).len() as int;
    let fl = spec_message_flags(rs.len() as int, i);
    let enc = spec_record_bytes(rs[i], fl.mb, fl.me);
    lemma_message_split(rs, i);
    assert(spec_message_rest(rs, i) == enc + spec_message_rest(rs, i + 1));
    assert(enc.len() >= 3);
    assert(pos < b.len());
    assert(b[pos] == (spec_message_prefix(rs, i) + spec_message_rest(rs, i))[pos]);
    assert(spec_message_rest(rs, i)[0] == enc[0]);
    assert(enc[0] == crate::record::spec_header_byte(
        fl.mb,
        fl.me,
        crate::record::spec_sr(rs[i]),
        crate::record::spec_il(rs[i]),
        crate::tnf::spec_tnf_bits(rs[i].tnf),
    ));
    assert(crate::tnf::spec_tnf_bits(rs[i].tnf) < 8);
    crate::record::lemma_header_bits(
        fl.mb,
        fl.me,
        crate::record::spec_sr(rs[i]),
        crate::record::spec_il(rs[i]),
        crate::tnf::spec_tnf_bits(rs[i].tnf),
    );
}

/// Decoding any buffer whose sole record carries ME succeeds, whatever else
/// its header says, and yields exactly that record.
pub proof fn lemma_decode_single_record(b: Seq<u8>)
    requires
        spec_parse_record(b, 0) matches Some(p) && p.me && p.end >= b.len(),
    ensures
        spec_decode(b) == Ok::<Seq<RecordV>, MessageDecodeError>(
            seq![spec_parse_record(b, 0)->0.rec],
        ),
{
}

/// Decoding rejects a record that carries MB anywhere but first: a buffer
/// whose second record sets MB fails with exactly the framing error for it.
pub proof fn lemma_decode_rejects_early_mb(b: Seq<u8>)
    requires
        spec_parse_record(b, 0) matches Some(p1) && p1.end < b.len() && (spec_parse_record(
            b,
            p1.end,
        ) matches Some(p2) && p2.mb),
    ensures
        spec_decode(b) == Err::<Seq<RecordV>, MessageDecodeError>(
            MessageDecodeError::Framing(FramingError::MbOnNonFirstRecord),
        ),
{
    let p1 = spec_parse_record(b, 0)->0;
    assert(spec_parse_message(b, p1.end, false) == Err::<Seq<RecordV>, MessageDecodeError>(
        MessageDecodeError::Framing(FramingError::MbOnNonFirstRecord),
    ));
}

/// Decoding rejects a message whose terminating record lacks ME: once the
/// record that consumes the final byte parses without ME, the whole decode
/// fails with exactly the framing error for it.
pub proof fn lemma_decode_rejects_missing_me(b: Seq<u8>, pos: int, first: bool)
    requires
        spec_parse_record(b, pos) matches Some(p) && !p.me && p.end >= b.len() && !(p.mb
            && !first),
    ensures
        spec_parse_message(b, pos, first) == Err::<Seq<RecordV>, MessageDecodeError>(
            MessageDecodeError::Framing(FramingError::MissingMe),
        ),
{
}

impl Default for NdefMessage {
    /// The default message holds no records.
    fn default() -> (m: Self)
        ensures
            m@ =~= Seq::<RecordV>::empty(),
    {
        NdefMessage { records: Vec::new() }
    }
}

} // verus!
